//! The input handling of the terminal front end, and the parts of the tax
//! figure that it shows.

use vstd::prelude::*;
use vstd::utf8::{encode_utf8, is_ascii_chars, is_ascii_chars_encode_utf8};
use crate::constants::MAX_INPUT_LENGTH;
use crate::digits::{
    all_digits, decimal, decimal_string, digit_char, digit_value, digits_value, is_digit, lemma_digits_value_bound,
    lemma_pow10_mono, lemma_scan_ok_value, pow10, scan_u64,
};
use crate::events::{pressed_key, is_quit, Event, KeyCode, KeyEventKind};
use crate::tax::{calculable, calculated, App};
use crate::text::{byte_len, pop_char, push_char};

verus! {

/// Height of the title area, in rows.
pub const TITLE_HEIGHT: u16 = 3;
/// Height of the input area, in rows.
pub const INPUT_HEIGHT: u16 = 4;
/// Message shown when the input is full.
pub const INPUT_ERROR_MSG: &'static str = "Gaji anda diluar nurul";

/// Whether `s` is what the keyboard can type: ASCII digits only, at most
/// `MAX_INPUT_LENGTH` of them.
pub open spec fn input_well_formed(s: Seq<char>) -> bool {
    all_digits(s) && s.len() <= MAX_INPUT_LENGTH
}

/// The message shown when a digit is typed into a full input.
pub open spec fn input_full_message() -> Seq<char> {
    INPUT_ERROR_MSG@ + ". "@ + decimal(MAX_INPUT_LENGTH as nat) + " digit"@
}

/// `post` is `pre` with only the input changed, to `input`.
pub open spec fn only_input_set(pre: App, post: App, input: Seq<char>) -> bool {
    &&& post.input@ == input
    &&& post.monthly_income == pre.monthly_income
    &&& post.annual_income == pre.annual_income
    &&& post.annual_tax_cents == pre.annual_tax_cents
    &&& post.tax_bracket_info == pre.tax_bracket_info
}

/// `post` is `pre` after the digit `c` was typed: appended to the input
/// when the input holds fewer than `MAX_INPUT_LENGTH` bytes, else the input
/// is kept and the message says that it is full.
pub open spec fn digit_typed(pre: App, post: App, c: char) -> bool {
    if encode_utf8(pre.input@).len() < MAX_INPUT_LENGTH {
        only_input_set(pre, post, pre.input@.push(c))
    } else {
        &&& post.input == pre.input
        &&& post.monthly_income == pre.monthly_income
        &&& post.annual_income == pre.annual_income
        &&& post.annual_tax_cents == pre.annual_tax_cents
        &&& post.tax_bracket_info@ == input_full_message()
    }
}

/// `post` is `pre` after the event `e`: Enter calculates, Backspace removes
/// the last character, a digit is typed, and anything else changes nothing.
pub open spec fn event_handled(pre: App, post: App, e: Event) -> bool {
    match pressed_key(e) {
        Some(KeyCode::Enter) => calculated(pre, post),
        Some(KeyCode::Backspace) => only_input_set(
            pre,
            post,
            if pre.input@.len() > 0 { pre.input@.drop_last() } else { pre.input@ },
        ),
        Some(KeyCode::Char(c)) => if is_digit(c) { digit_typed(pre, post, c) } else { post == pre },
        _ => post == pre,
    }
}

/// An input made only of ASCII digits takes one byte per character.
pub(crate) proof fn lemma_digits_byte_len(s: Seq<char>)
    requires
        all_digits(s),
    ensures
        encode_utf8(s).len() == s.len(),
{
    assert(is_ascii_chars(s));
    is_ascii_chars_encode_utf8(s);
}

/// Any input that the keyboard can type can be calculated: at most
/// `MAX_INPUT_LENGTH` digits denote a monthly income whose annual total fits
/// in a `u64`.
pub proof fn well_formed_input_is_calculable(s: Seq<char>)
    requires
        input_well_formed(s),
    ensures
        calculable(s),
{
    if s.len() > 0 {
        assert(is_digit(s[0]));
        if scan_u64(s) is Ok {
            lemma_scan_ok_value(s);
            lemma_digits_value_bound(s);
            lemma_pow10_mono(s.len(), 18);
            assert(pow10(18) == 1_000_000_000_000_000_000) by {
                reveal_with_fuel(pow10, 19);
            }
        }
    }
}

/// Backspace undoes a digit that was typed into an input with room for it.
pub proof fn backspace_undoes_digit(a: App, b: App, c: App, d: char, typed: Event, erased: Event)
    requires
        is_digit(d),
        pressed_key(typed) == Some(KeyCode::Char(d)),
        pressed_key(erased) == Some(KeyCode::Backspace),
        encode_utf8(a.input@).len() < MAX_INPUT_LENGTH,
        event_handled(a, b, typed),
        event_handled(b, c, erased),
    ensures
        c.input@ == a.input@,
        c.monthly_income == a.monthly_income,
        c.annual_income == a.annual_income,
        c.annual_tax_cents == a.annual_tax_cents,
        c.tax_bracket_info == a.tax_bracket_info,
{
    assert(a.input@.push(d).drop_last() =~= a.input@);
}

/// Splitting an amount into whole rupiah and two digits of hundredths loses
/// nothing: the parts give the amount back.
pub proof fn tax_breakdown_reconstructs(total_cents: u128)
    ensures
        (total_cents / 100) * 100 + digits_value(
            seq![
                digit_char(((total_cents % 100) / 10) as nat),
                digit_char((total_cents % 10) as nat),
            ],
        ) == total_cents,
{
    let hi = ((total_cents % 100) / 10) as nat;
    let lo = (total_cents % 10) as nat;
    let s = seq![digit_char(hi), digit_char(lo)];
    assert(digit_value(digit_char(hi)) == hi);
    assert(digit_value(digit_char(lo)) == lo);
    let t = s.drop_last();
    assert(t =~= seq![digit_char(hi)]);
    assert(t.drop_last() =~= Seq::<char>::empty());
    assert(t.last() == digit_char(hi));
    assert(digits_value(t) == digits_value(t.drop_last()) * 10 + digit_value(t.last()));
    assert(digits_value(t) == hi);
    assert(digits_value(s) == hi * 10 + lo);
    assert(total_cents % 100 == hi * 10 + lo);
}

/// Appends the digit `c` to the input, or reports that the input is full.
fn handle_digit_input(app: &mut App, c: char)
    requires
        is_digit(c),
    ensures
        digit_typed(*old(app), *final(app), c),
{
    if byte_len(&app.input) < MAX_INPUT_LENGTH {
        push_char(&mut app.input, c);
    } else {
        let mut msg = String::from_str(INPUT_ERROR_MSG);
        msg.append(". ");
        let n = decimal_string(MAX_INPUT_LENGTH as u64);
        msg.append(n.as_str());
        msg.append(" digit");
        app.tax_bracket_info = msg;
    }
}

/// Applies a terminal event to the calculator. Returns whether the program
/// goes on: `false` on a press of `q` or Escape.
pub fn handle_event(app: &mut App, event: &Event) -> (keep_running: bool)
    requires
        pressed_key(*event) == Some(KeyCode::Enter) ==> calculable(old(app).input@),
    ensures
        keep_running == !is_quit(*event),
        event_handled(*old(app), *final(app), *event),
        input_well_formed(old(app).input@) ==> input_well_formed(final(app).input@),
{
    let key = match event {
        Event::Key(key) => key,
        Event::Other => {
            return true;
        },
    };
    match key.kind {
        KeyEventKind::Press => {},
        _ => {
            return true;
        },
    }
    let ghost pre = *app;
    let r = match key.code {
        KeyCode::Char('q') | KeyCode::Esc => false,
        KeyCode::Enter => {
            app.calculate_tax();
            true
        },
        KeyCode::Backspace => {
            let _ = pop_char(&mut app.input);
            true
        },
        KeyCode::Char(c) => {
            if '0' <= c && c <= '9' {
                handle_digit_input(app, c);
            }
            true
        },
        KeyCode::Other => true,
    };
    proof {
        if input_well_formed(pre.input@) {
            lemma_digits_byte_len(pre.input@);
            let s = app.input@;
            if s.len() > 0 && s != pre.input@ {
                assert forall|i: int| 0 <= i < s.len() implies is_digit(#[trigger] s[i]) by {
                    if i < pre.input@.len() {
                        assert(s[i] == pre.input@[i]);
                    }
                }
            }
        }
    }
    r
}

/// The tax due, split into whole rupiah and the two digits of the
/// hundredths.
pub struct TaxBreakdown {
    pub integer: u64,
    pub decimal: String,
}

impl TaxBreakdown {
    /// Splits an amount given in hundredths of a rupiah.
    pub fn from(total_cents: u128) -> (r: TaxBreakdown)
        requires
            total_cents / 100 <= u64::MAX,
        ensures
            r.integer == total_cents / 100,
            r.decimal@ == seq![
                digit_char(((total_cents % 100) / 10) as nat),
                digit_char((total_cents % 10) as nat),
            ],
    {
        let integer = (total_cents / 100) as u64;
        let cents = (total_cents % 100) as u8;
        let mut decimal = String::new();
        push_char(&mut decimal, (cents / 10 + 48) as char);
        push_char(&mut decimal, (cents % 10 + 48) as char);
        TaxBreakdown { integer, decimal }
    }
}

} // verus!
