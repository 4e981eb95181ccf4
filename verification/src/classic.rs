//! The single-screen calculator: takes the typed income as the annual
//! income, and handles its own key events.

use vstd::prelude::*;
use vstd::utf8::encode_utf8;
use crate::constants::{
    BRACKET_1_LIMIT, BRACKET_2_LIMIT, BRACKET_3_LIMIT, BRACKET_4_LIMIT, MAX_INPUT_LENGTH, RATE_1,
    RATE_2, RATE_3, RATE_4, RATE_5,
};
use crate::digits::{
    decimal_string, decimal, group_thousands, is_digit, parse_u64, parse_u64_spec,
    thousands_string, ParseError,
};
use crate::events::{is_quit, pressed_key, Event, KeyCode, KeyEventKind};
use crate::tax::{bracket_info, bracket_is_first_covering_entry, spec_tax_bracket};
use crate::cli::{input_well_formed, lemma_digits_byte_len};
use crate::constants::{is_first_covering, spec_tax_brackets};
use crate::text::{byte_len, pop_char, push_char};

verus! {

/// The bracket of an income, as (rate in percent, description): the
/// brackets of the table, with its own wording for no income.
pub open spec fn spec_classic_bracket(income: u64) -> (nat, Seq<char>) {
    if income == 0 {
        (0, "Tidak ada penghasilan kena pajak"@)
    } else {
        spec_tax_bracket(income)
    }
}

/// The state of the single-screen calculator.
pub struct App {
    /// The text typed so far.
    pub input: String,
    pub monthly_income: u64,
    pub annual_income: u64,
    /// The annual tax due, in hundredths of a rupiah.
    pub annual_tax_cents: u128,
    /// A sentence on the bracket of the income, or an error message.
    pub tax_bracket_info: String,
}

/// `post` is `pre` after a calculation: the typed number is both the
/// monthly and the annual income; on a text that is not a number the figures
/// are zero and the message says why.
pub open spec fn calculated(pre: App, post: App) -> bool {
    &&& post.input == pre.input
    &&& match parse_u64_spec(pre.input@) {
        Ok(m) => {
            &&& post.monthly_income == m
            &&& post.annual_income == m
            &&& post.annual_tax_cents == m * spec_classic_bracket(post.annual_income).0
            &&& post.tax_bracket_info@ == bracket_info(
                spec_classic_bracket(post.annual_income).0,
                spec_classic_bracket(post.annual_income).1,
            )
        },
        Err(e) => {
            &&& post.monthly_income == 0
            &&& post.annual_income == 0
            &&& post.annual_tax_cents == 0
            &&& post.tax_bracket_info@ == if e == ParseError::PosOverflow {
                "Error: Error: Nilai input terlalu besar."@
            } else {
                "Error: format angka tidak valid."@
            }
        },
    }
}

/// `post` is `pre` with only the input changed, to `input`.
pub open spec fn only_input_set(pre: App, post: App, input: Seq<char>) -> bool {
    &&& post.input@ == input
    &&& post.monthly_income == pre.monthly_income
    &&& post.annual_income == pre.annual_income
    &&& post.annual_tax_cents == pre.annual_tax_cents
    &&& post.tax_bracket_info == pre.tax_bracket_info
}

/// `post` is `pre` after the event `e`: Enter calculates, Backspace removes
/// the last character, a digit is appended while the input holds fewer than
/// `MAX_INPUT_LENGTH` bytes, and anything else changes nothing.
pub open spec fn event_handled(pre: App, post: App, e: Event) -> bool {
    match pressed_key(e) {
        Some(KeyCode::Enter) => calculated(pre, post),
        Some(KeyCode::Backspace) => only_input_set(
            pre,
            post,
            if pre.input@.len() > 0 { pre.input@.drop_last() } else { pre.input@ },
        ),
        Some(KeyCode::Char(c)) => if is_digit(c) && encode_utf8(pre.input@).len() < MAX_INPUT_LENGTH {
            only_input_set(pre, post, pre.input@.push(c))
        } else {
            post == pre
        },
        _ => post == pre,
    }
}

/// A calculation on a positive income `m` taxes it at the rate of the
/// first bracket of the table whose limit is at least `m`, and names that
/// bracket's description; no income is not taxed.
pub proof fn classic_uses_first_covering_bracket(pre: App, post: App, m: nat)
    requires
        calculated(pre, post),
        parse_u64_spec(pre.input@) == Ok::<nat, ParseError>(m),
    ensures
        post.monthly_income == m,
        post.annual_income == m,
        m == 0 ==> post.annual_tax_cents == 0,
        m > 0 ==> exists|i: int|
            is_first_covering(i, post.annual_income) && post.annual_tax_cents == m
                * #[trigger] spec_tax_brackets()[i].1 && post.tax_bracket_info@
                == "Penghasilan termasuk "@ + spec_tax_brackets()[i].2 + " dengan pajak "@
                + decimal(spec_tax_brackets()[i].1 as nat) + "%."@,
{
    if m > 0 {
        bracket_is_first_covering_entry(post.annual_income);
        let i = choose|i: int|
            is_first_covering(i, post.annual_income) && #[trigger] spec_tax_brackets()[i].1 as nat
                == spec_tax_bracket(post.annual_income).0 && spec_tax_brackets()[i].2
                == spec_tax_bracket(post.annual_income).1;
        assert(post.annual_tax_cents == m * spec_tax_brackets()[i].1);
    }
}

/// A press of a character key that is not an ASCII digit changes nothing
/// but, for `q`, stops the program.
pub proof fn classic_non_digit_keys_change_nothing(pre: App, post: App, e: Event, c: char)
    requires
        event_handled(pre, post, e),
        pressed_key(e) == Some(KeyCode::Char(c)),
        !('0' <= c && c <= '9'),
    ensures
        post == pre,
{
}

impl App {
    /// A calculator with no input, no income and no message.
    pub fn new() -> (a: App)
        ensures
            a.input@ == Seq::<char>::empty(),
            a.monthly_income == 0,
            a.annual_income == 0,
            a.annual_tax_cents == 0,
            a.tax_bracket_info@ == Seq::<char>::empty(),
    {
        App {
            input: String::new(),
            monthly_income: 0,
            annual_income: 0,
            annual_tax_cents: 0,
            tax_bracket_info: String::new(),
        }
    }

    /// Reads the income from the input and computes its bracket and the tax
    /// due; on an input that is not a number, clears the figures and sets an
    /// error message.
    pub fn calculate_tax(&mut self)
        ensures
            calculated(*old(self), *final(self)),
    {
        match parse_u64(self.input.as_str()) {
            Ok(monthly_income) => {
                self.monthly_income = monthly_income;
                self.annual_income = monthly_income;
                let income = self.annual_income;
                let rate: u64;
                let bracket_desc: &str;
                if income == 0 {
                    rate = 0;
                    bracket_desc = "Tidak ada penghasilan kena pajak";
                } else if income <= BRACKET_1_LIMIT {
                    rate = RATE_1;
                    bracket_desc = "Golongan 1 (0 - 50 juta rupiah)";
                } else if income <= BRACKET_2_LIMIT {
                    rate = RATE_2;
                    bracket_desc = "Golongan 2 (50 - 250 juta rupiah)";
                } else if income <= BRACKET_3_LIMIT {
                    rate = RATE_3;
                    bracket_desc = "Golongan 3 (250 - 500 juta rupiah)";
                } else if income <= BRACKET_4_LIMIT {
                    rate = RATE_4;
                    bracket_desc = "Golongan Gajhi Nyuyok (500 juta - 5 miliar rupiah)";
                } else {
                    rate = RATE_5;
                    bracket_desc = "Golongan Sultan (> 5 miliar rupiah)";
                }
                assert((income as u128) * (rate as u128) <= u128::MAX) by (nonlinear_arith)
                    requires
                        rate <= 35,
                ;
                self.annual_tax_cents = (income as u128) * (rate as u128);
                let rate_text = decimal_string(rate);
                let mut info = String::from_str("Penghasilan termasuk ");
                info.append(bracket_desc);
                info.append(" dengan pajak ");
                info.append(rate_text.as_str());
                info.append("%.");
                self.tax_bracket_info = info;
            },
            Err(e) => {
                self.annual_income = 0;
                self.monthly_income = 0;
                self.annual_tax_cents = 0;
                self.tax_bracket_info = match e {
                    ParseError::PosOverflow => String::from_str(
                        "Error: Error: Nilai input terlalu besar.",
                    ),
                    _ => String::from_str("Error: format angka tidak valid."),
                };
            },
        }
    }

    /// Applies a terminal event. Returns whether the program goes on:
    /// `false` on a press of `q` or Escape.
    pub fn handle_event(&mut self, event: &Event) -> (keep_running: bool)
        ensures
            keep_running == !is_quit(*event),
            event_handled(*old(self), *final(self), *event),
            input_well_formed(old(self).input@) ==> input_well_formed(final(self).input@),
    {
        let key = match event {
            Event::Key(key) => key,
            Event::Other => {
                return true;
            },
        };
        match key.kind {
            KeyEventKind::Press => {},
            _ => {
                return true;
            },
        }
        let ghost pre = *self;
        let r = match key.code {
            KeyCode::Char('q') | KeyCode::Esc => false,
            KeyCode::Enter => {
                self.calculate_tax();
                true
            },
            KeyCode::Backspace => {
                let _ = pop_char(&mut self.input);
                true
            },
            KeyCode::Char(c) => {
                if '0' <= c && c <= '9' {
                    if byte_len(&self.input) < MAX_INPUT_LENGTH {
                        push_char(&mut self.input, c);
                    }
                }
                true
            },
            KeyCode::Other => true,
        };
        proof {
            if input_well_formed(pre.input@) {
                lemma_digits_byte_len(pre.input@);
                let s = self.input@;
                if s.len() > 0 && s != pre.input@ {
                    assert forall|i: int| 0 <= i < s.len() implies is_digit(#[trigger] s[i]) by {
                        if i < pre.input@.len() {
                            assert(s[i] == pre.input@[i]);
                        }
                    }
                }
            }
        }
        r
    }

    /// Renders `amount` in decimal with a `'.'` between every group of three
    /// digits, counted from the right.
    pub fn format_income_thousand_separator(&self, amount: u64) -> (r: String)
        ensures
            r@ == group_thousands(decimal(amount as nat)),
    {
        thousands_string(amount)
    }
}

} // verus!
