//! Decimal representation of integers: rendering, thousand grouping and
//! parsing.

use vstd::prelude::*;
use crate::text::push_char;

verus! {

/// The character of the decimal digit `d` (`0 <= d < 10`).
pub open spec fn digit_char(d: nat) -> char {
    (d + 48) as char
}

/// Whether `c` is one of the ASCII digits `'0'..='9'`.
pub open spec fn is_digit(c: char) -> bool {
    '0' <= c && c <= '9'
}

/// The value of the ASCII digit `c`.
pub open spec fn digit_value(c: char) -> nat {
    (c as nat - 48) as nat
}

/// Whether every character of `s` is an ASCII digit.
pub open spec fn all_digits(s: Seq<char>) -> bool {
    forall|i: int| 0 <= i < s.len() ==> is_digit(#[trigger] s[i])
}

/// The number that the digit string `s` denotes in base ten (0 for the
/// empty string).
pub open spec fn digits_value(s: Seq<char>) -> nat
    decreases s.len(),
{
    if s.len() == 0 {
        0
    } else {
        digits_value(s.drop_last()) * 10 + digit_value(s.last())
    }
}

/// The decimal representation of `n`, without sign or leading zeros.
pub open spec fn decimal(n: nat) -> Seq<char>
    decreases n,
{
    if n < 10 {
        seq![digit_char(n)]
    } else {
        decimal(n / 10).push(digit_char(n % 10))
    }
}

/// The decimal representation of the signed integer `i`: a `'-'` before the
/// digits of a negative number.
pub open spec fn signed_decimal(i: int) -> Seq<char> {
    if i < 0 {
        seq!['-'] + decimal((-i) as nat)
    } else {
        decimal(i as nat)
    }
}

/// The digit string `s` with a `'.'` inserted between every group of three
/// digits, counted from the right.
pub open spec fn group_thousands(s: Seq<char>) -> Seq<char>
    decreases s.len(),
{
    if s.len() <= 3 {
        s
    } else {
        group_thousands(s.take(s.len() - 3)) + seq!['.'] + s.skip(s.len() - 3)
    }
}

/// Why a text is not a number.
#[derive(Clone, Copy, Debug, PartialEq, Eq)]
pub enum ParseError {
    /// The text is empty.
    Empty,
    /// The text holds a character that is not a digit where a digit belongs.
    InvalidDigit,
    /// The number is larger than the type can hold.
    PosOverflow,
}

/// Reads the digits of `s` from left to right and stops at the first
/// problem: a character that is not a digit, or a value that no longer fits
/// in a `u64`.
pub open spec fn scan_u64(s: Seq<char>) -> Result<nat, ParseError>
    decreases s.len(),
{
    if s.len() == 0 {
        Ok(0)
    } else {
        match scan_u64(s.drop_last()) {
            Err(e) => Err(e),
            Ok(v) => if !is_digit(s.last()) {
                Err(ParseError::InvalidDigit)
            } else if v * 10 + digit_value(s.last()) > u64::MAX {
                Err(ParseError::PosOverflow)
            } else {
                Ok(v * 10 + digit_value(s.last()))
            },
        }
    }
}

/// The outcome of reading `s` as an unsigned 64-bit number: an optional
/// leading `'+'`, then at least one digit.
pub open spec fn parse_u64_spec(s: Seq<char>) -> Result<nat, ParseError> {
    if s.len() == 0 {
        Err(ParseError::Empty)
    } else {
        let digits = if s[0] == '+' { s.drop_first() } else { s };
        if digits.len() == 0 {
            Err(ParseError::InvalidDigit)
        } else {
            scan_u64(digits)
        }
    }
}

/// The value of `s` read as a signed 32-bit number (an optional `'+'` or
/// `'-'`, then at least one digit), or `None` when `s` is not one.
pub open spec fn parse_i32_spec(s: Seq<char>) -> Option<int> {
    if s.len() == 0 {
        None
    } else {
        let digits = if s[0] == '+' || s[0] == '-' { s.drop_first() } else { s };
        let v: int = if s[0] == '-' { -digits_value(digits) } else { digits_value(digits) as int };
        if digits.len() == 0 || !all_digits(digits) || v < i32::MIN || v > i32::MAX {
            None
        } else {
            Some(v)
        }
    }
}

/// Renders `n` in decimal.
pub fn decimal_string(n: u64) -> (s: String)
    ensures
        s@ == decimal(n as nat),
    decreases n,
{
    if n < 10 {
        let mut s = String::new();
        push_char(&mut s, ((n as u8) + 48) as char);
        s
    } else {
        let mut s = decimal_string(n / 10);
        push_char(&mut s, (((n % 10) as u8) + 48) as char);
        s
    }
}

/// Renders the signed number `i` in decimal.
pub fn signed_decimal_string(i: i32) -> (s: String)
    ensures
        s@ == signed_decimal(i as int),
{
    if i < 0 {
        let magnitude: u64 = (-(i as i64)) as u64;
        let digits = decimal_string(magnitude);
        let mut s = String::new();
        push_char(&mut s, '-');
        s.append(digits.as_str());
        s
    } else {
        decimal_string(i as u64)
    }
}

proof fn lemma_group_step(s: Seq<char>, k: int)
    requires
        1 <= k,
        k + 3 <= s.len(),
    ensures
        group_thousands(s.take(k + 3)) == group_thousands(s.take(k)) + seq!['.'] + s.subrange(
            k,
            k + 3,
        ),
{
    let t = s.take(k + 3);
    assert(t.take(t.len() - 3) =~= s.take(k));
    assert(t.skip(t.len() - 3) =~= s.subrange(k, k + 3));
}

/// Renders `n` in decimal with a `'.'` between every group of three digits,
/// counted from the right.
pub fn thousands_string(n: u64) -> (r: String)
    ensures
        r@ == group_thousands(decimal(n as nat)),
{
    let digits = decimal_string(n);
    let ds = digits.as_str();
    let len = ds.unicode_len();
    let ghost s = ds@;
    proof {
        lemma_decimal_digits(n as nat);
    }
    let first: usize = if len % 3 == 0 { 3 } else { len % 3 };
    let mut r = String::new();
    let mut i: usize = 0;
    while i < first
        invariant
            i <= first <= len,
            len == s.len(),
            s == ds@,
            r@ == s.take(i as int),
        decreases first - i,
    {
        push_char(&mut r, ds.get_char(i));
        assert(s.take(i + 1) =~= s.take(i as int).push(s[i as int]));
        i = i + 1;
    }
    assert(group_thousands(s.take(first as int)) == s.take(first as int));
    while i < len
        invariant
            1 <= first <= i <= len,
            (i - first) % 3 == 0,
            (len - first) % 3 == 0,
            len == s.len(),
            s == ds@,
            r@ == group_thousands(s.take(i as int)),
        decreases len - i,
    {
        proof {
            lemma_group_step(s, i as int);
        }
        push_char(&mut r, '.');
        push_char(&mut r, ds.get_char(i));
        push_char(&mut r, ds.get_char(i + 1));
        push_char(&mut r, ds.get_char(i + 2));
        assert(r@ =~= group_thousands(s.take(i as int)) + seq!['.'] + s.subrange(
            i as int,
            i + 3,
        ));
        i = i + 3;
    }
    assert(s.take(len as int) =~= s);
    r
}



/// An error met on a prefix of the digits is the error of the whole text.
proof fn lemma_scan_err_extends(s: Seq<char>, k: int)
    requires
        0 <= k <= s.len(),
        scan_u64(s.take(k)) is Err,
    ensures
        scan_u64(s) == scan_u64(s.take(k)),
    decreases s.len() - k,
{
    if k < s.len() {
        assert(s.take(k + 1).drop_last() =~= s.take(k));
        lemma_scan_err_extends(s, k + 1);
    } else {
        assert(s.take(k) =~= s);
    }
}

/// Ten to the power `n`.
pub open spec fn pow10(n: nat) -> nat
    decreases n,
{
    if n == 0 {
        1
    } else {
        10 * pow10((n - 1) as nat)
    }
}

/// A successful scan reads digits only, and its value is that of the
/// digits.
pub(crate) proof fn lemma_scan_ok_value(s: Seq<char>)
    requires
        scan_u64(s) is Ok,
    ensures
        all_digits(s),
        scan_u64(s) == Ok::<nat, ParseError>(digits_value(s)),
    decreases s.len(),
{
    if s.len() > 0 {
        lemma_scan_ok_value(s.drop_last());
        assert forall|i: int| 0 <= i < s.len() implies is_digit(#[trigger] s[i]) by {
            if i < s.len() - 1 {
                assert(s[i] == s.drop_last()[i]);
            }
        }
    }
}

/// Digits whose value fits in a `u64` scan without error.
proof fn lemma_scan_ok(s: Seq<char>)
    requires
        all_digits(s),
        digits_value(s) <= u64::MAX,
    ensures
        scan_u64(s) == Ok::<nat, ParseError>(digits_value(s)),
    decreases s.len(),
{
    if s.len() > 0 {
        assert(all_digits(s.drop_last())) by {
            assert forall|i: int| 0 <= i < s.drop_last().len() implies is_digit(
                #[trigger] s.drop_last()[i],
            ) by {
                assert(s.drop_last()[i] == s[i]);
            }
        }
        assert(is_digit(s[s.len() - 1]));
        lemma_scan_ok(s.drop_last());
    }
}

/// `n` digits denote a number below ten to the `n`.
pub(crate) proof fn lemma_digits_value_bound(s: Seq<char>)
    requires
        all_digits(s),
    ensures
        digits_value(s) < pow10(s.len()),
    decreases s.len(),
{
    if s.len() > 0 {
        assert(all_digits(s.drop_last())) by {
            assert forall|i: int| 0 <= i < s.drop_last().len() implies is_digit(
                #[trigger] s.drop_last()[i],
            ) by {
                assert(s.drop_last()[i] == s[i]);
            }
        }
        assert(is_digit(s[s.len() - 1]));
        lemma_digits_value_bound(s.drop_last());
    }
}

/// Ten to a power grows with the power.
pub(crate) proof fn lemma_pow10_mono(a: nat, b: nat)
    requires
        a <= b,
    ensures
        pow10(a) <= pow10(b),
    decreases b,
{
    if a < b {
        lemma_pow10_mono(a, (b - 1) as nat);
    }
}

/// The decimal representation of `n` is made of digits that denote `n`.
proof fn lemma_decimal_digits(n: nat)
    ensures
        all_digits(decimal(n)),
        digits_value(decimal(n)) == n,
        decimal(n).len() >= 1,
    decreases n,
{
    assert(digit_value(digit_char(n % 10)) == n % 10);
    if n >= 10 {
        lemma_decimal_digits(n / 10);
        let d = decimal(n);
        assert(d.drop_last() =~= decimal(n / 10));
        assert(d.last() == digit_char(n % 10));
        assert(digits_value(d) == digits_value(decimal(n / 10)) * 10 + n % 10);
        assert((n / 10) * 10 + n % 10 == n);
        assert(digits_value(d) == n);
        assert forall|i: int| 0 <= i < d.len() implies is_digit(#[trigger] d[i]) by {
            if i < d.len() - 1 {
                assert(d[i] == decimal(n / 10)[i]);
            }
        }
    } else {
        assert(decimal(n).drop_last() =~= Seq::<char>::empty());
        assert(digits_value(Seq::<char>::empty()) == 0);
        assert(decimal(n).last() == digit_char(n));
        assert(digits_value(decimal(n)) == digit_value(digit_char(n)));
    }
}

/// Reading back the decimal representation of a `u64` gives the number.
pub proof fn parse_reads_back_decimal(n: u64)
    ensures
        parse_u64_spec(decimal(n as nat)) == Ok::<nat, ParseError>(n as nat),
{
    lemma_decimal_digits(n as nat);
    let d = decimal(n as nat);
    assert(is_digit(d[0]));
    lemma_scan_ok(d);
}

/// Reading back the decimal representation of an `i32` gives the number.
pub proof fn parse_reads_back_signed_decimal(i: i32)
    ensures
        parse_i32_spec(signed_decimal(i as int)) == Some(i as int),
{
    let s = signed_decimal(i as int);
    if i < 0 {
        let d = decimal((-i) as nat);
        lemma_decimal_digits((-i) as nat);
        assert(s[0] == '-');
        assert(s.drop_first() =~= d);
    } else {
        lemma_decimal_digits(i as nat);
        assert(is_digit(s[0]));
    }
}

/// `s` without its `'.'` characters.
pub open spec fn strip_dots(s: Seq<char>) -> Seq<char> {
    s.filter(|c: char| c != '.')
}

proof fn lemma_strip_dots_digits(s: Seq<char>)
    requires
        all_digits(s),
    ensures
        strip_dots(s) == s,
    decreases s.len(),
{
    reveal(Seq::filter);
    if s.len() > 0 {
        assert(all_digits(s.drop_last())) by {
            assert forall|i: int| 0 <= i < s.drop_last().len() implies is_digit(
                #[trigger] s.drop_last()[i],
            ) by {
                assert(s.drop_last()[i] == s[i]);
            }
        }
        assert(is_digit(s[s.len() - 1]));
        lemma_strip_dots_digits(s.drop_last());
        assert(s.drop_last().push(s.last()) =~= s);
    }
}

/// Grouping digits only inserts separators: without its dots, the grouped
/// text is the digit string again.
pub proof fn grouping_only_adds_dots(s: Seq<char>)
    requires
        all_digits(s),
    ensures
        strip_dots(group_thousands(s)) == s,
    decreases s.len(),
{
    if s.len() <= 3 {
        lemma_strip_dots_digits(s);
    } else {
        let k = s.len() - 3;
        let head = s.take(k);
        let tail = s.skip(k);
        assert(all_digits(head)) by {
            assert forall|i: int| 0 <= i < head.len() implies is_digit(#[trigger] head[i]) by {
                assert(head[i] == s[i]);
            }
        }
        assert(all_digits(tail)) by {
            assert forall|i: int| 0 <= i < tail.len() implies is_digit(#[trigger] tail[i]) by {
                assert(tail[i] == s[i + k]);
            }
        }
        grouping_only_adds_dots(head);
        lemma_strip_dots_digits(tail);
        let pred = |c: char| c != '.';
        let g = group_thousands(head);
        Seq::filter_distributes_over_add(g + seq!['.'], tail, pred);
        Seq::filter_distributes_over_add(g, seq!['.'], pred);
        assert(seq!['.'].filter(pred) =~= Seq::<char>::empty()) by {
            reveal_with_fuel(Seq::filter, 2);
            assert(seq!['.'].drop_last() =~= Seq::<char>::empty());
            assert(seq!['.'].last() == '.');
        }
        assert(head + tail =~= s);
    }
}

/// The thousand-grouped rendering of `n` holds exactly the digits of `n`,
/// with dots between them.
pub proof fn thousands_keep_digits(n: u64)
    ensures
        strip_dots(group_thousands(decimal(n as nat))) == decimal(n as nat),
{
    lemma_decimal_digits(n as nat);
    grouping_only_adds_dots(decimal(n as nat));
}

/// Reads `s` as an unsigned 64-bit number: an optional leading `'+'`, then
/// at least one digit. The error is that of the first problem met from the
/// left.
pub fn parse_u64(s: &str) -> (r: Result<u64, ParseError>)
    ensures
        match r {
            Ok(v) => parse_u64_spec(s@) == Ok::<nat, ParseError>(v as nat),
            Err(e) => parse_u64_spec(s@) == Err::<nat, ParseError>(e),
        },
{
    let n = s.unicode_len();
    if n == 0 {
        return Err(ParseError::Empty);
    }
    let start: usize = if s.get_char(0) == '+' { 1 } else { 0 };
    if start == n {
        return Err(ParseError::InvalidDigit);
    }
    let ghost digits = if s@[0] == '+' { s@.drop_first() } else { s@ };
    assert(digits =~= s@.subrange(start as int, n as int));
    assert(digits.take(0) =~= Seq::<char>::empty());
    assert(parse_u64_spec(s@) == scan_u64(digits));
    let mut acc: u64 = 0;
    let mut i: usize = start;
    while i < n
        invariant
            start <= i <= n,
            n == s@.len(),
            digits == s@.subrange(start as int, n as int),
            parse_u64_spec(s@) == scan_u64(digits),
            scan_u64(digits.take(i - start)) == Ok::<nat, ParseError>(acc as nat),
        decreases n - i,
    {
        let c = s.get_char(i);
        let ghost k: int = i - start;
        assert(digits.take(k + 1).drop_last() =~= digits.take(k));
        assert(digits.take(k + 1).last() == c);
        if !('0' <= c && c <= '9') {
            proof {
                lemma_scan_err_extends(digits, k + 1);
            }
            return Err(ParseError::InvalidDigit);
        }
        let d: u64 = ((c as u32) - 48) as u64;
        let t: u128 = (acc as u128) * 10 + (d as u128);
        if t > u64::MAX as u128 {
            proof {
                lemma_scan_err_extends(digits, k + 1);
            }
            return Err(ParseError::PosOverflow);
        }
        acc = t as u64;
        i = i + 1;
    }
    assert(digits.take(n - start) =~= digits);
    Ok(acc)
}

/// Reads `s` as a signed 32-bit number: an optional `'+'` or `'-'`, then at
/// least one digit. `None` when `s` is not such a number or the number does
/// not fit.
pub fn parse_i32(s: &str) -> (r: Option<i32>)
    ensures
        match r {
            Some(v) => parse_i32_spec(s@) == Some(v as int),
            None => parse_i32_spec(s@) is None,
        },
{
    let n = s.unicode_len();
    if n == 0 {
        return None;
    }
    let c0 = s.get_char(0);
    let negative = c0 == '-';
    let start: usize = if c0 == '+' || c0 == '-' { 1 } else { 0 };
    let ghost digits = if s@[0] == '+' || s@[0] == '-' { s@.drop_first() } else { s@ };
    assert(digits =~= s@.subrange(start as int, n as int));
    if start == n {
        return None;
    }
    // Magnitudes above `cap` are all out of range; the scan keeps
    // min(value, cap).
    let cap: u64 = 2147483649;
    let mut acc: u64 = 0;
    let mut i: usize = start;
    assert(digits.take(0) =~= Seq::<char>::empty());
    assert(!all_digits(digits) ==> parse_i32_spec(s@) is None);
    while i < n
        invariant
            start <= i <= n,
            n == s@.len(),
            cap == 2147483649,
            !all_digits(digits) ==> parse_i32_spec(s@) is None,
            digits == s@.subrange(start as int, n as int),
            all_digits(digits.take(i - start)),
            acc as nat == if digits_value(digits.take(i - start)) < cap {
                digits_value(digits.take(i - start))
            } else {
                cap as nat
            },
        decreases n - i,
    {
        let c = s.get_char(i);
        let ghost k: int = i - start;
        assert(digits.take(k + 1).drop_last() =~= digits.take(k));
        assert(digits.take(k + 1).last() == c);
        if !('0' <= c && c <= '9') {
            assert(!is_digit(digits[k]));
            return None;
        }
        let d: u64 = ((c as u32) - 48) as u64;
        let t: u64 = acc * 10 + d;
        acc = if t < cap { t } else { cap };
        assert(all_digits(digits.take(k + 1))) by {
            assert forall|j: int| 0 <= j < k + 1 implies is_digit(#[trigger] digits.take(k + 1)[j]) by {
                if j < k {
                    assert(digits.take(k + 1)[j] == digits.take(k)[j]);
                }
            }
        }
        i = i + 1;
    }
    assert(digits.take(n - start) =~= digits);
    if negative {
        if acc > 2147483648 {
            None
        } else {
            Some((-(acc as i64)) as i32)
        }
    } else {
        if acc > 2147483647 {
            None
        } else {
            Some(acc as i32)
        }
    }
}

} // verus!
