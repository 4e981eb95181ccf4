//! The tax calculator: reads a monthly income, derives the annual income,
//! the bracket it falls in and the tax due.

use vstd::prelude::*;
use crate::constants::{bracket_view, is_first_covering, spec_tax_brackets, tax_brackets};
use crate::digits::{
    decimal, decimal_string, group_thousands, parse_u64, parse_u64_spec, thousands_string, ParseError,
};

verus! {

/// Rate (in percent) and description of bracket `i` of the table.
pub open spec fn bracket_entry(i: int) -> (nat, Seq<char>) {
    (spec_tax_brackets()[i].1 as nat, spec_tax_brackets()[i].2)
}

/// The bracket of an annual income, as (rate in percent, description): no
/// tax on no income, else the first bracket whose limit is at least the
/// income.
pub open spec fn spec_tax_bracket(income: u64) -> (nat, Seq<char>) {
    if income == 0 {
        (0, "Tyduck kena pajak"@)
    } else if income <= spec_tax_brackets()[0].0 {
        bracket_entry(0)
    } else if income <= spec_tax_brackets()[1].0 {
        bracket_entry(1)
    } else if income <= spec_tax_brackets()[2].0 {
        bracket_entry(2)
    } else if income <= spec_tax_brackets()[3].0 {
        bracket_entry(3)
    } else {
        bracket_entry(4)
    }
}

/// The sentence that describes the bracket of an income.
pub open spec fn bracket_info(rate_percent: nat, description: Seq<char>) -> Seq<char> {
    "Penghasilan termasuk "@ + description + " dengan pajak "@ + decimal(rate_percent) + "%."@
}

/// Whether the calculator can work on `input` without overflow: a monthly
/// income that it reads must still fit in a `u64` once multiplied by 12.
pub open spec fn calculable(input: Seq<char>) -> bool {
    match parse_u64_spec(input) {
        Ok(m) => m * 12 <= u64::MAX,
        Err(_) => true,
    }
}

/// The state of the calculator.
pub struct App {
    /// The text typed so far.
    pub input: String,
    pub monthly_income: u64,
    pub annual_income: u64,
    /// The annual tax due, in hundredths of a rupiah.
    pub annual_tax_cents: u128,
    /// A sentence on the bracket of the income, or an error message.
    pub tax_bracket_info: String,
}

/// `post` is `pre` after a calculation: the input is kept, and the figures
/// and the message are those of the monthly income that the input denotes,
/// or zero and an error message when it denotes none.
pub open spec fn calculated(pre: App, post: App) -> bool {
    &&& post.input == pre.input
    &&& match parse_u64_spec(pre.input@) {
        Ok(m) => {
            let annual = m * 12;
            &&& post.monthly_income == m
            &&& post.annual_income == annual
            &&& post.annual_tax_cents == annual * spec_tax_bracket(post.annual_income).0
            &&& post.tax_bracket_info@ == bracket_info(
                spec_tax_bracket(post.annual_income).0,
                spec_tax_bracket(post.annual_income).1,
            )
        },
        Err(e) => {
            &&& post.monthly_income == 0
            &&& post.annual_income == 0
            &&& post.annual_tax_cents == 0
            &&& post.tax_bracket_info@ == if e == ParseError::PosOverflow {
                "Error: Gaji boss satu ni diluar nurul."@
            } else {
                "Error: hmmmm."@
            }
        },
    }
}

/// Every rate of the table is at most 35 percent.
proof fn lemma_rate_bound(income: u64)
    ensures
        spec_tax_bracket(income).0 <= 35,
{
}

/// The rate never falls as the income grows.
pub proof fn rate_grows_with_income(a: u64, b: u64)
    requires
        a <= b,
    ensures
        spec_tax_bracket(a).0 <= spec_tax_bracket(b).0,
{
}

/// A second calculation on the same input changes no figure and no
/// message.
pub proof fn calculation_is_idempotent(a: App, b: App, c: App)
    requires
        calculated(a, b),
        calculated(b, c),
    ensures
        c.input == b.input,
        c.monthly_income == b.monthly_income,
        c.annual_income == b.annual_income,
        c.annual_tax_cents == b.annual_tax_cents,
        c.tax_bracket_info@ == b.tax_bracket_info@,
{
}

/// A positive income is in the first bracket of the table whose limit is
/// at least the income: rate and description both come from that entry.
pub proof fn bracket_is_first_covering_entry(income: u64)
    requires
        income > 0,
    ensures
        exists|i: int|
            is_first_covering(i, income) && #[trigger] spec_tax_brackets()[i].1 as nat
                == spec_tax_bracket(income).0 && spec_tax_brackets()[i].2 == spec_tax_bracket(
                income,
            ).1,
{
    let t = spec_tax_brackets();
    let i: int = if income <= t[0].0 {
        0
    } else if income <= t[1].0 {
        1
    } else if income <= t[2].0 {
        2
    } else if income <= t[3].0 {
        3
    } else {
        4
    };
    assert(is_first_covering(i, income));
    assert(t[i].1 as nat == spec_tax_bracket(income).0 && t[i].2 == spec_tax_bracket(income).1);
}

/// A calculation on a positive monthly income `m` taxes the annual income
/// `12 * m` at the rate of the first bracket of the table whose limit is at
/// least `12 * m`, and names that bracket's description; no income is not
/// taxed.
pub proof fn calculation_uses_first_covering_bracket(pre: App, post: App, m: nat)
    requires
        calculated(pre, post),
        parse_u64_spec(pre.input@) == Ok::<nat, ParseError>(m),
    ensures
        post.monthly_income == m,
        post.annual_income == 12 * m,
        m == 0 ==> post.annual_tax_cents == 0,
        m > 0 ==> exists|i: int|
            is_first_covering(i, post.annual_income) && post.annual_tax_cents == 12 * m
                * #[trigger] spec_tax_brackets()[i].1 && post.tax_bracket_info@
                == "Penghasilan termasuk "@ + spec_tax_brackets()[i].2 + " dengan pajak "@
                + decimal(spec_tax_brackets()[i].1 as nat) + "%."@,
{
    if m > 0 {
        bracket_is_first_covering_entry(post.annual_income);
        let i = choose|i: int|
            is_first_covering(i, post.annual_income) && #[trigger] spec_tax_brackets()[i].1 as nat
                == spec_tax_bracket(post.annual_income).0 && spec_tax_brackets()[i].2
                == spec_tax_bracket(post.annual_income).1;
        assert(post.annual_tax_cents == 12 * m * spec_tax_brackets()[i].1);
    }
}

impl App {
    /// A calculator with no input, no income and no message.
    pub fn new() -> (a: App)
        ensures
            a.input@ == Seq::<char>::empty(),
            a.monthly_income == 0,
            a.annual_income == 0,
            a.annual_tax_cents == 0,
            a.tax_bracket_info@ == Seq::<char>::empty(),
    {
        App {
            input: String::new(),
            monthly_income: 0,
            annual_income: 0,
            annual_tax_cents: 0,
            tax_bracket_info: String::new(),
        }
    }

    /// The rate (in percent) and the description of the bracket of an
    /// annual income.
    pub fn get_tax_bracket(income: u64) -> (r: (u64, &'static str))
        ensures
            (r.0 as nat, r.1@) == spec_tax_bracket(income),
            income == 0 ==> r.0 == 0,
            income > 0 ==> exists|i: int|
                is_first_covering(i, income) && r.0 == #[trigger] spec_tax_brackets()[i].1
                    && r.1@ == spec_tax_brackets()[i].2,
    {

        if income == 0 {
            return (0, "Tyduck kena pajak");
        }
        let brackets = tax_brackets();
        let mut i: usize = 0;
        while i < brackets.len()
            invariant
                0 <= i <= brackets@.len(),
                income > 0,
                brackets@.len() == spec_tax_brackets().len(),
                forall|j: int|
                    0 <= j < brackets@.len() ==> bracket_view(#[trigger] brackets@[j])
                        == spec_tax_brackets()[j],
                forall|j: int| 0 <= j < i ==> income > #[trigger] spec_tax_brackets()[j].0,
            decreases brackets@.len() - i,
        {
            assert(bracket_view(brackets@[i as int]) == spec_tax_brackets()[i as int]);
            if income <= brackets[i].limit {
                assert(i == 0 || income > spec_tax_brackets()[i - 1].0);
                assert(i <= 1 || income > spec_tax_brackets()[i - 2].0);
                assert(i <= 2 || income > spec_tax_brackets()[i - 3].0);
                assert(i <= 3 || income > spec_tax_brackets()[i - 4].0);
                proof {
                    bracket_is_first_covering_entry(income);
                }
                return (brackets[i].rate_percent, brackets[i].description);
            }
            i = i + 1;
        }
        assert(income > spec_tax_brackets()[4].0);
        (0, "Error: error ape ni?")
    }

    /// Reads the monthly income from the input and computes the annual
    /// income, its bracket and the tax due; on an input that is not a
    /// number, clears the figures and sets an error message.
    pub fn calculate_tax(&mut self)
        requires
            calculable(old(self).input@),
        ensures
            calculated(*old(self), *final(self)),
    {
        match parse_u64(self.input.as_str()) {
            Ok(monthly_income) => {
                self.monthly_income = monthly_income;
                self.annual_income = monthly_income * 12;
                let income = self.annual_income;
                let (rate, bracket_desc) = App::get_tax_bracket(income);
                proof {
                    lemma_rate_bound(income);
                    assert((income as u128) * (rate as u128) <= u128::MAX) by (nonlinear_arith)
                        requires
                            rate <= 35,
                    ;
                }
                self.annual_tax_cents = (income as u128) * (rate as u128);
                let rate_text = decimal_string(rate);
                let mut info = String::from_str("Penghasilan termasuk ");
                info.append(bracket_desc);
                info.append(" dengan pajak ");
                info.append(rate_text.as_str());
                info.append("%.");
                self.tax_bracket_info = info;
            },
            Err(e) => {
                self.annual_income = 0;
                self.monthly_income = 0;
                self.annual_tax_cents = 0;
                self.tax_bracket_info = match e {
                    ParseError::PosOverflow => String::from_str("Error: Gaji boss satu ni diluar nurul."),
                    _ => String::from_str("Error: hmmmm."),
                };
            },
        }
    }

    /// Renders `amount` in decimal with a `'.'` between every group of three
    /// digits, counted from the right.
    pub fn format_thousand_separator(&self, amount: u64) -> (r: String)
        ensures
            r@ == group_thousands(decimal(amount as nat)),
    {
        thousands_string(amount)
    }
}

} // verus!
