//! The tax brackets and the limits of the calculator.

use vstd::prelude::*;

verus! {

/// Longest input, in bytes, that the calculator accepts.
pub const MAX_INPUT_LENGTH: usize = 18;

/// Upper bound (inclusive) of the annual income taxed at `RATE_1`.
pub const BRACKET_1_LIMIT: u64 = 50_000_000;
/// Upper bound (inclusive) of the annual income taxed at `RATE_2`.
pub const BRACKET_2_LIMIT: u64 = 250_000_000;
/// Upper bound (inclusive) of the annual income taxed at `RATE_3`.
pub const BRACKET_3_LIMIT: u64 = 500_000_000;
/// Upper bound (inclusive) of the annual income taxed at `RATE_4`.
pub const BRACKET_4_LIMIT: u64 = 5_000_000_000;

/// Tax rate of the first bracket, in percent.
pub const RATE_1: u64 = 5;
/// Tax rate of the second bracket, in percent.
pub const RATE_2: u64 = 15;
/// Tax rate of the third bracket, in percent.
pub const RATE_3: u64 = 25;
/// Tax rate of the fourth bracket, in percent.
pub const RATE_4: u64 = 30;
/// Tax rate of the fifth bracket, in percent.
pub const RATE_5: u64 = 35;

/// One tax bracket: the incomes up to `limit` (inclusive) that no earlier
/// bracket covers are taxed at `rate_percent`.
pub struct TaxBracket {
    pub limit: u64,
    pub rate_percent: u64,
    pub description: &'static str,
}

/// The brackets as (limit, rate in percent, description), in ascending
/// order of limit.
pub open spec fn spec_tax_brackets() -> Seq<(u64, u64, Seq<char>)> {
    seq![
        (BRACKET_1_LIMIT, RATE_1, "Golongan 1 (0 - 50 juta rupiah)"@),
        (BRACKET_2_LIMIT, RATE_2, "Golongan 2 (50 - 250 juta rupiah)"@),
        (BRACKET_3_LIMIT, RATE_3, "Golongan 3 (250 - 500 juta rupiah)"@),
        (BRACKET_4_LIMIT, RATE_4, "Golongan Gajhi Nyuyok (500 juta - 5 miliar rupiah)"@),
        (u64::MAX, RATE_5, "Golongan Sultan (> 5 miliar rupiah)"@),
    ]
}

/// Whether entry `i` of the table is the first whose limit is at least
/// `income`.
pub open spec fn is_first_covering(i: int, income: u64) -> bool {
    &&& 0 <= i < spec_tax_brackets().len()
    &&& income <= spec_tax_brackets()[i].0
    &&& forall|j: int| 0 <= j < i ==> income > #[trigger] spec_tax_brackets()[j].0
}

/// The view of a bracket as (limit, rate in percent, description).
pub open spec fn bracket_view(b: TaxBracket) -> (u64, u64, Seq<char>) {
    (b.limit, b.rate_percent, b.description@)
}

/// The table of tax brackets.
pub fn tax_brackets() -> (r: Vec<TaxBracket>)
    ensures
        r@.len() == spec_tax_brackets().len(),
        forall|i: int| 0 <= i < r@.len() ==> bracket_view(#[trigger] r@[i]) == spec_tax_brackets()[i],
{
    let mut r: Vec<TaxBracket> = Vec::new();
    r.push(TaxBracket { limit: BRACKET_1_LIMIT, rate_percent: RATE_1, description: "Golongan 1 (0 - 50 juta rupiah)" });
    r.push(TaxBracket { limit: BRACKET_2_LIMIT, rate_percent: RATE_2, description: "Golongan 2 (50 - 250 juta rupiah)" });
    r.push(TaxBracket { limit: BRACKET_3_LIMIT, rate_percent: RATE_3, description: "Golongan 3 (250 - 500 juta rupiah)" });
    r.push(TaxBracket {
        limit: BRACKET_4_LIMIT,
        rate_percent: RATE_4,
        description: "Golongan Gajhi Nyuyok (500 juta - 5 miliar rupiah)",
    });
    r.push(TaxBracket { limit: u64::MAX, rate_percent: RATE_5, description: "Golongan Sultan (> 5 miliar rupiah)" });
    r
}

} // verus!
