//! Selectors for fundamentals timeseries requests.
use vstd::prelude::*;

verus! {

/// Which financial statement to request.
#[derive(PartialEq, Eq, Structural, Clone, Copy, Debug)]
pub enum StatementType {
    IncomeStatement,
    BalanceSheet,
    CashFlow,
}

impl StatementType {
    pub open spec fn name(self) -> Seq<char> {
        match self {
            StatementType::IncomeStatement => "income"@,
            StatementType::BalanceSheet => "balance"@,
            StatementType::CashFlow => "cashflow"@,
        }
    }

    /// The provider's name for the statement.
    pub fn as_str(&self) -> (r: &'static str)
        ensures
            r@ == self.name(),
    {
        match self {
            StatementType::IncomeStatement => "income",
            StatementType::BalanceSheet => "balance",
            StatementType::CashFlow => "cashflow",
        }
    }
}

/// How often statements are reported.
#[derive(PartialEq, Eq, Structural, Clone, Copy, Debug)]
pub enum Frequency {
    Annual,
    Quarterly,
}

impl Frequency {
    pub open spec fn name(self) -> Seq<char> {
        match self {
            Frequency::Annual => "annual"@,
            Frequency::Quarterly => "quarterly"@,
        }
    }

    /// The provider's name for the frequency.
    pub fn as_str(&self) -> (r: &'static str)
        ensures
            r@ == self.name(),
    {
        match self {
            Frequency::Annual => "annual",
            Frequency::Quarterly => "quarterly",
        }
    }
}

/// Seconds in the lookback of `years_back` years of 365 days.
pub open spec fn lookback_seconds(years_back: int) -> int {
    years_back * 365 * 86400
}

/// The start of a lookback window that ends at `now` (seconds since the Unix
/// epoch); `None` when it does not fit in `i64`.
pub fn lookback_start(now: i64, years_back: i64) -> (r: Option<i64>)
    ensures
        r == (if i64::MIN <= now - lookback_seconds(years_back as int) <= i64::MAX {
            Some((now - lookback_seconds(years_back as int)) as i64)
        } else {
            None
        }),
{
    let span: i128 = years_back as i128 * 31536000;
    let start: i128 = now as i128 - span;
    if i64::MIN as i128 <= start && start <= i64::MAX as i128 {
        Some(start as i64)
    } else {
        None
    }
}

} // verus!
