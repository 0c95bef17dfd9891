use vstd::prelude::*;

verus! {

/// The failures that the ledger and the performance engine report.
#[derive(Debug, Clone, Copy, PartialEq, Eq, Structural)]
pub enum PortfolioError {
    /// No api key is configured, so no price lookup is attempted.
    KeyNotSet,
    /// A quote came back without a usable price.
    PriceUnavailable,
    /// The symbol is not in the portfolio.
    NotFound,
    /// A 1-based transaction index is 0 or beyond the transaction count.
    OutOfRange,
    /// A date is not written as `dd/mm/yy`, or names no day of the calendar.
    BadDateFormat,
    /// A transaction must name a symbol.
    EmptySymbol,
    /// A transaction must buy at least one unit.
    ZeroQuantity,
    /// A transaction must have a positive price.
    ZeroPrice,
    /// The portfolio already holds as many transactions as its totals can
    /// count in machine integers.
    CapacityExceeded,
}

} // verus!
