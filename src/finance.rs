use vstd::prelude::*;

use crate::error::PortfolioError;

verus! {

/// Whether `key` configures the price source: the empty key counts as none.
pub open spec fn key_is_set(key: Seq<char>) -> bool {
    key.len() != 0
}

/// The credential side of the price source: lookups go ahead only when an
/// api key is configured, and an empty key counts as none.
pub struct FinanceProvider {
    pub key: Option<String>,
}

impl FinanceProvider {
    /// A provider for `key`; the empty key leaves it unset.
    pub fn new(key: &str) -> (r: FinanceProvider)
        ensures
            r.key.is_some() == key_is_set(key@),
            key@.len() != 0 ==> (r.key matches Some(k) && k@ == key@),
    {
        if key.is_empty() {
            FinanceProvider { key: None }
        } else {
            FinanceProvider { key: Some(key.to_owned()) }
        }
    }

    /// Whether a lookup may be made: `KeyNotSet` exactly when no key is set.
    pub fn check_key(&self) -> (r: Result<(), PortfolioError>)
        ensures
            self.key.is_none() ==> r == Err::<(), PortfolioError>(PortfolioError::KeyNotSet),
            self.key.is_some() ==> r == Ok::<(), PortfolioError>(()),
    {
        match &self.key {
            None => Err(PortfolioError::KeyNotSet),
            Some(_) => Ok(()),
        }
    }

    /// The latest price, in cents, that a quote carries: the price where the
    /// quote has one, else `PriceUnavailable`; with no key set, `KeyNotSet`
    /// whatever the quote.
    pub fn latest_price(&self, quote_price: Option<u32>) -> (r: Result<u32, PortfolioError>)
        ensures
            r == lookup_result(self.key.is_some(), quote_price),
    {
        match self.check_key() {
            Err(e) => Err(e),
            Ok(()) => match quote_price {
                Some(p) => Ok(p),
                None => Err(PortfolioError::PriceUnavailable),
            },
        }
    }
}

/// What a price lookup gives, given whether a key is set and what price
/// the quote carried.
pub open spec fn lookup_result(key_set: bool, quote_price: Option<u32>) -> Result<
    u32,
    PortfolioError,
> {
    if !key_set {
        Err(PortfolioError::KeyNotSet)
    } else {
        match quote_price {
            Some(p) => Ok(p),
            None => Err(PortfolioError::PriceUnavailable),
        }
    }
}

/// With the empty key no lookup succeeds: every lookup through a provider
/// made from it fails with `KeyNotSet`, whatever a quote would have said.
pub proof fn lemma_empty_key_refuses(quote_price: Option<u32>)
    ensures
        lookup_result(key_is_set(Seq::<char>::empty()), quote_price) == Err::<u32, PortfolioError>(
            PortfolioError::KeyNotSet,
        ),
{
}

} // verus!
