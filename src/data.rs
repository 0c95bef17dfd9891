use vstd::prelude::*;

use crate::date::Date;
use crate::error::PortfolioError;
use crate::portfolio::{
    add_error, added, has_symbol, index_in_range, portfolio_wf, without_asset, without_op, AssetView,
    OpView, Portfolio,
};

verus! {

/// The ledger: the api key (empty when unset) and the portfolio. Storing it
/// is left to the caller, after each successful change.
pub struct Data {
    pub api_key: String,
    pub portfolio: Portfolio,
}

impl Data {
    pub open spec fn wf(&self) -> bool {
        portfolio_wf(self.portfolio@)
    }

    /// The empty ledger: no key, no assets.
    pub fn new() -> (r: Data)
        ensures
            r.wf(),
            r.api_key@.len() == 0,
            r.portfolio@ == Seq::<AssetView>::empty(),
    {
        Data { api_key: String::new(), portfolio: Portfolio::new() }
    }

    /// Empties the ledger: the key and the portfolio go back to their
    /// defaults.
    pub fn reset(&mut self)
        ensures
            final(self).wf(),
            final(self).api_key@.len() == 0,
            final(self).portfolio@ == Seq::<AssetView>::empty(),
    {
        *self = Data::new();
    }

    /// Replaces the api key; the portfolio is left as it is.
    pub fn set_api_key(&mut self, key: String)
        ensures
            final(self).api_key@ == key@,
            final(self).portfolio@ == old(self).portfolio@,
            old(self).wf() ==> final(self).wf(),
    {
        self.api_key = key;
    }

    /// Records a purchase; see `Portfolio::add`. The key is left as it is.
    pub fn add(&mut self, symbol: String, quantity: u32, price: u32, date: Date) -> (r: Result<
        (),
        PortfolioError,
    >)
        requires
            old(self).wf(),
        ensures
            final(self).wf(),
            final(self).api_key == old(self).api_key,
            match add_error(old(self).portfolio@, symbol@, quantity, price, date) {
                Some(e) => r == Err::<(), PortfolioError>(e) && final(self).portfolio@ == old(
                    self,
                ).portfolio@,
                None => r == Ok::<(), PortfolioError>(()) && final(self).portfolio@ == added(
                    old(self).portfolio@,
                    symbol@,
                    OpView { symbol: symbol@, quantity, price, date },
                ),
            },
    {
        self.portfolio.add(symbol, quantity, price, date)
    }

    /// Deletes an asset, or one of its purchases by 1-based index; see
    /// `Portfolio::delete`. The key is left as it is.
    pub fn delete(&mut self, symbol: String, index: Option<usize>) -> (r: Result<
        (),
        PortfolioError,
    >)
        requires
            old(self).wf(),
        ensures
            final(self).wf(),
            final(self).api_key == old(self).api_key,
            !has_symbol(old(self).portfolio@, symbol@) ==> r == Err::<(), PortfolioError>(
                PortfolioError::NotFound,
            ),
            has_symbol(old(self).portfolio@, symbol@) && index.is_none() ==> r == Ok::<
                (),
                PortfolioError,
            >(()) && final(self).portfolio@ == without_asset(old(self).portfolio@, symbol@),
            has_symbol(old(self).portfolio@, symbol@) && index.is_some() && !index_in_range(
                old(self).portfolio@,
                symbol@,
                index.unwrap() as int,
            ) ==> r == Err::<(), PortfolioError>(PortfolioError::OutOfRange),
            has_symbol(old(self).portfolio@, symbol@) && index.is_some() && index_in_range(
                old(self).portfolio@,
                symbol@,
                index.unwrap() as int,
            ) ==> r == Ok::<(), PortfolioError>(()) && final(self).portfolio@ == without_op(
                old(self).portfolio@,
                symbol@,
                index.unwrap() as int,
            ),
            r.is_err() ==> final(self).portfolio@ == old(self).portfolio@,
    {
        self.portfolio.delete(&symbol, index)
    }
}

} // verus!
