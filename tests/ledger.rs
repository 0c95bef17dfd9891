use rfinance::data::Data;
use rfinance::date::Date;
use rfinance::error::PortfolioError;
use rfinance::finance::FinanceProvider;
use rfinance::performance::{weight, Performance};
use rfinance::portfolio::Portfolio;

fn d(day: u32, month: u32, year: i32) -> Date {
    Date { year, month, day }
}

fn two_aapl() -> Data {
    let mut data = Data::new();
    data.add("AAPL".to_string(), 10, 15000, d(1, 1, 2024)).unwrap();
    data.add("AAPL".to_string(), 5, 18000, d(1, 6, 2024)).unwrap();
    data
}

#[test]
fn example_two_purchases_at_200() {
    let data = two_aapl();
    let asset = &data.portfolio.asset[0];
    let p = asset.performance(20000);
    assert_eq!(p.invested_value, 240000);
    assert_eq!(p.latest_value, 300000);
    assert_eq!(p.gain, 60000);
    assert_eq!(p.gain_perc(), Some(2500));
    assert_eq!(p.quantity, 15);
    let whole = data.portfolio.performance(&vec![20000]);
    assert_eq!(whole.invested_value, 240000);
    assert_eq!(whole.latest_value, 300000);
    assert_eq!(whole.gain_perc(), Some(2500));
}

#[test]
fn asset_fold_equals_combined_singles() {
    let data = two_aapl();
    let asset = &data.portfolio.asset[0];
    let folded = asset.performance(12345);
    let by_hand = Performance::zero()
        .add(asset.op[0].performance(12345))
        .add(asset.op[1].performance(12345));
    assert_eq!(folded.invested_value, by_hand.invested_value);
    assert_eq!(folded.latest_value, by_hand.latest_value);
    assert_eq!(folded.gain, by_hand.gain);
    assert_eq!(folded.quantity, by_hand.quantity);
}

#[test]
fn combine_is_commutative_and_associative() {
    let a = Performance::new(3, 1000, 1200);
    let b = Performance::new(7, 500, 400);
    let c = Performance::new(1, 99, 1);
    let l = a.add(b.add(c));
    let r = a.add(b).add(c);
    assert_eq!((l.invested_value, l.latest_value, l.gain, l.quantity), (r.invested_value, r.latest_value, r.gain, r.quantity));
    let ab = a.add(b);
    let ba = b.add(a);
    assert_eq!((ab.invested_value, ab.latest_value, ab.gain, ab.quantity), (ba.invested_value, ba.latest_value, ba.gain, ba.quantity));
    // the share is taken from the totals, not summed from the parts
    assert_eq!(a.gain_perc(), Some(2000));
    assert_eq!(b.gain_perc(), Some(-2000));
    assert_eq!(ab.invested_value, 6500);
    assert_eq!(ab.gain, 600 - 700);
    assert_eq!(ab.gain_perc(), Some(-153));
}

#[test]
fn gain_is_latest_less_invested() {
    let p = Performance::new(4, 2500, 1000);
    assert_eq!(p.gain, p.latest_value - p.invested_value);
    assert_eq!(p.gain, -6000);
    let q = p.add(Performance::new(2, 100, 300));
    assert_eq!(q.gain, q.latest_value - q.invested_value);
    assert_eq!(q.gain, -5600);
}

#[test]
fn empty_asset_has_no_gain_share() {
    let p = Performance::zero();
    assert_eq!(p.gain_perc(), None);
    let mut data = Data::new();
    data.add("MSFT".to_string(), 1, 100, d(2, 2, 2024)).unwrap();
    data.delete("MSFT".to_string(), Some(1)).unwrap();
    assert_eq!(data.portfolio.asset.len(), 1);
    assert_eq!(data.portfolio.asset[0].op.len(), 0);
    assert_eq!(data.portfolio.asset[0].performance(500).gain_perc(), None);
}

#[test]
fn add_then_delete_last_restores_ops() {
    let mut data = two_aapl();
    data.add("AAPL".to_string(), 2, 100, d(3, 3, 2024)).unwrap();
    assert_eq!(data.portfolio.asset[0].op.len(), 3);
    data.delete("AAPL".to_string(), Some(3)).unwrap();
    let ops = &data.portfolio.asset[0].op;
    assert_eq!(ops.len(), 2);
    assert_eq!((ops[0].quantity, ops[0].price), (10, 15000));
    assert_eq!((ops[1].quantity, ops[1].price), (5, 18000));
}

#[test]
fn delete_without_index_removes_whole_asset() {
    let mut data = two_aapl();
    data.add("MSFT".to_string(), 1, 30000, d(4, 4, 2024)).unwrap();
    data.delete("AAPL".to_string(), None).unwrap();
    assert_eq!(data.portfolio.asset.len(), 1);
    assert_eq!(data.portfolio.asset[0].symbol, "MSFT");
    let p = data.portfolio.performance(&vec![40000]);
    assert_eq!(p.invested_value, 30000);
    assert_eq!(p.latest_value, 40000);
    assert_eq!(p.quantity, 1);
}

#[test]
fn delete_bad_index_and_unknown_symbol() {
    let mut data = two_aapl();
    assert_eq!(data.delete("AAPL".to_string(), Some(0)), Err(PortfolioError::OutOfRange));
    assert_eq!(data.delete("AAPL".to_string(), Some(3)), Err(PortfolioError::OutOfRange));
    assert_eq!(data.portfolio.asset[0].op.len(), 2);
    let mut empty = Data::new();
    assert_eq!(empty.delete("MSFT".to_string(), None), Err(PortfolioError::NotFound));
    assert_eq!(empty.delete("MSFT".to_string(), Some(1)), Err(PortfolioError::NotFound));
}

#[test]
fn empty_key_refuses_lookups() {
    let mut data = two_aapl();
    data.set_api_key(String::new());
    let provider = FinanceProvider::new(&data.api_key);
    assert_eq!(provider.check_key(), Err(PortfolioError::KeyNotSet));
    assert_eq!(provider.latest_price(Some(20000)), Err(PortfolioError::KeyNotSet));
    let keyed = FinanceProvider::new("abc");
    assert_eq!(keyed.check_key(), Ok(()));
    assert_eq!(keyed.latest_price(Some(20000)), Ok(20000));
    assert_eq!(keyed.latest_price(None), Err(PortfolioError::PriceUnavailable));
}

#[test]
fn zero_quantity_is_refused() {
    let mut data = Data::new();
    assert_eq!(data.add("AAPL".to_string(), 0, 100, d(1, 1, 2024)), Err(PortfolioError::ZeroQuantity));
    assert_eq!(data.portfolio.asset.len(), 0);
}


#[test]
fn reset_empties_ledger() {
    let mut data = two_aapl();
    data.set_api_key("k".to_string());
    data.reset();
    assert_eq!(data.api_key, "");
    assert_eq!(data.portfolio.asset.len(), 0);
}

#[test]
fn weight_of_asset_in_portfolio() {
    let mut data = two_aapl();
    data.add("MSFT".to_string(), 1, 100, d(4, 4, 2024)).unwrap();
    let prices = vec![20000, 100000];
    let whole = data.portfolio.performance(&prices);
    let aapl = data.portfolio.asset[0].performance(20000);
    assert_eq!(whole.latest_value, 400000);
    assert_eq!(weight(&aapl, &whole), Some(7500));
    assert_eq!(weight(&aapl, &Performance::zero()), None);
}

#[test]
fn date_parses_day_month_year() {
    assert_eq!(Date::parse("01/06/24"), Ok(d(1, 6, 2024)));
    assert_eq!(Date::parse("31/12/99"), Ok(d(31, 12, 1999)));
    assert_eq!(Date::parse("2024-06-01"), Err(PortfolioError::BadDateFormat));
    assert_eq!(Date::parse("32/01/24"), Err(PortfolioError::BadDateFormat));
    assert_eq!(Date::from_parsed(None), Err(PortfolioError::BadDateFormat));
}


#[test]
fn report_lists_assets_weights_and_ops() {
    let mut data = two_aapl();
    data.add("MSFT".to_string(), 1, 100, d(4, 4, 2024)).unwrap();
    let (total, rows) = data.portfolio.report(&vec![20000, 100000]);
    assert_eq!(total.latest_value, 400000);
    assert_eq!(total.invested_value, 240100);
    assert_eq!(rows.len(), 2);
    assert_eq!(rows[0].performance.latest_value, 300000);
    assert_eq!(rows[0].weight, Some(7500));
    assert_eq!(rows[1].weight, Some(2500));
    assert_eq!(rows[0].ops.len(), 2);
    assert_eq!(rows[0].ops[0].invested_value, 150000);
    assert_eq!(rows[0].ops[1].gain, 10000);
    assert_eq!(rows[1].ops[0].gain_perc(), Some(9990000));
}

#[test]
fn many_purchases_of_one_asset_are_taken() {
    let mut p = Portfolio::new();
    for _ in 0..10001 {
        p.add("X".to_string(), 1, 1, d(1, 1, 2024)).unwrap();
    }
    assert_eq!(p.asset[0].op.len(), 10001);
    assert_eq!(p.total_count(), 10001);
    assert_eq!(p.asset[0].performance(2).latest_value, 20002);
}

#[test]
fn invalid_purchases_are_refused() {
    let mut data = Data::new();
    assert_eq!(data.add(String::new(), 1, 100, d(1, 1, 2024)), Err(PortfolioError::EmptySymbol));
    assert_eq!(data.add("AAPL".to_string(), 1, 0, d(1, 1, 2024)), Err(PortfolioError::ZeroPrice));
    assert_eq!(data.add("AAPL".to_string(), 1, 100, d(30, 2, 2024)), Err(PortfolioError::BadDateFormat));
    assert_eq!(data.add("AAPL".to_string(), 1, 100, d(29, 2, 2023)), Err(PortfolioError::BadDateFormat));
    assert_eq!(data.add("AAPL".to_string(), 1, 100, d(1, 13, 2024)), Err(PortfolioError::BadDateFormat));
    assert_eq!(data.portfolio.asset.len(), 0);
    assert_eq!(data.add("AAPL".to_string(), 1, 100, d(29, 2, 2024)), Ok(()));
    assert_eq!(data.add("AAPL".to_string(), 1, 100, d(29, 2, 2000)), Ok(()));
    assert_eq!(data.add("AAPL".to_string(), 1, 100, d(29, 2, 1900)), Err(PortfolioError::BadDateFormat));
}

#[test]
fn date_validity_and_parse_results() {
    assert!(d(31, 12, 2024).is_valid());
    assert!(!d(31, 4, 2024).is_valid());
    assert!(!d(0, 1, 2024).is_valid());
    assert_eq!(Date::from_parsed(Some((2024, 2, 30))), Err(PortfolioError::BadDateFormat));
    assert_eq!(Date::from_parsed(Some((2024, 2, 29))), Ok(d(29, 2, 2024)));
    assert_eq!(Date::parse("29/02/24"), Ok(d(29, 2, 2024)));
    assert_eq!(Date::parse("29/02/23"), Err(PortfolioError::BadDateFormat));
}

#[test]
fn asset_total_ignores_purchase_order() {
    let mut a = Data::new();
    a.add("AAPL".to_string(), 10, 15000, d(1, 1, 2024)).unwrap();
    a.add("AAPL".to_string(), 5, 18000, d(1, 6, 2024)).unwrap();
    a.add("AAPL".to_string(), 7, 100, d(2, 6, 2024)).unwrap();
    let mut b = Data::new();
    b.add("AAPL".to_string(), 7, 100, d(2, 6, 2024)).unwrap();
    b.add("AAPL".to_string(), 10, 15000, d(1, 1, 2024)).unwrap();
    b.add("AAPL".to_string(), 5, 18000, d(1, 6, 2024)).unwrap();
    let pa = a.portfolio.asset[0].performance(20000);
    let pb = b.portfolio.asset[0].performance(20000);
    assert_eq!((pa.invested_value, pa.latest_value, pa.gain, pa.quantity), (pb.invested_value, pb.latest_value, pb.gain, pb.quantity));
    assert_eq!(pa.invested_value, 240700);
}

#[test]
fn add_recomputes_gain_from_totals() {
    let mut a = Performance::new(1, 100, 300);
    a.gain = 12345;
    let b = Performance::new(2, 100, 50);
    let r = a.add(b);
    assert_eq!(r.invested_value, 300);
    assert_eq!(r.latest_value, 400);
    assert_eq!(r.gain, 100);
    assert_eq!(r.quantity, 3);
}
