use vstd::prelude::*;

use crate::date::{valid_date, Date};
use crate::error::PortfolioError;
use crate::performance::{
    combined, op_value_max, price_max, qty_max, single_perf, value_max, weight, weight_of, zero_perf, PerfView, Performance,
};

verus! {

/// Most transactions one portfolio may hold in all. This is a machine
/// limit, far beyond what memory holds: with at most this many, the total
/// quantity fits a `u64` and every value stays small enough for the gain
/// share to be computed in `u128`.
pub const MAX_TOTAL_OPS: u64 = 4294967296;

/// One purchase of a security.
pub struct AssetOp {
    pub symbol: String,
    /// Units bought.
    pub quantity: u32,
    /// Price of one unit at purchase, in cents.
    pub price: u32,
    pub date: Date,
}

/// The mathematical content of a purchase.
pub struct OpView {
    pub symbol: Seq<char>,
    pub quantity: u32,
    pub price: u32,
    pub date: Date,
}

impl View for AssetOp {
    type V = OpView;

    open spec fn view(&self) -> OpView {
        OpView { symbol: self.symbol@, quantity: self.quantity, price: self.price, date: self.date }
    }
}

/// A security and its purchases, in the order they were entered.
pub struct Asset {
    pub symbol: String,
    pub op: Vec<AssetOp>,
}

/// The mathematical content of an asset: its symbol and its purchases.
pub struct AssetView {
    pub symbol: Seq<char>,
    pub ops: Seq<OpView>,
}

impl View for Asset {
    type V = AssetView;

    open spec fn view(&self) -> AssetView {
        AssetView { symbol: self.symbol@, ops: self.op@.map_values(|o: AssetOp| o@) }
    }
}

/// The held assets, at most one per symbol, in the order they were first
/// bought.
pub struct Portfolio {
    pub asset: Vec<Asset>,
}

impl View for Portfolio {
    type V = Seq<AssetView>;

    open spec fn view(&self) -> Seq<AssetView> {
        self.asset@.map_values(|a: Asset| a@)
    }
}

/// The figures shown for one asset: its performance, its weight in the
/// portfolio, and the performance of each of its purchases.
pub struct AssetReport {
    pub performance: Performance,
    pub weight: Option<i128>,
    pub ops: Vec<Performance>,
}

/// What the report for the asset `a`, priced at `price` in a portfolio
/// worth `total`, holds.
pub open spec fn is_asset_report(r: AssetReport, a: AssetView, price: int, total: PerfView) -> bool {
    &&& r.performance@ == ops_perf(a.ops, price)
    &&& r.performance.wf()
    &&& r.performance.invested_value <= value_max()
    &&& r.performance.latest_value <= value_max()
    &&& match weight_of(r.performance@, total) {
        None => r.weight.is_none(),
        Some(v) => r.weight == Some(v as i128),
    }
    &&& r.ops@.len() == a.ops.len()
    &&& forall|k: int|
        0 <= k < a.ops.len() ==> (#[trigger] r.ops@[k])@ == op_perf(a.ops[k], price)
            && r.ops@[k].wf() && r.ops@[k].invested_value <= value_max()
            && r.ops@[k].latest_value <= value_max()
}

/// The performance of one purchase against a current unit price.
pub open spec fn op_perf(o: OpView, current: int) -> PerfView {
    single_perf(o.quantity as int, o.price as int, current)
}

/// The left fold, by combining, of each purchase's performance against one
/// current price.
pub open spec fn ops_perf(ops: Seq<OpView>, current: int) -> PerfView
    decreases ops.len(),
{
    if ops.len() == 0 {
        zero_perf()
    } else {
        combined(ops_perf(ops.drop_last(), current), op_perf(ops.last(), current))
    }
}

/// The left fold, by combining, of the first `n` assets' performance, the
/// asset at position `i` priced at `prices[i]`.
pub open spec fn assets_perf(assets: Seq<AssetView>, prices: Seq<u32>, n: int) -> PerfView
    decreases n,
{
    if n <= 0 {
        zero_perf()
    } else {
        combined(
            assets_perf(assets, prices, n - 1),
            ops_perf(assets[n - 1].ops, prices[n - 1] as int),
        )
    }
}

/// The performance of a whole portfolio.
pub open spec fn portfolio_perf(assets: Seq<AssetView>, prices: Seq<u32>) -> PerfView {
    assets_perf(assets, prices, assets.len() as int)
}

/// Whether some asset carries the symbol `s`.
pub open spec fn has_symbol(assets: Seq<AssetView>, s: Seq<char>) -> bool {
    exists|i: int| 0 <= i < assets.len() && #[trigger] assets[i].symbol == s
}

/// The position of the asset with symbol `s`, where there is one.
pub open spec fn index_of(assets: Seq<AssetView>, s: Seq<char>) -> int {
    choose|i: int| 0 <= i < assets.len() && #[trigger] assets[i].symbol == s
}

/// The number of purchases held by the first `n` assets.
pub open spec fn total_ops_upto(assets: Seq<AssetView>, n: int) -> int
    decreases n,
{
    if n <= 0 {
        0
    } else {
        total_ops_upto(assets, n - 1) + assets[n - 1].ops.len()
    }
}

/// The number of purchases held by the portfolio.
pub open spec fn total_ops(assets: Seq<AssetView>) -> int {
    total_ops_upto(assets, assets.len() as int)
}

/// The symbols are unique, every asset is well formed, and the portfolio
/// holds at most `MAX_TOTAL_OPS` purchases, the machine limit under which
/// every total is exact.
pub open spec fn portfolio_wf(assets: Seq<AssetView>) -> bool {
    &&& total_ops(assets) <= MAX_TOTAL_OPS
    &&& forall|i: int, j: int|
        0 <= i < assets.len() && 0 <= j < assets.len() && i != j ==> #[trigger] assets[i].symbol
            != #[trigger] assets[j].symbol
    &&& forall|i: int| 0 <= i < assets.len() ==> #[trigger] asset_wf(assets[i])
}

/// A purchase as a transaction must be: positive quantity and price, and a
/// day of the calendar.
pub open spec fn op_wf(o: OpView) -> bool {
    &&& o.quantity > 0
    &&& o.price > 0
    &&& valid_date(o.date)
}

/// A non-empty symbol, and purchases that are well formed and carry it.
pub open spec fn asset_wf(a: AssetView) -> bool {
    &&& a.symbol.len() > 0
    &&& forall|k: int|
        0 <= k < a.ops.len() ==> (#[trigger] a.ops[k]).symbol == a.symbol && op_wf(a.ops[k])
}

/// Why the purchase of `quantity` units of `s` at `price` on `date` is
/// refused, checked in this order; `None` when it is taken.
pub open spec fn add_error(
    assets: Seq<AssetView>,
    s: Seq<char>,
    quantity: u32,
    price: u32,
    date: Date,
) -> Option<PortfolioError> {
    if s.len() == 0 {
        Some(PortfolioError::EmptySymbol)
    } else if quantity == 0 {
        Some(PortfolioError::ZeroQuantity)
    } else if price == 0 {
        Some(PortfolioError::ZeroPrice)
    } else if !valid_date(date) {
        Some(PortfolioError::BadDateFormat)
    } else if total_ops(assets) >= MAX_TOTAL_OPS {
        Some(PortfolioError::CapacityExceeded)
    } else {
        None
    }
}

/// Where purchase counts agree on the first `n` assets, so do their totals.
pub proof fn lemma_total_prefix(a: Seq<AssetView>, b: Seq<AssetView>, n: int)
    requires
        0 <= n <= a.len(),
        n <= b.len(),
        forall|j: int| 0 <= j < n ==> #[trigger] a[j].ops.len() == b[j].ops.len(),
    ensures
        total_ops_upto(a, n) == total_ops_upto(b, n),
    decreases n,
{
    if n > 0 {
        lemma_total_prefix(a, b, n - 1);
    }
}

/// The count over a prefix grows with the prefix.
pub proof fn lemma_total_mono(a: Seq<AssetView>, m: int, n: int)
    requires
        0 <= m <= n <= a.len(),
    ensures
        0 <= total_ops_upto(a, m) <= total_ops_upto(a, n),
    decreases n,
{
    if n > 0 {
        if m < n {
            lemma_total_mono(a, m, n - 1);
        } else {
            lemma_total_mono(a, n - 1, n - 1);
        }
    }
}

/// Replacing the asset at `i` changes the count by the difference in its
/// purchases.
pub proof fn lemma_total_update(a: Seq<AssetView>, i: int, x: AssetView, n: int)
    requires
        0 <= i < a.len(),
        0 <= n <= a.len(),
    ensures
        total_ops_upto(a.update(i, x), n) == total_ops_upto(a, n) + if i < n {
            x.ops.len() - a[i].ops.len()
        } else {
            0
        },
    decreases n,
{
    if n > 0 {
        lemma_total_update(a, i, x, n - 1);
    }
}

/// Removing the asset at `i` takes its purchases off the count.
pub proof fn lemma_total_remove(a: Seq<AssetView>, i: int, n: int)
    requires
        0 <= i < a.len(),
        0 <= n < a.len(),
    ensures
        n <= i ==> total_ops_upto(a.remove(i), n) == total_ops_upto(a, n),
        n >= i ==> total_ops_upto(a.remove(i), n) == total_ops_upto(a, n + 1) - a[i].ops.len(),
    decreases n,
{
    if n > 0 {
        lemma_total_remove(a, i, n - 1);
        let r = a.remove(i);
        if n - 1 < i {
            assert(r[n - 1] == a[n - 1]);
        } else {
            assert(r[n - 1] == a[n]);
        }
        assert(total_ops_upto(a, n + 1) == total_ops_upto(a, n) + a[n].ops.len());
    } else {
        assert(total_ops_upto(a, 1) == total_ops_upto(a, 0) + a[0].ops.len());
    }
}

/// The assets after the purchase `o` of symbol `s`: appended to its asset,
/// or to a new asset at the end.
pub open spec fn added(assets: Seq<AssetView>, s: Seq<char>, o: OpView) -> Seq<AssetView> {
    if has_symbol(assets, s) {
        let i = index_of(assets, s);
        assets.update(i, AssetView { symbol: s, ops: assets[i].ops.push(o) })
    } else {
        assets.push(AssetView { symbol: s, ops: seq![o] })
    }
}

/// The assets without the one of symbol `s`.
pub open spec fn without_asset(assets: Seq<AssetView>, s: Seq<char>) -> Seq<AssetView> {
    assets.remove(index_of(assets, s))
}

/// The assets without the `k`-th (1-based) purchase of symbol `s`.
pub open spec fn without_op(assets: Seq<AssetView>, s: Seq<char>, k: int) -> Seq<AssetView> {
    let i = index_of(assets, s);
    assets.update(i, AssetView { symbol: s, ops: assets[i].ops.remove(k - 1) })
}

/// Whether the 1-based index `k` names a purchase of the asset of symbol `s`.
pub open spec fn index_in_range(assets: Seq<AssetView>, s: Seq<char>, k: int) -> bool {
    1 <= k <= assets[index_of(assets, s)].ops.len()
}

/// A fold over `n` purchases stays within `n` times the largest single value.
pub proof fn lemma_ops_perf_bounds(ops: Seq<OpView>, current: u32)
    ensures
        0 <= ops_perf(ops, current as int).invested <= ops.len() * op_value_max(),
        0 <= ops_perf(ops, current as int).latest <= ops.len() * op_value_max(),
        0 <= ops_perf(ops, current as int).quantity <= ops.len() * qty_max(),
        ops_perf(ops, current as int).gain == ops_perf(ops, current as int).latest - ops_perf(
            ops,
            current as int,
        ).invested,
    decreases ops.len(),
{
    if ops.len() > 0 {
        let o = ops.last();
        lemma_ops_perf_bounds(ops.drop_last(), current);
        assert(0 <= o.quantity as int * o.price as int <= op_value_max()) by (nonlinear_arith)
            requires
                o.quantity as int <= qty_max(),
                o.price as int <= price_max(),
        ;
        assert(0 <= o.quantity as int * current as int <= op_value_max()) by (nonlinear_arith)
            requires
                o.quantity as int <= qty_max(),
                current as int <= price_max(),
        ;
        assert((ops.len() - 1) * op_value_max() + op_value_max() == ops.len() * op_value_max())
            by (nonlinear_arith);
        assert((ops.len() - 1) * qty_max() + qty_max() == ops.len() * qty_max())
            by (nonlinear_arith);
    }
}

/// A fold over the first `n` assets stays within their purchase count times
/// the largest single value.
pub proof fn lemma_assets_perf_bounds(assets: Seq<AssetView>, prices: Seq<u32>, n: int)
    requires
        0 <= n <= assets.len(),
        n <= prices.len(),
    ensures
        0 <= assets_perf(assets, prices, n).invested <= total_ops_upto(assets, n) * op_value_max(),
        0 <= assets_perf(assets, prices, n).latest <= total_ops_upto(assets, n) * op_value_max(),
        0 <= assets_perf(assets, prices, n).quantity <= total_ops_upto(assets, n) * qty_max(),
        assets_perf(assets, prices, n).gain == assets_perf(assets, prices, n).latest
            - assets_perf(assets, prices, n).invested,
    decreases n,
{
    if n > 0 {
        lemma_assets_perf_bounds(assets, prices, n - 1);
        let ops = assets[n - 1].ops;
        lemma_ops_perf_bounds(ops, prices[n - 1]);
        let t = total_ops_upto(assets, n - 1);
        assert((t + ops.len()) * op_value_max() == t * op_value_max() + ops.len() * op_value_max())
            by (nonlinear_arith);
        assert((t + ops.len()) * qty_max() == t * qty_max() + ops.len() * qty_max())
            by (nonlinear_arith);
    }
}

/// The largest value that `MAX_TOTAL_OPS` purchases can reach is within the
/// bound of the gain share, and their quantity within a `u64`.
pub proof fn lemma_total_limits(t: int)
    requires
        0 <= t <= MAX_TOTAL_OPS,
    ensures
        t * op_value_max() <= value_max(),
        t * qty_max() <= u64::MAX,
{
    assert(t * op_value_max() <= MAX_TOTAL_OPS * op_value_max()) by (nonlinear_arith)
        requires
            t <= MAX_TOTAL_OPS,
            op_value_max() >= 0,
    ;
    assert(t * qty_max() <= MAX_TOTAL_OPS * qty_max()) by (nonlinear_arith)
        requires
            t <= MAX_TOTAL_OPS,
            qty_max() >= 0,
    ;
}

/// Folding a concatenation of purchases is combining the folds of its two
/// parts: the asset total does not depend on how its purchases are grouped.
pub proof fn lemma_ops_perf_append(a: Seq<OpView>, b: Seq<OpView>, current: int)
    ensures
        ops_perf(a + b, current) == combined(ops_perf(a, current), ops_perf(b, current)),
    decreases b.len(),
{
    if b.len() == 0 {
        assert(a + b =~= a);
        lemma_ops_perf_gain(a, current);
    } else {
        assert((a + b).drop_last() =~= a + b.drop_last());
        lemma_ops_perf_append(a, b.drop_last(), current);
    }
}

/// Taking one purchase out of the fold and combining it back in gives the
/// same total.
pub proof fn lemma_ops_perf_remove(ops: Seq<OpView>, i: int, current: int)
    requires
        0 <= i < ops.len(),
    ensures
        ops_perf(ops, current) == combined(ops_perf(ops.remove(i), current), op_perf(ops[i], current)),
{
    let a = ops.take(i);
    let x = seq![ops[i]];
    let b = ops.skip(i + 1);
    assert(ops =~= a + (x + b));
    assert(ops.remove(i) =~= a + b);
    lemma_ops_perf_append(a, x + b, current);
    lemma_ops_perf_append(x, b, current);
    lemma_ops_perf_append(a, b, current);
    assert(x.drop_last() =~= Seq::<OpView>::empty());
    assert(ops_perf(x.drop_last(), current) == zero_perf());
    assert(x.last() == ops[i]);
    assert(ops_perf(x, current) == op_perf(ops[i], current));
    lemma_ops_perf_gain(a, current);
    lemma_ops_perf_gain(b, current);
}

/// An asset's total does not depend on the order of its purchases: any two
/// sequences holding the same purchases fold to the same performance.
pub proof fn lemma_ops_perf_permutation(a: Seq<OpView>, b: Seq<OpView>, current: int)
    requires
        a.to_multiset() == b.to_multiset(),
    ensures
        ops_perf(a, current) == ops_perf(b, current),
    decreases a.len(),
{
    broadcast use vstd::seq_lib::group_to_multiset_ensures;

    if a.len() == 0 {
        assert(a.to_multiset().len() == 0);
        assert(b.to_multiset().len() == 0);
        assert(b =~= a);
    } else {
        let x = a.last();
        assert(a.contains(x)) by {
            assert(a[a.len() - 1] == x);
        }
        assert(b.to_multiset().count(x) > 0);
        assert(b.contains(x));
        let j = choose|j: int| 0 <= j < b.len() && b[j] == x;
        assert(a.drop_last() =~= a.remove(a.len() - 1));
        assert(a.drop_last().to_multiset() == b.remove(j).to_multiset());
        lemma_ops_perf_permutation(a.drop_last(), b.remove(j), current);
        lemma_ops_perf_remove(b, j, current);
    }
}

/// The gain of a fold is its current value less its invested value.
pub proof fn lemma_ops_perf_gain(ops: Seq<OpView>, current: int)
    ensures
        ops_perf(ops, current).gain == ops_perf(ops, current).latest - ops_perf(
            ops,
            current,
        ).invested,
    decreases ops.len(),
{
    if ops.len() > 0 {
        lemma_ops_perf_gain(ops.drop_last(), current);
    }
}

/// Adding a purchase and then deleting the last purchase of the same symbol
/// gives back the former purchases of that symbol: the portfolio is as
/// before, but for an asset that the purchase created, which stays, empty.
pub proof fn lemma_add_then_delete_last(assets: Seq<AssetView>, s: Seq<char>, o: OpView)
    requires
        portfolio_wf(assets),
    ensures
        has_symbol(added(assets, s, o), s),
        index_in_range(
            added(assets, s, o),
            s,
            added(assets, s, o)[index_of(added(assets, s, o), s)].ops.len() as int,
        ),
        has_symbol(assets, s) ==> without_op(
            added(assets, s, o),
            s,
            added(assets, s, o)[index_of(added(assets, s, o), s)].ops.len() as int,
        ) == assets,
        !has_symbol(assets, s) ==> without_op(
            added(assets, s, o),
            s,
            added(assets, s, o)[index_of(added(assets, s, o), s)].ops.len() as int,
        ) == assets.push(AssetView { symbol: s, ops: Seq::empty() }),
{
    let a2 = added(assets, s, o);
    if has_symbol(assets, s) {
        let i = index_of(assets, s);
        assert(a2[i].symbol == s);
        let j = index_of(a2, s);
        if j != i {
            assert(assets[j].symbol == a2[j].symbol);
            assert(assets[i].symbol != assets[j].symbol);
        }
        assert(a2[i].ops.remove(a2[i].ops.len() - 1) =~= assets[i].ops);
        assert(without_op(a2, s, a2[i].ops.len() as int) =~= assets);
    } else {
        let n = assets.len() as int;
        assert(a2[n].symbol == s);
        let j = index_of(a2, s);
        if j != n {
            assert(assets[j].symbol == a2[j].symbol);
        }
        assert(a2[n].ops.remove(0) =~= Seq::<OpView>::empty());
        assert(without_op(a2, s, 1) =~= assets.push(AssetView { symbol: s, ops: Seq::empty() }));
    }
}

/// Deleting an asset removes it whole, whatever it held: no asset of that
/// symbol is left, and every other asset stays as it was, in order.
pub proof fn lemma_delete_asset_excludes(assets: Seq<AssetView>, s: Seq<char>)
    requires
        portfolio_wf(assets),
        has_symbol(assets, s),
    ensures
        !has_symbol(without_asset(assets, s), s),
        without_asset(assets, s).len() == assets.len() - 1,
        forall|j: int|
            0 <= j < assets.len() && assets[j].symbol != s ==> has_symbol(
                without_asset(assets, s),
                #[trigger] assets[j].symbol,
            ),
{
    let i = index_of(assets, s);
    let r = without_asset(assets, s);
    assert forall|x: int| 0 <= x < r.len() implies #[trigger] r[x].symbol != s by {
        let px = if x < i { x } else { x + 1 };
        assert(r[x] == assets[px]);
        assert(assets[px].symbol != assets[i].symbol);
    }
    assert forall|j: int|
        0 <= j < assets.len() && assets[j].symbol != s implies has_symbol(
        r,
        #[trigger] assets[j].symbol,
    ) by {
        let x = if j < i { j } else { j - 1 };
        assert(r[x] == assets[j]);
    }
}

impl AssetOp {
    /// The performance of this purchase when one unit is worth
    /// `current_price` cents.
    pub fn performance(&self, current_price: u32) -> (r: Performance)
        ensures
            r@ == op_perf(self@, current_price as int),
            r.wf(),
            r.invested_value <= value_max(),
            r.latest_value <= value_max(),
    {
        proof {
            lemma_total_limits(1);
        }
        Performance::new(self.quantity, self.price, current_price)
    }
}

impl Asset {
    /// The performance of all purchases of this asset, each against the
    /// same current price: the fold, by combining, of their single
    /// performances.
    pub fn performance(&self, current_price: u32) -> (r: Performance)
        requires
            self.op@.len() <= MAX_TOTAL_OPS,
        ensures
            r@ == ops_perf(self@.ops, current_price as int),
            r.wf(),
            r.invested_value <= value_max(),
            r.latest_value <= value_max(),
    {
        let ghost ops = self@.ops;
        let mut acc = Performance::zero();
        let mut i: usize = 0;
        while i < self.op.len()
            invariant
                0 <= i <= self.op@.len(),
                self.op@.len() <= MAX_TOTAL_OPS,
                ops == self@.ops,
                acc.wf(),
                acc@ == ops_perf(ops.take(i as int), current_price as int),
            decreases self.op@.len() - i,
        {
            let p = self.op[i].performance(current_price);
            proof {
                assert(ops.take(i + 1).drop_last() =~= ops.take(i as int));
                lemma_ops_perf_bounds(ops.take(i + 1), current_price);
                lemma_total_limits(i + 1);
            }
            acc = acc.add(p);
            i = i + 1;
        }
        assert(ops.take(i as int) =~= ops);
        proof {
            lemma_ops_perf_bounds(ops, current_price);
            lemma_total_limits(ops.len() as int);
        }
        acc
    }
}

impl Portfolio {
    /// An empty portfolio.
    pub fn new() -> (r: Portfolio)
        ensures
            r@ == Seq::<AssetView>::empty(),
            portfolio_wf(r@),
    {
        let r = Portfolio { asset: Vec::new() };
        assert(r@ =~= Seq::<AssetView>::empty());
        r
    }

    /// The position of the asset with the given symbol, if it is held.
    pub fn position(&self, symbol: &String) -> (r: Option<usize>)
        requires
            portfolio_wf(self@),
        ensures
            match r {
                Some(i) => has_symbol(self@, symbol@) && i as int == index_of(self@, symbol@)
                    && i < self@.len() && self@[i as int].symbol == symbol@,
                None => !has_symbol(self@, symbol@),
            },
    {
        let mut i: usize = 0;
        while i < self.asset.len()
            invariant
                0 <= i <= self.asset@.len(),
                portfolio_wf(self@),
                forall|j: int| 0 <= j < i ==> #[trigger] self@[j].symbol != symbol@,
            decreases self.asset@.len() - i,
        {
            if self.asset[i].symbol == *symbol {
                assert(self@[i as int].symbol == symbol@);
                proof {
                    let k = index_of(self@, symbol@);
                    assert(0 <= k < self@.len() && self@[k].symbol == symbol@);
                    if k != i as int {
                        assert(self@[k].symbol != self@[i as int].symbol);
                    }
                }
                return Some(i);
            }
            i = i + 1;
        }
        None
    }

    /// The performance of the whole portfolio, the asset at position `i`
    /// priced at `prices[i]` cents: the fold, by combining, of the assets'
    /// performances.
    pub fn performance(&self, prices: &Vec<u32>) -> (r: Performance)
        requires
            portfolio_wf(self@),
            prices@.len() == self@.len(),
        ensures
            r@ == portfolio_perf(self@, prices@),
            r.wf(),
            r.invested_value <= value_max(),
            r.latest_value <= value_max(),
    {
        let ghost assets = self@;
        let mut acc = Performance::zero();
        let mut i: usize = 0;
        while i < self.asset.len()
            invariant
                0 <= i <= self.asset@.len(),
                assets == self@,
                portfolio_wf(assets),
                prices@.len() == assets.len(),
                acc.wf(),
                acc@ == assets_perf(assets, prices@, i as int),
            decreases self.asset@.len() - i,
        {
            proof {
                lemma_total_mono(assets, i + 1, assets.len() as int);
                lemma_total_mono(assets, i as int, i as int);
            }
            let p = self.asset[i].performance(prices[i]);
            proof {
                lemma_assets_perf_bounds(assets, prices@, i + 1);
                lemma_total_limits(total_ops_upto(assets, i + 1));
            }
            acc = acc.add(p);
            i = i + 1;
        }
        proof {
            lemma_assets_perf_bounds(assets, prices@, i as int);
            lemma_total_limits(total_ops(assets));
        }
        acc
    }

    /// The number of purchases held in all.
    pub fn total_count(&self) -> (r: u64)
        requires
            portfolio_wf(self@),
        ensures
            r == total_ops(self@),
    {
        let mut sum: u64 = 0;
        let mut i: usize = 0;
        while i < self.asset.len()
            invariant
                0 <= i <= self.asset@.len(),
                portfolio_wf(self@),
                sum == total_ops_upto(self@, i as int),
            decreases self.asset@.len() - i,
        {
            proof {
                lemma_total_mono(self@, i + 1, self@.len() as int);
            }
            sum = sum + self.asset[i].op.len() as u64;
            i = i + 1;
        }
        sum
    }

    /// Records the purchase of `quantity` units of `symbol` at `price` cents
    /// on `date`: appended to the symbol's asset, which is created at the end
    /// of the portfolio if it is not held yet. A purchase with an empty
    /// symbol, no units, a zero price or a date off the calendar is refused,
    /// as is one beyond `MAX_TOTAL_OPS`.
    pub fn add(&mut self, symbol: String, quantity: u32, price: u32, date: Date) -> (r: Result<
        (),
        PortfolioError,
    >)
        requires
            portfolio_wf(old(self)@),
        ensures
            portfolio_wf(final(self)@),
            match add_error(old(self)@, symbol@, quantity, price, date) {
                Some(e) => r == Err::<(), PortfolioError>(e) && final(self)@ == old(self)@,
                None => r == Ok::<(), PortfolioError>(()) && final(self)@ == added(
                    old(self)@,
                    symbol@,
                    OpView { symbol: symbol@, quantity, price, date },
                ),
            },
    {
        let ghost pre = self@;
        let ghost o = OpView { symbol: symbol@, quantity, price, date };
        if symbol.as_str().is_empty() {
            return Err(PortfolioError::EmptySymbol);
        }
        if quantity == 0 {
            return Err(PortfolioError::ZeroQuantity);
        }
        if price == 0 {
            return Err(PortfolioError::ZeroPrice);
        }
        if !date.is_valid() {
            return Err(PortfolioError::BadDateFormat);
        }
        if self.total_count() >= MAX_TOTAL_OPS {
            return Err(PortfolioError::CapacityExceeded);
        }
        match self.position(&symbol) {
            Some(i) => {
                let mut a = self.asset.remove(i);
                let ghost old_ops = a@.ops;
                let op = AssetOp { symbol: symbol.clone(), quantity, price, date };
                a.op.push(op);
                assert(a@.ops =~= old_ops.push(o));
                self.asset.insert(i, a);
                assert(self@ =~= added(pre, symbol@, o));
                proof {
                    let post = self@;
                    lemma_total_update(pre, i as int, post[i as int], pre.len() as int);
                    assert(post =~= pre.update(i as int, post[i as int]));
                    assert forall|x: int, y: int|
                        0 <= x < post.len() && 0 <= y < post.len() && x != y implies #[trigger] post[x].symbol
                            != #[trigger] post[y].symbol by {
                        assert(post[x].symbol == pre[x].symbol);
                        assert(post[y].symbol == pre[y].symbol);
                    }
                    assert forall|x: int| 0 <= x < post.len() implies #[trigger] asset_wf(post[x]) by {
                        assert(asset_wf(pre[x]));
                        if x == i as int {
                            assert forall|k: int| 0 <= k < post[x].ops.len() implies (
                            #[trigger] post[x].ops[k]).symbol == post[x].symbol && op_wf(
                                post[x].ops[k],
                            ) by {
                                if k < old_ops.len() {
                                    assert(post[x].ops[k] == pre[x].ops[k]);
                                }
                            }
                        }
                    }
                }
                Ok(())
            },
            None => {
                let mut ops: Vec<AssetOp> = Vec::new();
                ops.push(AssetOp { symbol: symbol.clone(), quantity, price, date });
                let a = Asset { symbol, op: ops };
                assert(a@.ops =~= seq![o]);
                self.asset.push(a);
                assert(self@ =~= added(pre, o.symbol, o));
                proof {
                    let post = self@;
                    lemma_total_prefix(pre, post, pre.len() as int);
                    assert forall|x: int, y: int|
                        0 <= x < post.len() && 0 <= y < post.len() && x != y implies #[trigger] post[x].symbol
                            != #[trigger] post[y].symbol by {
                        if x < pre.len() && y < pre.len() {
                            assert(post[x] == pre[x]);
                            assert(post[y] == pre[y]);
                        } else if x < pre.len() {
                            assert(post[x] == pre[x]);
                        } else {
                            assert(post[y] == pre[y]);
                        }
                    }
                    assert forall|x: int| 0 <= x < post.len() implies #[trigger] asset_wf(post[x]) by {
                        if x < pre.len() {
                            assert(post[x] == pre[x]);
                        }
                    }
                }
                Ok(())
            },
        }
    }

    /// Removes the asset of `symbol` with all its purchases when `index` is
    /// `None`, or else only its `index`-th purchase (1-based), leaving the
    /// asset in place even when it is left empty.
    pub fn delete(&mut self, symbol: &String, index: Option<usize>) -> (r: Result<(), PortfolioError>)
        requires
            portfolio_wf(old(self)@),
        ensures
            portfolio_wf(final(self)@),
            !has_symbol(old(self)@, symbol@) ==> r == Err::<(), PortfolioError>(
                PortfolioError::NotFound,
            ),
            has_symbol(old(self)@, symbol@) && index.is_none() ==> r == Ok::<(), PortfolioError>(())
                && final(self)@ == without_asset(old(self)@, symbol@),
            has_symbol(old(self)@, symbol@) && index.is_some() && !index_in_range(
                old(self)@,
                symbol@,
                index.unwrap() as int,
            ) ==> r == Err::<(), PortfolioError>(PortfolioError::OutOfRange),
            has_symbol(old(self)@, symbol@) && index.is_some() && index_in_range(
                old(self)@,
                symbol@,
                index.unwrap() as int,
            ) ==> r == Ok::<(), PortfolioError>(()) && final(self)@ == without_op(
                old(self)@,
                symbol@,
                index.unwrap() as int,
            ),
            r.is_err() ==> final(self)@ == old(self)@,
    {
        let ghost pre = self@;
        let i = match self.position(symbol) {
            Some(i) => i,
            None => {
                return Err(PortfolioError::NotFound);
            },
        };
        match index {
            None => {
                let _removed = self.asset.remove(i);
                assert(self@ =~= without_asset(pre, symbol@));
                proof {
                    let post = self@;
                    lemma_total_remove(pre, i as int, pre.len() - 1);
                    lemma_total_mono(pre, i as int, i as int);
                    assert forall|x: int, y: int|
                        0 <= x < post.len() && 0 <= y < post.len() && x != y implies #[trigger] post[x].symbol
                            != #[trigger] post[y].symbol by {
                        let px = if x < i { x } else { x + 1 };
                        let py = if y < i { y } else { y + 1 };
                        assert(post[x] == pre[px]);
                        assert(post[y] == pre[py]);
                    }
                    assert forall|x: int| 0 <= x < post.len() implies #[trigger] asset_wf(post[x]) by {
                        let px = if x < i { x } else { x + 1 };
                        assert(post[x] == pre[px]);
                        assert(asset_wf(pre[px]));
                    }
                }
                Ok(())
            },
            Some(k) => {
                if k == 0 || k > self.asset[i].op.len() {
                    return Err(PortfolioError::OutOfRange);
                }
                let mut a = self.asset.remove(i);
                let ghost old_ops = a@.ops;
                let _op = a.op.remove(k - 1);
                assert(a@.ops =~= old_ops.remove(k - 1));
                self.asset.insert(i, a);
                assert(self@ =~= without_op(pre, symbol@, k as int));
                proof {
                    let post = self@;
                    lemma_total_update(pre, i as int, post[i as int], pre.len() as int);
                    assert(post =~= pre.update(i as int, post[i as int]));
                    assert forall|x: int, y: int|
                        0 <= x < post.len() && 0 <= y < post.len() && x != y implies #[trigger] post[x].symbol
                            != #[trigger] post[y].symbol by {
                        assert(post[x].symbol == pre[x].symbol);
                        assert(post[y].symbol == pre[y].symbol);
                    }
                    assert forall|x: int| 0 <= x < post.len() implies #[trigger] asset_wf(post[x]) by {
                        assert(asset_wf(pre[x]));
                        if x == i as int {
                            assert forall|j: int| 0 <= j < post[x].ops.len() implies (
                            #[trigger] post[x].ops[j]).symbol == post[x].symbol && op_wf(
                                post[x].ops[j],
                            ) by {
                                if j < k - 1 {
                                    assert(post[x].ops[j] == pre[x].ops[j]);
                                } else {
                                    assert(post[x].ops[j] == pre[x].ops[j + 1]);
                                }
                            }
                        }
                    }
                }
                Ok(())
            },
        }
    }

    /// The whole portfolio's performance, the asset at position `i` priced
    /// at `prices[i]` cents, and for each asset, in order, its report.
    pub fn report(&self, prices: &Vec<u32>) -> (r: (Performance, Vec<AssetReport>))
        requires
            portfolio_wf(self@),
            prices@.len() == self@.len(),
        ensures
            r.0@ == portfolio_perf(self@, prices@),
            r.0.wf(),
            r.0.invested_value <= value_max(),
            r.0.latest_value <= value_max(),
            r.1@.len() == self@.len(),
            forall|i: int|
                0 <= i < self@.len() ==> is_asset_report(
                    #[trigger] r.1@[i],
                    self@[i],
                    prices@[i] as int,
                    r.0@,
                ),
    {
        let total = self.performance(prices);
        let mut rows: Vec<AssetReport> = Vec::new();
        let mut i: usize = 0;
        while i < self.asset.len()
            invariant
                0 <= i <= self.asset@.len(),
                portfolio_wf(self@),
                prices@.len() == self@.len(),
                total.wf(),
                rows@.len() == i,
                forall|j: int|
                    0 <= j < i ==> is_asset_report(
                        #[trigger] rows@[j],
                        self@[j],
                        prices@[j] as int,
                        total@,
                    ),
            decreases self.asset@.len() - i,
        {
            proof {
                lemma_total_mono(self@, i + 1, self@.len() as int);
                lemma_total_mono(self@, i as int, i as int);
            }
            let a = &self.asset[i];
            let price = prices[i];
            let performance = a.performance(price);
            let w = weight(&performance, &total);
            let mut ops: Vec<Performance> = Vec::new();
            let mut k: usize = 0;
            while k < a.op.len()
                invariant
                    0 <= k <= a.op@.len(),
                    a@ == self@[i as int],
                    ops@.len() == k,
                    forall|m: int|
                        0 <= m < k ==> (#[trigger] ops@[m])@ == op_perf(a@.ops[m], price as int)
                            && ops@[m].wf() && ops@[m].invested_value <= value_max()
                            && ops@[m].latest_value <= value_max(),
                decreases a.op@.len() - k,
            {
                ops.push(a.op[k].performance(price));
                k = k + 1;
            }
            rows.push(AssetReport { performance, weight: w, ops });
            i = i + 1;
        }
        (total, rows)
    }
}

} // verus!
