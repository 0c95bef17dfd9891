use vstd::prelude::*;

verus! {

/// Largest unit count of one transaction.
pub open spec fn qty_max() -> int {
    u32::MAX as int
}

/// Largest price, in cents, of one unit.
pub open spec fn price_max() -> int {
    u32::MAX as int
}

/// Bound on the invested and current values under which the gain share is
/// computed without overflow.
pub open spec fn value_max() -> int {
    0x10_0000_0000_0000_0000_0000_0000
}

/// Largest invested or current value, in cents, of one transaction.
pub open spec fn op_value_max() -> int {
    qty_max() * price_max()
}

/// The mathematical content of a `Performance` record.
pub struct PerfView {
    pub invested: int,
    pub latest: int,
    pub gain: int,
    pub quantity: int,
}

/// The record with nothing invested: the start of every fold.
pub open spec fn zero_perf() -> PerfView {
    PerfView { invested: 0, latest: 0, gain: 0, quantity: 0 }
}

/// The performance of buying `quantity` units at `buying` when one unit is
/// now worth `current`.
pub open spec fn single_perf(quantity: int, buying: int, current: int) -> PerfView {
    PerfView {
        invested: quantity * buying,
        latest: quantity * current,
        gain: quantity * current - quantity * buying,
        quantity,
    }
}

/// The union of two records: the totals are summed and the gain is taken
/// again from the summed totals.
pub open spec fn combined(a: PerfView, b: PerfView) -> PerfView {
    PerfView {
        invested: a.invested + b.invested,
        latest: a.latest + b.latest,
        gain: (a.latest + b.latest) - (a.invested + b.invested),
        quantity: a.quantity + b.quantity,
    }
}

/// The gain as a share of the invested value, in hundredths of a percent,
/// rounded toward zero; `None` when nothing is invested.
pub open spec fn gain_perc_of(p: PerfView) -> Option<int> {
    if p.invested == 0 {
        None
    } else if p.gain >= 0 {
        Some((p.gain * 10000) / p.invested)
    } else {
        Some(-(((-p.gain) * 10000) / p.invested))
    }
}

/// Aggregate figures over a set of purchases. Values are in cents.
#[derive(Debug, Clone, Copy)]
pub struct Performance {
    pub invested_value: i128,
    pub latest_value: i128,
    pub gain: i128,
    pub quantity: u64,
}

impl View for Performance {
    type V = PerfView;

    open spec fn view(&self) -> PerfView {
        PerfView {
            invested: self.invested_value as int,
            latest: self.latest_value as int,
            gain: self.gain as int,
            quantity: self.quantity as int,
        }
    }
}

impl Performance {
    /// The gain is always the current value less the invested value.
    pub open spec fn wf(&self) -> bool {
        &&& self.gain == self.latest_value - self.invested_value
        &&& self.invested_value >= 0
        &&& self.latest_value >= 0
    }

    /// The empty record.
    pub fn zero() -> (r: Performance)
        ensures
            r@ == zero_perf(),
            r.wf(),
    {
        Performance { invested_value: 0, latest_value: 0, gain: 0, quantity: 0 }
    }

    /// The performance of one purchase of `quantity` units at `buying_price`
    /// against `current_price`, both in cents.
    pub fn new(quantity: u32, buying_price: u32, current_price: u32) -> (r: Performance)
        ensures
            r@ == single_perf(quantity as int, buying_price as int, current_price as int),
            r.wf(),
            r.invested_value <= op_value_max(),
            r.latest_value <= op_value_max(),
    {
        proof {
            assert(0 <= quantity as int * buying_price as int <= op_value_max()) by (nonlinear_arith)
                requires
                    quantity as int <= qty_max(),
                    buying_price as int <= price_max(),
            ;
            assert(0 <= quantity as int * current_price as int <= op_value_max()) by (nonlinear_arith)
                requires
                    quantity as int <= qty_max(),
                    current_price as int <= price_max(),
            ;
        }
        let invested_value: i128 = quantity as i128 * buying_price as i128;
        let latest_value: i128 = quantity as i128 * current_price as i128;
        Performance {
            invested_value,
            latest_value,
            gain: latest_value - invested_value,
            quantity: quantity as u64,
        }
    }

    /// Merges two records into the record of their union: the totals are
    /// summed and the gain is taken again from them, whatever gain the
    /// operands carried.
    pub fn add(self, rhs: Performance) -> (r: Performance)
        requires
            0 <= self.invested_value + rhs.invested_value <= i128::MAX,
            0 <= self.latest_value + rhs.latest_value <= i128::MAX,
            self.quantity + rhs.quantity <= u64::MAX,
        ensures
            r@ == combined(self@, rhs@),
            r.wf(),
    {
        let invested_value = self.invested_value + rhs.invested_value;
        let latest_value = self.latest_value + rhs.latest_value;
        Performance {
            invested_value,
            latest_value,
            gain: latest_value - invested_value,
            quantity: self.quantity + rhs.quantity,
        }
    }

    /// The gain as a share of the invested value, in hundredths of a
    /// percent rounded toward zero. A record with nothing invested has no
    /// such share and gives `None`, which the presentation shows as it sees
    /// fit.
    pub fn gain_perc(&self) -> (r: Option<i128>)
        requires
            self.wf(),
            self.invested_value <= value_max(),
            self.latest_value <= value_max(),
        ensures
            match gain_perc_of(self@) {
                None => r.is_none(),
                Some(v) => r == Some(v as i128),
            },
    {
        if self.invested_value == 0 {
            None
        } else {
            let neg = self.gain < 0;
            let g: u128 = if neg { (0 - self.gain) as u128 } else { self.gain as u128 };
            let inv: u128 = self.invested_value as u128;
            assert(g * 10000 <= value_max() * 10000) by (nonlinear_arith)
                requires g <= value_max();
            let q: u128 = (g * 10000) / inv;
            assert((g as int * 10000) / (inv as int) <= g as int * 10000) by (nonlinear_arith)
                requires inv >= 1, g >= 0;
            if neg {
                Some(0 - q as i128)
            } else {
                Some(q as i128)
            }
        }
    }
}

/// The share of `whole`'s current value that `part`'s current value makes,
/// in hundredths of a percent rounded down; `None` when `whole` is worth
/// nothing.
pub open spec fn weight_of(part: PerfView, whole: PerfView) -> Option<int> {
    if whole.latest == 0 {
        None
    } else {
        Some((part.latest * 10000) / whole.latest)
    }
}

/// The weight of an asset in the portfolio: its current value as a share of
/// the portfolio's, in hundredths of a percent.
pub fn weight(part: &Performance, whole: &Performance) -> (r: Option<i128>)
    requires
        part.wf(),
        whole.wf(),
        part.latest_value <= value_max(),
    ensures
        match weight_of(part@, whole@) {
            None => r.is_none(),
            Some(v) => r == Some(v as i128),
        },
{
    if whole.latest_value == 0 {
        None
    } else {
        let v: u128 = part.latest_value as u128;
        let w: u128 = whole.latest_value as u128;
        assert(v * 10000 <= value_max() * 10000) by (nonlinear_arith)
            requires v <= value_max();
        let q: u128 = (v * 10000) / w;
        assert((v as int * 10000) / (w as int) <= v as int * 10000) by (nonlinear_arith)
            requires w >= 1, v >= 0;
        Some(q as i128)
    }
}

/// Combining is commutative, and the gain of a union is its current value
/// less its invested value.
pub proof fn lemma_combine_commutative(a: PerfView, b: PerfView)
    ensures
        combined(a, b) == combined(b, a),
        combined(a, b).gain == combined(a, b).latest - combined(a, b).invested,
{
}

/// Combining is associative, for every figure including the recomputed gain.
pub proof fn lemma_combine_associative(a: PerfView, b: PerfView, c: PerfView)
    ensures
        combined(a, combined(b, c)) == combined(combined(a, b), c),
{
}

/// The empty record is the identity of combining.
pub proof fn lemma_combine_zero(a: PerfView)
    requires
        a.gain == a.latest - a.invested,
    ensures
        combined(zero_perf(), a) == a,
        combined(a, zero_perf()) == a,
{
}

} // verus!
