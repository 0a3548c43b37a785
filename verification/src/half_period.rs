//! Time from a wrapping counter whose half periods are counted by interrupts.
//!
//! A counter runs through `2 * half` values and wraps. An interrupt comes at each
//! wrap and at each half-way mark, and each adds one to a count of half periods. So
//! the count is even while the counter is in its first half and odd while it is in
//! its second, except for the moment in which the counter has passed a mark and the
//! interrupt has not run yet. The parity tells the two apart, and a reading of count
//! and counter gives the time either way.

use vstd::arithmetic::div_mod::{
    lemma_fundamental_div_mod, lemma_fundamental_div_mod_converse, lemma_mod_breakdown,
};
use vstd::prelude::*;

verus! {

/// The time that `half_periods` and `value` stand for, in ticks.
///
/// Where `value` lies in the half that the parity of `half_periods` says, the time
/// lies in that half period; else the counter has already entered the next one.
pub open spec fn time(half: nat, half_periods: nat, value: nat) -> nat {
    let second_half = value >= half;
    let position = if second_half {
        (value - half) as nat
    } else {
        value
    };
    if (half_periods % 2 == 1) == second_half {
        half_periods * half + position
    } else {
        (half_periods + 1) * half + position
    }
}

/// A mark that the counter passes, and that an interrupt reports.
#[derive(Clone, Copy, Debug, PartialEq, Eq, Structural)]
pub enum Edge {
    /// The counter has wrapped.
    FullPeriod,
    /// The counter has reached the middle of its range.
    HalfPeriod,
}

/// The mark at which half period number `k` begins.
pub open spec fn edge_at(k: nat) -> Edge {
    if k % 2 == 0 {
        Edge::FullPeriod
    } else {
        Edge::HalfPeriod
    }
}

/// The value that the counter has at `edge`.
pub open spec fn value_at(half: nat, edge: Edge) -> nat {
    match edge {
        Edge::FullPeriod => 0,
        Edge::HalfPeriod => half,
    }
}

/// After `half_periods` half periods, `edge` can be the next mark.
pub open spec fn expects(half_periods: nat, edge: Edge) -> bool {
    match edge {
        Edge::FullPeriod => half_periods % 2 == 1,
        Edge::HalfPeriod => half_periods % 2 == 0,
    }
}

/// The count to start from while the counter is at `value`.
pub open spec fn seed(half: nat, value: nat) -> nat {
    if value >= half {
        1
    } else {
        0
    }
}

/// Two marks in a row were reported as one: an interrupt was lost.
#[derive(Clone, Copy, Debug, PartialEq, Eq, Structural)]
pub struct SkippedInterrupt {
    /// The half periods counted before the mark that did not fit.
    pub half_periods: u64,
}

/// Marks that one interrupt reports, in the order in which they are counted.
#[derive(Clone, Copy, Debug, PartialEq, Eq, Structural)]
pub struct Pending {
    /// The wrap is still to be counted.
    pub full_period: bool,
    /// The half-way mark is still to be counted.
    pub half_period: bool,
}

impl View for Pending {
    type V = Seq<Edge>;

    open spec fn view(&self) -> Seq<Edge> {
        let first = if self.full_period {
            seq![Edge::FullPeriod]
        } else {
            Seq::empty()
        };
        if self.half_period {
            first.push(Edge::HalfPeriod)
        } else {
            first
        }
    }
}

impl Pending {
    /// Takes the next mark to count, if any is left.
    pub fn next(&mut self) -> (edge: Option<Edge>)
        ensures
            edge is None <==> old(self)@.len() == 0,
            edge matches Some(e) ==> e == old(self)@.first() && final(self)@
                == old(self)@.drop_first(),
            edge is None ==> final(self)@ == old(self)@,
            edge == Some(Edge::FullPeriod) <==> old(self).full_period,
            edge == Some(Edge::HalfPeriod) <==> !old(self).full_period && old(self).half_period,
            !final(self).full_period,
            final(self).half_period == (old(self).full_period && old(self).half_period),
    {
        if self.full_period {
            self.full_period = false;
            Some(Edge::FullPeriod)
        } else if self.half_period {
            self.half_period = false;
            Some(Edge::HalfPeriod)
        } else {
            None
        }
    }
}

/// Tells whether `edge` can come next after `half_periods` half periods.
pub fn follows(half_periods: u64, edge: Edge) -> (fits: bool)
    ensures
        fits == expects(half_periods as nat, edge),
        fits <==> (edge == Edge::FullPeriod <==> half_periods % 2 == 1),
{
    match edge {
        Edge::FullPeriod => half_periods % 2 == 1,
        Edge::HalfPeriod => half_periods % 2 == 0,
    }
}

/// A reading gives the true time `t`, whether the interrupt for the half period that
/// `t` lies in has been counted already or is still pending.
pub proof fn lemma_time_is_true(half: nat, t: nat, half_periods: nat)
    requires
        half > 0,
        half_periods == t / half || half_periods + 1 == t / half,
    ensures
        time(half, half_periods, t % (2 * half)) == t,
{
    let k = t / half;
    lemma_fundamental_div_mod(t as int, half as int);
    lemma_mod_breakdown(t as int, half as int, 2);
    assert(half * 2 == 2 * half) by (nonlinear_arith);
    assert(t % (2 * half) == half * (k % 2) + t % half);
    assert(half * (k % 2) == if k % 2 == 1 { half } else { 0 }) by (nonlinear_arith)
        requires
            k % 2 == 0 || k % 2 == 1,
    ;
    assert(k * half == half * k) by (nonlinear_arith);
}

/// Of two readings, each with its interrupt counted or pending, the later one never
/// gives the smaller time.
pub proof fn lemma_time_never_goes_back(
    half: nat,
    t1: nat,
    half_periods1: nat,
    t2: nat,
    half_periods2: nat,
)
    requires
        half > 0,
        t1 <= t2,
        half_periods1 == t1 / half || half_periods1 + 1 == t1 / half,
        half_periods2 == t2 / half || half_periods2 + 1 == t2 / half,
    ensures
        time(half, half_periods1, t1 % (2 * half)) <= time(half, half_periods2, t2 % (2 * half)),
{
    lemma_time_is_true(half, t1, half_periods1);
    lemma_time_is_true(half, t2, half_periods2);
}

/// Counting from the seed, the time starts at the counter's own value: the seed is the
/// number of half periods that the counter shows, and a reading gives back the value.
pub proof fn lemma_seed_starts_in_step(half: nat, value: nat)
    requires
        half > 0,
        value < 2 * half,
    ensures
        seed(half, value) == value / half,
        time(half, seed(half, value), value) == value,
{
    if value >= half {
        lemma_fundamental_div_mod_converse(value as int, half as int, 1, value - half);
    } else {
        lemma_fundamental_div_mod_converse(value as int, half as int, 0, value as int);
    }
}

/// A count in step with the time stays in step over a tick. Where the tick reaches a
/// mark, the counter shows the value of that mark, the count expects it, and one more
/// half period has passed; where it does not, the counter shows the value of no mark
/// and no half period has passed.
pub proof fn lemma_tick_keeps_step(half: nat, t: nat)
    requires
        half > 0,
    ensures
        (t + 1) % half == 0 ==> {
            let k = (t + 1) / half;
            &&& k == t / half + 1
            &&& (t + 1) % (2 * half) == value_at(half, edge_at(k))
            &&& expects(t / half, edge_at(k))
        },
        (t + 1) % half != 0 ==> {
            &&& (t + 1) / half == t / half
            &&& (t + 1) % (2 * half) != value_at(half, Edge::FullPeriod)
            &&& (t + 1) % (2 * half) != value_at(half, Edge::HalfPeriod)
        },
{
    let k = (t + 1) / half;
    let r = (t + 1) % half;
    lemma_fundamental_div_mod((t + 1) as int, half as int);
    lemma_mod_breakdown((t + 1) as int, half as int, 2);
    assert(half * 2 == 2 * half) by (nonlinear_arith);
    assert(half * (k % 2) == if k % 2 == 1 { half } else { 0 }) by (nonlinear_arith)
        requires
            k % 2 == 0 || k % 2 == 1,
    ;
    if r == 0 {
        assert(half * k == (k - 1) * half + half) by (nonlinear_arith);
        assert(k >= 1) by (nonlinear_arith)
            requires
                half * k == t + 1,
        ;
        lemma_fundamental_div_mod_converse(t as int, half as int, k - 1, half - 1);
    } else {
        assert(half * k == k * half) by (nonlinear_arith);
        lemma_fundamental_div_mod_converse(t as int, half as int, k as int, r - 1);
    }
}

/// Once a mark goes uncounted, the mark after it is not the one that the count expects.
pub proof fn lemma_skipped_edge_is_noticed(k: nat)
    ensures
        !expects(k, edge_at(k + 2)),
{
}

/// A counter with its values and its half scaled by `n` gives the time scaled by `n`.
pub proof fn lemma_time_scales(n: nat, half: nat, half_periods: nat, value: nat)
    requires
        n > 0,
    ensures
        time(n * half, half_periods, n * value) == n * time(half, half_periods, value),
{
    assert((n * value >= n * half) == (value >= half)) by (nonlinear_arith)
        requires
            n > 0,
    ;
    assert(n * value - n * half == n * (value - half)) by (nonlinear_arith);
    let position = if value >= half {
        (value - half) as nat
    } else {
        value
    };
    assert(half_periods * (n * half) + n * position == n * (half_periods * half + position))
        by (nonlinear_arith);
    assert((half_periods + 1) * (n * half) + n * position == n * ((half_periods + 1) * half
        + position)) by (nonlinear_arith);
}

/// The time of a reading is one at which the counter shows the value read, in the half
/// period of the count or in the one after it. No other time is.
pub proof fn lemma_time_fits_the_reading(half: nat, half_periods: nat, value: nat)
    requires
        half > 0,
        value < 2 * half,
    ensures
        time(half, half_periods, value) % (2 * half) == value,
        time(half, half_periods, value) / half == half_periods || time(half, half_periods, value)
            / half == half_periods + 1,
        forall|t: nat|
            t % (2 * half) == value && (#[trigger] (t / half) == half_periods || t / half
                == half_periods + 1) ==> t == time(half, half_periods, value),
{
    let second_half = value >= half;
    let position = if second_half {
        (value - half) as nat
    } else {
        value
    };
    let k = if (half_periods % 2 == 1) == second_half {
        half_periods
    } else {
        half_periods + 1
    };
    let t = time(half, half_periods, value);
    assert(t == k * half + position);
    lemma_fundamental_div_mod_converse(t as int, half as int, k as int, position as int);
    let q = k / 2;
    assert(k * half + position == q * (2 * half) + value) by (nonlinear_arith)
        requires
            k == 2 * q + (if second_half { 1int } else { 0int }),
            value == position + (if second_half { half as int } else { 0int }),
    ;
    lemma_fundamental_div_mod_converse(t as int, (2 * half) as int, q as int, value as int);
    assert forall|u: nat|
        u % (2 * half) == value && (#[trigger] (u / half) == half_periods || u / half
            == half_periods + 1) implies u == time(half, half_periods, value) by {
        lemma_time_is_true(half, u, half_periods);
    }
}

/// A count expects the mark that lies ahead: the wrap where the next half period begins
/// with the counter at zero, the half-way mark where it begins with the counter at `half`.
pub proof fn lemma_expected_mark_is_the_one_ahead(half: nat, half_periods: nat)
    requires
        half > 0,
    ensures
        expects(half_periods, Edge::FullPeriod) <==> ((half_periods + 1) * half) % (2 * half)
            == 0,
        expects(half_periods, Edge::HalfPeriod) <==> ((half_periods + 1) * half) % (2 * half)
            == half,
{
    lemma_mark_position(half, half_periods + 1);
}

/// The position of the counter at the start of half period `k`: zero where `k` is even,
/// `half` where it is odd.
proof fn lemma_mark_position(half: nat, k: nat)
    requires
        half > 0,
    ensures
        (k * half) % (2 * half) == (if k % 2 == 0 {
            0
        } else {
            half
        }),
{
    let q = k / 2;
    let r: nat = if k % 2 == 0 {
        0
    } else {
        half
    };
    assert(k * half == q * (2 * half) + r) by (nonlinear_arith)
        requires
            k == 2 * q + k % 2,
            r == (if k % 2 == 0 { 0 } else { half }),
            k % 2 == 0 || k % 2 == 1,
    ;
    lemma_fundamental_div_mod_converse((k * half) as int, (2 * half) as int, q as int, r as int);
}

/// Half period `k` begins with the counter at the value of its mark, which is zero for a
/// wrap and `half` for a half-way mark.
pub proof fn lemma_mark_is_where_the_counter_is(half: nat, k: nat)
    requires
        half > 0,
    ensures
        value_at(half, edge_at(k)) == (k * half) % (2 * half),
        edge_at(k) == Edge::FullPeriod <==> (k * half) % (2 * half) == 0,
        value_at(half, Edge::FullPeriod) == 0,
        value_at(half, Edge::HalfPeriod) == half,
{
    lemma_mark_position(half, k);
}

/// What is pending lists a mark just where its field says so, the wrap first.
pub proof fn lemma_pending_marks(pending: Pending)
    ensures
        pending@.len() == (if pending.full_period {
            1nat
        } else {
            0
        }) + (if pending.half_period {
            1nat
        } else {
            0
        }),
        pending.full_period ==> pending@[0] == Edge::FullPeriod,
        pending.half_period ==> pending@[pending@.len() - 1] == Edge::HalfPeriod,
{
}

} // verus!
