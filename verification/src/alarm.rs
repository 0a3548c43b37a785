//! The value at which a compare channel is to fire for a given instant.
//!
//! Time is counted in 64 bits and wraps. A counter of a timer shows the time modulo its
//! period, and its compare channel fires each time the counter shows the compare value.

use vstd::arithmetic::div_mod::{
    lemma_fundamental_div_mod, lemma_mod_multiples_vanish, lemma_small_mod,
};
use vstd::prelude::*;

verus! {

/// The number of values of a 64-bit time.
pub open spec fn range_u64() -> nat {
    0x1_0000_0000_0000_0000
}

/// The ticks from `now` until the time next shows `instant`.
pub open spec fn distance(now: u64, instant: u64) -> nat {
    if instant >= now {
        (instant - now) as nat
    } else {
        (range_u64() + instant - now) as nat
    }
}

/// The time `d` ticks after `now`.
pub open spec fn later(now: u64, d: nat) -> nat {
    (now + d) as nat % range_u64()
}

/// The counter value to fire at for `instant`: its own position where it is less than a
/// period away; the wrap point where it is further away, or past.
pub open spec fn alarm_value(period: nat, instant: u64, now: u64) -> nat {
    if distance(now, instant) < period {
        instant as nat % period
    } else {
        0
    }
}

/// Periods that fit a whole number of times into the range of the time.
pub open spec fn divides_range(period: nat) -> bool {
    period > 0 && range_u64() % period == 0
}

/// The counter keeps its position over a wrap of the time.
proof fn lemma_later_position(period: nat, now: u64, d: nat)
    requires
        divides_range(period),
    ensures
        later(now, d) % period == (now + d) as nat % period,
{
    let x = (now + d) as int;
    let r = range_u64() as int;
    let q = r / (period as int);
    let w = x / r;
    lemma_fundamental_div_mod(r, period as int);
    lemma_fundamental_div_mod(x, r);
    assert(x == period * (q * w) + x % r) by (nonlinear_arith)
        requires
            r == period * q,
            x == r * w + x % r,
    ;
    lemma_mod_multiples_vanish(q * w, x % r, period as int);
}

/// Two times less than a period apart show different positions.
proof fn lemma_positions_differ(period: nat, x: nat, y: nat)
    requires
        period > 0,
        x < y < x + period,
    ensures
        x % period != y % period,
{
    lemma_fundamental_div_mod(x as int, period as int);
    lemma_fundamental_div_mod(y as int, period as int);
    let qx = x / period;
    let qy = y / period;
    assert(x % period != y % period) by (nonlinear_arith)
        requires
            x == period * qx + x % period,
            y == period * qy + y % period,
            x < y < x + period,
    ;
}

/// An alarm for an instant less than a period away is met at the instant, and at no
/// tick before it.
pub proof fn lemma_alarm_is_first_met_at_instant(period: nat, instant: u64, now: u64)
    requires
        divides_range(period),
        distance(now, instant) < period,
    ensures
        later(now, distance(now, instant)) == instant,
        later(now, distance(now, instant)) % period == alarm_value(period, instant, now),
        forall|d: nat|
            d < distance(now, instant) ==> #[trigger] later(now, d) % period != alarm_value(
                period,
                instant,
                now,
            ),
{
    let n = distance(now, instant);
    if instant >= now {
        lemma_small_mod(instant as nat, range_u64());
    } else {
        lemma_mod_multiples_vanish(1, instant as int, range_u64() as int);
        lemma_small_mod(instant as nat, range_u64());
    }
    lemma_later_position(period, now, n);
    assert forall|d: nat| d < n implies #[trigger] later(now, d) % period != alarm_value(
        period,
        instant,
        now,
    ) by {
        lemma_later_position(period, now, d);
        lemma_positions_differ(period, (now + d) as nat, (now + n) as nat);
    }
}

/// An alarm for an instant that is past, or a period or more away, is parked: it is met
/// at the next wrap of the counter, at most a period from now, and at no tick between.
pub proof fn lemma_parked_alarm_is_met_at_next_wrap(period: nat, instant: u64, now: u64)
    requires
        divides_range(period),
        distance(now, instant) >= period,
    ensures
        alarm_value(period, instant, now) == 0,
        ({
            let wrap = (period - now as nat % period) as nat;
            &&& 0 < wrap <= period
            &&& later(now, wrap) % period == alarm_value(period, instant, now)
            &&& forall|d: nat|
                0 < d < wrap ==> #[trigger] later(now, d) % period != alarm_value(
                    period,
                    instant,
                    now,
                )
        }),
{
    let wrap = (period - now as nat % period) as nat;
    let q = now as nat / period;
    lemma_fundamental_div_mod(now as int, period as int);
    assert(period * (q + 1) == period * q + period) by (nonlinear_arith);
    lemma_mod_multiples_vanish((q + 1) as int, 0, period as int);
    lemma_small_mod(0, period);
    lemma_later_position(period, now, wrap);
    assert forall|d: nat| 0 < d < wrap implies #[trigger] later(now, d) % period != 0 by {
        lemma_later_position(period, now, d);
        lemma_positions_differ(period, (now + d) as nat, (now + wrap) as nat);
    }
}

/// An instant in the past is parked, unless it is so far back that the time reaches it
/// again, after its wrap, in less than a period.
pub proof fn lemma_past_instant_is_parked(period: nat, instant: u64, now: u64)
    requires
        instant < now,
        now - instant + period <= range_u64(),
    ensures
        alarm_value(period, instant, now) == 0,
{
}

/// The distance is the least number of ticks after which the time shows the instant: below
/// the range of the time, and the plain difference where the instant is not before now.
pub proof fn lemma_distance_is_least(now: u64, instant: u64)
    ensures
        distance(now, instant) < 0x1_0000_0000_0000_0000,
        (now + distance(now, instant)) % 0x1_0000_0000_0000_0000 == instant,
        instant >= now ==> distance(now, instant) == instant - now,
        forall|d: nat|
            (#[trigger] (now + d)) % 0x1_0000_0000_0000_0000 == instant ==> d >= distance(
                now,
                instant,
            ),
{
    if instant >= now {
        lemma_small_mod(instant as nat, 0x1_0000_0000_0000_0000);
    } else {
        lemma_mod_multiples_vanish(1, instant as int, 0x1_0000_0000_0000_0000);
        lemma_small_mod(instant as nat, 0x1_0000_0000_0000_0000);
    }
}

/// The time goes on by one with each tick, and wraps at `2^64`.
pub proof fn lemma_later_counts_ticks(now: u64, d: nat)
    ensures
        later(now, 0) == now,
        later(now, d + 1) == (if later(now, d) == 0xffff_ffff_ffff_ffff {
            0
        } else {
            later(now, d) + 1
        }),
        later(now, d) == (now + d) % 0x1_0000_0000_0000_0000,
        range_u64() == 0x1_0000_0000_0000_0000,
{
}

/// The alarm by where the instant lies: an instant from now on and less than a period ahead
/// is set for its own position, and so is one that the time reaches over its wrap in less
/// than a period; every other one, in the past or further ahead, is parked at zero.
pub proof fn lemma_alarm_by_where_the_instant_lies(period: nat, instant: u64, now: u64)
    requires
        0 < period <= 0x1_0000_0000_0000_0000,
    ensures
        now <= instant < now + period ==> alarm_value(period, instant, now) == instant as nat
            % period,
        instant >= now + period ==> alarm_value(period, instant, now) == 0,
        instant < now && now - instant <= 0x1_0000_0000_0000_0000 - period ==> alarm_value(
            period,
            instant,
            now,
        ) == 0,
        instant < now && now - instant > 0x1_0000_0000_0000_0000 - period ==> alarm_value(
            period,
            instant,
            now,
        ) == instant as nat % period,
{
}

} // verus!
