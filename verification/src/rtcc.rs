//! The 32-bit real time clock with capture.
//!
//! It runs on the 32.768 kHz low-frequency clock, counts up over its full range, and
//! wraps by an overflow. CC0 marks the half period, CC1 is the alarm.

pub mod laws;
pub mod registers;
pub mod start;

use std::borrow::Borrow;

use portable_atomic::AtomicU64;
use vstd::prelude::*;

use crate::alarm;
use crate::bits;
use crate::counter;
use crate::half_period;
use crate::half_period::{Edge, Pending, SkippedInterrupt};
use crate::rtcc::start::{Start, StartAction};

verus! {

/// The middle of the range of the counter.
pub const HALF_PERIOD: u32 = 0x8000_0000;

/// Ticks from one mark of the counter to the next.
pub open spec fn half() -> nat {
    HALF_PERIOD as nat
}

/// Ticks from one wrap of the counter to the next.
pub open spec fn period() -> nat {
    0x1_0000_0000
}

/// The time of a reading, in ticks. It wraps in 64 bits.
pub open spec fn ticks(half_periods: u64, cnt: u32) -> nat {
    half_period::time(half(), half_periods as nat, cnt as nat) % alarm::range_u64()
}

/// `now` is the time of a reading: of a count that was loaded from `half_periods`, and a
/// word that `read_cnt` gave.
pub open spec fn may_read<C: Borrow<AtomicU64>, F: FnOnce() -> u32>(
    half_periods: C,
    read_cnt: F,
    now: u64,
) -> bool {
    exists|count: u64, cnt: u32|
        #![trigger counter::loaded_u64(half_periods, count), call_ensures(read_cnt, (), cnt)]
        counter::loaded_u64(half_periods, count) && call_ensures(read_cnt, (), cnt) && now
            == ticks(count, cnt)
}

/// The marks that the flags in the register IF report.
pub open spec fn edges(flags: u32) -> Seq<Edge> {
    let first = if bits::has_bit(flags, registers::OF) {
        seq![Edge::FullPeriod]
    } else {
        Seq::empty()
    };
    if bits::has_bit(flags, registers::CC0) {
        first.push(Edge::HalfPeriod)
    } else {
        first
    }
}

/// The flag that reports `edge`.
pub open spec fn flag(edge: Edge) -> u32 {
    match edge {
        Edge::FullPeriod => registers::OF,
        Edge::HalfPeriod => registers::CC0,
    }
}

/// The outcome of counting `edge` after `prev` half periods. The count wraps.
pub open spec fn count_after(prev: u64, edge: Edge) -> Result<u64, SkippedInterrupt> {
    if half_period::expects(prev as nat, edge) {
        Ok(((prev + 1) as nat % alarm::range_u64()) as u64)
    } else {
        Err(SkippedInterrupt { half_periods: prev })
    }
}

/// The value of CC1_OCVALUE for `instant`, at the time `now`.
///
/// It is zero, the next wrap, where the instant is past, or a period or more away.
pub fn compute_compare_value(instant: u64, now: u64) -> (value: u32)
    ensures
        value == alarm::alarm_value(period(), instant, now),
        now <= instant < now + 0x1_0000_0000 ==> value == instant % 0x1_0000_0000,
        instant >= now + 0x1_0000_0000 ==> value == 0,
{
    if instant.wrapping_sub(now) <= u32::MAX as u64 {
        proof {
            assert(instant as u32 == instant % 0x1_0000_0000) by (bit_vector);
        }
        #[verifier::truncate]
        (instant as u32)
    } else {
        0
    }
}

/// The time of a reading, of a count that `half_periods` gives and a word of CNT that
/// `read_cnt` gives, in this order.
fn read_time<P: FnOnce() -> u64, F: FnOnce() -> u32>(half_periods: P, read_cnt: F) -> (now: u64)
    requires
        call_requires(half_periods, ()),
        forall|count: u64| #[trigger]
            call_ensures(half_periods, (), count) ==> call_requires(read_cnt, ()),
    ensures
        exists|count: u64, cnt: u32|
            #![trigger call_ensures(half_periods, (), count), call_ensures(read_cnt, (), cnt)]
            call_ensures(half_periods, (), count) && call_ensures(read_cnt, (), cnt) && now
                == ticks(count, cnt),
{
    let value = || -> (value: u32)
        requires
            call_requires(read_cnt, ()),
        ensures
            call_ensures(read_cnt, (), value),
        { registers::cnt_cnt(read_cnt()) };
    let wide: u128 = counter::calculate_now_u32(half_periods, value);
    proof {
        let (count, cnt) = choose|count: u64, cnt: u32|
            #![trigger call_ensures(half_periods, (), count), call_ensures(value, (), cnt)]
            call_ensures(half_periods, (), count) && call_ensures(value, (), cnt) && wide
                == half_period::time(counter::HALF_U32 as nat, count as nat, cnt as nat);
        assert(call_ensures(half_periods, (), count) && call_ensures(read_cnt, (), cnt));
        assert(wide as u64 == wide % 0x1_0000_0000_0000_0000) by (bit_vector);
        assert(wide % 0x1_0000_0000_0000_0000 == ticks(count, cnt));
    }
    #[verifier::truncate]
    (wide as u64)
}

/// The timer as the backend of a monotonic.
pub struct TimerBackend;

impl TimerBackend {
    /// The sequence of steps that starts the timer, before its first step.
    ///
    /// A timer is to be started only once: a start seeds the shared count anew.
    pub fn _start() -> (start: Start)
        ensures
            start.action == StartAction::EnableClock,
    {
        Start { action: StartAction::EnableClock }
    }

    /// Seeds the count of half periods from the word `cnt` of CNT, and gives back the seed.
    ///
    /// What the cell holds later is left unsaid: other code writes to it too. There
    /// is one store, since it uses `half_periods` up.
    pub fn seed<C: Borrow<AtomicU64>>(half_periods: C, cnt: u32) -> (count: u64)
        ensures
            count == half_period::seed(half(), cnt as nat),
            counter::stored_u64(half_periods, count),
            count == 1 <==> cnt >= 0x8000_0000,
            count == 0 <==> cnt < 0x8000_0000,
    {
        let count: u64 = if registers::cnt_cnt(cnt) >= HALF_PERIOD {
            1
        } else {
            0
        };
        counter::store_u64(half_periods, count);
        count
    }

    /// The current time, from the count of half periods and a read of CNT.
    ///
    /// `read_cnt` is called only once a count was loaded. Which count the load gives is left
    /// unsaid, since the interrupt handler changes it at any moment;
    /// [`TimerBackend::ticks_from`] gives the time for each count. The load uses `half_periods`
    /// up, and the read uses `read_cnt` up: there is one of each, the load first.
    pub fn now<C: Borrow<AtomicU64>, F: FnOnce() -> u32>(
        half_periods: C,
        read_cnt: F,
    ) -> (now: u64)
        requires
            forall|count: u64| #[trigger]
                counter::loaded_u64(half_periods, count) ==> call_requires(read_cnt, ()),
        ensures
            may_read(half_periods, read_cnt, now),
    {
        let count = || -> (count: u64)
            ensures
                counter::loaded_u64(half_periods, count),
            { counter::load_u64(half_periods) };
        read_time(count, read_cnt)
    }

    /// The time of a reading of `half_periods` and then of the word `cnt` of CNT.
    pub fn ticks_from(half_periods: u64, cnt: u32) -> (now: u64)
        ensures
            now == ticks(half_periods, cnt),
    {
        let count = || -> (count: u64)
            ensures
                count == half_periods,
            {
                return half_periods;
            };
        let word = || -> (word: u32)
            ensures
                word == cnt,
            {
                return cnt;
            };
        read_time(count, word)
    }

    /// The word for CC1_OCVALUE that sets the alarm for `instant`, from the word `word`, at
    /// the time that [`TimerBackend::now`] gives.
    ///
    /// There is one load of the count and then one read of CNT, as in [`TimerBackend::now`].
    pub fn set_compare<C: Borrow<AtomicU64>, F: FnOnce() -> u32>(
        half_periods: C,
        read_cnt: F,
        instant: u64,
        word: u32,
    ) -> (written: u32)
        requires
            forall|count: u64| #[trigger]
                counter::loaded_u64(half_periods, count) ==> call_requires(read_cnt, ()),
        ensures
            exists|now: u64| #[trigger]
                may_read(half_periods, read_cnt, now) && written == alarm::alarm_value(
                    period(),
                    instant,
                    now,
                ),
    {
        let now: u64 = Self::now(half_periods, read_cnt);
        registers::cc1_ocvalue_set_oc(word, compute_compare_value(instant, now))
    }

    /// The word for IF_CLR that clears the flag of the alarm, from the word `word`.
    pub fn clear_compare_flag(word: u32) -> (written: u32)
        ensures
            written == bits::with_bit(word, registers::CC1, true),
    {
        registers::if_set_cc1(word, true)
    }

    /// The word for IEN_SET that enables the alarm, from the word `word`.
    pub fn enable_timer(word: u32) -> (written: u32)
        ensures
            written == bits::with_bit(word, registers::CC1, true),
    {
        registers::ien_set_cc1(word, true)
    }

    /// The word for IEN_CLR that disables the alarm, from the word `word`.
    pub fn disable_timer(word: u32) -> (written: u32)
        ensures
            written == bits::with_bit(word, registers::CC1, true),
    {
        registers::ien_set_cc1(word, true)
    }

    /// The marks to count in an interrupt that finds `flags` in IF: the full period, then
    /// the half period. For each, its flag is cleared and then the mark is counted.
    pub fn on_interrupt(flags: u32) -> (pending: Pending)
        ensures
            pending@ == edges(flags),
    {
        Pending { full_period: registers::if_of(flags), half_period: registers::if_cc0(flags) }
    }

    /// The word for IF_CLR that clears the flag of `edge`, from the word `word`.
    pub fn acknowledge(word: u32, edge: Edge) -> (written: u32)
        ensures
            written == bits::with_bit(word, flag(edge), true),
    {
        match edge {
            Edge::FullPeriod => registers::if_set_of(word, true),
            Edge::HalfPeriod => registers::if_set_cc0(word, true),
        }
    }

    /// Counts a mark by adding one to the shared count, and gives the new count; an error
    /// where the count before was not one that expects this mark.
    ///
    /// Which count was there before is left unsaid; [`TimerBackend::count_from`] gives the
    /// result for each count. There is one add, since it uses `half_periods` up.
    pub fn count<C: Borrow<AtomicU64>>(
        half_periods: C,
        edge: Edge,
    ) -> (count: Result<u64, SkippedInterrupt>)
        ensures
            exists|prev: u64| #[trigger]
                counter::added_u64(half_periods, 1, prev) && count == count_after(prev, edge),
    {
        let prev: u64 = counter::fetch_add_u64(half_periods, 1);
        Self::count_from(prev, edge)
    }

    /// The count after `edge`, from the count `prev` before it; an error where `prev` does
    /// not expect `edge`.
    pub fn count_from(prev: u64, edge: Edge) -> (count: Result<u64, SkippedInterrupt>)
        ensures
            count == count_after(prev, edge),
    {
        if half_period::follows(prev, edge) {
            Ok(prev.wrapping_add(1))
        } else {
            Err(SkippedInterrupt { half_periods: prev })
        }
    }
}

} // verus!
