//! The 24-bit low energy timer.
//!
//! It runs on the 32.768 kHz low-frequency clock, counts down from its maximum, and
//! wraps by an underflow. The time base sees it as the up-counter `U24_MAX - CNT`. COMP1
//! marks the half period, COMP0 is the alarm.

pub mod laws;
pub mod registers;
pub mod start;

use std::borrow::Borrow;

use portable_atomic::AtomicU32;
use vstd::prelude::*;

use crate::alarm;
use crate::bits;
use crate::counter;
use crate::half_period;
use crate::half_period::{Edge, Pending, SkippedInterrupt};
use crate::letimer::start::{Start, StartAction};

verus! {

/// The largest value of the counter.
pub const U24_MAX: u32 = 0x00ff_ffff;

/// The middle of the range, counting up.
pub const HALF_PERIOD_UP: u32 = 0x0080_0000;

/// The value that the down-counter has when the up-counter reaches `HALF_PERIOD_UP`.
pub const HALF_PERIOD_CNT: u32 = U24_MAX - HALF_PERIOD_UP;

/// The frequency of the clock that feeds the timer, in Hz.
pub const CLOCK_HZ: u32 = 32_768;

/// Ticks from one mark of the counter to the next.
pub open spec fn half() -> nat {
    HALF_PERIOD_UP as nat
}

/// Ticks from one wrap of the counter to the next.
pub open spec fn period() -> nat {
    0x0100_0000
}

/// A division of the clock that the timer offers.
#[derive(Clone, Copy, Debug, PartialEq, Eq, Structural)]
pub enum Prescaler {
    /// The clock itself.
    Div1,
    /// Half the clock.
    Div2,
    /// The clock over 4.
    Div4,
    /// The clock over 8.
    Div8,
    /// The clock over 16.
    Div16,
    /// The clock over 32.
    Div32,
    /// The clock over 64.
    Div64,
    /// The clock over 128.
    Div128,
}

impl Prescaler {
    /// Ticks of the clock for each tick of the timer.
    pub open spec fn divisor(self) -> nat {
        match self {
            Prescaler::Div1 => 1,
            Prescaler::Div2 => 2,
            Prescaler::Div4 => 4,
            Prescaler::Div8 => 8,
            Prescaler::Div16 => 16,
            Prescaler::Div32 => 32,
            Prescaler::Div64 => 64,
            Prescaler::Div128 => 128,
        }
    }

    /// The value of the field CNTPRESC for this division.
    pub open spec fn code(self) -> u32 {
        match self {
            Prescaler::Div1 => 0,
            Prescaler::Div2 => 1,
            Prescaler::Div4 => 2,
            Prescaler::Div8 => 3,
            Prescaler::Div16 => 4,
            Prescaler::Div32 => 5,
            Prescaler::Div64 => 6,
            Prescaler::Div128 => 7,
        }
    }

    /// The division that makes the timer run at `tick_rate_hz`, if there is one.
    pub fn for_tick_rate(tick_rate_hz: u32) -> (prescaler: Option<Prescaler>)
        ensures
            prescaler matches Some(p) ==> tick_rate_hz * p.divisor() == CLOCK_HZ,
            prescaler is None ==> forall|p: Prescaler|
                tick_rate_hz * (#[trigger] p.divisor()) != CLOCK_HZ,
    {
        match tick_rate_hz {
            32_768 => Some(Prescaler::Div1),
            16_384 => Some(Prescaler::Div2),
            8_192 => Some(Prescaler::Div4),
            4_096 => Some(Prescaler::Div8),
            2_048 => Some(Prescaler::Div16),
            1_024 => Some(Prescaler::Div32),
            512 => Some(Prescaler::Div64),
            256 => Some(Prescaler::Div128),
            _ => {
                proof {
                    assert forall|p: Prescaler|
                        tick_rate_hz * (#[trigger] p.divisor()) != CLOCK_HZ by {
                        let d = p.divisor();
                        assert(tick_rate_hz * d != 32_768) by (nonlinear_arith)
                            requires
                                d == 1 || d == 2 || d == 4 || d == 8 || d == 16 || d == 32 || d
                                    == 64 || d == 128,
                                tick_rate_hz != 32_768,
                                tick_rate_hz != 16_384,
                                tick_rate_hz != 8_192,
                                tick_rate_hz != 4_096,
                                tick_rate_hz != 2_048,
                                tick_rate_hz != 1_024,
                                tick_rate_hz != 512,
                                tick_rate_hz != 256,
                        ;
                    }
                }
                None
            },
        }
    }
}

/// The position of the counter, counting up, where the register CNT reads `cnt`.
pub open spec fn up_count(cnt: u32) -> u32 {
    (U24_MAX - bits::low24(cnt)) as u32
}

/// The time of a reading, in ticks.
pub open spec fn ticks(half_periods: u32, cnt: u32) -> nat {
    half_period::time(half(), half_periods as nat, up_count(cnt) as nat)
}

/// `now` is the time of a reading: of a count that was loaded from `half_periods`, and a
/// word that `read_cnt` gave.
pub open spec fn may_read<C: Borrow<AtomicU32>, F: FnOnce() -> u32>(
    half_periods: C,
    read_cnt: F,
    now: u64,
) -> bool {
    exists|count: u32, cnt: u32|
        #![trigger counter::loaded_u32(half_periods, count), call_ensures(read_cnt, (), cnt)]
        counter::loaded_u32(half_periods, count) && call_ensures(read_cnt, (), cnt) && now
            == ticks(count, cnt)
}

/// The word for COMP0 that sets the alarm for `instant`, from the word `word`.
pub open spec fn compare_word(word: u32, instant: u64, now: u64) -> u32 {
    bits::with_low24(word, (U24_MAX - alarm::alarm_value(period(), instant, now)) as u32)
}

/// The marks that the flags in the register IF report.
pub open spec fn edges(flags: u32) -> Seq<Edge> {
    let first = if bits::has_bit(flags, registers::UF) {
        seq![Edge::FullPeriod]
    } else {
        Seq::empty()
    };
    if bits::has_bit(flags, registers::COMP1) {
        first.push(Edge::HalfPeriod)
    } else {
        first
    }
}

/// The flag that reports `edge`.
pub open spec fn flag(edge: Edge) -> u32 {
    match edge {
        Edge::FullPeriod => registers::UF,
        Edge::HalfPeriod => registers::COMP1,
    }
}

/// The position of the counter, counting up.
fn position(cnt: u32) -> (up: u32)
    ensures
        up == up_count(cnt),
{
    U24_MAX - registers::cnt_cnt(cnt)
}

/// The time of a reading, of a count that `half_periods` gives and a word of CNT that
/// `read_cnt` gives, in this order.
///
/// The counter is presented as a 32-bit one: its 24 bits stand at the top of the word.
fn read_time<P: FnOnce() -> u32, F: FnOnce() -> u32>(half_periods: P, read_cnt: F) -> (now: u64)
    requires
        call_requires(half_periods, ()),
        forall|count: u32| #[trigger]
            call_ensures(half_periods, (), count) ==> call_requires(read_cnt, ()),
    ensures
        exists|count: u32, cnt: u32|
            #![trigger call_ensures(half_periods, (), count), call_ensures(read_cnt, (), cnt)]
            call_ensures(half_periods, (), count) && call_ensures(read_cnt, (), cnt) && now
                == ticks(count, cnt),
{
    let wide_count = || -> (wide: u64)
        ensures
            exists|count: u32| #[trigger]
                call_ensures(half_periods, (), count) && wide == count,
        { half_periods() as u64 };
    let aligned = || -> (value: u32)
        requires
            call_requires(read_cnt, ()),
        ensures
            exists|cnt: u32| #[trigger]
                call_ensures(read_cnt, (), cnt) && value == 256 * up_count(cnt),
        { 256 * position(read_cnt()) };
    let scaled: u128 = counter::calculate_now_u32(wide_count, aligned);
    proof {
        let (wide, value) = choose|wide: u64, value: u32|
            #![trigger call_ensures(wide_count, (), wide), call_ensures(aligned, (), value)]
            call_ensures(wide_count, (), wide) && call_ensures(aligned, (), value) && scaled
                == half_period::time(counter::HALF_U32 as nat, wide as nat, value as nat);
        let count = choose|count: u32| #[trigger]
            call_ensures(half_periods, (), count) && wide == count;
        let cnt = choose|cnt: u32| #[trigger]
            call_ensures(read_cnt, (), cnt) && value == 256 * up_count(cnt);
        half_period::lemma_time_scales(
            256,
            half(),
            count as nat,
            up_count(cnt) as nat,
        );
        assert(scaled == 256 * ticks(count, cnt));
        assert(call_ensures(half_periods, (), count) && call_ensures(read_cnt, (), cnt));
    }
    (scaled / 256) as u64
}

/// The timer as the backend of a monotonic.
pub struct TimerBackend;

impl TimerBackend {
    /// The sequence of steps that starts the timer, before its first step.
    ///
    /// A timer is to be started only once: a start seeds the shared count anew.
    pub fn _start(tick_rate_hz: u32) -> (start: Start)
        ensures
            start.wf(),
            start.action == StartAction::EnableClock,
            start.spins == 0,
            start.prescaler matches Some(p) ==> tick_rate_hz * p.divisor() == CLOCK_HZ,
            start.prescaler is None ==> forall|p: Prescaler|
                tick_rate_hz * (#[trigger] p.divisor()) != CLOCK_HZ,
    {
        Start {
            prescaler: Prescaler::for_tick_rate(tick_rate_hz),
            action: StartAction::EnableClock,
            spins: 0,
        }
    }

    /// Seeds the count of half periods from the word `cnt` of CNT, and gives back the seed.
    ///
    /// What the cell holds later is left unsaid: other code writes to it too. There
    /// is one store, since it uses `half_periods` up.
    pub fn seed<C: Borrow<AtomicU32>>(half_periods: C, cnt: u32) -> (count: u32)
        ensures
            count == half_period::seed(half(), up_count(cnt) as nat),
            counter::stored_u32(half_periods, count),
            count == 1 <==> cnt % 0x0100_0000 <= 0x007f_ffff,
            count == 0 <==> cnt % 0x0100_0000 > 0x007f_ffff,
    {
        let count: u32 = if position(cnt) >= HALF_PERIOD_UP {
            1
        } else {
            0
        };
        counter::store_u32(half_periods, count);
        count
    }

    /// The current time, from the count of half periods and a read of CNT.
    ///
    /// `read_cnt` is called only once a count was loaded. Which count the load gives is left
    /// unsaid, since the interrupt handler changes it at any moment;
    /// [`TimerBackend::ticks_from`] gives the time for each count. The load uses `half_periods`
    /// up, and the read uses `read_cnt` up: there is one of each, the load first.
    pub fn now<C: Borrow<AtomicU32>, F: FnOnce() -> u32>(
        half_periods: C,
        read_cnt: F,
    ) -> (now: u64)
        requires
            forall|count: u32| #[trigger]
                counter::loaded_u32(half_periods, count) ==> call_requires(read_cnt, ()),
        ensures
            may_read(half_periods, read_cnt, now),
    {
        let count = || -> (count: u32)
            ensures
                counter::loaded_u32(half_periods, count),
            { counter::load_u32(half_periods) };
        read_time(count, read_cnt)
    }

    /// The time of a reading of `half_periods` and then of the word `cnt` of CNT.
    pub fn ticks_from(half_periods: u32, cnt: u32) -> (now: u64)
        ensures
            now == ticks(half_periods, cnt),
    {
        let count = || -> (count: u32)
            ensures
                count == half_periods,
            {
                return half_periods;
            };
        let word = || -> (word: u32)
            ensures
                word == cnt,
            {
                return cnt;
            };
        read_time(count, word)
    }

    /// The word for COMP0 that sets the alarm for `instant`, from the word `word`, at the
    /// time that [`TimerBackend::now`] gives.
    ///
    /// There is one load of the count and then one read of CNT, as in [`TimerBackend::now`].
    pub fn set_compare<C: Borrow<AtomicU32>, F: FnOnce() -> u32>(
        half_periods: C,
        read_cnt: F,
        instant: u64,
        word: u32,
    ) -> (written: u32)
        requires
            forall|count: u32| #[trigger]
                counter::loaded_u32(half_periods, count) ==> call_requires(read_cnt, ()),
        ensures
            exists|now: u64| #[trigger]
                may_read(half_periods, read_cnt, now) && written == compare_word(
                    word,
                    instant,
                    now,
                ),
    {
        let now: u64 = Self::now(half_periods, read_cnt);
        Self::compare_from(word, instant, now)
    }

    /// The word for COMP0 that sets the alarm for `instant`, from the word `word`, at the
    /// time `now`.
    ///
    /// An instant that is past, or a period or more away, is parked at the wrap point.
    pub fn compare_from(word: u32, instant: u64, now: u64) -> (written: u32)
        ensures
            written == compare_word(word, instant, now),
    {
        let diff: u64 = instant.wrapping_sub(now);
        let up: u32 = if diff <= U24_MAX as u64 {
            proof {
                assert(instant & 0x00ff_ffff == instant % 0x0100_0000) by (bit_vector);
            }
            (instant & U24_MAX as u64) as u32
        } else {
            0
        };
        registers::comp0_set_comp0(word, U24_MAX - up)
    }

    /// The word for IF_CLR that clears the flag of the alarm, from the word `word`.
    pub fn clear_compare_flag(word: u32) -> (written: u32)
        ensures
            written == bits::with_bit(word, registers::COMP0, true),
    {
        registers::if_set_comp0(word, true)
    }

    /// The word for IEN_SET that enables the alarm, from the word `word`.
    pub fn enable_timer(word: u32) -> (written: u32)
        ensures
            written == bits::with_bit(word, registers::COMP0, true),
    {
        registers::ien_set_comp0(word, true)
    }

    /// The word for IEN_CLR that disables the alarm, from the word `word`.
    pub fn disable_timer(word: u32) -> (written: u32)
        ensures
            written == bits::with_bit(word, registers::COMP0, true),
    {
        registers::ien_set_comp0(word, true)
    }

    /// The marks to count in an interrupt that finds `flags` in IF: the full period, then
    /// the half period. For each, its flag is cleared and then the mark is counted.
    pub fn on_interrupt(flags: u32) -> (pending: Pending)
        ensures
            pending@ == edges(flags),
    {
        Pending { full_period: registers::if_uf(flags), half_period: registers::if_comp1(flags) }
    }

    /// The word for IF_CLR that clears the flag of `edge`, from the word `word`.
    pub fn acknowledge(word: u32, edge: Edge) -> (written: u32)
        ensures
            written == bits::with_bit(word, flag(edge), true),
    {
        match edge {
            Edge::FullPeriod => registers::if_set_uf(word, true),
            Edge::HalfPeriod => registers::if_set_comp1(word, true),
        }
    }

    /// Counts a mark by adding one to the shared count, and gives the new count; an error
    /// where the count before was not one that expects this mark.
    ///
    /// Which count was there before is left unsaid; [`TimerBackend::count_from`] gives the
    /// result for each count. There is one add, since it uses `half_periods` up.
    pub fn count<C: Borrow<AtomicU32>>(
        half_periods: C,
        edge: Edge,
    ) -> (count: Result<u32, SkippedInterrupt>)
        ensures
            exists|prev: u32| #[trigger]
                counter::added_u32(half_periods, 1, prev) && count == count_after(prev, edge),
    {
        let prev: u32 = counter::fetch_add_u32(half_periods, 1);
        Self::count_from(prev, edge)
    }

    /// The count after `edge`, from the count `prev` before it; an error where `prev` does
    /// not expect `edge`.
    pub fn count_from(prev: u32, edge: Edge) -> (count: Result<u32, SkippedInterrupt>)
        ensures
            count == count_after(prev, edge),
    {
        if half_period::follows(prev as u64, edge) {
            Ok(prev.wrapping_add(1))
        } else {
            Err(SkippedInterrupt { half_periods: prev as u64 })
        }
    }
}

/// The outcome of counting `edge` after `prev` half periods. The count wraps.
pub open spec fn count_after(prev: u32, edge: Edge) -> Result<u32, SkippedInterrupt> {
    if half_period::expects(prev as nat, edge) {
        Ok(((prev + 1) % 0x1_0000_0000) as u32)
    } else {
        Err(SkippedInterrupt { half_periods: prev as u64 })
    }
}

} // verus!
