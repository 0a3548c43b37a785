//! Laws of the LETIMER as a time base.

use std::borrow::Borrow;

use portable_atomic::AtomicU32;
use vstd::prelude::*;

use crate::alarm;
use crate::bits;
use crate::counter;
use crate::half_period;
use crate::half_period::{Edge, SkippedInterrupt};
use crate::letimer;
use crate::letimer::registers;
use crate::letimer::start::{Start, StartAction, MAX_SPINS};
use crate::letimer::{Prescaler, CLOCK_HZ, HALF_PERIOD_CNT, HALF_PERIOD_UP, U24_MAX};

verus! {

/// The count and the word of CNT that can be read at the true time `t`: the counter is at
/// its position, and the count is the number of half periods passed, or one less where
/// the interrupt of the last mark is still pending.
pub open spec fn shows(t: nat, half_periods: u32, cnt: u32) -> bool {
    &&& letimer::up_count(cnt) == t % letimer::period()
    &&& half_periods == t / letimer::half() || half_periods + 1 == t / letimer::half()
}

/// A reading gives the true time.
pub proof fn lemma_now_is_true_time(t: nat, half_periods: u32, cnt: u32)
    requires
        shows(t, half_periods, cnt),
    ensures
        letimer::ticks(half_periods, cnt) == t,
{
    half_period::lemma_time_is_true(letimer::half(), t, half_periods as nat);
}

/// Counting from the seed, the time starts at the position of the counter.
pub proof fn lemma_seed_starts_in_step(cnt: u32)
    ensures
        letimer::ticks(
            half_period::seed(letimer::half(), letimer::up_count(cnt) as nat) as u32,
            cnt,
        ) == letimer::up_count(cnt),
{
    half_period::lemma_seed_starts_in_step(letimer::half(), letimer::up_count(cnt) as nat);
}

/// The count after all of `marks`, counted in order from `prev`; the error of the first
/// that does not fit.
pub open spec fn count_after_all(prev: u32, marks: Seq<Edge>) -> Result<u32, SkippedInterrupt>
    decreases marks.len(),
{
    if marks.len() == 0 {
        Ok(prev)
    } else {
        match count_after_all(prev, marks.drop_last()) {
            Ok(count) => letimer::count_after(count, marks.last()),
            Err(skipped) => Err(skipped),
        }
    }
}

/// Where the count is the number `k` of half periods passed, modulo its range, and the
/// next marks are reported in order, all of them are counted and the count is again the
/// number of half periods passed.
pub proof fn lemma_counting_keeps_step(k: nat, prev: u32, marks: Seq<Edge>)
    requires
        prev == k % 0x1_0000_0000,
        forall|i: int|
            0 <= i < marks.len() ==> #[trigger] marks[i] == half_period::edge_at(
                (k + 1 + i) as nat,
            ),
    ensures
        count_after_all(prev, marks) == Ok::<u32, SkippedInterrupt>(
            ((k + marks.len()) % 0x1_0000_0000) as u32,
        ),
    decreases marks.len(),
{
    if marks.len() > 0 {
        lemma_counting_keeps_step(k, prev, marks.drop_last());
        let passed = (k + marks.len() - 1) as nat;
        assert(marks.last() == half_period::edge_at((k + marks.len()) as nat));
        assert(half_period::edge_at(passed + 1) == half_period::edge_at((k + marks.len()) as nat));
        assert(half_period::expects(passed % 0x1_0000_0000, half_period::edge_at(passed + 1)));
        assert(((passed % 0x1_0000_0000) + 1) % 0x1_0000_0000 == (passed + 1) % 0x1_0000_0000);
    }
}

/// Where one mark went uncounted, the mark after it is an error.
pub proof fn lemma_skipped_mark_is_an_error(k: nat, prev: u32)
    requires
        prev == k % 0x1_0000_0000,
    ensures
        letimer::count_after(prev, half_period::edge_at(k + 2)) == Err::<u32, SkippedInterrupt>(
            SkippedInterrupt { half_periods: prev as u64 },
        ),
{
    assert((k % 0x1_0000_0000) % 2 == k % 2);
}

/// Clearing the flag of the alarm, by a write to IF_CLR, clears no flag of a mark.
pub proof fn lemma_clearing_alarm_keeps_marks(flags: u32)
    ensures
        ({
            let left = flags & !bits::with_bit(0, registers::COMP0, true);
            &&& letimer::edges(left) == letimer::edges(flags)
            &&& !bits::has_bit(left, registers::COMP0)
        }),
{
    let left = flags & !bits::with_bit(0, registers::COMP0, true);
    assert(bits::has_bit(left, registers::UF) == bits::has_bit(flags, registers::UF)
        && bits::has_bit(left, registers::COMP1) == bits::has_bit(flags, registers::COMP1)
        && !bits::has_bit(left, registers::COMP0)) by (bit_vector)
        requires
            left == flags & !bits::with_bit(0, registers::COMP0, true),
    ;
}

/// Clearing the flag of one mark, by a write to IF_CLR, leaves the flag of the other mark
/// and the flag of the alarm.
pub proof fn lemma_acknowledging_keeps_other_flags(flags: u32, edge: Edge, other: Edge)
    requires
        edge != other,
    ensures
        ({
            let left = flags & !bits::with_bit(0, letimer::flag(edge), true);
            &&& !letimer::edges(left).contains(edge)
            &&& letimer::edges(left).contains(other) == letimer::edges(flags).contains(other)
            &&& bits::has_bit(left, registers::COMP0) == bits::has_bit(flags, registers::COMP0)
        }),
{
    let left = flags & !bits::with_bit(0, letimer::flag(edge), true);
    lemma_edges_are_flags(flags);
    lemma_edges_are_flags(left);
    assert(!bits::has_bit(flags & !bits::with_bit(0, registers::UF, true), registers::UF)
        && bits::has_bit(flags & !bits::with_bit(0, registers::UF, true), registers::COMP1)
            == bits::has_bit(flags, registers::COMP1)
        && bits::has_bit(flags & !bits::with_bit(0, registers::UF, true), registers::COMP0)
            == bits::has_bit(flags, registers::COMP0)) by (bit_vector);
    assert(!bits::has_bit(flags & !bits::with_bit(0, registers::COMP1, true), registers::COMP1)
        && bits::has_bit(flags & !bits::with_bit(0, registers::COMP1, true), registers::UF)
            == bits::has_bit(flags, registers::UF)
        && bits::has_bit(flags & !bits::with_bit(0, registers::COMP1, true), registers::COMP0)
            == bits::has_bit(flags, registers::COMP0)) by (bit_vector);
}

/// A mark is reported just where its flag is set.
pub proof fn lemma_edges_are_flags(flags: u32)
    ensures
        forall|edge: Edge| #[trigger]
            letimer::edges(flags).contains(edge) == bits::has_bit(flags, letimer::flag(edge)),
{
    let first = if bits::has_bit(flags, registers::UF) {
        seq![Edge::FullPeriod]
    } else {
        Seq::<Edge>::empty()
    };
    if bits::has_bit(flags, registers::UF) {
        assert(letimer::edges(flags)[0] == Edge::FullPeriod);
    }
    if bits::has_bit(flags, registers::COMP1) {
        assert(letimer::edges(flags)[first.len() as int] == Edge::HalfPeriod);
    }
}

/// Enabling the alarm, by a write to IEN_SET, and disabling it, by a write to IEN_CLR, do
/// just that, and leave the interrupts of the marks as they are.
pub proof fn lemma_alarm_interrupt_leaves_time_base(ien: u32)
    ensures
        ({
            let on = ien | bits::with_bit(0, registers::COMP0, true);
            let off = ien & !bits::with_bit(0, registers::COMP0, true);
            &&& bits::has_bit(on, registers::COMP0)
            &&& !bits::has_bit(off, registers::COMP0)
            &&& forall|edge: Edge|
                bits::has_bit(on, #[trigger] letimer::flag(edge)) == bits::has_bit(
                    ien,
                    letimer::flag(edge),
                )
            &&& forall|edge: Edge|
                bits::has_bit(off, #[trigger] letimer::flag(edge)) == bits::has_bit(
                    ien,
                    letimer::flag(edge),
                )
        }),
{
    let alarm = bits::with_bit(0, registers::COMP0, true);
    assert(bits::has_bit(ien | alarm, registers::COMP0) && !bits::has_bit(
        ien & !alarm,
        registers::COMP0,
    ) && bits::has_bit(ien | alarm, registers::UF) == bits::has_bit(ien, registers::UF)
        && bits::has_bit(ien | alarm, registers::COMP1) == bits::has_bit(ien, registers::COMP1)
        && bits::has_bit(ien & !alarm, registers::UF) == bits::has_bit(ien, registers::UF)
        && bits::has_bit(ien & !alarm, registers::COMP1) == bits::has_bit(ien, registers::COMP1))
        by (bit_vector)
        requires
            alarm == bits::with_bit(0, registers::COMP0, true),
    ;
}

/// The start clears every flag that the timer uses, and enables the interrupts of both
/// marks and not that of the alarm.
pub proof fn lemma_start_sets_up_interrupts(start: Start, flags: u32)
    ensures
        start.action == StartAction::ClearFlags ==> {
            let left = flags & !start.filled(0);
            &&& letimer::edges(left).len() == 0
            &&& !bits::has_bit(left, registers::COMP0)
        },
        start.action == StartAction::EnableInterrupts ==> {
            let ien = start.filled(0);
            &&& forall|edge: Edge| bits::has_bit(ien, #[trigger] letimer::flag(edge))
            &&& !bits::has_bit(ien, registers::COMP0)
        },
{
    if start.action == StartAction::ClearFlags {
        let cleared = start.filled(0);
        assert(!bits::has_bit(flags & !cleared, registers::UF) && !bits::has_bit(
            flags & !cleared,
            registers::COMP1,
        ) && !bits::has_bit(flags & !cleared, registers::COMP0)) by (bit_vector)
            requires
                cleared == bits::with_bit(
                    bits::with_bit(
                        bits::with_bit(0, registers::UF, true),
                        registers::COMP0,
                        true,
                    ),
                    registers::COMP1,
                    true,
                ),
        ;
    }
    if start.action == StartAction::EnableInterrupts {
        let ien = start.filled(0);
        assert(bits::has_bit(ien, registers::UF) && bits::has_bit(ien, registers::COMP1)
            && !bits::has_bit(ien, registers::COMP0)) by (bit_vector)
            requires
                ien == bits::with_bit(
                    bits::with_bit(0, registers::UF, true),
                    registers::COMP1,
                    true,
                ),
        ;
    }
}

/// A time base that is right at time `t` is right at the next tick, where CNT reads `cnt`.
/// Before any interrupt the reading already gives the new time. Where the counter is at
/// a mark, the mark is counted without error, the count is again the number of half
/// periods passed, and the reading still gives the new time; elsewhere there is nothing
/// to count.
pub proof fn lemma_tick_keeps_time_base_right(t: nat, prev: u32, cnt: u32)
    requires
        prev == t / letimer::half(),
        t + 1 < 0x80_0000_0000_0000,
        letimer::up_count(cnt) == (t + 1) % letimer::period(),
    ensures
        letimer::ticks(prev, cnt) == t + 1,
        forall|edge: Edge|
            letimer::up_count(cnt) == #[trigger] half_period::value_at(letimer::half(), edge) ==> {
                &&& letimer::count_after(prev, edge) == Ok::<u32, SkippedInterrupt>(
                    (prev + 1) as u32,
                )
                &&& prev + 1 == (t + 1) / letimer::half()
                &&& letimer::ticks((prev + 1) as u32, cnt) == t + 1
            },
        (forall|edge: Edge|
            letimer::up_count(cnt) != #[trigger] half_period::value_at(letimer::half(), edge))
            ==> prev == (t + 1) / letimer::half(),
{
    half_period::lemma_tick_keeps_step(letimer::half(), t);
    lemma_now_is_true_time(t + 1, prev, cnt);
    let k = (t + 1) / letimer::half();
    if (t + 1) % letimer::half() == 0 {
        lemma_now_is_true_time(t + 1, (prev + 1) as u32, cnt);
        assert(letimer::up_count(cnt) == half_period::value_at(
            letimer::half(),
            half_period::edge_at(k),
        ));
    }
}

/// Of two readings at true times `t1` and `t2`, each with its last interrupt counted or
/// pending, the later one never gives the smaller time.
pub proof fn lemma_now_never_goes_back(
    t1: nat,
    half_periods1: u32,
    cnt1: u32,
    t2: nat,
    half_periods2: u32,
    cnt2: u32,
)
    requires
        t1 <= t2,
        shows(t1, half_periods1, cnt1),
        shows(t2, half_periods2, cnt2),
    ensures
        letimer::ticks(half_periods1, cnt1) <= letimer::ticks(half_periods2, cnt2),
{
    lemma_now_is_true_time(t1, half_periods1, cnt1);
    lemma_now_is_true_time(t2, half_periods2, cnt2);
}

/// COMP1 matches just where the up-counter is at its middle, and the timer has just begun
/// a new period where the up-counter is at zero.
pub proof fn lemma_marks_on_the_down_counter(cnt: u32)
    ensures
        bits::low24(cnt) == HALF_PERIOD_CNT <==> letimer::up_count(cnt) == half_period::value_at(
            letimer::half(),
            Edge::HalfPeriod,
        ),
        bits::low24(cnt) == U24_MAX <==> letimer::up_count(cnt) == half_period::value_at(
            letimer::half(),
            Edge::FullPeriod,
        ),
{
}

/// COMP0 matches CNT just where the up-counter is at the value of the alarm.
pub proof fn lemma_compare_matches_at_alarm_value(word: u32, instant: u64, now: u64, cnt: u32)
    ensures
        bits::low24(letimer::compare_word(word, instant, now)) == bits::low24(cnt)
            <==> letimer::up_count(cnt) == alarm::alarm_value(letimer::period(), instant, now),
{
    let target = (U24_MAX - alarm::alarm_value(letimer::period(), instant, now)) as u32;
    let base = (word - bits::low24(word)) as u32;
    let q = word / 0x0100_0000;
    assert(base == q * 0x0100_0000);
    assert((base + target) % 0x0100_0000 == target);
}

/// Set for an instant less than a period away, COMP0 matches the counter at the instant
/// and at no tick before it. `cnts` gives the words that CNT shows in the ticks from `now`
/// on.
pub proof fn lemma_compare_is_met_at_instant(
    word: u32,
    instant: u64,
    now: u64,
    cnts: spec_fn(nat) -> u32,
)
    requires
        alarm::distance(now, instant) < letimer::period(),
        forall|d: nat|
            letimer::up_count(#[trigger] cnts(d)) == alarm::later(now, d) % letimer::period(),
    ensures
        bits::low24(cnts(alarm::distance(now, instant))) == bits::low24(
            letimer::compare_word(word, instant, now),
        ),
        forall|d: nat|
            d < alarm::distance(now, instant) ==> bits::low24(#[trigger] cnts(d)) != bits::low24(
                letimer::compare_word(word, instant, now),
            ),
{
    let n = alarm::distance(now, instant);
    alarm::lemma_alarm_is_first_met_at_instant(letimer::period(), instant, now);
    lemma_compare_matches_at_alarm_value(word, instant, now, cnts(n));
    assert forall|d: nat| d < n implies bits::low24(#[trigger] cnts(d)) != bits::low24(
        letimer::compare_word(word, instant, now),
    ) by {
        lemma_compare_matches_at_alarm_value(word, instant, now, cnts(d));
        assert(alarm::later(now, d) % letimer::period() != alarm::alarm_value(
            letimer::period(),
            instant,
            now,
        ));
    }
}

/// Set for an instant that is past, or a period or more away, COMP0 matches the counter
/// at the next wrap, and at no tick between. `cnts` gives the words that CNT shows in the
/// ticks from `now` on.
pub proof fn lemma_parked_compare_is_met_at_next_wrap(
    word: u32,
    instant: u64,
    now: u64,
    cnts: spec_fn(nat) -> u32,
)
    requires
        alarm::distance(now, instant) >= letimer::period(),
        forall|d: nat|
            letimer::up_count(#[trigger] cnts(d)) == alarm::later(now, d) % letimer::period(),
    ensures
        ({
            let wrap = (letimer::period() - now as nat % letimer::period()) as nat;
            &&& letimer::up_count(cnts(wrap)) == 0
            &&& bits::low24(cnts(wrap)) == bits::low24(letimer::compare_word(word, instant, now))
            &&& forall|d: nat|
                0 < d < wrap ==> bits::low24(#[trigger] cnts(d)) != bits::low24(
                    letimer::compare_word(word, instant, now),
                )
        }),
{
    let wrap = (letimer::period() - now as nat % letimer::period()) as nat;
    alarm::lemma_parked_alarm_is_met_at_next_wrap(letimer::period(), instant, now);
    lemma_compare_matches_at_alarm_value(word, instant, now, cnts(wrap));
    assert forall|d: nat| 0 < d < wrap implies bits::low24(#[trigger] cnts(d)) != bits::low24(
        letimer::compare_word(word, instant, now),
    ) by {
        lemma_compare_matches_at_alarm_value(word, instant, now, cnts(d));
        assert(alarm::later(now, d) % letimer::period() != 0);
    }
}

/// No step of a start is skipped or repeated, except that the wait for a count goes on in
/// place, and that a start that is refused or done stays so.
pub proof fn lemma_start_takes_steps_in_order(start: Start, cnt: u32)
    requires
        start.wf(),
    ensures
        start.after(cnt).wf(),
        start.after(cnt).action.rank() == start.action.rank() + 1 || (start.after(cnt).action
            == start.action && (start.action == StartAction::AwaitCount || start.action
            == StartAction::RefuseTickRate || start.action == StartAction::Done)),
{
}

/// The steps that a start at a rate that the timer can run at still takes, at most.
pub open spec fn steps_left(start: Start) -> nat {
    (StartAction::Done.rank() - start.action.rank() + (MAX_SPINS - start.spins)) as nat
}

/// A start at a rate that the timer can run at gets done: each step brings it closer.
pub proof fn lemma_start_gets_done(start: Start, cnt: u32)
    requires
        start.wf(),
        start.prescaler is Some,
        start.action != StartAction::Done,
    ensures
        start.after(cnt).prescaler == start.prescaler,
        steps_left(start.after(cnt)) < steps_left(start),
{
}

/// A start at a rate that the timer cannot run at touches nothing but the clock.
pub proof fn lemma_refused_start_stays_refused(start: Start, counts: Seq<u32>)
    requires
        start.wf(),
        start.prescaler is None,
        counts.len() > 0,
    ensures
        start.after_all(counts).prescaler is None,
        start.after_all(counts).action == StartAction::RefuseTickRate,
    decreases counts.len(),
{
    reveal_with_fuel(Start::after_all, 2);
    if counts.len() > 1 {
        lemma_refused_start_stays_refused(start, counts.drop_last());
    }
}

/// The wait for a count goes on while it reads zero, until as many reads have been waited
/// out as there may be.
pub proof fn lemma_wait_goes_on_at_zero(start: Start, counts: Seq<u32>)
    requires
        start.action == StartAction::AwaitCount,
        start.spins + counts.len() <= MAX_SPINS,
        forall|i: int| 0 <= i < counts.len() ==> bits::low24(#[trigger] counts[i]) == 0,
    ensures
        start.after_all(counts) == (Start { spins: (start.spins + counts.len()) as u32, ..start }),
    decreases counts.len(),
{
    if counts.len() > 0 {
        lemma_wait_goes_on_at_zero(start, counts.drop_last());
        assert(bits::low24(counts[counts.len() - 1]) == 0);
    }
}

/// A start that still waits for a count has read nothing but zero, and not more often than
/// it may wait. So the wait ends at the first count that is not zero, and in any case
/// after a bounded number of reads.
pub proof fn lemma_wait_ends(start: Start, counts: Seq<u32>)
    requires
        start.wf(),
        start.action == StartAction::AwaitCount,
        start.after_all(counts).action == StartAction::AwaitCount,
    ensures
        forall|i: int| 0 <= i < counts.len() ==> bits::low24(#[trigger] counts[i]) == 0,
        start.spins + counts.len() <= MAX_SPINS,
        start.after_all(counts).spins == start.spins + counts.len(),
    decreases counts.len(),
{
    if counts.len() > 0 {
        let before = start.after_all(counts.drop_last());
        lemma_steps_keep_rank(start, counts.drop_last());
        assert(before.action == StartAction::AwaitCount);
        lemma_wait_ends(start, counts.drop_last());
        assert forall|i: int| 0 <= i < counts.len() implies bits::low24(
            #[trigger] counts[i],
        ) == 0 by {
            if i < counts.len() - 1 {
                assert(counts.drop_last()[i] == counts[i]);
            }
        }
    }
}

/// A start never goes back to an earlier step.
pub proof fn lemma_steps_keep_rank(start: Start, counts: Seq<u32>)
    requires
        start.wf(),
    ensures
        start.after_all(counts).wf(),
        start.after_all(counts).action.rank() >= start.action.rank(),
    decreases counts.len(),
{
    if counts.len() > 0 {
        lemma_steps_keep_rank(start, counts.drop_last());
        lemma_start_takes_steps_in_order(start.after_all(counts.drop_last()), counts.last());
    }
}

/// The numbers of the timer: 24 bits, marks at the half and at the whole of their range, a
/// clock of 32768 Hz, and a wait of a million zeros.
pub proof fn lemma_numbers_of_the_timer()
    ensures
        U24_MAX == 0x00ff_ffff,
        HALF_PERIOD_UP == 0x0080_0000,
        HALF_PERIOD_CNT == 0x007f_ffff,
        CLOCK_HZ == 32_768,
        MAX_SPINS == 1_000_000,
        letimer::half() == 0x0080_0000,
        letimer::period() == 0x0100_0000,
{
}

/// The places of the bits in the registers.
pub proof fn lemma_places_of_bits()
    ensures
        registers::CLKEN0_LETIMER0 == 12,
        registers::EN_EN == 0,
        registers::CMD_START == 0,
        registers::COMP0 == 0,
        registers::COMP1 == 1,
        registers::UF == 2,
        letimer::flag(Edge::FullPeriod) == 2,
        letimer::flag(Edge::HalfPeriod) == 1,
{
}

/// Up-counter and down-counter together always make the full range.
pub proof fn lemma_up_and_down_counter_add_up(cnt: u32)
    ensures
        letimer::up_count(cnt) + cnt % 0x0100_0000 == 0x00ff_ffff,
{
}

/// The time of a reading fits the raw word of CNT: the two add up to the full range, modulo
/// a period, and the time lies in the half period of the count or in the one after it.
pub proof fn lemma_time_fits_the_raw_counter(half_periods: u32, cnt: u32)
    ensures
        letimer::ticks(half_periods, cnt) % 0x0100_0000 + cnt % 0x0100_0000 == 0x00ff_ffff,
        letimer::ticks(half_periods, cnt) / 0x0080_0000 == half_periods || letimer::ticks(
            half_periods,
            cnt,
        ) / 0x0080_0000 == half_periods + 1,
{
    half_period::lemma_time_fits_the_reading(
        0x0080_0000,
        half_periods as nat,
        letimer::up_count(cnt) as nat,
    );
}

/// A reading gives the true time `t`, over the raw word of CNT: the counter has gone down
/// from its maximum by `t` ticks, modulo a period.
pub proof fn lemma_now_is_true_time_of_raw_counter(t: nat, half_periods: u32, cnt: u32)
    requires
        cnt % 0x0100_0000 == 0x00ff_ffff - t % 0x0100_0000,
        half_periods == t / 0x0080_0000 || half_periods + 1 == t / 0x0080_0000,
    ensures
        letimer::ticks(half_periods, cnt) == t,
{
    lemma_now_is_true_time(t, half_periods, cnt);
}

/// Where CNT goes down by one, the time of the reading goes up by one: within a period, and
/// with a count that is even or with no half-way mark between the two.
pub proof fn lemma_tick_of_counter_is_tick_of_time(half_periods: u32, cnt: u32, next: u32)
    requires
        next % 0x0100_0000 + 1 == cnt % 0x0100_0000,
        half_periods % 2 == 0 || next % 0x0100_0000 != 0x007f_ffff,
    ensures
        letimer::ticks(half_periods, next) == letimer::ticks(half_periods, cnt) + 1,
{
}

/// The compare word by where the instant lies, over the raw value of the down-counter: what
/// CNT shows at the instant, for one less than a period ahead; what CNT shows at the wrap,
/// for one in the past or further ahead. The bits above stay.
pub proof fn lemma_compare_word_by_where_the_instant_lies(word: u32, instant: u64, now: u64)
    ensures
        now <= instant < now + 0x0100_0000 ==> letimer::compare_word(word, instant, now)
            % 0x0100_0000 == 0x00ff_ffff - instant % 0x0100_0000,
        instant >= now + 0x0100_0000 ==> letimer::compare_word(word, instant, now) % 0x0100_0000
            == 0x00ff_ffff,
        instant < now && now - instant <= 0xffff_ffff_ff00_0000 ==> letimer::compare_word(
            word,
            instant,
            now,
        ) % 0x0100_0000 == 0x00ff_ffff,
        instant < now && now - instant > 0xffff_ffff_ff00_0000 ==> letimer::compare_word(
            word,
            instant,
            now,
        ) % 0x0100_0000 == 0x00ff_ffff - instant % 0x0100_0000,
        letimer::compare_word(word, instant, now) / 0x0100_0000 == word / 0x0100_0000,
{
    alarm::lemma_alarm_by_where_the_instant_lies(0x0100_0000, instant, now);
    bits::lemma_replacing_low24(
        word,
        (0x00ff_ffff - alarm::alarm_value(0x0100_0000, instant, now)) as u32,
    );
}

/// For an instant less than a period ahead, CNT and COMP0 are equal at the instant and at no
/// time from now until then; CNT at time `t` is `0xff_ffff - t`, modulo a period.
pub proof fn lemma_raw_counter_meets_compare_word_at_instant(
    word: u32,
    instant: u64,
    now: u64,
    t: u64,
)
    requires
        now <= t <= instant < now + 0x0100_0000,
    ensures
        letimer::compare_word(word, instant, now) % 0x0100_0000 == 0x00ff_ffff - t % 0x0100_0000
            <==> t == instant,
{
    lemma_compare_word_by_where_the_instant_lies(word, instant, now);
}

/// The marks that an interrupt reports, over the raw flags: the wrap where the digit of place
/// 4 is one, the half-way mark where that of place 2 is, the wrap first, and nothing else.
pub proof fn lemma_marks_over_raw_flags(flags: u32)
    ensures
        letimer::edges(flags) == (if (flags / 4) % 2 == 1 {
            seq![Edge::FullPeriod]
        } else {
            seq![]
        }) + (if (flags / 2) % 2 == 1 {
            seq![Edge::HalfPeriod]
        } else {
            seq![]
        }),
{
    assert((flags & (1u32 << 2) != 0 <==> (flags / 4) % 2 == 1) && (flags & (1u32 << 1) != 0 <==> (
    flags / 2) % 2 == 1)) by (bit_vector);
    assert(letimer::edges(flags) =~= (if (flags / 4) % 2 == 1 {
        seq![Edge::FullPeriod]
    } else {
        seq![]
    }) + (if (flags / 2) % 2 == 1 {
        seq![Edge::HalfPeriod]
    } else {
        seq![]
    }));
}

/// Each division has the power of two that its name says, and its code is the exponent.
pub proof fn lemma_prescalers_are_powers_of_two(prescaler: Prescaler)
    ensures
        prescaler.divisor() == vstd::arithmetic::power2::pow2(prescaler.code() as nat),
        prescaler.divisor() == (match prescaler {
            Prescaler::Div1 => 1nat,
            Prescaler::Div2 => 2,
            Prescaler::Div4 => 4,
            Prescaler::Div8 => 8,
            Prescaler::Div16 => 16,
            Prescaler::Div32 => 32,
            Prescaler::Div64 => 64,
            Prescaler::Div128 => 128,
        }),
{
    vstd::arithmetic::power2::lemma2_to64();
}

/// The field CNTPRESC is the four binary digits from place `2^16` on: setting it gives them
/// the code, and leaves the digits below and above.
pub proof fn lemma_cntpresc_is_four_digits(word: u32, code: u32)
    requires
        code < 16,
    ensures
        (registers::with_cntpresc(word, code) / 0x1_0000) % 16 == code,
        registers::with_cntpresc(word, code) % 0x1_0000 == word % 0x1_0000,
        registers::with_cntpresc(word, code) / 0x10_0000 == word / 0x10_0000,
{
    let r = registers::with_cntpresc(word, code);
    assert((r / 0x1_0000) % 16 == code && r % 0x1_0000 == word % 0x1_0000 && r / 0x10_0000 == word
        / 0x10_0000) by (bit_vector)
        requires
            r == (word & 0xfff0_ffff) | (code << 16),
            code < 16,
    ;
}

/// What each step that sets bits writes, digit by digit, whatever the prescaler and whatever
/// the word before: the bits of the step are one, every other bit stays.
pub proof fn lemma_start_sets_the_bits_of_its_step(start: Start, word: u32, bit: u32)
    requires
        bit < 32,
    ensures
        start.action == StartAction::EnableClock ==> (start.filled(word) >> bit) & 1 == (if bit
            == 12 {
            1
        } else {
            (word >> bit) & 1
        }),
        start.action == StartAction::EnableTimer ==> (start.filled(word) >> bit) & 1 == (if bit
            == 0 {
            1
        } else {
            (word >> bit) & 1
        }),
        start.action == StartAction::StartTimer ==> (start.filled(word) >> bit) & 1 == (if bit
            == 0 {
            1
        } else {
            (word >> bit) & 1
        }),
        start.action == StartAction::ClearFlags ==> (start.filled(word) >> bit) & 1 == (if bit
            <= 2 {
            1
        } else {
            (word >> bit) & 1
        }),
        start.action == StartAction::EnableInterrupts ==> (start.filled(word) >> bit) & 1 == (if bit
            == 1 || bit == 2 {
            1
        } else {
            (word >> bit) & 1
        }),
{
    bits::lemma_setting_a_bit_changes_its_digit_alone(word, 12, true, bit);
    bits::lemma_setting_a_bit_changes_its_digit_alone(word, 0, true, bit);
    let uf = bits::with_bit(word, 2, true);
    bits::lemma_setting_a_bit_changes_its_digit_alone(word, 2, true, bit);
    bits::lemma_setting_a_bit_changes_its_digit_alone(uf, 1, true, bit);
    bits::lemma_setting_a_bit_changes_its_digit_alone(uf, 0, true, bit);
    let both = bits::with_bit(uf, 0, true);
    bits::lemma_setting_a_bit_changes_its_digit_alone(both, 1, true, bit);
}

/// At every tick rate, COMP1 is set to match CNT just where the up-counter is in the middle
/// of its range, and the bits above the field stay.
pub proof fn lemma_start_marks_the_half_period(start: Start, word: u32, cnt: u32)
    requires
        start.action == StartAction::SetHalfPeriod,
    ensures
        bits::low24(start.filled(word)) == bits::low24(cnt) <==> letimer::up_count(cnt)
            == half_period::value_at(letimer::half(), Edge::HalfPeriod),
        start.filled(word) % 0x0100_0000 == cnt % 0x0100_0000 <==> 0x00ff_ffff - cnt % 0x0100_0000
            == 0x0080_0000,
        start.filled(word) / 0x0100_0000 == word / 0x0100_0000,
{
    bits::lemma_replacing_low24(word, 0x007f_ffff);
}

/// The step that sets the prescaler gives the field CNTPRESC the exponent of the division,
/// and leaves every other bit.
pub proof fn lemma_start_sets_the_prescaler(start: Start, prescaler: Prescaler, word: u32)
    requires
        start.action == StartAction::SetPrescaler,
        start.prescaler == Some(prescaler),
    ensures
        vstd::arithmetic::power2::pow2(((start.filled(word) / 0x1_0000) % 16) as nat)
            == prescaler.divisor(),
        start.filled(word) % 0x1_0000 == word % 0x1_0000,
        start.filled(word) / 0x10_0000 == word / 0x10_0000,
{
    lemma_prescalers_are_powers_of_two(prescaler);
    lemma_cntpresc_is_four_digits(word, prescaler.code());
}

/// A step that writes no register leaves a word as it is.
pub proof fn lemma_other_steps_write_nothing(start: Start, word: u32)
    ensures
        start.action == StartAction::RefuseTickRate || start.action == StartAction::AwaitCount
            || start.action == StartAction::SeedHalfPeriods || start.action
            == StartAction::InitializeQueue || start.action == StartAction::UnmaskInterrupt
            || start.action == StartAction::Done || (start.action == StartAction::SetPrescaler
            && start.prescaler is None) ==> start.filled(word) == word,
{
}

/// The order of the steps: the clock and the set-up come before the start, the count is
/// awaited after it, the flags are cleared before the count of half periods is seeded, and
/// the interrupts are enabled and unmasked only after that. The prescaler stays as it is.
pub proof fn lemma_start_order(start: Start, cnt: u32)
    ensures
        start.after(cnt).prescaler == start.prescaler,
        start.action != StartAction::AwaitCount ==> start.after(cnt).spins == start.spins,
        start.action == StartAction::AwaitCount && cnt % 0x0100_0000 == 0 && start.spins
            < 1_000_000 ==> start.after(cnt).action == StartAction::AwaitCount && start.after(
            cnt,
        ).spins == start.spins + 1,
        start.action == StartAction::AwaitCount && (cnt % 0x0100_0000 != 0 || start.spins
            >= 1_000_000) ==> start.after(cnt).action == StartAction::ClearFlags && start.after(
            cnt,
        ).spins == start.spins,
        start.action == StartAction::EnableClock ==> start.after(cnt).action == (
        if start.prescaler is Some {
            StartAction::SetPrescaler
        } else {
            StartAction::RefuseTickRate
        }),
        start.action == StartAction::SetPrescaler ==> start.after(cnt).action
            == StartAction::EnableTimer,
        start.action == StartAction::RefuseTickRate ==> start.after(cnt).action
            == StartAction::RefuseTickRate,
        start.action == StartAction::EnableTimer ==> start.after(cnt).action
            == StartAction::SetHalfPeriod,
        start.action == StartAction::SetHalfPeriod ==> start.after(cnt).action
            == StartAction::StartTimer,
        start.action == StartAction::StartTimer ==> start.after(cnt).action
            == StartAction::AwaitCount,
        start.action == StartAction::ClearFlags ==> start.after(cnt).action
            == StartAction::SeedHalfPeriods,
        start.action == StartAction::SeedHalfPeriods ==> start.after(cnt).action
            == StartAction::InitializeQueue,
        start.action == StartAction::InitializeQueue ==> start.after(cnt).action
            == StartAction::EnableInterrupts,
        start.action == StartAction::EnableInterrupts ==> start.after(cnt).action
            == StartAction::UnmaskInterrupt,
        start.action == StartAction::UnmaskInterrupt ==> start.after(cnt).action
            == StartAction::Done,
        start.action == StartAction::Done ==> start.after(cnt).action == StartAction::Done,
{
}

/// A mark is counted as one more half period, and only where it comes in its turn: the wrap
/// after an odd number of half periods, the half-way mark after an even number.
pub proof fn lemma_mark_counts_as_one_in_its_turn(prev: u32, edge: Edge)
    ensures
        letimer::count_after(prev, edge) is Ok <==> (edge == Edge::FullPeriod <==> prev % 2 == 1),
        letimer::count_after(prev, edge) matches Ok(count) ==> (count as nat + 0x1_0000_0000
            - prev) % 0x1_0000_0000 == 1,
        letimer::count_after(prev, edge) matches Err(skipped) ==> skipped.half_periods == prev,
{
}

/// The time that is read is of a count that was loaded and a word that was read: it fits
/// the raw word of CNT, and lies in the half period of that count or in the one after it.
pub proof fn lemma_now_fits_what_was_read<C: Borrow<AtomicU32>, F: FnOnce() -> u32>(
    half_periods: C,
    read_cnt: F,
    now: u64,
)
    requires
        letimer::may_read(half_periods, read_cnt, now),
    ensures
        exists|count: u32, cnt: u32|
            #![trigger counter::loaded_u32(half_periods, count), call_ensures(read_cnt, (), cnt)]
            counter::loaded_u32(half_periods, count) && call_ensures(read_cnt, (), cnt) && now
                % 0x0100_0000 + cnt % 0x0100_0000 == 0x00ff_ffff && (now / 0x0080_0000 == count
                || now / 0x0080_0000 == count + 1),
{
    let (count, cnt) = choose|count: u32, cnt: u32|
        #![trigger counter::loaded_u32(half_periods, count), call_ensures(read_cnt, (), cnt)]
        counter::loaded_u32(half_periods, count) && call_ensures(read_cnt, (), cnt) && now
            == letimer::ticks(count, cnt);
    lemma_time_fits_the_raw_counter(count, cnt);
    assert(counter::loaded_u32(half_periods, count) && call_ensures(read_cnt, (), cnt));
}

} // verus!
