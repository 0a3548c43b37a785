//! Laws of the RTCC as a time base.

use std::borrow::Borrow;

use portable_atomic::AtomicU64;
use vstd::prelude::*;

use crate::alarm;
use crate::bits;
use crate::counter;
use crate::half_period;
use crate::half_period::{Edge, SkippedInterrupt};
use crate::rtcc;
use crate::rtcc::registers;
use crate::rtcc::start::{Start, StartAction};

verus! {

/// The count and the word of CNT that can be read at the true time `t`: the counter is at
/// its position, and the count is the number of half periods passed, or one less where
/// the interrupt of the last mark is still pending.
pub open spec fn shows(t: nat, half_periods: u64, cnt: u32) -> bool {
    &&& cnt == t % rtcc::period()
    &&& half_periods == t / rtcc::half() || half_periods + 1 == t / rtcc::half()
}

/// A reading gives the true time, up to the wrap of the time.
pub proof fn lemma_now_is_true_time(t: nat, half_periods: u64, cnt: u32)
    requires
        shows(t, half_periods, cnt),
    ensures
        rtcc::ticks(half_periods, cnt) == t % alarm::range_u64(),
{
    half_period::lemma_time_is_true(rtcc::half(), t, half_periods as nat);
}

/// Counting from the seed, the time starts at the position of the counter.
pub proof fn lemma_seed_starts_in_step(cnt: u32)
    ensures
        rtcc::ticks(half_period::seed(rtcc::half(), cnt as nat) as u64, cnt) == cnt,
{
    half_period::lemma_seed_starts_in_step(rtcc::half(), cnt as nat);
}

/// The count after all of `marks`, counted in order from `prev`; the error of the first
/// that does not fit.
pub open spec fn count_after_all(prev: u64, marks: Seq<Edge>) -> Result<u64, SkippedInterrupt>
    decreases marks.len(),
{
    if marks.len() == 0 {
        Ok(prev)
    } else {
        match count_after_all(prev, marks.drop_last()) {
            Ok(count) => rtcc::count_after(count, marks.last()),
            Err(skipped) => Err(skipped),
        }
    }
}

/// Where the count is the number `k` of half periods passed, modulo its range, and the
/// next marks are reported in order, all of them are counted and the count is again the
/// number of half periods passed.
pub proof fn lemma_counting_keeps_step(k: nat, prev: u64, marks: Seq<Edge>)
    requires
        prev == k % alarm::range_u64(),
        forall|i: int|
            0 <= i < marks.len() ==> #[trigger] marks[i] == half_period::edge_at(
                (k + 1 + i) as nat,
            ),
    ensures
        count_after_all(prev, marks) == Ok::<u64, SkippedInterrupt>(
            ((k + marks.len()) % alarm::range_u64()) as u64,
        ),
    decreases marks.len(),
{
    if marks.len() > 0 {
        lemma_counting_keeps_step(k, prev, marks.drop_last());
        let passed = (k + marks.len() - 1) as nat;
        assert(marks.last() == half_period::edge_at((k + marks.len()) as nat));
        assert(half_period::edge_at(passed + 1) == half_period::edge_at((k + marks.len()) as nat));
        assert(half_period::expects(passed % alarm::range_u64(), half_period::edge_at(passed + 1)));
        assert(((passed % alarm::range_u64()) + 1) % alarm::range_u64() == (passed + 1)
            % alarm::range_u64());
    }
}

/// Where one mark went uncounted, the mark after it is an error.
pub proof fn lemma_skipped_mark_is_an_error(k: nat, prev: u64)
    requires
        prev == k % alarm::range_u64(),
    ensures
        rtcc::count_after(prev, half_period::edge_at(k + 2)) == Err::<u64, SkippedInterrupt>(
            SkippedInterrupt { half_periods: prev as u64 },
        ),
{
    assert((k % alarm::range_u64()) % 2 == k % 2);
}

/// Clearing the flag of the alarm, by a write to IF_CLR, clears no flag of a mark.
pub proof fn lemma_clearing_alarm_keeps_marks(flags: u32)
    ensures
        ({
            let left = flags & !bits::with_bit(0, registers::CC1, true);
            &&& rtcc::edges(left) == rtcc::edges(flags)
            &&& !bits::has_bit(left, registers::CC1)
        }),
{
    let left = flags & !bits::with_bit(0, registers::CC1, true);
    assert(bits::has_bit(left, registers::OF) == bits::has_bit(flags, registers::OF)
        && bits::has_bit(left, registers::CC0) == bits::has_bit(flags, registers::CC0)
        && !bits::has_bit(left, registers::CC1)) by (bit_vector)
        requires
            left == flags & !bits::with_bit(0, registers::CC1, true),
    ;
}

/// Clearing the flag of one mark, by a write to IF_CLR, leaves the flag of the other mark
/// and the flag of the alarm.
pub proof fn lemma_acknowledging_keeps_other_flags(flags: u32, edge: Edge, other: Edge)
    requires
        edge != other,
    ensures
        ({
            let left = flags & !bits::with_bit(0, rtcc::flag(edge), true);
            &&& !rtcc::edges(left).contains(edge)
            &&& rtcc::edges(left).contains(other) == rtcc::edges(flags).contains(other)
            &&& bits::has_bit(left, registers::CC1) == bits::has_bit(flags, registers::CC1)
        }),
{
    let left = flags & !bits::with_bit(0, rtcc::flag(edge), true);
    lemma_edges_are_flags(flags);
    lemma_edges_are_flags(left);
    assert(!bits::has_bit(flags & !bits::with_bit(0, registers::OF, true), registers::OF)
        && bits::has_bit(flags & !bits::with_bit(0, registers::OF, true), registers::CC0)
            == bits::has_bit(flags, registers::CC0)
        && bits::has_bit(flags & !bits::with_bit(0, registers::OF, true), registers::CC1)
            == bits::has_bit(flags, registers::CC1)) by (bit_vector);
    assert(!bits::has_bit(flags & !bits::with_bit(0, registers::CC0, true), registers::CC0)
        && bits::has_bit(flags & !bits::with_bit(0, registers::CC0, true), registers::OF)
            == bits::has_bit(flags, registers::OF)
        && bits::has_bit(flags & !bits::with_bit(0, registers::CC0, true), registers::CC1)
            == bits::has_bit(flags, registers::CC1)) by (bit_vector);
}

/// A mark is reported just where its flag is set.
pub proof fn lemma_edges_are_flags(flags: u32)
    ensures
        forall|edge: Edge| #[trigger]
            rtcc::edges(flags).contains(edge) == bits::has_bit(flags, rtcc::flag(edge)),
{
    let first = if bits::has_bit(flags, registers::OF) {
        seq![Edge::FullPeriod]
    } else {
        Seq::<Edge>::empty()
    };
    if bits::has_bit(flags, registers::OF) {
        assert(rtcc::edges(flags)[0] == Edge::FullPeriod);
    }
    if bits::has_bit(flags, registers::CC0) {
        assert(rtcc::edges(flags)[first.len() as int] == Edge::HalfPeriod);
    }
}

/// Enabling the alarm, by a write to IEN_SET, and disabling it, by a write to IEN_CLR, do
/// just that, and leave the interrupts of the marks as they are.
pub proof fn lemma_alarm_interrupt_leaves_time_base(ien: u32)
    ensures
        ({
            let on = ien | bits::with_bit(0, registers::CC1, true);
            let off = ien & !bits::with_bit(0, registers::CC1, true);
            &&& bits::has_bit(on, registers::CC1)
            &&& !bits::has_bit(off, registers::CC1)
            &&& forall|edge: Edge|
                bits::has_bit(on, #[trigger] rtcc::flag(edge)) == bits::has_bit(
                    ien,
                    rtcc::flag(edge),
                )
            &&& forall|edge: Edge|
                bits::has_bit(off, #[trigger] rtcc::flag(edge)) == bits::has_bit(
                    ien,
                    rtcc::flag(edge),
                )
        }),
{
    let alarm = bits::with_bit(0, registers::CC1, true);
    assert(bits::has_bit(ien | alarm, registers::CC1) && !bits::has_bit(
        ien & !alarm,
        registers::CC1,
    ) && bits::has_bit(ien | alarm, registers::OF) == bits::has_bit(ien, registers::OF)
        && bits::has_bit(ien | alarm, registers::CC0) == bits::has_bit(ien, registers::CC0)
        && bits::has_bit(ien & !alarm, registers::OF) == bits::has_bit(ien, registers::OF)
        && bits::has_bit(ien & !alarm, registers::CC0) == bits::has_bit(ien, registers::CC0))
        by (bit_vector)
        requires
            alarm == bits::with_bit(0, registers::CC1, true),
    ;
}

/// The start clears every flag that the timer uses, and enables the interrupts of both
/// marks and not that of the alarm.
pub proof fn lemma_start_sets_up_interrupts(start: Start, flags: u32)
    ensures
        start.action == StartAction::ClearFlags ==> {
            let left = flags & !start.filled(0);
            &&& rtcc::edges(left).len() == 0
            &&& !bits::has_bit(left, registers::CC1)
        },
        start.action == StartAction::EnableInterrupts ==> {
            let ien = start.filled(0);
            &&& forall|edge: Edge| bits::has_bit(ien, #[trigger] rtcc::flag(edge))
            &&& !bits::has_bit(ien, registers::CC1)
        },
{
    if start.action == StartAction::ClearFlags {
        let cleared = start.filled(0);
        assert(!bits::has_bit(flags & !cleared, registers::OF) && !bits::has_bit(
            flags & !cleared,
            registers::CC0,
        ) && !bits::has_bit(flags & !cleared, registers::CC1)) by (bit_vector)
            requires
                cleared == bits::with_bit(
                    bits::with_bit(
                        bits::with_bit(0, registers::OF, true),
                        registers::CC0,
                        true,
                    ),
                    registers::CC1,
                    true,
                ),
        ;
    }
    if start.action == StartAction::EnableInterrupts {
        let ien = start.filled(0);
        assert(bits::has_bit(ien, registers::OF) && bits::has_bit(ien, registers::CC0)
            && !bits::has_bit(ien, registers::CC1)) by (bit_vector)
            requires
                ien == bits::with_bit(
                    bits::with_bit(0, registers::OF, true),
                    registers::CC0,
                    true,
                ),
        ;
    }
}

/// A time base that is right at time `t` is right at the next tick, where CNT reads `cnt`.
/// Before any interrupt the reading already gives the new time. Where the counter is at
/// a mark, the mark is counted without error, the count is again the number of half
/// periods passed, and the reading still gives the new time; elsewhere there is nothing
/// to count.
pub proof fn lemma_tick_keeps_time_base_right(t: nat, prev: u64, cnt: u32)
    requires
        prev == t / rtcc::half(),
        t + 1 < alarm::range_u64(),
        cnt == (t + 1) % rtcc::period(),
    ensures
        rtcc::ticks(prev, cnt) == t + 1,
        forall|edge: Edge|
            cnt == #[trigger] half_period::value_at(rtcc::half(), edge) ==> {
                &&& rtcc::count_after(prev, edge) == Ok::<u64, SkippedInterrupt>(
                    (prev + 1) as u64,
                )
                &&& prev + 1 == (t + 1) / rtcc::half()
                &&& rtcc::ticks((prev + 1) as u64, cnt) == t + 1
            },
        (forall|edge: Edge|
            cnt != #[trigger] half_period::value_at(rtcc::half(), edge))
            ==> prev == (t + 1) / rtcc::half(),
{
    half_period::lemma_tick_keeps_step(rtcc::half(), t);
    lemma_now_is_true_time(t + 1, prev, cnt);
    let k = (t + 1) / rtcc::half();
    if (t + 1) % rtcc::half() == 0 {
        lemma_now_is_true_time(t + 1, (prev + 1) as u64, cnt);
        assert(cnt == half_period::value_at(
            rtcc::half(),
            half_period::edge_at(k),
        ));
    }
}

/// Of two readings at true times `t1` and `t2`, each with its last interrupt counted or
/// pending, the later one never gives the smaller time.
pub proof fn lemma_now_never_goes_back(
    t1: nat,
    half_periods1: u64,
    cnt1: u32,
    t2: nat,
    half_periods2: u64,
    cnt2: u32,
)
    requires
        t1 <= t2 < alarm::range_u64(),
        shows(t1, half_periods1, cnt1),
        shows(t2, half_periods2, cnt2),
    ensures
        rtcc::ticks(half_periods1, cnt1) <= rtcc::ticks(half_periods2, cnt2),
{
    lemma_now_is_true_time(t1, half_periods1, cnt1);
    lemma_now_is_true_time(t2, half_periods2, cnt2);
}

/// Set for an instant less than a period away, the compare value matches the counter at
/// the instant and at no tick before it.
pub proof fn lemma_compare_is_met_at_instant(instant: u64, now: u64)
    requires
        alarm::distance(now, instant) < rtcc::period(),
    ensures
        alarm::later(now, alarm::distance(now, instant)) == instant,
        instant as nat % rtcc::period() == alarm::alarm_value(rtcc::period(), instant, now),
        forall|d: nat|
            d < alarm::distance(now, instant) ==> #[trigger] alarm::later(now, d) % rtcc::period()
                != alarm::alarm_value(rtcc::period(), instant, now),
{
    alarm::lemma_alarm_is_first_met_at_instant(rtcc::period(), instant, now);
}

/// Set for an instant that is past, or a period or more away, the compare value matches the
/// counter at the next wrap, and at no tick between.
pub proof fn lemma_parked_compare_is_met_at_next_wrap(instant: u64, now: u64)
    requires
        alarm::distance(now, instant) >= rtcc::period(),
    ensures
        ({
            let wrap = (rtcc::period() - now as nat % rtcc::period()) as nat;
            &&& 0 < wrap <= rtcc::period()
            &&& alarm::later(now, wrap) % rtcc::period() == 0
            &&& alarm::alarm_value(rtcc::period(), instant, now) == 0
            &&& forall|d: nat|
                0 < d < wrap ==> #[trigger] alarm::later(now, d) % rtcc::period() != 0
        }),
{
    alarm::lemma_parked_alarm_is_met_at_next_wrap(rtcc::period(), instant, now);
}

/// The place of a step tells the step.
pub proof fn lemma_start_steps_have_their_own_place(a: StartAction, b: StartAction)
    requires
        a.rank() == b.rank(),
    ensures
        a == b,
{
}

/// The numbers of the timer: 32 bits, marks at the half and at the whole of their range.
pub proof fn lemma_numbers_of_the_timer()
    ensures
        rtcc::HALF_PERIOD == 0x8000_0000,
        rtcc::half() == 0x8000_0000,
        rtcc::period() == 0x1_0000_0000,
{
}

/// The places of the bits in the registers, and the codes of the modes of a channel.
pub proof fn lemma_places_of_bits()
    ensures
        registers::CLKEN0_RTCC == 30,
        registers::EN_EN == 0,
        registers::CMD_START == 0,
        registers::OF == 0,
        registers::CC0 == 4,
        registers::CC1 == 6,
        rtcc::flag(Edge::FullPeriod) == 0,
        rtcc::flag(Edge::HalfPeriod) == 4,
        registers::ChannelMode::Off.code() == 0,
        registers::ChannelMode::InputCapture.code() == 1,
        registers::ChannelMode::OutputCompare.code() == 2,
{
}

/// The time of a reading fits the word of CNT: it shows the word, modulo a period, and lies
/// in the half period of the count or in the one after it, modulo the range of the time.
pub proof fn lemma_time_fits_the_raw_counter(half_periods: u64, cnt: u32)
    ensures
        rtcc::ticks(half_periods, cnt) < 0x1_0000_0000_0000_0000,
        rtcc::ticks(half_periods, cnt) % 0x1_0000_0000 == cnt,
        rtcc::ticks(half_periods, cnt) / 0x8000_0000 == half_periods % 0x2_0000_0000 || rtcc::ticks(
            half_periods,
            cnt,
        ) / 0x8000_0000 == (half_periods + 1) % 0x2_0000_0000,
{
    let t = half_period::time(0x8000_0000, half_periods as nat, cnt as nat);
    half_period::lemma_time_fits_the_reading(0x8000_0000, half_periods as nat, cnt as nat);
    let k = t / 0x8000_0000;
    assert((t % 0x1_0000_0000_0000_0000) / 0x8000_0000 == k % 0x2_0000_0000);
}

/// Where CNT goes up by one, the time of the reading goes up by one: within a period, and
/// with a count that is even or with no half-way mark between the two, up to the wrap of
/// the time.
pub proof fn lemma_tick_of_counter_is_tick_of_time(half_periods: u64, cnt: u32, next: u32)
    requires
        next == cnt + 1,
        half_periods % 2 == 0 || next != 0x8000_0000,
    ensures
        rtcc::ticks(half_periods, next) == (rtcc::ticks(half_periods, cnt) + 1)
            % 0x1_0000_0000_0000_0000,
{
}

/// The compare value by where the instant lies: the value that the counter shows at the
/// instant, for one less than a period ahead; zero, the wrap, for one in the past or
/// further ahead.
pub proof fn lemma_compare_value_by_where_the_instant_lies(instant: u64, now: u64)
    ensures
        now <= instant < now + 0x1_0000_0000 ==> alarm::alarm_value(rtcc::period(), instant, now)
            == instant % 0x1_0000_0000,
        instant >= now + 0x1_0000_0000 ==> alarm::alarm_value(rtcc::period(), instant, now) == 0,
        instant < now && now - instant <= 0xffff_ffff_0000_0000 ==> alarm::alarm_value(
            rtcc::period(),
            instant,
            now,
        ) == 0,
        instant < now && now - instant > 0xffff_ffff_0000_0000 ==> alarm::alarm_value(
            rtcc::period(),
            instant,
            now,
        ) == instant % 0x1_0000_0000,
{
    alarm::lemma_alarm_by_where_the_instant_lies(0x1_0000_0000, instant, now);
}

/// For an instant less than a period ahead, the counter and the compare value are equal at
/// the instant and at no time from now until then.
pub proof fn lemma_raw_counter_meets_compare_value_at_instant(instant: u64, now: u64, t: u64)
    requires
        now <= t <= instant < now + 0x1_0000_0000,
    ensures
        alarm::alarm_value(rtcc::period(), instant, now) == t % 0x1_0000_0000 <==> t == instant,
{
    lemma_compare_value_by_where_the_instant_lies(instant, now);
}

/// The marks that an interrupt reports, over the raw flags: the wrap where the digit of place
/// 1 is one, the half-way mark where that of place 16 is, the wrap first, and nothing else.
pub proof fn lemma_marks_over_raw_flags(flags: u32)
    ensures
        rtcc::edges(flags) == (if flags % 2 == 1 {
            seq![Edge::FullPeriod]
        } else {
            seq![]
        }) + (if (flags / 16) % 2 == 1 {
            seq![Edge::HalfPeriod]
        } else {
            seq![]
        }),
{
    assert((flags & (1u32 << 0) != 0 <==> flags % 2 == 1) && (flags & (1u32 << 4) != 0 <==> (flags
        / 16) % 2 == 1)) by (bit_vector);
    assert(rtcc::edges(flags) =~= (if flags % 2 == 1 {
        seq![Edge::FullPeriod]
    } else {
        seq![]
    }) + (if (flags / 16) % 2 == 1 {
        seq![Edge::HalfPeriod]
    } else {
        seq![]
    }));
}

/// The field MODE is the two lowest binary digits: setting it gives them the code, and leaves
/// the digits above.
pub proof fn lemma_mode_is_two_digits(word: u32, code: u32)
    requires
        code < 4,
    ensures
        registers::with_mode(word, code) % 4 == code,
        registers::with_mode(word, code) / 4 == word / 4,
{
    let r = registers::with_mode(word, code);
    assert(r % 4 == code && r / 4 == word / 4) by (bit_vector)
        requires
            r == (word & 0xffff_fffc) | code,
            code < 4,
    ;
}

/// What each step that sets bits writes, digit by digit, whatever the word before: the bits
/// of the step are one, every other bit stays.
pub proof fn lemma_start_sets_the_bits_of_its_step(start: Start, word: u32, bit: u32)
    requires
        bit < 32,
    ensures
        start.action == StartAction::EnableClock ==> (start.filled(word) >> bit) & 1 == (if bit
            == 30 {
            1
        } else {
            (word >> bit) & 1
        }),
        start.action == StartAction::EnableTimer ==> (start.filled(word) >> bit) & 1 == (if bit
            == 0 {
            1
        } else {
            (word >> bit) & 1
        }),
        start.action == StartAction::StartTimer ==> (start.filled(word) >> bit) & 1 == (if bit
            == 0 {
            1
        } else {
            (word >> bit) & 1
        }),
        start.action == StartAction::ClearFlags ==> (start.filled(word) >> bit) & 1 == (if bit == 0
            || bit == 4 || bit == 6 {
            1
        } else {
            (word >> bit) & 1
        }),
        start.action == StartAction::EnableInterrupts ==> (start.filled(word) >> bit) & 1 == (if bit
            == 0 || bit == 4 {
            1
        } else {
            (word >> bit) & 1
        }),
{
    bits::lemma_setting_a_bit_changes_its_digit_alone(word, 30, true, bit);
    bits::lemma_setting_a_bit_changes_its_digit_alone(word, 0, true, bit);
    let of = bits::with_bit(word, 0, true);
    bits::lemma_setting_a_bit_changes_its_digit_alone(of, 4, true, bit);
    let both = bits::with_bit(of, 4, true);
    bits::lemma_setting_a_bit_changes_its_digit_alone(both, 6, true, bit);
}

/// The steps that set up the two channels: both compare with the counter, their other bits
/// stay, and the first fires in the middle of the range.
pub proof fn lemma_start_sets_up_the_channels(start: Start, word: u32)
    ensures
        start.action == StartAction::SetHalfPeriodMode || start.action == StartAction::SetAlarmMode
            ==> start.filled(word) % 4 == 2 && start.filled(word) / 4 == word / 4,
        start.action == StartAction::SetHalfPeriod ==> start.filled(word) == 0x8000_0000,
{
    lemma_mode_is_two_digits(word, 2);
}

/// A step that writes no register leaves a word as it is.
pub proof fn lemma_other_steps_write_nothing(start: Start, word: u32)
    ensures
        start.action == StartAction::SeedHalfPeriods || start.action
            == StartAction::InitializeQueue || start.action == StartAction::UnmaskInterrupt
            || start.action == StartAction::Done ==> start.filled(word) == word,
{
}

/// A mark is counted as one more half period, and only where it comes in its turn: the wrap
/// after an odd number of half periods, the half-way mark after an even number.
pub proof fn lemma_mark_counts_as_one_in_its_turn(prev: u64, edge: Edge)
    ensures
        rtcc::count_after(prev, edge) is Ok <==> (edge == Edge::FullPeriod <==> prev % 2 == 1),
        rtcc::count_after(prev, edge) matches Ok(count) ==> (count as nat + 0x1_0000_0000_0000_0000
            - prev) % 0x1_0000_0000_0000_0000 == 1,
        rtcc::count_after(prev, edge) matches Err(skipped) ==> skipped.half_periods == prev,
{
}

/// The time that is read is of a count that was loaded and a word that was read: it fits
/// the raw word of CNT, and lies in the half period of that count or in the one after it.
pub proof fn lemma_now_fits_what_was_read<C: Borrow<AtomicU64>, F: FnOnce() -> u32>(
    half_periods: C,
    read_cnt: F,
    now: u64,
)
    requires
        rtcc::may_read(half_periods, read_cnt, now),
    ensures
        exists|count: u64, cnt: u32|
            #![trigger counter::loaded_u64(half_periods, count), call_ensures(read_cnt, (), cnt)]
            counter::loaded_u64(half_periods, count) && call_ensures(read_cnt, (), cnt) && now
                % 0x1_0000_0000 == cnt && (now / 0x8000_0000 == count % 0x2_0000_0000 || now
                / 0x8000_0000 == (count + 1) % 0x2_0000_0000),
{
    let (count, cnt) = choose|count: u64, cnt: u32|
        #![trigger counter::loaded_u64(half_periods, count), call_ensures(read_cnt, (), cnt)]
        counter::loaded_u64(half_periods, count) && call_ensures(read_cnt, (), cnt) && now
            == rtcc::ticks(count, cnt);
    lemma_time_fits_the_raw_counter(count, cnt);
    assert(counter::loaded_u64(half_periods, count) && call_ensures(read_cnt, (), cnt));
}

} // verus!
