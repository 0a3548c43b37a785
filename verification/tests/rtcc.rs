use portable_atomic::{AtomicU64, Ordering};
use silabs_metapac::cmu_v1::regs::Clken0;
use silabs_metapac::rtcc_v1::regs::{Cc0Ctrl, Cc0Ocvalue, Cc1Ctrl, Cmd, En, Ien, If};
use silabs_metapac::rtcc_v1::vals::{Cc0CtrlMode, Cc1CtrlMode};
use silabs_monotonic::half_period::{follows, Edge, Pending, SkippedInterrupt};
use silabs_monotonic::rtcc::start::{Start, StartAction};
use silabs_monotonic::rtcc::{compute_compare_value, TimerBackend, HALF_PERIOD};

const PERIOD: u64 = 1 << 32;
const HALF: u64 = 1 << 31;

/// The word that CNT shows at time `t`.
fn cnt_at(t: u64) -> u32 {
    (t % PERIOD) as u32
}

/// A start at the step `action`.
fn start_at(action: StartAction) -> Start {
    let mut start = TimerBackend::_start();
    while start.action != action {
        start.advance();
    }
    start
}

#[test]
fn rtcc_half_period() {
    assert_eq!(HALF_PERIOD, 0x8000_0000);
}

#[test]
fn rtcc_compare_value_within_a_period() {
    assert_eq!(compute_compare_value(100, 40), 100);
    assert_eq!(compute_compare_value(40, 40), 40);
    assert_eq!(compute_compare_value(PERIOD + 5, 10), 5);
    assert_eq!(compute_compare_value(10 + PERIOD - 1, 10), 9);
}

#[test]
fn rtcc_compare_value_is_parked() {
    assert_eq!(compute_compare_value(39, 40), 0);
    assert_eq!(compute_compare_value(10 + PERIOD, 10), 0);
    assert_eq!(compute_compare_value(u64::MAX, 1), 0);
    assert_eq!(compute_compare_value(0, 1), 0);
}

#[test]
fn rtcc_compare_value_over_the_wrap_of_the_time() {
    assert_eq!(compute_compare_value(7, u64::MAX), 7);
}

#[test]
fn rtcc_compare_value_is_met_first_at_the_instant() {
    let now = 9 * PERIOD - 4;
    let instant = now + 20;
    let compare = compute_compare_value(instant, now);
    for t in now..instant {
        assert_ne!(cnt_at(t), compare);
    }
    assert_eq!(cnt_at(instant), compare);
}

#[test]
fn rtcc_parked_value_is_met_at_the_next_wrap() {
    let now = 9 * PERIOD - 4;
    let compare = compute_compare_value(now - 1, now);
    for t in (now + 1)..(9 * PERIOD) {
        assert_ne!(cnt_at(t), compare);
    }
    assert_eq!(cnt_at(9 * PERIOD), compare);
}

#[test]
fn rtcc_ticks_count_up() {
    assert_eq!(TimerBackend::ticks_from(0, 0), 0);
    assert_eq!(TimerBackend::ticks_from(0, 17), 17);
    assert_eq!(TimerBackend::ticks_from(1, 0x8000_0000), 0x8000_0000);
    assert_eq!(TimerBackend::ticks_from(2, 3), 0x1_0000_0003);
}

#[test]
fn rtcc_ticks_with_interrupt_pending_or_counted() {
    for t in [0, 1, HALF - 1, HALF, HALF + 5, PERIOD - 1, PERIOD, 7 * HALF + 3, 1 << 60] {
        let half_periods = t / HALF;
        assert_eq!(TimerBackend::ticks_from(half_periods, cnt_at(t)), t);
        if half_periods > 0 {
            assert_eq!(TimerBackend::ticks_from(half_periods - 1, cnt_at(t)), t);
        }
    }
}

#[test]
fn rtcc_ticks_wrap_in_64_bits() {
    let last = (1u64 << 33) - 1;
    assert_eq!(TimerBackend::ticks_from(last, 0xFFFF_FFFF), u64::MAX);
    assert_eq!(TimerBackend::ticks_from(last, 2), 2);
    assert_eq!(TimerBackend::ticks_from(1 << 33, 2), 2);
    assert_eq!(TimerBackend::ticks_from(u64::MAX, 0xFFFF_FFFF), u64::MAX);
}

#[test]
fn rtcc_time_never_goes_back_over_a_wrap() {
    let mut last = 0;
    for t in (PERIOD - 3)..(PERIOD + 3) {
        // The interrupt of the wrap comes two ticks late.
        let half_periods = if t < PERIOD + 2 { 1 } else { 2 };
        let now = TimerBackend::ticks_from(half_periods, cnt_at(t));
        assert_eq!(now, t);
        assert!(now >= last);
        last = now;
    }
}

#[test]
fn rtcc_now_reads_the_shared_count() {
    let half_periods = AtomicU64::new(6);
    let t = 6 * HALF + 99;
    assert_eq!(TimerBackend::now(&half_periods, || cnt_at(t)), t);
    half_periods.store(7, Ordering::SeqCst);
    assert_eq!(TimerBackend::now(&half_periods, || cnt_at(t + HALF)), t + HALF);
}

#[test]
fn rtcc_now_reads_the_count_before_the_counter() {
    let half_periods = AtomicU64::new(1);
    let now = TimerBackend::now(&half_periods, || {
        half_periods.store(4, Ordering::SeqCst);
        cnt_at(PERIOD)
    });
    assert_eq!(now, PERIOD);
    assert_eq!(half_periods.load(Ordering::SeqCst), 4);
}

#[test]
fn rtcc_seed_follows_the_counter() {
    let half_periods = AtomicU64::new(77);
    assert_eq!(TimerBackend::seed(&half_periods, 0), 0);
    assert_eq!(half_periods.load(Ordering::SeqCst), 0);
    assert_eq!(TimerBackend::seed(&half_periods, 0x7FFF_FFFF), 0);
    assert_eq!(TimerBackend::seed(&half_periods, 0x8000_0000), 1);
    assert_eq!(half_periods.load(Ordering::SeqCst), 1);
    assert_eq!(TimerBackend::seed(&half_periods, u32::MAX), 1);
}

#[test]
fn rtcc_time_starts_at_the_position_of_the_counter() {
    for cnt in [0, 1, 0x7FFF_FFFF, 0x8000_0000, u32::MAX] {
        let half_periods = AtomicU64::new(9);
        TimerBackend::seed(&half_periods, cnt);
        assert_eq!(TimerBackend::now(&half_periods, || cnt), u64::from(cnt));
    }
}

#[test]
fn rtcc_set_compare_uses_now() {
    let half_periods = AtomicU64::new(2);
    let now = 2 * HALF + 7;
    let near = TimerBackend::set_compare(&half_periods, || cnt_at(now), now + 3, 0);
    assert_eq!(near, 10);
    let past = TimerBackend::set_compare(&half_periods, || cnt_at(now), now - 1, 0xFFFF);
    assert_eq!(past, 0);
}

#[test]
fn rtcc_alarm_words() {
    assert_eq!(TimerBackend::clear_compare_flag(0), 0x40);
    assert_eq!(TimerBackend::enable_timer(0), 0x40);
    assert_eq!(TimerBackend::disable_timer(0), 0x40);
    assert_eq!(TimerBackend::clear_compare_flag(0x11), 0x51);
    assert!(If(TimerBackend::clear_compare_flag(0)).cc1());
    assert!(Ien(TimerBackend::enable_timer(0)).cc1());
    assert!(Ien(TimerBackend::disable_timer(0)).cc1());
}

#[test]
fn rtcc_alarm_leaves_the_marks() {
    let flags = 0x51;
    let left = flags & !TimerBackend::clear_compare_flag(0);
    assert_eq!(left, 0x11);
    assert_eq!(TimerBackend::on_interrupt(left), TimerBackend::on_interrupt(flags));
    assert_eq!(0x11 | TimerBackend::enable_timer(0), 0x51);
    assert_eq!(0x51 & !TimerBackend::disable_timer(0), 0x11);
}

#[test]
fn rtcc_interrupt_reports_marks_in_order() {
    let mut both = TimerBackend::on_interrupt(0x11);
    assert_eq!(both, Pending { full_period: true, half_period: true });
    assert_eq!(both.next(), Some(Edge::FullPeriod));
    assert_eq!(both.next(), Some(Edge::HalfPeriod));
    assert_eq!(both.next(), None);
    assert_eq!(TimerBackend::on_interrupt(0x01).next(), Some(Edge::FullPeriod));
    assert_eq!(TimerBackend::on_interrupt(0x10).next(), Some(Edge::HalfPeriod));
    assert_eq!(TimerBackend::on_interrupt(0x40).next(), None);
}

#[test]
fn rtcc_acknowledge_clears_one_flag() {
    assert_eq!(TimerBackend::acknowledge(0, Edge::FullPeriod), 0x01);
    assert_eq!(TimerBackend::acknowledge(0, Edge::HalfPeriod), 0x10);
    assert_eq!(0x51 & !TimerBackend::acknowledge(0, Edge::FullPeriod), 0x50);
    assert_eq!(0x51 & !TimerBackend::acknowledge(0, Edge::HalfPeriod), 0x41);
}

#[test]
fn rtcc_follows_by_parity() {
    assert!(follows(0, Edge::HalfPeriod));
    assert!(!follows(0, Edge::FullPeriod));
    assert!(follows(1, Edge::FullPeriod));
    assert!(!follows(1, Edge::HalfPeriod));
}

#[test]
fn rtcc_count_alternates() {
    let half_periods = AtomicU64::new(0);
    assert_eq!(TimerBackend::count(&half_periods, Edge::HalfPeriod), Ok(1));
    assert_eq!(TimerBackend::count(&half_periods, Edge::FullPeriod), Ok(2));
    assert_eq!(TimerBackend::count(&half_periods, Edge::HalfPeriod), Ok(3));
    assert_eq!(half_periods.load(Ordering::SeqCst), 3);
}

#[test]
fn rtcc_count_notices_a_skipped_interrupt() {
    let half_periods = AtomicU64::new(1);
    assert_eq!(
        TimerBackend::count(&half_periods, Edge::HalfPeriod),
        Err(SkippedInterrupt { half_periods: 1 })
    );
    assert_eq!(half_periods.load(Ordering::SeqCst), 2);
    assert_eq!(
        TimerBackend::count_from(4, Edge::FullPeriod),
        Err(SkippedInterrupt { half_periods: 4 })
    );
}

#[test]
fn rtcc_count_wraps() {
    let half_periods = AtomicU64::new(u64::MAX);
    assert_eq!(TimerBackend::count(&half_periods, Edge::FullPeriod), Ok(0));
    assert_eq!(half_periods.load(Ordering::SeqCst), 0);
}

#[test]
fn rtcc_start_takes_every_step() {
    let mut start = TimerBackend::_start();
    let mut taken = vec![start.action];
    while start.action != StartAction::Done {
        start.advance();
        taken.push(start.action);
    }
    assert_eq!(
        taken,
        vec![
            StartAction::EnableClock,
            StartAction::EnableTimer,
            StartAction::SetHalfPeriodMode,
            StartAction::SetHalfPeriod,
            StartAction::SetAlarmMode,
            StartAction::StartTimer,
            StartAction::ClearFlags,
            StartAction::SeedHalfPeriods,
            StartAction::InitializeQueue,
            StartAction::EnableInterrupts,
            StartAction::UnmaskInterrupt,
            StartAction::Done,
        ]
    );
    start.advance();
    assert_eq!(start.action, StartAction::Done);
}

#[test]
fn rtcc_start_words() {
    assert!(Clken0(start_at(StartAction::EnableClock).word(0)).rtcc());
    assert_eq!(start_at(StartAction::EnableClock).word(1), 0x4000_0001);
    assert!(En(start_at(StartAction::EnableTimer).word(0)).en());
    assert_eq!(start_at(StartAction::EnableTimer).word(0), 1);
    let half = start_at(StartAction::SetHalfPeriodMode).word(0);
    assert_eq!(half, 2);
    assert_eq!(Cc0Ctrl(half).mode(), Cc0CtrlMode::Outputcompare);
    let alarm = start_at(StartAction::SetAlarmMode).word(0x21);
    assert_eq!(alarm, 0x22);
    assert_eq!(Cc1Ctrl(alarm).mode(), Cc1CtrlMode::Outputcompare);
    let mark = start_at(StartAction::SetHalfPeriod).word(0x1234);
    assert_eq!(Cc0Ocvalue(mark).oc(), 0x8000_0000);
    assert_eq!(mark, 0x8000_0000);
    assert!(Cmd(start_at(StartAction::StartTimer).word(0)).start());
    assert_eq!(start_at(StartAction::StartTimer).word(0), 1);
    assert_eq!(start_at(StartAction::ClearFlags).word(0), 0x51);
    assert_eq!(start_at(StartAction::EnableInterrupts).word(0), 0x11);
    assert!(!Ien(start_at(StartAction::EnableInterrupts).word(0)).cc1());
}

#[test]
fn rtcc_start_leaves_words_of_other_steps() {
    assert_eq!(start_at(StartAction::SeedHalfPeriods).word(5), 5);
    assert_eq!(start_at(StartAction::Done).word(5), 5);
}

#[test]
fn rtcc_time_base_stays_right_over_marks() {
    let half_periods = AtomicU64::new(0);
    let mut count = TimerBackend::seed(&half_periods, cnt_at(HALF + 3));
    assert_eq!(count, 1);
    for mark in 2..6 {
        for t in (mark * HALF - 2)..(mark * HALF + 2) {
            assert_eq!(TimerBackend::now(&half_periods, || cnt_at(t)), t);
            if t == mark * HALF {
                let edge = if cnt_at(t) == HALF_PERIOD {
                    Edge::HalfPeriod
                } else {
                    assert_eq!(cnt_at(t), 0);
                    Edge::FullPeriod
                };
                count += 1;
                assert_eq!(TimerBackend::count(&half_periods, edge), Ok(count));
                assert_eq!(TimerBackend::now(&half_periods, || cnt_at(t)), t);
            }
        }
    }
    assert_eq!(count, 5);
}
