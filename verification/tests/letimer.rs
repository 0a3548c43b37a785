use portable_atomic::{AtomicU32, Ordering};
use silabs_metapac::cmu_v1::regs::Clken0;
use silabs_metapac::letimer_v0::regs::{Cmd, Comp0, Comp1, Ctrl, En, Ien, If};
use silabs_metapac::letimer_v0::vals::Cntpresc;
use silabs_monotonic::half_period::{Edge, Pending, SkippedInterrupt};
use silabs_monotonic::letimer::start::{Start, StartAction, MAX_SPINS};
use silabs_monotonic::letimer::{
    Prescaler, TimerBackend, CLOCK_HZ, HALF_PERIOD_CNT, HALF_PERIOD_UP, U24_MAX,
};

const PERIOD: u64 = 1 << 24;
const HALF: u64 = 1 << 23;

/// The word that CNT shows at time `t`.
fn cnt_at(t: u64) -> u32 {
    U24_MAX - (t % PERIOD) as u32
}

/// Runs a start with CNT reading the words of `counts`, and gives the steps it takes.
fn steps(tick_rate_hz: u32, counts: &[u32]) -> Vec<StartAction> {
    let mut start = TimerBackend::_start(tick_rate_hz);
    let mut taken = vec![start.action];
    let mut reads = counts.iter();
    while start.action != StartAction::Done && start.action != StartAction::RefuseTickRate {
        let cnt = if start.action == StartAction::AwaitCount {
            *reads.next().unwrap()
        } else {
            0
        };
        start.advance(cnt);
        taken.push(start.action);
    }
    taken
}

/// A start at the step `action`.
fn start_at(action: StartAction) -> Start {
    let mut start = TimerBackend::_start(8_192);
    while start.action != action {
        start.advance(1);
    }
    start
}

#[test]
fn letimer_constants() {
    assert_eq!(U24_MAX, 0x00FF_FFFF);
    assert_eq!(HALF_PERIOD_UP, 0x0080_0000);
    assert_eq!(HALF_PERIOD_CNT, 0x007F_FFFF);
    assert_eq!(CLOCK_HZ, 32_768);
}

#[test]
fn letimer_prescaler_for_each_rate() {
    let rates = [
        (32_768, Prescaler::Div1),
        (16_384, Prescaler::Div2),
        (8_192, Prescaler::Div4),
        (4_096, Prescaler::Div8),
        (2_048, Prescaler::Div16),
        (1_024, Prescaler::Div32),
        (512, Prescaler::Div64),
        (256, Prescaler::Div128),
    ];
    for (rate, prescaler) in rates {
        assert_eq!(Prescaler::for_tick_rate(rate), Some(prescaler));
    }
}

#[test]
fn letimer_prescaler_refuses_other_rates() {
    for rate in [0, 1, 128, 255, 257, 1_000, 32_767, 32_769, 65_536, u32::MAX] {
        assert_eq!(Prescaler::for_tick_rate(rate), None);
    }
}

#[test]
fn letimer_ticks_count_up() {
    assert_eq!(TimerBackend::ticks_from(0, 0x00FF_FFFF), 0);
    assert_eq!(TimerBackend::ticks_from(0, 0x00FF_FFFE), 1);
    assert_eq!(TimerBackend::ticks_from(1, 0x007F_FFFF), 0x0080_0000);
    assert_eq!(TimerBackend::ticks_from(2, 0x00FF_FFFF), 0x0100_0000);
    assert_eq!(TimerBackend::ticks_from(3, 0), 0x01FF_FFFF);
}

#[test]
fn letimer_ticks_look_at_24_bits_of_cnt() {
    assert_eq!(TimerBackend::ticks_from(0, 0xABFF_FFF0), 15);
}

#[test]
fn letimer_ticks_with_interrupt_pending_or_counted() {
    for t in [0, 1, HALF - 1, HALF, HALF + 5, PERIOD - 1, PERIOD, 7 * HALF + 3, 1 << 40] {
        let half_periods = (t / HALF) as u32;
        assert_eq!(TimerBackend::ticks_from(half_periods, cnt_at(t)), t);
        if half_periods > 0 {
            assert_eq!(TimerBackend::ticks_from(half_periods - 1, cnt_at(t)), t);
        }
    }
}

#[test]
fn letimer_ticks_at_the_last_count() {
    let t = (u32::MAX as u64) * HALF + 9;
    assert_eq!(TimerBackend::ticks_from(u32::MAX, cnt_at(t)), t);
    // The count is about to wrap, and the counter has wrapped already.
    assert_eq!(TimerBackend::ticks_from(u32::MAX, cnt_at(4)), (1 << 55) + 4);
}

#[test]
fn letimer_time_never_goes_back_over_a_mark() {
    let mut last = 0;
    for t in (HALF - 3)..(HALF + 3) {
        // The interrupt of the mark comes two ticks late.
        let half_periods = if t < HALF + 2 { 0 } else { 1 };
        let now = TimerBackend::ticks_from(half_periods, cnt_at(t));
        assert_eq!(now, t);
        assert!(now >= last);
        last = now;
    }
}

#[test]
fn letimer_now_reads_the_shared_count() {
    let half_periods = AtomicU32::new(4);
    let t = 4 * HALF + 1234;
    assert_eq!(TimerBackend::now(&half_periods, || cnt_at(t)), t);
    half_periods.store(5, Ordering::SeqCst);
    assert_eq!(TimerBackend::now(&half_periods, || cnt_at(t + HALF)), t + HALF);
}

#[test]
fn letimer_now_reads_the_count_before_the_counter() {
    let half_periods = AtomicU32::new(0);
    let now = TimerBackend::now(&half_periods, || {
        half_periods.store(2, Ordering::SeqCst);
        cnt_at(HALF)
    });
    assert_eq!(now, HALF);
    assert_eq!(half_periods.load(Ordering::SeqCst), 2);
}

#[test]
fn letimer_seed_follows_the_counter() {
    let half_periods = AtomicU32::new(77);
    assert_eq!(TimerBackend::seed(&half_periods, 0x00FF_FFFF), 0);
    assert_eq!(half_periods.load(Ordering::SeqCst), 0);
    assert_eq!(TimerBackend::seed(&half_periods, 0x0080_0000), 0);
    assert_eq!(half_periods.load(Ordering::SeqCst), 0);
    assert_eq!(TimerBackend::seed(&half_periods, 0x007F_FFFF), 1);
    assert_eq!(half_periods.load(Ordering::SeqCst), 1);
    assert_eq!(TimerBackend::seed(&half_periods, 0), 1);
}

#[test]
fn letimer_time_starts_at_the_position_of_the_counter() {
    for cnt in [0, 1, 0x007F_FFFF, 0x0080_0000, 0x00FF_FFFF] {
        let half_periods = AtomicU32::new(9);
        TimerBackend::seed(&half_periods, cnt);
        assert_eq!(TimerBackend::now(&half_periods, || cnt), u64::from(U24_MAX - cnt));
    }
}

#[test]
fn letimer_compare_within_a_period() {
    assert_eq!(TimerBackend::compare_from(0, 100, 40), 0x00FF_FFFF - 100);
    assert_eq!(TimerBackend::compare_from(0, 40, 40), 0x00FF_FFFF - 40);
    let now = 5 * PERIOD + 10;
    assert_eq!(TimerBackend::compare_from(0, now + PERIOD - 1, now), 0x00FF_FFFF - 9);
}

#[test]
fn letimer_compare_is_parked() {
    // Past, and a period or more away.
    assert_eq!(TimerBackend::compare_from(0, 39, 40), 0x00FF_FFFF);
    assert_eq!(TimerBackend::compare_from(0, 40 + PERIOD, 40), 0x00FF_FFFF);
    assert_eq!(TimerBackend::compare_from(0, u64::MAX, 40), 0x00FF_FFFF);
}

#[test]
fn letimer_compare_over_the_wrap_of_the_time() {
    assert_eq!(TimerBackend::compare_from(0, 3, u64::MAX - 2), 0x00FF_FFFF - 3);
}

#[test]
fn letimer_compare_keeps_the_other_bits() {
    assert_eq!(TimerBackend::compare_from(0xAB12_3456, 1, 0), 0xABFF_FFFE);
    assert_eq!(Comp0(TimerBackend::compare_from(0, 5, 0)).comp0(), U24_MAX - 5);
}

#[test]
fn letimer_compare_is_met_first_at_the_instant() {
    let now = 3 * PERIOD + 20;
    let instant = now + 50;
    let compare = TimerBackend::compare_from(0, instant, now);
    for t in now..instant {
        assert_ne!(cnt_at(t), compare);
    }
    assert_eq!(cnt_at(instant), compare);
}

#[test]
fn letimer_parked_compare_is_met_at_the_next_wrap() {
    let now = 4 * PERIOD - 6;
    let compare = TimerBackend::compare_from(0, 0, now);
    for t in (now + 1)..(4 * PERIOD) {
        assert_ne!(cnt_at(t), compare);
    }
    assert_eq!(cnt_at(4 * PERIOD), compare);
}

#[test]
fn letimer_set_compare_uses_now() {
    let half_periods = AtomicU32::new(2);
    let now = 2 * HALF + 7;
    let near = TimerBackend::set_compare(&half_periods, || cnt_at(now), now + 3, 0);
    assert_eq!(near, U24_MAX - 10);
    let past = TimerBackend::set_compare(&half_periods, || cnt_at(now), now - 1, 0);
    assert_eq!(past, U24_MAX);
}

#[test]
fn letimer_alarm_words() {
    assert_eq!(TimerBackend::clear_compare_flag(0), 0b001);
    assert_eq!(TimerBackend::enable_timer(0), 0b001);
    assert_eq!(TimerBackend::disable_timer(0), 0b001);
    assert_eq!(TimerBackend::clear_compare_flag(0b110), 0b111);
    assert!(If(TimerBackend::clear_compare_flag(0)).comp0());
    assert!(Ien(TimerBackend::enable_timer(0)).comp0());
    assert!(Ien(TimerBackend::disable_timer(0)).comp0());
}

#[test]
fn letimer_alarm_leaves_the_marks() {
    let flags = 0b111;
    let left = flags & !TimerBackend::clear_compare_flag(0);
    assert_eq!(left, 0b110);
    assert_eq!(TimerBackend::on_interrupt(left), TimerBackend::on_interrupt(flags));
    assert_eq!(0b110 | TimerBackend::enable_timer(0), 0b111);
    assert_eq!(0b111 & !TimerBackend::disable_timer(0), 0b110);
}

#[test]
fn letimer_interrupt_reports_marks_in_order() {
    let mut both = TimerBackend::on_interrupt(0b110);
    assert_eq!(both, Pending { full_period: true, half_period: true });
    assert_eq!(both.next(), Some(Edge::FullPeriod));
    assert_eq!(both.next(), Some(Edge::HalfPeriod));
    assert_eq!(both.next(), None);
    assert_eq!(TimerBackend::on_interrupt(0b100).next(), Some(Edge::FullPeriod));
    assert_eq!(TimerBackend::on_interrupt(0b010).next(), Some(Edge::HalfPeriod));
    assert_eq!(TimerBackend::on_interrupt(0b001).next(), None);
    assert_eq!(TimerBackend::on_interrupt(0).next(), None);
}

#[test]
fn letimer_acknowledge_clears_one_flag() {
    assert_eq!(TimerBackend::acknowledge(0, Edge::FullPeriod), 0b100);
    assert_eq!(TimerBackend::acknowledge(0, Edge::HalfPeriod), 0b010);
    assert_eq!(0b111 & !TimerBackend::acknowledge(0, Edge::FullPeriod), 0b011);
    assert_eq!(0b111 & !TimerBackend::acknowledge(0, Edge::HalfPeriod), 0b101);
}

#[test]
fn letimer_count_alternates() {
    let half_periods = AtomicU32::new(0);
    assert_eq!(TimerBackend::count(&half_periods, Edge::HalfPeriod), Ok(1));
    assert_eq!(TimerBackend::count(&half_periods, Edge::FullPeriod), Ok(2));
    assert_eq!(TimerBackend::count(&half_periods, Edge::HalfPeriod), Ok(3));
    assert_eq!(half_periods.load(Ordering::SeqCst), 3);
}

#[test]
fn letimer_count_notices_a_skipped_interrupt() {
    let half_periods = AtomicU32::new(2);
    assert_eq!(
        TimerBackend::count(&half_periods, Edge::FullPeriod),
        Err(SkippedInterrupt { half_periods: 2 })
    );
    assert_eq!(half_periods.load(Ordering::SeqCst), 3);
    assert_eq!(
        TimerBackend::count_from(7, Edge::HalfPeriod),
        Err(SkippedInterrupt { half_periods: 7 })
    );
}

#[test]
fn letimer_count_wraps() {
    let half_periods = AtomicU32::new(u32::MAX);
    assert_eq!(TimerBackend::count(&half_periods, Edge::FullPeriod), Ok(0));
    assert_eq!(half_periods.load(Ordering::SeqCst), 0);
    assert_eq!(TimerBackend::count_from(u32::MAX, Edge::FullPeriod), Ok(0));
}

#[test]
fn letimer_both_marks_in_one_interrupt() {
    let half_periods = AtomicU32::new(5);
    let mut pending = TimerBackend::on_interrupt(0b110);
    while let Some(edge) = pending.next() {
        assert!(TimerBackend::count(&half_periods, edge).is_ok());
    }
    assert_eq!(half_periods.load(Ordering::SeqCst), 7);
}

#[test]
fn letimer_start_takes_every_step() {
    assert_eq!(
        steps(32_768, &[0, 0, 0x00FF_FFFF]),
        vec![
            StartAction::EnableClock,
            StartAction::SetPrescaler,
            StartAction::EnableTimer,
            StartAction::SetHalfPeriod,
            StartAction::StartTimer,
            StartAction::AwaitCount,
            StartAction::AwaitCount,
            StartAction::AwaitCount,
            StartAction::ClearFlags,
            StartAction::SeedHalfPeriods,
            StartAction::InitializeQueue,
            StartAction::EnableInterrupts,
            StartAction::UnmaskInterrupt,
            StartAction::Done,
        ]
    );
}

#[test]
fn letimer_start_refuses_a_rate_after_the_clock() {
    assert_eq!(
        steps(1_000, &[]),
        vec![StartAction::EnableClock, StartAction::RefuseTickRate]
    );
    let mut start = TimerBackend::_start(0);
    for _ in 0..5 {
        start.advance(1);
        assert_eq!(start.action, StartAction::RefuseTickRate);
    }
}

#[test]
fn letimer_start_waits_only_so_long() {
    let mut start = start_at(StartAction::AwaitCount);
    let mut reads = 0u32;
    while start.action == StartAction::AwaitCount {
        start.advance(0);
        reads += 1;
    }
    assert_eq!(MAX_SPINS, 1_000_000);
    assert_eq!(reads, 1_000_001);
    assert_eq!(start.action, StartAction::ClearFlags);
}

#[test]
fn letimer_start_waits_on_the_field_of_cnt() {
    let mut start = start_at(StartAction::AwaitCount);
    start.advance(0xFF00_0000);
    assert_eq!(start.action, StartAction::AwaitCount);
    assert_eq!(start.spins, 1);
    start.advance(1);
    assert_eq!(start.action, StartAction::ClearFlags);
}

#[test]
fn letimer_start_stays_done() {
    let mut start = start_at(StartAction::Done);
    start.advance(0);
    assert_eq!(start.action, StartAction::Done);
}

#[test]
fn letimer_start_words() {
    assert!(Clken0(start_at(StartAction::EnableClock).word(0)).letimer0());
    assert_eq!(start_at(StartAction::EnableClock).word(0x8000_0001), 0x8000_1001);
    assert_eq!(Ctrl(start_at(StartAction::SetPrescaler).word(0)).cntpresc(), Cntpresc::Div4);
    assert_eq!(start_at(StartAction::SetPrescaler).word(0xFFFF_FFFF), 0xFFF2_FFFF);
    assert!(En(start_at(StartAction::EnableTimer).word(0)).en());
    assert_eq!(start_at(StartAction::EnableTimer).word(0), 1);
    assert_eq!(Comp1(start_at(StartAction::SetHalfPeriod).word(0)).comp1(), 0x007F_FFFF);
    assert_eq!(start_at(StartAction::SetHalfPeriod).word(0xCD00_0001), 0xCD7F_FFFF);
    assert!(Cmd(start_at(StartAction::StartTimer).word(0)).start());
    assert_eq!(start_at(StartAction::StartTimer).word(0), 1);
    assert_eq!(start_at(StartAction::ClearFlags).word(0), 0b111);
    assert_eq!(start_at(StartAction::EnableInterrupts).word(0), 0b110);
    assert!(!Ien(start_at(StartAction::EnableInterrupts).word(0)).comp0());
    assert!(Ien(start_at(StartAction::EnableInterrupts).word(0)).uf());
    assert!(Ien(start_at(StartAction::EnableInterrupts).word(0)).comp1());
}

#[test]
fn letimer_start_leaves_words_of_other_steps() {
    assert_eq!(start_at(StartAction::AwaitCount).word(5), 5);
    assert_eq!(start_at(StartAction::SeedHalfPeriods).word(5), 5);
    assert_eq!(start_at(StartAction::Done).word(5), 5);
}

#[test]
fn letimer_start_word_for_each_rate() {
    let codes = [
        (32_768, Cntpresc::Div1, 0x0000_0000),
        (16_384, Cntpresc::Div2, 0x0001_0000),
        (8_192, Cntpresc::Div4, 0x0002_0000),
        (4_096, Cntpresc::Div8, 0x0003_0000),
        (2_048, Cntpresc::Div16, 0x0004_0000),
        (1_024, Cntpresc::Div32, 0x0005_0000),
        (512, Cntpresc::Div64, 0x0006_0000),
        (256, Cntpresc::Div128, 0x0007_0000),
    ];
    for (rate, cntpresc, expected) in codes {
        let mut start = TimerBackend::_start(rate);
        start.advance(0);
        let word = start.word(0);
        assert_eq!(word, expected);
        assert_eq!(Ctrl(word).cntpresc(), cntpresc);
    }
}

#[test]
fn letimer_time_base_stays_right_over_marks() {
    let half_periods = AtomicU32::new(0);
    let mut count = TimerBackend::seed(&half_periods, cnt_at(0));
    for mark in 1..6 {
        for t in (mark * HALF - 2)..(mark * HALF + 2) {
            assert_eq!(TimerBackend::now(&half_periods, || cnt_at(t)), t);
            if t == mark * HALF {
                let edge = if cnt_at(t) == HALF_PERIOD_CNT {
                    Edge::HalfPeriod
                } else {
                    assert_eq!(cnt_at(t), U24_MAX);
                    Edge::FullPeriod
                };
                count += 1;
                assert_eq!(TimerBackend::count(&half_periods, edge), Ok(count));
                assert_eq!(TimerBackend::now(&half_periods, || cnt_at(t)), t);
            }
        }
    }
    assert_eq!(count, 5);
}
