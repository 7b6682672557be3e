use kernel_core::timer::bcd_to_u8;
use kernel_core::timer::calibrate;
use kernel_core::timer::cmos_busy;
use kernel_core::timer::cmos_time_from_registers;
use kernel_core::timer::rtc_coarse_step;
use kernel_core::timer::rtc_verify_step;
use kernel_core::timer::CmosTime;
use kernel_core::timer::MsbProbe;
use kernel_core::timer::PitCalibrator;
use kernel_core::timer::PitStep;
use kernel_core::timer::RtcStep;
use kernel_core::timer::RtcVerifyStep;
use kernel_core::timer::SpinStep;
use kernel_core::timer::TscSpinTimer;
use kernel_core::timer::MAX_QUICK_PIT_ITERATIONS;
use kernel_core::timer::PIT_TICK_RATE;

fn t(hour: u8, minute: u8, second: u8) -> CmosTime {
    CmosTime { second, minute, hour }
}

#[test]
fn bcd_decoding() {
    assert_eq!(bcd_to_u8(0x59), 59);
    assert_eq!(bcd_to_u8(0x00), 0);
    assert_eq!(bcd_to_u8(0x31), 31);
}

#[test]
fn cmos_busy_reads_the_update_bit() {
    assert!(cmos_busy(0x80));
    assert!(!cmos_busy(0x7F));
}

#[test]
fn cmos_registers_decode_to_a_time() {
    let sample = cmos_time_from_registers(0x42, 0x07, 0x23);
    assert_eq!(sample, t(23, 7, 42));
}

#[test]
fn seconds_of_day_is_hours_minutes_seconds() {
    assert_eq!(t(1, 2, 3).seconds_of_day(), 3600 + 120 + 3);
}

#[test]
fn pit_calibration_is_preferred_and_rtc_is_the_fallback() {
    // A successful fast calibration in kHz becomes ticks per microsecond.
    let fast = TscSpinTimer::new(Some(3_000_000), 4500);
    let ticks = fast.ticks(10);
    assert_eq!(ticks.total(), 0);
    assert_eq!(fast.micros(1), 3000 + 3000 * 20);
    // On a machine with no usable PIT the RTC calibration result stands.
    let fallback = TscSpinTimer::new(None, 4500);
    assert_eq!(fallback.micros(1), 4500 + 4500 * 20);
}

#[test]
fn sleep_budgets_scale_by_unit() {
    let timer = TscSpinTimer::unsafe_new(1000);
    assert_eq!(timer.micros(7), 7 * 1000 + 20 * 1000);
    assert_eq!(timer.millis(2), 2_000 * 1000 + 20 * 1000);
    assert_eq!(timer.seconds(1), 1_000_000 * 1000 + 20 * 1000);
}

#[test]
fn spin_decisions_handle_wraps_and_completion() {
    let timer = TscSpinTimer::unsafe_new(100);
    assert_eq!(timer.spin_decision(500, 400), SpinStep::RestartAt(400));
    assert_eq!(timer.spin_decision(500, 550), SpinStep::KeepSpinning);
    assert_eq!(timer.spin_decision(500, 600), SpinStep::Done);
}

#[test]
fn spin_wait_accumulates_until_the_target() {
    let timer = TscSpinTimer::unsafe_new(100);
    let mut wait = timer.ticks(250);
    assert!(!wait.step(100));
    assert!(!wait.step(100));
    assert!(wait.step(100));
    assert_eq!(wait.total(), 300);
}

#[test]
fn pit_without_a_stable_counter_gives_up_at_once() {
    // No PIT (or an unreadable one) fails the fast path; the caller then
    // falls back to the RTC.
    let probe = MsbProbe { stable: false, tsc: 0, delta: 0 };
    assert!(PitCalibrator::start(probe).is_none());
}

#[test]
fn pit_fast_path_converges_and_reports_khz() {
    let first = MsbProbe { stable: true, tsc: 1_000, delta: 10 };
    let mut cal = PitCalibrator::start(first).unwrap();
    // A very spread-out read keeps sampling.
    let noisy = MsbProbe { stable: true, tsc: 1_000 + 100_000, delta: 60 };
    assert_eq!(cal.sample(noisy), PitStep::KeepSampling);
    // Once the bracketing error drops below 1/2048 of the elapsed ticks,
    // the rate is accepted after a verify read.
    let clean = MsbProbe { stable: true, tsc: 1_000 + 512_000, delta: 10 };
    assert_eq!(cal.sample(clean), PitStep::Verify);
    assert_eq!(cal.expected_verify_msb(), 0xFD - 1);
    // kHz = elapsed * PIT rate / ((i + 1) * 256 * 1000), with i = 1.
    let khz = cal.khz(clean.tsc);
    assert_eq!(khz, 512_000 * PIT_TICK_RATE / (2 * 256 * 1000));
}

#[test]
fn pit_first_round_error_bound_fails_fast() {
    let first = MsbProbe { stable: true, tsc: 0, delta: 4_000 };
    let mut cal = PitCalibrator::start(first).unwrap();
    // Error far above elapsed * iterations >> 11 on the first round.
    let bad = MsbProbe { stable: true, tsc: 16, delta: 4_000 };
    assert_eq!(cal.sample(bad), PitStep::Failed);
}

#[test]
fn pit_broken_chain_fails() {
    let first = MsbProbe { stable: true, tsc: 0, delta: 1 };
    let mut cal = PitCalibrator::start(first).unwrap();
    let broken = MsbProbe { stable: false, tsc: 0, delta: 0 };
    assert_eq!(cal.sample(broken), PitStep::Failed);
}

#[test]
fn pit_iteration_budget() {
    assert_eq!(MAX_QUICK_PIT_ITERATIONS, 50 * PIT_TICK_RATE / 1000 / 256);
}

#[test]
fn rtc_guess_grows_when_the_clock_stands_still() {
    let now = t(1, 0, 0);
    assert_eq!(rtc_coarse_step(4500, now, now), RtcStep::Adjust(4500 + 82));
}

#[test]
fn rtc_one_second_spread_moves_to_verification() {
    assert_eq!(rtc_coarse_step(4500, t(1, 0, 0), t(1, 0, 1)), RtcStep::Verify);
}

#[test]
fn rtc_large_spread_scales_the_guess_down() {
    // Five RTC seconds for one guessed second: scale by (60 - 5) / 60.
    assert_eq!(rtc_coarse_step(6000, t(1, 0, 0), t(1, 0, 5)), RtcStep::Adjust(6000 * 55 / 60));
}

#[test]
fn rtc_minute_rollover_retries() {
    assert_eq!(rtc_coarse_step(4500, t(1, 0, 59), t(1, 1, 0)), RtcStep::Retry);
}

#[test]
fn rtc_verification_accepts_matching_seconds() {
    assert_eq!(rtc_verify_step(4500, 0, 3600, 3601), RtcVerifyStep::Continue);
    assert_eq!(rtc_verify_step(4500, 2, 3600, 3603), RtcVerifyStep::Continue);
}

#[test]
fn rtc_verification_restarts_on_drift() {
    // No movement: half again the guess.
    assert_eq!(rtc_verify_step(4500, 0, 3600, 3600), RtcVerifyStep::Restart(4500 / 2 * 3));
    // Two seconds where one was expected: scale proportionally.
    assert_eq!(rtc_verify_step(4500, 0, 3600, 3602), RtcVerifyStep::Restart(4500 / 2));
}

#[test]
fn rtc_calibration_starting_point() {
    assert_eq!(calibrate(), (4500, 10));
}
