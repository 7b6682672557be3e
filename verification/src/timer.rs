//! TSC tick-rate calibration and the spin-delay timer. Two calibration
//! paths: a fast one against the PIT, and a fallback that converges against
//! the RTC's seconds. The port reads and TSC samples come from the embedding
//! kernel; every decision over those samples is taken, and stated, here.
use vstd::prelude::*;
use vstd::wrapping::u64_specs;

verus! {

/// The i8253/i8254 PIT input clock, in Hz.
pub const PIT_TICK_RATE: u64 = 1193182;

pub const MAX_QUICK_PIT_MS: u64 = 50;

/// How many most-significant-byte decrements the fast path may sample.
pub const MAX_QUICK_PIT_ITERATIONS: u64 = MAX_QUICK_PIT_MS * PIT_TICK_RATE / 1000 / 256;

pub const CMOS_FLAGS_REGISTER: u8 = 0x0A;

pub const CMOS_SECONDS_REGISTER: u8 = 0x00;

pub const CMOS_MINUTES_REGISTER: u8 = 0x02;

pub const CMOS_HOUR_REGISTER: u8 = 0x04;

/// A time-of-day sample read from the CMOS RTC.
#[derive(Clone, Copy, Debug, PartialEq, Eq, Structural)]
pub struct CmosTime {
    pub second: u8,
    pub minute: u8,
    pub hour: u8,
}

impl CmosTime {
    /// The sample as seconds since midnight.
    pub fn seconds_of_day(&self) -> (r: u64)
        ensures
            r == self.hour * 3600 + self.minute * 60 + self.second,
    {
        (self.hour as u64) * 3600 + (self.minute as u64) * 60 + (self.second as u64)
    }
}

/// Decode one packed binary-coded-decimal byte, as the RTC reports time.
pub fn bcd_to_u8(bcd: u8) -> (r: u8)
    ensures
        r == (bcd & 0x0f) + ((bcd >> 4) & 0x0f) * 10,
{
    proof {
        assert((bcd & 0x0f) + ((bcd >> 4) & 0x0f) * 10 <= 165u8) by (bit_vector);
    }
    (bcd & 0x0f) + (((bcd >> 4) & 0x0f) * 10)
}

/// Assemble a time-of-day sample from the three raw CMOS registers, each
/// of which the RTC reports in packed binary-coded decimal.
pub fn cmos_time_from_registers(seconds: u8, minutes: u8, hours: u8) -> (r: CmosTime)
    ensures
        r.second == (seconds & 0x0f) + ((seconds >> 4) & 0x0f) * 10,
        r.minute == (minutes & 0x0f) + ((minutes >> 4) & 0x0f) * 10,
        r.hour == (hours & 0x0f) + ((hours >> 4) & 0x0f) * 10,
{
    CmosTime {
        second: bcd_to_u8(seconds),
        minute: bcd_to_u8(minutes),
        hour: bcd_to_u8(hours),
    }
}

/// Whether the RTC's update-in-progress flag is set in its status byte.
pub fn cmos_busy(flags: u8) -> (r: bool)
    ensures
        r == (flags & 0x80 != 0),
{
    flags & 0x80 != 0
}

/// The calibrated spin timer: how many TSC ticks one microsecond takes.
pub struct TscSpinTimer {
    ticks_per_micro: u64,
}

impl TscSpinTimer {
    pub closed spec fn spec_ticks_per_micro(self) -> u64 {
        self.ticks_per_micro
    }

    /// Pick the tick rate from whichever calibration succeeded: the PIT fast
    /// path where it produced a rate in kHz, else the RTC fallback.
    pub fn new(pit_khz: Option<u64>, rtc_ticks_per_micro: u64) -> (r: Self)
        ensures
            r.spec_ticks_per_micro() == match pit_khz {
                Some(khz) => khz / 1000,
                None => rtc_ticks_per_micro,
            },
    {
        match pit_khz {
            Some(khz) => Self::unsafe_new(khz / 1000),
            None => Self::unsafe_new(rtc_ticks_per_micro),
        }
    }

    /// A timer with an asserted, unvalidated tick rate.
    pub fn unsafe_new(ticks_per_micro: u64) -> (r: Self)
        ensures
            r.spec_ticks_per_micro() == ticks_per_micro,
    {
        Self { ticks_per_micro }
    }

    /// Begin a spin that should burn `ticks` TSC ticks.
    pub fn ticks(&self, ticks: u64) -> (r: SpinWait)
        ensures
            r.spec_target() == ticks,
            r.spec_total() == 0,
    {
        SpinWait { target: ticks, total: 0 }
    }

    /// The tick budget for a sleep of `microseconds`, padded by twenty
    /// microseconds of slack for the surrounding bookkeeping.
    pub fn micros(&self, microseconds: u64) -> (r: u64)
        requires
            microseconds * self.spec_ticks_per_micro() + self.spec_ticks_per_micro() * 20
                <= u64::MAX,
        ensures
            r == microseconds * self.spec_ticks_per_micro() + self.spec_ticks_per_micro() * 20,
    {
        microseconds * self.ticks_per_micro + self.ticks_per_micro * 20
    }

    /// The tick budget for a sleep of `milliseconds`.
    pub fn millis(&self, milliseconds: u64) -> (r: u64)
        requires
            milliseconds * 1000 <= u64::MAX,
            milliseconds * 1000 * self.spec_ticks_per_micro() + self.spec_ticks_per_micro() * 20
                <= u64::MAX,
        ensures
            r == milliseconds * 1000 * self.spec_ticks_per_micro() + self.spec_ticks_per_micro()
                * 20,
    {
        self.micros(milliseconds * 1000)
    }

    /// The tick budget for a sleep of `seconds`.
    pub fn seconds(&self, seconds: u64) -> (r: u64)
        requires
            seconds * 1000 <= u64::MAX,
            seconds * 1000 * 1000 <= u64::MAX,
            seconds * 1000 * 1000 * self.spec_ticks_per_micro() + self.spec_ticks_per_micro() * 20
                <= u64::MAX,
        ensures
            r == seconds * 1000 * 1000 * self.spec_ticks_per_micro() + self.spec_ticks_per_micro()
                * 20,
    {
        self.millis(seconds * 1000)
    }

    /// One decision of the micro-spin: where the TSC went backwards the spin
    /// restarts at the new sample; once a microsecond's ticks elapsed it is
    /// done.
    pub fn spin_decision(&self, start: u64, next: u64) -> (r: SpinStep)
        ensures
            next < start ==> r == SpinStep::RestartAt(next),
            next >= start && next - start >= self.spec_ticks_per_micro() ==> r == SpinStep::Done,
            next >= start && next - start < self.spec_ticks_per_micro() ==> r
                == SpinStep::KeepSpinning,
    {
        if next < start {
            SpinStep::RestartAt(next)
        } else if next - start >= self.ticks_per_micro {
            SpinStep::Done
        } else {
            SpinStep::KeepSpinning
        }
    }
}

/// What the micro-spin does after one TSC sample.
#[derive(Clone, Copy, Debug, PartialEq, Eq, Structural)]
pub enum SpinStep {
    RestartAt(u64),
    KeepSpinning,
    Done,
}

/// A running wait for a total number of TSC ticks, accumulated one
/// microsecond-spin at a time.
pub struct SpinWait {
    target: u64,
    total: u64,
}

impl SpinWait {
    pub closed spec fn spec_target(self) -> u64 {
        self.target
    }

    pub closed spec fn spec_total(self) -> u64 {
        self.total
    }

    /// Account one micro-spin's measured ticks; done when the total reaches
    /// the target.
    pub fn step(&mut self, waited: u64) -> (done: bool)
        ensures
            final(self).spec_target() == old(self).spec_target(),
            final(self).spec_total() == u64_specs::wrapping_add(old(self).spec_total(), waited),
            done == (final(self).spec_total() >= final(self).spec_target()),
    {
        self.total = self.total.wrapping_add(waited);
        self.total >= self.target
    }

    /// Ticks burned so far.
    pub fn total(&self) -> (r: u64)
        ensures
            r == self.spec_total(),
    {
        self.total
    }
}

/// The PIT fast path's view of one `wait_for_msb` probe: whether the
/// most-significant byte held long enough, the TSC at the transition, and
/// the spread between the two TSC reads bracketing it.
#[derive(Clone, Copy, Debug, PartialEq, Eq, Structural)]
pub struct MsbProbe {
    pub stable: bool,
    pub tsc: u64,
    pub delta: u64,
}

/// What the fast calibration does after one probe.
#[derive(Clone, Copy, Debug, PartialEq, Eq, Structural)]
pub enum PitStep {
    /// The sample chain broke or the error bound failed: give up the fast
    /// path and fall back to the RTC.
    Failed,
    /// Error still too large; sample the next decrement.
    KeepSampling,
    /// The error shrank below the bound: re-read the counter to confirm,
    /// then the rate stands.
    Verify,
}

/// The PIT fast-calibration state machine: TSC at the first stable
/// most-significant-byte transition, its read spread, and how many
/// decrements have been sampled since.
pub struct PitCalibrator {
    first_tsc: u64,
    delta1: u64,
    iteration: u64,
}

impl PitCalibrator {
    pub closed spec fn spec_first_tsc(self) -> u64 {
        self.first_tsc
    }

    pub closed spec fn spec_delta1(self) -> u64 {
        self.delta1
    }

    pub closed spec fn spec_iteration(self) -> u64 {
        self.iteration
    }

    /// Start from the first probe; an unstable counter means the machine has
    /// no PIT worth reading and the fast path is abandoned at once.
    pub fn start(probe: MsbProbe) -> (r: Option<PitCalibrator>)
        ensures
            match r {
                Some(c) => {
                    &&& probe.stable
                    &&& c.spec_first_tsc() == probe.tsc
                    &&& c.spec_delta1() == probe.delta
                    &&& c.spec_iteration() == 0
                },
                None => !probe.stable,
            },
    {
        if probe.stable {
            Some(PitCalibrator { first_tsc: probe.tsc, delta1: probe.delta, iteration: 0 })
        } else {
            None
        }
    }

    /// Judge the probe of the current decrement: fail on a broken chain or a
    /// first-round error above the bound, keep sampling while the spread of
    /// the two bracketing reads is at least 1/2048 of the elapsed ticks, and
    /// verify once it is below.
    pub fn sample(&mut self, probe: MsbProbe) -> (r: PitStep)
        requires
            old(self).spec_iteration() < MAX_QUICK_PIT_ITERATIONS,
        ensures
            final(self).spec_first_tsc() == old(self).spec_first_tsc(),
            final(self).spec_delta1() == old(self).spec_delta1(),
            !probe.stable ==> r == PitStep::Failed && final(self).spec_iteration() == old(
                self,
            ).spec_iteration(),
            probe.stable ==> {
                let elapsed = u64_specs::wrapping_sub(probe.tsc, old(self).spec_first_tsc());
                let err = u64_specs::wrapping_add(old(self).spec_delta1(), probe.delta);
                if old(self).spec_iteration() == 0 && err > (u64_specs::wrapping_mul(
                    elapsed,
                    MAX_QUICK_PIT_ITERATIONS,
                ) >> 11) {
                    r == PitStep::Failed && final(self).spec_iteration() == old(
                        self,
                    ).spec_iteration()
                } else if err >= elapsed >> 11 {
                    if old(self).spec_iteration() + 1 < MAX_QUICK_PIT_ITERATIONS {
                        r == PitStep::KeepSampling && final(self).spec_iteration() == old(
                            self,
                        ).spec_iteration() + 1
                    } else {
                        r == PitStep::Failed && final(self).spec_iteration() == old(
                            self,
                        ).spec_iteration() + 1
                    }
                } else {
                    r == PitStep::Verify && final(self).spec_iteration() == old(
                        self,
                    ).spec_iteration()
                }
            },
    {
        if !probe.stable {
            return PitStep::Failed;
        }
        let elapsed = probe.tsc.wrapping_sub(self.first_tsc);
        let err = self.delta1.wrapping_add(probe.delta);
        if self.iteration == 0 && err > (elapsed.wrapping_mul(MAX_QUICK_PIT_ITERATIONS) >> 11) {
            return PitStep::Failed;
        }
        if err >= elapsed >> 11 {
            self.iteration = self.iteration + 1;
            if self.iteration < MAX_QUICK_PIT_ITERATIONS {
                return PitStep::KeepSampling;
            }
            return PitStep::Failed;
        }
        PitStep::Verify
    }

    /// The byte the counter must show on the confirming re-read: one below
    /// the decrement just sampled, counting down from 0xFE.
    pub fn expected_verify_msb(&self) -> (r: u8)
        requires
            self.spec_iteration() < MAX_QUICK_PIT_ITERATIONS,
        ensures
            r == 0xFD - self.spec_iteration(),
    {
        (0xFDu64 - self.iteration) as u8
    }

    /// The TSC rate in kHz once the error bound held:
    /// `elapsed * PIT_TICK_RATE / ((i + 1) * 256 * 1000)`, the ticks per
    /// PIT-measured second scaled to kHz.
    pub fn khz(&self, probe_tsc: u64) -> (r: u64)
        requires
            u64_specs::wrapping_sub(probe_tsc, self.spec_first_tsc()) * PIT_TICK_RATE
                <= u64::MAX,
            self.spec_iteration() < MAX_QUICK_PIT_ITERATIONS,
        ensures
            r == u64_specs::wrapping_sub(probe_tsc, self.spec_first_tsc()) * PIT_TICK_RATE / ((
            self.spec_iteration() + 1) * 256 * 1000),
    {
        let elapsed = probe_tsc.wrapping_sub(self.first_tsc);
        let scaled = elapsed * PIT_TICK_RATE;
        scaled / ((self.iteration + 1) * 256 * 1000)
    }
}

/// What the RTC coarse loop does after one one-second spin.
#[derive(Clone, Copy, Debug, PartialEq, Eq, Structural)]
pub enum RtcStep {
    /// The guessed rate looks one-second-accurate: enter verification.
    Verify,
    /// Adjust the guess and spin again.
    Adjust(u64),
    /// The clock moved strangely; spin again with the same guess.
    Retry,
}

/// One coarse RTC decision: given the guessed ticks-per-microsecond and the
/// RTC samples around a guessed one-second spin, converge the guess. No
/// clock movement means the guess is far too small; a spread other than one
/// second scales the guess proportionally.
pub fn rtc_coarse_step(tick_delay: u64, start: CmosTime, end: CmosTime) -> (r: RtcStep)
    requires
        tick_delay <= u64::MAX / 60,
    ensures
        end == start ==> r == RtcStep::Adjust((tick_delay + 82) as u64),
        end != start && end.minute == start.minute ==> {
            let spread = if end.second >= start.second {
                (end.second - start.second) as int
            } else {
                0int
            };
            if spread == 1 {
                r == RtcStep::Verify
            } else if spread > 60 {
                r == RtcStep::Adjust((tick_delay / 2) as u64)
            } else {
                r == RtcStep::Adjust((tick_delay * (60 - spread) / 60) as u64)
            }
        },
        end != start && end.minute != start.minute ==> r == RtcStep::Retry,
{
    if end == start {
        return RtcStep::Adjust(tick_delay + 41 * 2);
    }
    if end.minute == start.minute {
        let spread: u64 = if end.second >= start.second {
            (end.second - start.second) as u64
        } else {
            0
        };
        if spread == 1 {
            return RtcStep::Verify;
        }
        if spread > 60 {
            return RtcStep::Adjust(tick_delay / 2);
        }
        proof {
            vstd::arithmetic::div_mod::lemma_fundamental_div_mod(u64::MAX as int, 60);
            vstd::arithmetic::mul::lemma_mul_inequality(
                tick_delay as int,
                (u64::MAX / 60) as int,
                (60 - spread) as int,
            );
            vstd::arithmetic::mul::lemma_mul_inequality(
                (60 - spread) as int,
                60,
                (u64::MAX / 60) as int,
            );
        }
        return RtcStep::Adjust(tick_delay * (60 - spread) / 60);
    }
    RtcStep::Retry
}

/// What the RTC verification loop does after one of its one-second spins.
#[derive(Clone, Copy, Debug, PartialEq, Eq, Structural)]
pub enum RtcVerifyStep {
    /// Seconds still line up; keep verifying.
    Continue,
    /// The spin drifted: restart coarse convergence from the suggested
    /// guess.
    Restart(u64),
}

/// One verification decision: after `i + 1` guessed seconds the RTC must
/// show a spread of exactly `i + 1` seconds; otherwise the guess is scaled
/// by the observed drift (or grown half again when the clock did not move).
pub fn rtc_verify_step(tick_delay: u64, i: u64, start_sec: u64, end_sec: u64) -> (r: RtcVerifyStep)
    requires
        tick_delay <= u64::MAX / 3,
        i < u64::MAX - 1,
        tick_delay * (i + 1) <= u64::MAX,
    ensures
        ({
            let spread = if end_sec > start_sec {
                (end_sec - start_sec) as int
            } else {
                0int
            };
            if spread == i + 1 {
                r == RtcVerifyStep::Continue
            } else if spread == 0 {
                r == RtcVerifyStep::Restart((tick_delay / 2 * 3) as u64)
            } else {
                r == RtcVerifyStep::Restart(((tick_delay as int) / spread * (i + 1)) as u64)
            }
        }),
{
    let spread: u64 = if end_sec > start_sec {
        end_sec - start_sec
    } else {
        0
    };
    if spread == i + 1 {
        return RtcVerifyStep::Continue;
    }
    if spread == 0 {
        return RtcVerifyStep::Restart(tick_delay / 2 * 3);
    }
    proof {
        vstd::arithmetic::div_mod::lemma_div_is_ordered_by_denominator(
            tick_delay as int,
            1,
            spread as int,
        );
        vstd::arithmetic::mul::lemma_mul_inequality(
            (tick_delay / spread) as int,
            tick_delay as int,
            (i + 1) as int,
        );
    }
    RtcVerifyStep::Restart(tick_delay / spread * (i + 1))
}

/// The RTC fallback's starting guess and required accuracy: the convergence
/// begins at 4500 ticks per microsecond and must hold for ten consecutive
/// seconds, plus the two the setup burns.
pub fn calibrate() -> (r: (u64, u8))
    ensures
        r.0 == 4500,
        r.1 == 10,
{
    (4500, 10)
}

} // verus!
