//! The round-trip latency measurement state machine.
//!
//! A measurement first listens to ambient input to calibrate a detection
//! threshold, then sends an impulse to the output and waits for it to return
//! on the input, three times, with a guard window after each impulse and a
//! quiet gap between impulses. The application runs the streams and the loop,
//! measures sample amplitudes against the threshold, and reports each input
//! sample to [`RoundTripMeasurementState::tick`], which decides what to emit
//! and when the measurement is over. Times are nanoseconds on a monotonic
//! clock.
use vstd::prelude::*;
use crate::audio_service::{BufferSizeSetting, frames_of, ring_buffer_size, ring_buffer_size_for};

verus! {

/// Ambient input samples used to estimate the noise floor.
pub const CALIBRATION_SAMPLES: usize = 512;

/// Impulses per measurement; the result is their average.
pub const IMPULSE_COUNT: usize = 3;

/// Input samples ignored right after an impulse is sent.
pub const GUARD_SAMPLES: usize = 512;

/// Quiet time between an echo and the next impulse.
pub const INTER_IMPULSE_GAP_NS: u64 = 200_000_000;

/// Extra time allowed for a whole measurement beyond its impulses' timeouts.
pub const SESSION_SLACK_NS: u64 = 2_000_000_000;

/// The phase of a measurement.
#[derive(PartialEq, Eq, Structural, Clone, Copy, Debug)]
pub enum RoundTripMeasurementPhase {
    /// Finished: no further impulses are sent.
    Idle,
    /// Listening to ambient input to derive a threshold.
    CalibrationAmbient,
    /// Impulse number `n` (from 0) is due or awaited.
    WaitingForEcho(usize),
}

/// What the application must send to the output for the current tick.
#[derive(PartialEq, Eq, Structural, Clone, Copy, Debug)]
pub enum RoundTripEmission {
    /// Write one sample of silence (if the output has room).
    Silence,
    /// Write one impulse sample; the output has room for it.
    Impulse,
    /// Write nothing: an impulse was due but the output had no room.
    Nothing,
}

/// How a tick leaves the measurement.
pub enum RoundTripTickOutcome {
    /// More input is needed.
    Ongoing,
    /// Every impulse returned; holds each impulse's round-trip time in ns.
    Complete(Vec<u64>),
    /// The awaited echo did not arrive in time.
    TimedOut,
}

/// One input sample as the application sees it.
pub struct RoundTripInput {
    /// The time of this tick.
    pub now_ns: u64,
    /// Whether the sample's magnitude reaches the calibrated threshold.
    pub reaches_threshold: bool,
    /// Whether the output buffer can take one more sample.
    pub output_has_room: bool,
}

/// The decision for one tick.
pub struct RoundTripTick {
    pub outcome: RoundTripTickOutcome,
    pub emission: RoundTripEmission,
    /// Whether this tick ended calibration, so that the threshold must now be
    /// derived from the ambient peak.
    pub calibration_complete: bool,
}

/// Per-measurement state.
pub struct RoundTripMeasurementState {
    phase: RoundTripMeasurementPhase,
    impulse_sent_at: Option<u64>,
    ambient_count: usize,
    guard_remaining: usize,
    echo_durations_ns: Vec<u64>,
    impulse_deadline: Option<u64>,
    next_impulse_not_before: Option<u64>,
}

/// `now - earlier`, or 0 when `now` is not later (as `Instant::elapsed`).
pub open spec fn elapsed_ns(now: u64, earlier: u64) -> u64 {
    if now >= earlier {
        (now - earlier) as u64
    } else {
        0
    }
}

impl RoundTripMeasurementState {
    /// The measurement's counters are consistent with its phase.
    pub closed spec fn wf(&self) -> bool {
        &&& self.echo_durations_ns@.len() <= IMPULSE_COUNT
        &&& self.impulse_sent_at is Some <==> self.impulse_deadline is Some
        &&& self.impulse_sent_at is Some ==> self.echo_durations_ns@.len() < IMPULSE_COUNT
        &&& match self.phase {
            RoundTripMeasurementPhase::CalibrationAmbient => {
                &&& self.ambient_count < CALIBRATION_SAMPLES
                &&& self.impulse_sent_at is None
                &&& self.echo_durations_ns@.len() == 0
                &&& self.next_impulse_not_before is None
            },
            RoundTripMeasurementPhase::WaitingForEcho(n) => {
                &&& n == self.echo_durations_ns@.len()
                &&& n < IMPULSE_COUNT
                &&& self.ambient_count == CALIBRATION_SAMPLES
            },
            RoundTripMeasurementPhase::Idle => true,
        }
    }

    /// The phase.
    pub closed spec fn phase_spec(&self) -> RoundTripMeasurementPhase {
        self.phase
    }

    /// When the awaited impulse was sent, if one is awaited.
    pub closed spec fn sent_at_spec(&self) -> Option<u64> {
        self.impulse_sent_at
    }

    /// When the awaited impulse times out, if one is awaited.
    pub closed spec fn deadline_spec(&self) -> Option<u64> {
        self.impulse_deadline
    }

    /// The earliest time for the next impulse, once an echo has arrived.
    pub closed spec fn not_before_spec(&self) -> Option<u64> {
        self.next_impulse_not_before
    }

    /// Ambient samples consumed.
    pub closed spec fn ambient_count_spec(&self) -> usize {
        self.ambient_count
    }

    /// Input samples still ignored after the last impulse.
    pub closed spec fn guard_spec(&self) -> usize {
        self.guard_remaining
    }

    /// Round-trip times of the echoes received so far.
    pub closed spec fn durations_spec(&self) -> Seq<u64> {
        self.echo_durations_ns@
    }

    /// The impulses sent since the measurement began: one for each
    /// round-trip time received, plus the one still awaited.
    pub open spec fn impulses_sent(&self) -> nat {
        self.durations_spec().len() + if self.sent_at_spec() is Some {
            1nat
        } else {
            0nat
        }
    }

    /// A measurement never sends more than `IMPULSE_COUNT` impulses.
    pub proof fn lemma_impulses_sent_bounded(&self)
        requires
            self.wf(),
        ensures
            self.impulses_sent() <= IMPULSE_COUNT,
    {
    }

    /// All parts of the state other than the phase are those of `other`.
    pub open spec fn same_counters(&self, other: &Self) -> bool {
        &&& self.sent_at_spec() == other.sent_at_spec()
        &&& self.deadline_spec() == other.deadline_spec()
        &&& self.not_before_spec() == other.not_before_spec()
        &&& self.ambient_count_spec() == other.ambient_count_spec()
        &&& self.guard_spec() == other.guard_spec()
        &&& self.durations_spec() == other.durations_spec()
    }

    /// A fresh measurement, calibrating.
    pub fn new() -> (r: Self)
        ensures
            r.wf(),
            r.phase_spec() == RoundTripMeasurementPhase::CalibrationAmbient,
            r.sent_at_spec() is None,
            r.deadline_spec() is None,
            r.not_before_spec() is None,
            r.ambient_count_spec() == 0,
            r.guard_spec() == 0,
            r.durations_spec() == Seq::<u64>::empty(),
    {
        RoundTripMeasurementState {
            phase: RoundTripMeasurementPhase::CalibrationAmbient,
            impulse_sent_at: None,
            ambient_count: 0,
            guard_remaining: 0,
            echo_durations_ns: Vec::new(),
            impulse_deadline: None,
            next_impulse_not_before: None,
        }
    }

    /// The phase.
    pub fn phase(&self) -> (r: RoundTripMeasurementPhase)
        ensures
            r == self.phase_spec(),
    {
        self.phase
    }

    /// When the awaited impulse was sent, if one is awaited.
    pub fn impulse_sent_at(&self) -> (r: Option<u64>)
        ensures
            r == self.sent_at_spec(),
    {
        self.impulse_sent_at
    }

    /// Advances the measurement by one input sample.
    ///
    /// Calibration counts ambient samples and stays silent; after the last
    /// one the first impulse is due. A due impulse waits for the quiet gap,
    /// then is sent when the output has room, arming the guard window and the
    /// timeout. While an impulse is awaited the output stays silent, samples
    /// inside the guard window are ignored, and the first sample after it
    /// that reaches the threshold is the echo; after the last echo the
    /// measurement completes. Without an echo by the deadline it times out.
    /// Once finished, every tick is silent and changes nothing.
    pub fn tick(&mut self, input: RoundTripInput, per_impulse_timeout_ns: u64) -> (r: RoundTripTick)
        requires
            old(self).wf(),
            input.now_ns + per_impulse_timeout_ns <= u64::MAX,
            input.now_ns + INTER_IMPULSE_GAP_NS <= u64::MAX,
        ensures
            final(self).wf(),
            ({
                let o = *old(self);
                let f = *final(self);
                let now = input.now_ns;
                match o.phase_spec() {
                    RoundTripMeasurementPhase::CalibrationAmbient => {
                        &&& f.ambient_count_spec() == o.ambient_count_spec() + 1
                        &&& r.calibration_complete == (f.ambient_count_spec() == CALIBRATION_SAMPLES)
                        &&& f.phase_spec() == (if r.calibration_complete {
                            RoundTripMeasurementPhase::WaitingForEcho(0)
                        } else {
                            RoundTripMeasurementPhase::CalibrationAmbient
                        })
                        &&& f.sent_at_spec() == o.sent_at_spec()
                        &&& f.deadline_spec() == o.deadline_spec()
                        &&& f.not_before_spec() == o.not_before_spec()
                        &&& f.guard_spec() == o.guard_spec()
                        &&& f.durations_spec() == o.durations_spec()
                        &&& r.outcome is Ongoing
                        &&& r.emission == RoundTripEmission::Silence
                    },
                    RoundTripMeasurementPhase::WaitingForEcho(n) => {
                        &&& !r.calibration_complete
                        &&& match o.sent_at_spec() {
                            None => {
                                &&& r.outcome is Ongoing
                                &&& f.phase_spec() == o.phase_spec()
                                &&& if o.not_before_spec() matches Some(t) && now < t {
                                    &&& r.emission == RoundTripEmission::Silence
                                    &&& f.same_counters(&o)
                                } else if input.output_has_room {
                                    &&& r.emission == RoundTripEmission::Impulse
                                    &&& f.sent_at_spec() == Some(now)
                                    &&& f.deadline_spec() == Some((now + per_impulse_timeout_ns) as u64)
                                    &&& f.guard_spec() == GUARD_SAMPLES
                                    &&& f.not_before_spec() == o.not_before_spec()
                                    &&& f.ambient_count_spec() == o.ambient_count_spec()
                                    &&& f.durations_spec() == o.durations_spec()
                                } else {
                                    &&& r.emission == RoundTripEmission::Nothing
                                    &&& f.same_counters(&o)
                                }
                            },
                            Some(sent) => {
                                let in_guard = o.guard_spec() > 0;
                                let echo = !in_guard && input.reaches_threshold;
                                let durations = o.durations_spec().push(elapsed_ns(now, sent));
                                &&& r.emission == RoundTripEmission::Silence
                                &&& f.ambient_count_spec() == o.ambient_count_spec()
                                &&& f.guard_spec() == (if in_guard { (o.guard_spec() - 1) as usize } else { 0 })
                                &&& if echo {
                                    &&& f.sent_at_spec() is None
                                    &&& f.deadline_spec() is None
                                    &&& f.durations_spec() == durations
                                    &&& if durations.len() >= IMPULSE_COUNT {
                                        &&& f.phase_spec() == RoundTripMeasurementPhase::Idle
                                        &&& f.not_before_spec() == o.not_before_spec()
                                        &&& r.outcome matches RoundTripTickOutcome::Complete(d) && d@ == durations
                                    } else {
                                        &&& f.phase_spec() == RoundTripMeasurementPhase::WaitingForEcho((n + 1) as usize)
                                        &&& f.not_before_spec() == Some((now + INTER_IMPULSE_GAP_NS) as u64)
                                        &&& r.outcome is Ongoing
                                    }
                                } else {
                                    &&& f.sent_at_spec() == o.sent_at_spec()
                                    &&& f.deadline_spec() == o.deadline_spec()
                                    &&& f.not_before_spec() == o.not_before_spec()
                                    &&& f.durations_spec() == o.durations_spec()
                                    &&& if o.deadline_spec() matches Some(d) && now >= d {
                                        &&& f.phase_spec() == RoundTripMeasurementPhase::Idle
                                        &&& r.outcome is TimedOut
                                    } else {
                                        &&& f.phase_spec() == o.phase_spec()
                                        &&& r.outcome is Ongoing
                                    }
                                }
                            },
                        }
                    },
                    RoundTripMeasurementPhase::Idle => {
                        &&& f.phase_spec() == RoundTripMeasurementPhase::Idle
                        &&& f.same_counters(&o)
                        &&& r.outcome is Ongoing
                        &&& r.emission == RoundTripEmission::Silence
                        &&& !r.calibration_complete
                    },
                }
            }),
            // A measurement completes only with one round-trip time per impulse.
            r.outcome matches RoundTripTickOutcome::Complete(d) ==> d@.len() == IMPULSE_COUNT,
            // No echo is accepted inside the guard window after an impulse.
            old(self).guard_spec() > 0 && old(self).sent_at_spec() is Some ==> {
                &&& !(r.outcome is Complete)
                &&& final(self).durations_spec() == old(self).durations_spec()
            },
            // An impulse is sent only while no impulse is awaited.
            r.emission == RoundTripEmission::Impulse ==> old(self).sent_at_spec() is None,
            // Impulses are only ever sent for the impulses of the measurement.
            final(self).durations_spec().len() <= IMPULSE_COUNT,
            // Each impulse emitted is counted, and nothing else is.
            final(self).impulses_sent() == old(self).impulses_sent() + if r.emission
                == RoundTripEmission::Impulse {
                1nat
            } else {
                0nat
            },
    {
        let now = input.now_ns;
        match self.phase {
            RoundTripMeasurementPhase::CalibrationAmbient => {
                self.ambient_count = self.ambient_count + 1;
                let done = self.ambient_count >= CALIBRATION_SAMPLES;
                if done {
                    self.phase = RoundTripMeasurementPhase::WaitingForEcho(0);
                }
                RoundTripTick {
                    outcome: RoundTripTickOutcome::Ongoing,
                    emission: RoundTripEmission::Silence,
                    calibration_complete: done,
                }
            },
            RoundTripMeasurementPhase::WaitingForEcho(n) => {
                match self.impulse_sent_at {
                    None => {
                        let waiting = match self.next_impulse_not_before {
                            Some(t) => now < t,
                            None => false,
                        };
                        if waiting {
                            return RoundTripTick {
                                outcome: RoundTripTickOutcome::Ongoing,
                                emission: RoundTripEmission::Silence,
                                calibration_complete: false,
                            };
                        }
                        if input.output_has_room {
                            self.arm_impulse(now, per_impulse_timeout_ns);
                            RoundTripTick {
                                outcome: RoundTripTickOutcome::Ongoing,
                                emission: RoundTripEmission::Impulse,
                                calibration_complete: false,
                            }
                        } else {
                            RoundTripTick {
                                outcome: RoundTripTickOutcome::Ongoing,
                                emission: RoundTripEmission::Nothing,
                                calibration_complete: false,
                            }
                        }
                    },
                    Some(sent) => {
                        let echo = self.check_echo(input.reaches_threshold);
                        if echo {
                            let elapsed = if now >= sent {
                                now - sent
                            } else {
                                0
                            };
                            self.impulse_sent_at = None;
                            self.impulse_deadline = None;
                            self.echo_durations_ns.push(elapsed);
                            if self.echo_durations_ns.len() >= IMPULSE_COUNT {
                                self.phase = RoundTripMeasurementPhase::Idle;
                                let durations = self.echo_durations_ns.clone();
                                RoundTripTick {
                                    outcome: RoundTripTickOutcome::Complete(durations),
                                    emission: RoundTripEmission::Silence,
                                    calibration_complete: false,
                                }
                            } else {
                                self.next_impulse_not_before = Some(now + INTER_IMPULSE_GAP_NS);
                                self.phase = RoundTripMeasurementPhase::WaitingForEcho(n + 1);
                                RoundTripTick {
                                    outcome: RoundTripTickOutcome::Ongoing,
                                    emission: RoundTripEmission::Silence,
                                    calibration_complete: false,
                                }
                            }
                        } else if self.is_timed_out(now) {
                            self.phase = RoundTripMeasurementPhase::Idle;
                            RoundTripTick {
                                outcome: RoundTripTickOutcome::TimedOut,
                                emission: RoundTripEmission::Silence,
                                calibration_complete: false,
                            }
                        } else {
                            RoundTripTick {
                                outcome: RoundTripTickOutcome::Ongoing,
                                emission: RoundTripEmission::Silence,
                                calibration_complete: false,
                            }
                        }
                    },
                }
            },
            RoundTripMeasurementPhase::Idle => RoundTripTick {
                outcome: RoundTripTickOutcome::Ongoing,
                emission: RoundTripEmission::Silence,
                calibration_complete: false,
            },
        }
    }

    /// Starts the timer and guard window for an impulse sent at `now`.
    fn arm_impulse(&mut self, now: u64, per_impulse_timeout_ns: u64)
        requires
            now + per_impulse_timeout_ns <= u64::MAX,
            old(self).phase is WaitingForEcho,
            old(self).impulse_sent_at is None,
        ensures
            final(self).impulse_sent_at == Some(now),
            final(self).impulse_deadline == Some((now + per_impulse_timeout_ns) as u64),
            final(self).guard_remaining == GUARD_SAMPLES,
            final(self).phase == old(self).phase,
            final(self).ambient_count == old(self).ambient_count,
            final(self).echo_durations_ns@ == old(self).echo_durations_ns@,
            final(self).next_impulse_not_before == old(self).next_impulse_not_before,
    {
        self.impulse_sent_at = Some(now);
        self.impulse_deadline = Some(now + per_impulse_timeout_ns);
        self.guard_remaining = GUARD_SAMPLES;
    }

    /// Whether the current sample is the echo: never inside the guard window
    /// (which it shortens by one sample), else when it reaches the threshold.
    fn check_echo(&mut self, reaches_threshold: bool) -> (r: bool)
        ensures
            r == (old(self).guard_remaining == 0 && reaches_threshold),
            final(self).guard_remaining == (if old(self).guard_remaining > 0 {
                (old(self).guard_remaining - 1) as usize
            } else {
                0
            }),
            final(self).phase == old(self).phase,
            final(self).impulse_sent_at == old(self).impulse_sent_at,
            final(self).impulse_deadline == old(self).impulse_deadline,
            final(self).ambient_count == old(self).ambient_count,
            final(self).echo_durations_ns@ == old(self).echo_durations_ns@,
            final(self).next_impulse_not_before == old(self).next_impulse_not_before,
    {
        if self.guard_remaining > 0 {
            self.guard_remaining = self.guard_remaining - 1;
            return false;
        }
        reaches_threshold
    }

    /// Whether the awaited impulse is past its deadline at `now`.
    fn is_timed_out(&self, now: u64) -> (r: bool)
        ensures
            r == (self.impulse_deadline matches Some(d) && now >= d),
    {
        match self.impulse_deadline {
            Some(d) => now >= d,
            None => false,
        }
    }
}

/// The number of impulses among `emissions`.
pub open spec fn impulse_count(emissions: Seq<RoundTripEmission>) -> nat
    decreases emissions.len(),
{
    if emissions.len() == 0 {
        0
    } else {
        impulse_count(emissions.drop_last()) + if emissions.last() == RoundTripEmission::Impulse {
            1nat
        } else {
            0nat
        }
    }
}

/// Over any run of ticks from a fresh measurement, at most `IMPULSE_COUNT`
/// impulses are emitted. `states[k]` is the measurement before tick `k` and
/// `states[k + 1]` after it, and `emissions[k]` is what that tick emitted;
/// `new` and `tick` ensure the two conditions on them.
pub proof fn lemma_run_emits_at_most_impulse_count(
    states: Seq<RoundTripMeasurementState>,
    emissions: Seq<RoundTripEmission>,
)
    requires
        states.len() == emissions.len() + 1,
        states[0].wf(),
        states[0].impulses_sent() == 0,
        forall|k: int|
            0 <= k < emissions.len() ==> {
                &&& (#[trigger] states[k + 1]).wf()
                &&& states[k + 1].impulses_sent() == states[k].impulses_sent() + if emissions[k]
                    == RoundTripEmission::Impulse {
                    1nat
                } else {
                    0nat
                }
            },
    ensures
        impulse_count(emissions) <= IMPULSE_COUNT,
{
    let n = emissions.len() as int;
    lemma_impulse_count_tracks_state(states, emissions, n);
    if n > 0 {
        assert(states[(n - 1) + 1].wf());
    }
    states[n].lemma_impulses_sent_bounded();
    assert(emissions.take(n) =~= emissions);
}

proof fn lemma_impulse_count_tracks_state(
    states: Seq<RoundTripMeasurementState>,
    emissions: Seq<RoundTripEmission>,
    k: int,
)
    requires
        states.len() == emissions.len() + 1,
        0 <= k <= emissions.len(),
        states[0].impulses_sent() == 0,
        forall|j: int|
            0 <= j < emissions.len() ==> {
                &&& (#[trigger] states[j + 1]).wf()
                &&& states[j + 1].impulses_sent() == states[j].impulses_sent() + if emissions[j]
                    == RoundTripEmission::Impulse {
                    1nat
                } else {
                    0nat
                }
            },
    ensures
        impulse_count(emissions.take(k)) == states[k].impulses_sent(),
    decreases k,
{
    if k > 0 {
        lemma_impulse_count_tracks_state(states, emissions, k - 1);
        assert(emissions.take(k).drop_last() =~= emissions.take(k - 1));
        assert(states[(k - 1) + 1].impulses_sent() == states[k - 1].impulses_sent() + if emissions[k - 1]
            == RoundTripEmission::Impulse {
            1nat
        } else {
            0nat
        });
    } else {
        assert(emissions.take(0) =~= Seq::<RoundTripEmission>::empty());
    }
}

/// A self-contained round-trip measurement over temporary streams.
pub struct RoundTripLatencySession;

impl RoundTripLatencySession {
    /// The ring-buffer size for the temporary streams: sized from the larger
    /// of the two configured stream buffers.
    pub fn ring_buffer_size(input: BufferSizeSetting, output: BufferSizeSetting) -> (r: usize)
        requires
            4 * frames_of(input) <= usize::MAX,
            4 * frames_of(output) <= usize::MAX,
        ensures
            r == ring_buffer_size_for(
                if frames_of(input) >= frames_of(output) { frames_of(input) } else { frames_of(output) } as int,
            ),
    {
        let i = input.frames_or_default();
        let o = output.frames_or_default();
        let frames = if i >= o {
            i
        } else {
            o
        };
        ring_buffer_size(frames)
    }

    /// The time by which a whole measurement started at `start_ns` must end:
    /// one timeout per impulse plus two seconds.
    pub fn overall_deadline_ns(start_ns: u64, per_impulse_timeout_ns: u64) -> (r: u64)
        requires
            start_ns + per_impulse_timeout_ns * IMPULSE_COUNT + SESSION_SLACK_NS <= u64::MAX,
        ensures
            r == start_ns + per_impulse_timeout_ns * IMPULSE_COUNT + SESSION_SLACK_NS,
    {
        start_ns + per_impulse_timeout_ns * 3 + SESSION_SLACK_NS
    }
}

} // verus!
