//! The ingestion loop's decision core: a state machine from state and
//! event to next state and outcome, the deterministic simulator
//! waveform, and the verified composition of one whole ingestion
//! cycle — parse, store, predict, log. The blocking device reads,
//! the sleeps and the storage writes that produce the events and
//! consume the actions run outside the library.

use vstd::prelude::*;
use crate::clock::{epoch_now, timestamp_now};
use crate::engine::{spec_predict, CalibrationConfig};
use crate::fixed::{add_fp, fp_add, fp_mul, mul_fp, sat64};
use crate::log::{fmt_fixed, record_line, HistoryLog, LogRecord};
use crate::parse::{parse_reading, payload_reading};
use crate::state::{RawReading, SharedState};
use crate::trig::{cos_fp, cos_fp_exec, sin_fp, sin_fp_exec};

verus! {

/// Where the ingestion loop stands.
#[derive(Clone, Copy, Debug, PartialEq, Eq, Structural)]
pub enum IngestState {
    /// Trying to open the device.
    Connecting,
    /// Reading payloads from the open device.
    Reading,
    /// The device could not be opened; synthesizing readings for the
    /// rest of the process lifetime.
    Simulating,
}

/// What the outside world reports to the loop.
#[derive(Clone, Debug, PartialEq, Eq)]
pub enum IngestEvent {
    /// The device opened.
    Opened,
    /// The device could not be opened.
    OpenFailed,
    /// One payload arrived.
    Payload(Vec<u8>),
    /// A transient read error; skip the cycle.
    ReadTransient,
    /// The device is gone; reconnect.
    DeviceLost,
    /// A simulator cycle elapsed.
    Tick,
}

/// What one step of the loop decided.
#[derive(Clone, Copy, Debug, PartialEq, Eq, Structural)]
pub enum CycleOutcome {
    /// A reading was obtained and must be stored, predicted and
    /// logged.
    Stored(RawReading),
    /// The payload did not parse; skip the cycle, keep going.
    Malformed,
    /// Nothing to ingest this cycle.
    Idle,
}

/// The simulator's time axis: tick count scaled by a tenth, saturated.
pub open spec fn sim_counter(phase: u64) -> int {
    sat64(phase * 100_000_000)
}

/// The synthetic reading at a tick: humidity `50 + 20 * sin(c * 0.05)`
/// and temperature `25 + 5 * cos(c * 0.03)` over the counter `c`.
pub open spec fn sim_reading_spec(phase: u64) -> RawReading {
    let c = sim_counter(phase);
    RawReading {
        humidity: fp_add(
            50_000_000_000,
            fp_mul(20_000_000_000, sin_fp(fp_mul(c, 50_000_000))),
        ) as i64,
        temperature: fp_add(
            25_000_000_000,
            fp_mul(5_000_000_000, cos_fp(fp_mul(c, 30_000_000))),
        ) as i64,
    }
}

/// The transition function: device opening moves `Connecting` to
/// `Reading` or, on failure, to `Simulating` for good; payloads are
/// parsed or reported malformed; a lost device reconnects; a
/// simulator tick yields the synthetic reading and advances the
/// phase, wrapping at the top. Any other pairing changes nothing.
pub open spec fn spec_step(st: IngestState, phase: u64, ev: IngestEvent) -> (IngestState, u64, CycleOutcome) {
    match (st, ev) {
        (IngestState::Connecting, IngestEvent::Opened) => (IngestState::Reading, phase, CycleOutcome::Idle),
        (IngestState::Connecting, IngestEvent::OpenFailed) => (IngestState::Simulating, phase, CycleOutcome::Idle),
        (IngestState::Reading, IngestEvent::Payload(p)) => (
            IngestState::Reading,
            phase,
            match payload_reading(p@) {
                Some(r) => CycleOutcome::Stored(r),
                None => CycleOutcome::Malformed,
            },
        ),
        (IngestState::Reading, IngestEvent::ReadTransient) => (IngestState::Reading, phase, CycleOutcome::Idle),
        (IngestState::Reading, IngestEvent::DeviceLost) => (IngestState::Connecting, phase, CycleOutcome::Idle),
        (IngestState::Simulating, IngestEvent::Tick) => (
            IngestState::Simulating,
            if phase == u64::MAX {
                0
            } else {
                (phase + 1) as u64
            },
            CycleOutcome::Stored(sim_reading_spec(phase)),
        ),
        (s, _) => (s, phase, CycleOutcome::Idle),
    }
}

/// The line one successful cycle appends to the log: the timestamp,
/// then the reading, its prediction and residual at `now`, and the
/// temperature.
pub open spec fn cycle_line(cfg: CalibrationConfig, r: RawReading, now: u64, ts: Seq<char>) -> Seq<char> {
    ts + seq![','] + fmt_fixed(r.humidity as int, 3) + seq![','] + fmt_fixed(
        spec_predict(cfg, r.humidity, now).predicted as int,
        3,
    ) + seq![','] + fmt_fixed(spec_predict(cfg, r.humidity, now).residual_error as int, 6)
        + seq![','] + fmt_fixed(r.temperature as int, 2)
}

/// The ingestion loop's own state: never terminal; it runs for the
/// life of the process.
pub struct IngestionLoop {
    pub state: IngestState,
    pub sim_phase: u64,
}

impl IngestionLoop {
    pub fn new() -> (lp: IngestionLoop)
        ensures
            lp.state == IngestState::Connecting,
            lp.sim_phase == 0,
    {
        IngestionLoop { state: IngestState::Connecting, sim_phase: 0 }
    }

    /// The synthetic reading for the current phase; returns exactly
    /// `sim_reading_spec`.
    pub fn sim_reading(phase: u64) -> (r: RawReading)
        ensures
            r == sim_reading_spec(phase),
    {
        let prod: u128 = (phase as u128) * 100_000_000;
        let c: i64 = if prod > i64::MAX as u128 {
            i64::MAX
        } else {
            prod as i64
        };
        assert(c as int == sim_counter(phase));
        let humidity = add_fp(50_000_000_000, mul_fp(20_000_000_000, sin_fp_exec(mul_fp(c, 50_000_000))));
        let temperature = add_fp(25_000_000_000, mul_fp(5_000_000_000, cos_fp_exec(mul_fp(c, 30_000_000))));
        RawReading { humidity, temperature }
    }

    /// Take one transition; returns exactly the outcome of
    /// `spec_step`, leaving the loop in its next state.
    pub fn step(&mut self, ev: &IngestEvent) -> (out: CycleOutcome)
        ensures
            final(self).state == spec_step(old(self).state, old(self).sim_phase, *ev).0,
            final(self).sim_phase == spec_step(old(self).state, old(self).sim_phase, *ev).1,
            out == spec_step(old(self).state, old(self).sim_phase, *ev).2,
    {
        match (self.state, ev) {
            (IngestState::Connecting, IngestEvent::Opened) => {
                self.state = IngestState::Reading;
                CycleOutcome::Idle
            },
            (IngestState::Connecting, IngestEvent::OpenFailed) => {
                self.state = IngestState::Simulating;
                CycleOutcome::Idle
            },
            (IngestState::Reading, IngestEvent::Payload(p)) => {
                match parse_reading(p) {
                    Some(r) => CycleOutcome::Stored(r),
                    None => CycleOutcome::Malformed,
                }
            },
            (IngestState::Reading, IngestEvent::ReadTransient) => CycleOutcome::Idle,
            (IngestState::Reading, IngestEvent::DeviceLost) => {
                self.state = IngestState::Connecting;
                CycleOutcome::Idle
            },
            (IngestState::Simulating, IngestEvent::Tick) => {
                let r = IngestionLoop::sim_reading(self.sim_phase);
                self.sim_phase = if self.sim_phase == u64::MAX {
                    0
                } else {
                    self.sim_phase + 1
                };
                CycleOutcome::Stored(r)
            },
            _ => CycleOutcome::Idle,
        }
    }
}

/// One whole ingestion cycle with an explicit clock and timestamp:
/// take the transition; on a stored reading, replace the shared
/// snapshot, predict, and append exactly one rendered line to the
/// log; otherwise change neither. Malformed payloads and idle events
/// never halt anything.
pub fn ingest_cycle(
    lp: &mut IngestionLoop,
    shared: &mut SharedState,
    log: &mut HistoryLog,
    cfg: &CalibrationConfig,
    ev: &IngestEvent,
    now: u64,
    timestamp: String,
) -> (out: CycleOutcome)
    requires
        cfg.wf(),
    ensures
        final(lp).state == spec_step(old(lp).state, old(lp).sim_phase, *ev).0,
        final(lp).sim_phase == spec_step(old(lp).state, old(lp).sim_phase, *ev).1,
        out == spec_step(old(lp).state, old(lp).sim_phase, *ev).2,
        (out matches CycleOutcome::Stored(r) ==> final(shared).current() == r && final(log).lines()
            == old(log).lines().push(cycle_line(*cfg, r, now, timestamp@))),
        (!(out matches CycleOutcome::Stored(_)) ==> *final(shared) == *old(shared)
            && final(log).lines() == old(log).lines()),
        old(log).wf() ==> final(log).wf(),
{
    let out = lp.step(ev);
    match out {
        CycleOutcome::Stored(r) => {
            shared.write(r);
            let prediction = cfg.predict(r.humidity, now);
            let rec = LogRecord {
                timestamp,
                actual: r.humidity,
                predicted: prediction.predicted,
                residual_error: prediction.residual_error,
                temperature: r.temperature,
            };
            log.append(&rec);
            assert(record_line(rec) =~= cycle_line(*cfg, r, now, rec.timestamp@));
        },
        _ => {},
    }
    out
}

/// One cycle stamped by the wall clock: reads the clock through the
/// trusted chrono calls, then runs `ingest_cycle`. The clock value is
/// not promised, so only the shape of the effect is stated: a stored
/// reading replaces the snapshot and appends exactly one line,
/// anything else changes nothing.
pub fn ingest_cycle_clocked(
    lp: &mut IngestionLoop,
    shared: &mut SharedState,
    log: &mut HistoryLog,
    cfg: &CalibrationConfig,
    ev: &IngestEvent,
) -> (out: CycleOutcome)
    requires
        cfg.wf(),
    ensures
        final(lp).state == spec_step(old(lp).state, old(lp).sim_phase, *ev).0,
        final(lp).sim_phase == spec_step(old(lp).state, old(lp).sim_phase, *ev).1,
        out == spec_step(old(lp).state, old(lp).sim_phase, *ev).2,
        (out matches CycleOutcome::Stored(r) ==> final(shared).current() == r && final(log).lines().len()
            == old(log).lines().len() + 1 && (exists|now: u64, ts: Seq<char>|
            final(log).lines() == old(log).lines().push(cycle_line(*cfg, r, now, ts)))),
        (!(out matches CycleOutcome::Stored(_)) ==> *final(shared) == *old(shared)
            && final(log).lines() == old(log).lines()),
        old(log).wf() ==> final(log).wf(),
{
    let t = epoch_now();
    let now: u64 = if t < 0 {
        0
    } else {
        t as u64
    };
    let timestamp = timestamp_now();
    let ghost ts: Seq<char> = timestamp@;
    let ghost pre: Seq<Seq<char>> = log.lines();
    let out = ingest_cycle(lp, shared, log, cfg, ev, now, timestamp);
    proof {
        if let CycleOutcome::Stored(r) = out {
            assert(log.lines() == pre.push(cycle_line(*cfg, r, now, ts)));
        }
    }
    out
}

} // verus!
