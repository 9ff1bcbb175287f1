//! The supervisory control loop, one tick at a time.
//!
//! Each tick evaluates three readiness gates in a fixed order — link
//! connected, then time trustworthy, then sensor data ready — and any gate
//! failure ends the tick at once: later gates are never consulted, the
//! sensor is never read, and nothing is uploaded. Only a tick that passes
//! all three gates reads a measurement and produces exactly one envelope
//! for the uplink client.
//!
//! The surrounding program performs the actual queries (link driver, sync
//! source, sensor) and feeds each answer in; the machine's phase says which
//! observation is due next, and its contracts pin what each answer does.

use crate::link::LinkState;
use crate::timegate::{TimeSyncGate, TimeSyncStatus};
use crate::types::{Climate, MetricRequestBody, Topic};
use vstd::prelude::*;

verus! {

/// How a finished tick ended.
#[derive(Clone, Copy, PartialEq, Eq, Structural, Debug)]
pub enum TickOutcome {
    /// The link gate failed; a reconnect was requested and the tick ended.
    SkippedLink,
    /// The time gate failed (sync never yet completed); the tick ended.
    SkippedTime,
    /// The sensor had no fresh data; an expected idle state, the tick ended.
    SkippedNoData,
    /// All gates passed; one sample was read and one envelope produced.
    Sampled,
}

/// Which observation the current tick is waiting for.
#[derive(Clone, Copy, PartialEq, Eq, Structural, Debug)]
pub enum TickPhase {
    AwaitLink,
    AwaitTimeSync,
    AwaitDataReady,
    AwaitMeasurement,
    Done(TickOutcome),
}

/// The control loop's per-process state: the time-sync latch plus the
/// current tick's progress. Per tick it counts sensor reads performed and
/// envelopes handed to the uplink, so that gate short-circuiting is a
/// stated, proved property rather than a habit of the caller.
pub struct SupervisorLoop {
    pub phase: TickPhase,
    pub time_gate: TimeSyncGate,
    /// The link as the last status query saw it: `Connected`, or
    /// `Degraded` once a tick found it down and asked for a reconnect.
    pub link_state: LinkState,
    pub sensor_reads_this_tick: u64,
    pub uploads_this_tick: u64,
}

impl SupervisorLoop {
    /// A tick that ended at a gate touched neither the sensor nor the
    /// uplink; a tick still in its gate phases has touched neither yet; a
    /// fully successful tick read the sensor once and uploaded once.
    pub open spec fn wf(&self) -> bool {
        &&& self.time_gate.wf()
        &&& match self.phase {
            TickPhase::AwaitLink
            | TickPhase::AwaitTimeSync
            | TickPhase::AwaitDataReady
            | TickPhase::AwaitMeasurement => {
                self.sensor_reads_this_tick == 0 && self.uploads_this_tick == 0
            },
            TickPhase::Done(o) => match o {
                TickOutcome::Sampled => {
                    self.sensor_reads_this_tick == 1 && self.uploads_this_tick == 1
                },
                _ => self.sensor_reads_this_tick == 0 && self.uploads_this_tick == 0,
            },
        }
    }

    /// A fresh loop, before its first tick.
    pub fn new() -> (m: SupervisorLoop)
        ensures
            m.wf(),
            m.phase == TickPhase::AwaitLink,
            !m.time_gate.latched,
            m.link_state == LinkState::Connected,
    {
        SupervisorLoop {
            phase: TickPhase::AwaitLink,
            time_gate: TimeSyncGate::new(),
            link_state: LinkState::Connected,
            sensor_reads_this_tick: 0,
            uploads_this_tick: 0,
        }
    }

    /// Begins the next tick, after the configured sleep. The time-sync
    /// latch carries over; the per-tick counters reset.
    pub fn start_tick(&mut self)
        requires
            old(self).wf(),
            old(self).phase is Done,
        ensures
            final(self).wf(),
            final(self).phase == TickPhase::AwaitLink,
            final(self).time_gate == old(self).time_gate,
    {
        self.phase = TickPhase::AwaitLink;
        self.sensor_reads_this_tick = 0;
        self.uploads_this_tick = 0;
    }

    /// First gate: link status. A disconnected link ends the tick and asks
    /// the caller to trigger a (non-blocking) reconnect attempt.
    pub fn on_link_status(&mut self, connected: bool) -> (reconnect: bool)
        requires
            old(self).wf(),
            old(self).phase == TickPhase::AwaitLink,
        ensures
            final(self).wf(),
            final(self).time_gate == old(self).time_gate,
            connected ==> final(self).phase == TickPhase::AwaitTimeSync && !reconnect && final(self).link_state == LinkState::Connected,
            !connected ==> final(self).phase == TickPhase::Done(TickOutcome::SkippedLink)
                && reconnect && final(self).link_state == LinkState::Degraded,
            final(self).sensor_reads_this_tick == 0,
            final(self).uploads_this_tick == 0,
    {
        if connected {
            self.phase = TickPhase::AwaitTimeSync;
            self.link_state = LinkState::Connected;
            false
        } else {
            self.phase = TickPhase::Done(TickOutcome::SkippedLink);
            self.link_state = LinkState::Degraded;
            true
        }
    }

    /// Second gate: the time-sync source's report, fed through the latch.
    /// The tick goes on exactly when the latch is (or becomes) true.
    pub fn on_time_status(&mut self, s: TimeSyncStatus)
        requires
            old(self).wf(),
            old(self).phase == TickPhase::AwaitTimeSync,
        ensures
            final(self).wf(),
            final(self).time_gate.latched == (old(self).time_gate.latched
                || s == TimeSyncStatus::Completed),
            final(self).time_gate.observed@ == old(self).time_gate.observed@.push(s),
            final(self).time_gate.latched ==> final(self).phase == TickPhase::AwaitDataReady,
            !final(self).time_gate.latched ==> final(self).phase
                == TickPhase::Done(TickOutcome::SkippedTime),
            final(self).sensor_reads_this_tick == 0,
            final(self).uploads_this_tick == 0,
    {
        self.time_gate.observe(s);
        if self.time_gate.is_time_trustworthy() {
            self.phase = TickPhase::AwaitDataReady;
        } else {
            self.phase = TickPhase::Done(TickOutcome::SkippedTime);
        }
    }

    /// Third gate: the sensor's data-ready flag. Not-ready is an expected
    /// idle state, not an error: the tick simply ends.
    pub fn on_data_ready(&mut self, ready: bool)
        requires
            old(self).wf(),
            old(self).phase == TickPhase::AwaitDataReady,
        ensures
            final(self).wf(),
            final(self).time_gate == old(self).time_gate,
            ready ==> final(self).phase == TickPhase::AwaitMeasurement,
            !ready ==> final(self).phase == TickPhase::Done(TickOutcome::SkippedNoData),
            final(self).sensor_reads_this_tick == 0,
            final(self).uploads_this_tick == 0,
    {
        if ready {
            self.phase = TickPhase::AwaitMeasurement;
        } else {
            self.phase = TickPhase::Done(TickOutcome::SkippedNoData);
        }
    }

    /// All gates passed: the caller has read the sensor once and queried
    /// the clock; the machine builds the one envelope this tick uploads.
    pub fn on_measurement(&mut self, sample: Climate, now_unix: i64, device_id: Vec<u8>) -> (env:
        MetricRequestBody)
        requires
            old(self).wf(),
            old(self).phase == TickPhase::AwaitMeasurement,
        ensures
            final(self).wf(),
            final(self).time_gate == old(self).time_gate,
            final(self).phase == TickPhase::Done(TickOutcome::Sampled),
            final(self).sensor_reads_this_tick == 1,
            final(self).uploads_this_tick == 1,
            env.topic == Topic::Climate(sample),
            env.timestamp == now_unix,
            env.device_id@ == device_id@,
    {
        self.sensor_reads_this_tick = 1;
        self.uploads_this_tick = 1;
        self.phase = TickPhase::Done(TickOutcome::Sampled);
        MetricRequestBody { topic: Topic::Climate(sample), timestamp: now_unix, device_id }
    }
}

/// Gate short-circuiting: in any reachable loop state whose tick ended at a
/// failed gate — link down, time not yet trustworthy, or no data ready —
/// the sensor was not read and nothing was uploaded that tick. Together
/// with the phase preconditions above (a measurement can only be fed in
/// `AwaitMeasurement`, which only `on_data_ready(true)` reaches, which only
/// `on_time_status` reaches with a latched gate, which only
/// `on_link_status(true)` reaches), this is the fixed gate order
/// link → time → data-ready with short-circuit on first failure.
pub proof fn lemma_gate_failure_blocks_sensor_and_uplink(m: SupervisorLoop)
    requires
        m.wf(),
        m.phase == TickPhase::Done(TickOutcome::SkippedLink)
            || m.phase == TickPhase::Done(TickOutcome::SkippedTime)
            || m.phase == TickPhase::Done(TickOutcome::SkippedNoData),
    ensures
        m.sensor_reads_this_tick == 0,
        m.uploads_this_tick == 0,
{
}

} // verus!
