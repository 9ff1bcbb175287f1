//! Sensor startup: the fixed initialization sequence the device runs once
//! before its control loop.
//!
//! The sensor is woken, any in-progress periodic measurement stopped, the
//! device reinitialized, its serial number read (for the log), and a
//! self-test executed; any failure is fatal to startup. On success the
//! sensor is placed into continuous low-power periodic measurement mode
//! for the rest of the run. The I2C traffic itself is the surrounding
//! program's; this machine fixes the order of the steps and that no step
//! is skipped or repeated.

use vstd::prelude::*;

verus! {

/// Why the sensor failed. During initialization any of these is fatal to
/// startup; during steady state a read failure only costs that tick.
#[derive(Clone, Copy, PartialEq, Eq, Structural, Debug)]
pub enum SensorError {
    StopMeasurementFailed,
    ReinitFailed,
    SerialNumberFailed,
    SelfTestFailed,
    StartMeasurementFailed,
    DataReadyFailed,
    MeasurementFailed,
}

/// Where the initialization sequence stands.
#[derive(Clone, Copy, PartialEq, Eq, Structural, Debug)]
pub enum SensorInitPhase {
    /// Wake-up is due (it cannot fail: the device simply powers up).
    Waking,
    /// Stopping a possibly in-progress periodic measurement.
    StoppingMeasurement,
    /// Reinitializing the device.
    Reinitializing,
    /// Reading the serial number.
    ReadingSerial,
    /// Running the self-test.
    SelfTesting,
    /// Entering continuous low-power periodic measurement mode.
    StartingPeriodic,
    /// Initialized; the control loop may poll it.
    Ready,
    /// Initialization failed; startup is abandoned.
    Failed,
}

/// The initialization sequence's state.
pub struct SensorInit {
    pub phase: SensorInitPhase,
    /// The serial number once read.
    pub serial: Option<u64>,
    pub error: Option<SensorError>,
}

impl SensorInit {
    /// An error is recorded exactly when the sequence failed, and the
    /// serial number is held exactly from the moment it was read.
    pub open spec fn wf(&self) -> bool {
        &&& (self.phase == SensorInitPhase::Failed <==> self.error is Some)
        &&& match self.phase {
            SensorInitPhase::Waking
            | SensorInitPhase::StoppingMeasurement
            | SensorInitPhase::Reinitializing
            | SensorInitPhase::ReadingSerial => self.serial is None,
            SensorInitPhase::SelfTesting
            | SensorInitPhase::StartingPeriodic
            | SensorInitPhase::Ready => self.serial is Some,
            SensorInitPhase::Failed => true,
        }
    }

    /// A fresh sequence, about to wake the sensor.
    pub fn new() -> (s: SensorInit)
        ensures
            s.wf(),
            s.phase == SensorInitPhase::Waking,
    {
        SensorInit { phase: SensorInitPhase::Waking, serial: None, error: None }
    }

    /// The wake-up was issued; stopping any periodic measurement is next.
    pub fn on_woken(&mut self)
        requires
            old(self).wf(),
            old(self).phase == SensorInitPhase::Waking,
        ensures
            final(self).wf(),
            final(self).phase == SensorInitPhase::StoppingMeasurement,
    {
        self.phase = SensorInitPhase::StoppingMeasurement;
    }

    /// Stopping the periodic measurement came back.
    pub fn on_stop_outcome(&mut self, ok: bool)
        requires
            old(self).wf(),
            old(self).phase == SensorInitPhase::StoppingMeasurement,
        ensures
            final(self).wf(),
            ok ==> final(self).phase == SensorInitPhase::Reinitializing,
            !ok ==> final(self).phase == SensorInitPhase::Failed && final(self).error == Some(
                SensorError::StopMeasurementFailed,
            ),
    {
        if ok {
            self.phase = SensorInitPhase::Reinitializing;
        } else {
            self.phase = SensorInitPhase::Failed;
            self.error = Some(SensorError::StopMeasurementFailed);
        }
    }

    /// The reinitialization came back.
    pub fn on_reinit_outcome(&mut self, ok: bool)
        requires
            old(self).wf(),
            old(self).phase == SensorInitPhase::Reinitializing,
        ensures
            final(self).wf(),
            ok ==> final(self).phase == SensorInitPhase::ReadingSerial,
            !ok ==> final(self).phase == SensorInitPhase::Failed && final(self).error == Some(
                SensorError::ReinitFailed,
            ),
    {
        if ok {
            self.phase = SensorInitPhase::ReadingSerial;
        } else {
            self.phase = SensorInitPhase::Failed;
            self.error = Some(SensorError::ReinitFailed);
        }
    }

    /// The serial-number read came back.
    pub fn on_serial(&mut self, serial: Option<u64>)
        requires
            old(self).wf(),
            old(self).phase == SensorInitPhase::ReadingSerial,
        ensures
            final(self).wf(),
            serial is Some ==> final(self).phase == SensorInitPhase::SelfTesting && final(self).serial == serial,
            serial is None ==> final(self).phase == SensorInitPhase::Failed && final(self).error
                == Some(SensorError::SerialNumberFailed),
    {
        match serial {
            Some(n) => {
                self.serial = Some(n);
                self.phase = SensorInitPhase::SelfTesting;
            },
            None => {
                self.phase = SensorInitPhase::Failed;
                self.error = Some(SensorError::SerialNumberFailed);
            },
        }
    }

    /// The self-test came back; failure here is fatal to startup.
    pub fn on_self_test_outcome(&mut self, ok: bool)
        requires
            old(self).wf(),
            old(self).phase == SensorInitPhase::SelfTesting,
        ensures
            final(self).wf(),
            ok ==> final(self).phase == SensorInitPhase::StartingPeriodic,
            !ok ==> final(self).phase == SensorInitPhase::Failed && final(self).error == Some(
                SensorError::SelfTestFailed,
            ),
    {
        if ok {
            self.phase = SensorInitPhase::StartingPeriodic;
        } else {
            self.phase = SensorInitPhase::Failed;
            self.error = Some(SensorError::SelfTestFailed);
        }
    }

    /// Entering low-power periodic measurement mode came back; success
    /// ends initialization and the control loop may start.
    pub fn on_start_periodic_outcome(&mut self, ok: bool)
        requires
            old(self).wf(),
            old(self).phase == SensorInitPhase::StartingPeriodic,
        ensures
            final(self).wf(),
            ok ==> final(self).phase == SensorInitPhase::Ready && final(self).serial == old(self).serial,
            !ok ==> final(self).phase == SensorInitPhase::Failed && final(self).error == Some(
                SensorError::StartMeasurementFailed,
            ),
    {
        if ok {
            self.phase = SensorInitPhase::Ready;
        } else {
            self.phase = SensorInitPhase::Failed;
            self.error = Some(SensorError::StartMeasurementFailed);
        }
    }
}

} // verus!
