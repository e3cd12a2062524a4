//! The sensor-side client: the sampling-increment vocabulary, the decision
//! logic of the session client that schedules readings, and the wire frame
//! a reading is reported with. Talking to the hardware and to the socket is
//! the transport layer's job.
use vstd::prelude::*;
use crate::render::{spec_dec, u64_to_dec};

verus! {

/// The sampling increment a sensor can run at.
#[derive(Copy, Clone, Debug, PartialEq, Eq, Structural)]
pub enum MeasurementMode {
    Idle,
    ConstantPower250ms,
    ConstantPower1s,
    PulseHeating10s,
    LowPowerPulseHeating60s,
}

/// Text notification passed from the session client to the sensor.
pub struct Message(pub String);

/// The sensor tells the session client its current sampling increment.
#[derive(Clone, Debug)]
pub struct CurrentMode {
    pub inc: MeasurementMode,
}

/// Tells the session client to have the sensor take a reading; stamped
/// with the mode version it was scheduled under.
#[derive(Debug, Clone, Copy)]
pub struct TakeReading {
    pub version: u64,
}

/// One sensor sample as the sensor client reports it.
pub struct Reading {
    pub eco2: u16,
    pub evtoc: u16,
    pub read_time: u64,
    pub start_time: u64,
    pub increment: String,
}

impl MeasurementMode {
    /// The label of each increment.
    pub open spec fn spec_label(self) -> Seq<char> {
        match self {
            MeasurementMode::Idle => "Idle"@,
            MeasurementMode::ConstantPower250ms => "ConstantPower250ms"@,
            MeasurementMode::ConstantPower1s => "ConstantPower1s"@,
            MeasurementMode::PulseHeating10s => "PulseHeating10s"@,
            MeasurementMode::LowPowerPulseHeating60s => "LowPowerPulseHeating60s"@,
        }
    }

    /// The label of the increment, as carried in a reading.
    pub fn label(self) -> (s: String)
        ensures
            s@ == self.spec_label(),
    {
        match self {
            MeasurementMode::Idle => String::from_str("Idle"),
            MeasurementMode::ConstantPower250ms => String::from_str("ConstantPower250ms"),
            MeasurementMode::ConstantPower1s => String::from_str("ConstantPower1s"),
            MeasurementMode::PulseHeating10s => String::from_str("PulseHeating10s"),
            MeasurementMode::LowPowerPulseHeating60s => String::from_str(
                "LowPowerPulseHeating60s",
            ),
        }
    }

    /// The sampling period in milliseconds; an idle sensor never samples.
    pub open spec fn spec_millis(self) -> u64 {
        match self {
            MeasurementMode::ConstantPower250ms => 250,
            MeasurementMode::ConstantPower1s => 1000,
            MeasurementMode::PulseHeating10s => 10000,
            MeasurementMode::LowPowerPulseHeating60s => 60000,
            MeasurementMode::Idle => u64::MAX,
        }
    }

    pub fn millis(self) -> (m: u64)
        ensures
            m == self.spec_millis(),
    {
        match self {
            MeasurementMode::ConstantPower250ms => 250,
            MeasurementMode::ConstantPower1s => 1000,
            MeasurementMode::PulseHeating10s => 10000,
            MeasurementMode::LowPowerPulseHeating60s => 60000,
            MeasurementMode::Idle => u64::MAX,
        }
    }
}

/// The decision state of the session client: which increment the sensor
/// last reported, and a version stamp that invalidates readings scheduled
/// under an older increment.
pub struct SessionClient {
    pub mode: Option<MeasurementMode>,
    pub version: u64,
}

impl SessionClient {
    pub fn new() -> (s: SessionClient)
        ensures
            s.mode is None,
            s.version == 0,
    {
        SessionClient { mode: None, version: 0 }
    }

    /// The sampling period under the current mode, if one was reported.
    pub fn mode_to_millis(&self) -> (r: Option<u64>)
        ensures
            match self.mode {
                Some(m) => r == Some(m.spec_millis()),
                None => r is None,
            },
    {
        match self.mode {
            Some(m) => Some(m.millis()),
            None => None,
        }
    }

    /// The sensor reported its increment: adopt it, invalidate any reading
    /// scheduled under the old one, and schedule the first reading of the
    /// new version.
    pub fn on_current_mode(&mut self, msg: CurrentMode) -> (t: TakeReading)
        ensures
            final(self).mode == Some(msg.inc),
            final(self).version == if old(self).version == u64::MAX {
                0u64
            } else {
                (old(self).version + 1) as u64
            },
            t.version == final(self).version,
    {
        self.mode = Some(msg.inc);
        if self.version == u64::MAX {
            self.version = 0;
        } else {
            self.version = self.version + 1;
        }
        TakeReading { version: self.version }
    }

    /// A scheduled reading came due: if it was scheduled under the current
    /// mode version, take it and schedule the next one after the mode's
    /// period; a reading scheduled under a stale version is dropped.
    pub fn on_take_reading(&self, msg: TakeReading) -> (r: Option<(TakeReading, u64)>)
        requires
            msg.version == self.version ==> self.mode is Some,
        ensures
            match r {
                Some((next, delay)) => msg.version == self.version && next.version == msg.version
                    && (self.mode matches Some(m) && delay == m.spec_millis()),
                None => msg.version != self.version,
            },
    {
        if msg.version == self.version {
            match self.mode {
                Some(m) => Some((msg, m.millis())),
                None => None,
            }
        } else {
            None
        }
    }
}

/// The wire command reporting one sensor sample: `/reading` followed by a
/// JSON object carrying all five fields.
pub open spec fn spec_reading_frame(
    eco2: u16,
    evtoc: u16,
    read_time: u64,
    start_time: u64,
    increment: Seq<char>,
) -> Seq<char> {
    "/reading {\"eco2\": "@ + spec_dec(eco2 as nat) + ", \"evtoc\": "@ + spec_dec(evtoc as nat)
        + ", \"read_time\": "@ + spec_dec(read_time as nat) + ", \"start_time\": "@ + spec_dec(
        start_time as nat,
    ) + ", \"increment\": \""@ + increment + "\"}"@
}

/// Render the wire command for one sample.
pub fn reading_frame(rd: &Reading) -> (s: String)
    ensures
        s@ == spec_reading_frame(rd.eco2, rd.evtoc, rd.read_time, rd.start_time, rd.increment@),
{
    let mut s = String::from_str("/reading {\"eco2\": ");
    s.append(u64_to_dec(rd.eco2 as u64).as_str());
    s.append(", \"evtoc\": ");
    s.append(u64_to_dec(rd.evtoc as u64).as_str());
    s.append(", \"read_time\": ");
    s.append(u64_to_dec(rd.read_time).as_str());
    s.append(", \"start_time\": ");
    s.append(u64_to_dec(rd.start_time).as_str());
    s.append(", \"increment\": \"");
    s.append(rd.increment.as_str());
    s.append("\"}");
    s
}

/// The placeholder sample reported when no hardware is attached: both
/// channels derived from the clock, so the pipeline can be exercised.
pub fn fake_reading(now: u64, start_time: u64, mode: MeasurementMode) -> (rd: Reading)
    ensures
        rd.eco2 == (now % 65536) as u16,
        rd.evtoc == ((now % 65536) / 2) as u16,
        rd.read_time == now,
        rd.start_time == start_time,
        rd.increment@ == mode.spec_label(),
{
    let e = (now % 65536) as u16;
    Reading {
        eco2: e,
        evtoc: e / 2,
        read_time: now,
        start_time,
        increment: mode.label(),
    }
}

} // verus!
