//! Core data model: one climate sample, the envelope that carries it to the
//! remote collector, and the collector's error-response body.
//!
//! The sensor's temperature and humidity readings are carried as fixed-point
//! values in hundredths of a unit, so that the formatting of the uplink body
//! and every decision taken on a sample are exact.

use vstd::prelude::*;

verus! {

/// One environmental sample, immutable once read from the sensor.
///
/// Temperature and relative humidity are in hundredths (2250 means 22.50
/// degrees Celsius); CO2 concentration is in whole parts per million.
#[derive(Clone, Copy, PartialEq, Eq, Structural, Debug)]
pub struct Climate {
    pub temperature_centi: i32,
    pub humidity_centi: i32,
    pub co2_ppm: i32,
}

/// The kind of measurement an envelope carries.
#[derive(Clone, Copy, PartialEq, Eq, Structural, Debug)]
pub enum Topic {
    Climate(Climate),
}

/// One uplink message: a sample, the Unix second it was taken, and the
/// device's hardware identifier.
pub struct MetricRequestBody {
    pub topic: Topic,
    /// Unix timestamp in seconds.
    pub timestamp: i64,
    pub device_id: Vec<u8>,
}

/// The collector's response body: a diagnostic message encoded to bytes.
pub struct HttpResponseBody {
    pub message: Vec<u8>,
}

impl HttpResponseBody {
    /// Wraps a diagnostic message, as the collector does on its error paths.
    pub fn new(message: Vec<u8>) -> (r: HttpResponseBody)
        ensures
            r.message@ == message@,
    {
        HttpResponseBody { message }
    }
}

/// The collector's metric-selection window: an absent start of the range
/// defaults to the epoch, an absent end to the present moment.
pub fn metrics_query_range(start: Option<i64>, end: Option<i64>, now: i64) -> (r: (i64, i64))
    ensures
        r.0 == (match start {
            Some(s) => s,
            None => 0i64,
        }),
        r.1 == (match end {
            Some(e) => e,
            None => now,
        }),
{
    let lo = match start {
        Some(s) => s,
        None => 0,
    };
    let hi = match end {
        Some(e) => e,
        None => now,
    };
    (lo, hi)
}

} // verus!
