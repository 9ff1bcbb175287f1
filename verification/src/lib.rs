//! Supervisory loop and over-the-air update engine for a network-connected
//! environmental sensor node.
//!
//! The library holds the device's decision logic: readiness gating of each
//! control-loop tick, the time-sync latch, the metric uplink's wire framing
//! and bounded read-retry policy, and the OTA engine's streaming state
//! machine. Hardware and network effects (Wi-Fi driver, I2C sensor, TCP
//! sockets, flash writes) are performed by the surrounding program, which
//! feeds their observations into these machines as plain values.

pub mod types;
pub mod timegate;
pub mod tick;
pub mod uplink;
pub mod ota;
pub mod numfmt;
pub mod json;
pub mod wire;
pub mod link;
pub mod sensor;
