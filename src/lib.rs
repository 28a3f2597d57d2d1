//! Protocol core of a four-channel DC motor driver board: the wire model and
//! its byte layout, frame encoding and incremental frame decoding, packet
//! dispatch, the telemetry stream schedule, the safety watchdog state machine
//! and the I2C control path.

pub mod wire;
pub mod codec;
pub mod framing;
pub mod encoder;
pub mod decoder;
pub mod handler;
pub mod stream;
pub mod watchdog;
pub mod i2c;
pub mod host;
