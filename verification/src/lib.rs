//! Decisions of the Rynk keyboard transports: USB CDC-ACM serial and BLE GATT.
//!
//! Every rule a transport follows between two pieces of I/O lives here as a
//! function from what the outside world answered to what to do next. The
//! program around the library opens ports, talks to the Bluetooth stack and
//! waits; the library never does.

pub mod attach;
pub mod ble;
pub mod bridge;
pub mod chunk;
pub mod error;
pub mod gatt;
pub mod handshake;
pub mod protocol;
pub mod serial;
pub mod text;
