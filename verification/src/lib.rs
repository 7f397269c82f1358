//! A verified core for a one-endpoint LED control server.
//!
//! The library covers the request-handling pipeline of a small device that
//! toggles one digital output over HTTP: assembling a request body from a
//! byte stream (length-delimited or stream-until-closed), decoding it as a
//! JSON toggle request, running the locked read-modify-write transition that
//! maps the requested state onto the hardware pin, and encoding the JSON
//! response.  The surrounding glue (network listener, WiFi association,
//! peripheral setup) performs the I/O and hands this library plain values.

pub mod body;
pub mod handler;
pub mod json;
pub mod response;
pub mod state;
pub mod types;
