//! Host-side logic of a hardware-in-the-loop harness for the TOWER firmware SDK.
//!
//! The bench is a TOWER Core Module and a TOWER Radio Dongle on serial ports, and a Nordic PPK2
//! that supplies and measures the Core. This crate decides; it opens no port, reads no file and
//! spawns no process. Its callers perform the input and output and hand over what came of it.
//!
//! - [`text`]: searching and cutting text, decimal numbers;
//! - [`firmware`]: which firmware checkout the images are built from;
//! - [`bench`]: the bench roster and its resolution against the live serial ports;
//! - [`msg`]: the console messages as plain values;
//! - [`encoding`]: how the fields of a payload are encoded;
//! - [`wire`]: decoding message payloads;
//! - [`frame`]: decoded console frames;
//! - [`window`]: deadlines and the operations that wait for frames until one;
//! - [`console`]: the framed console: sequence accounting, sending and receiving frames;
//! - [`ppk2`]: the line protocol of the current-measurement sidecar;
//! - [`laws`]: what holds across the operations.

pub mod bench;
pub mod console;
pub mod encoding;
pub mod firmware;
pub mod frame;
pub mod laws;
pub mod msg;
pub mod ppk2;
pub mod text;
pub mod window;
pub mod wire;
