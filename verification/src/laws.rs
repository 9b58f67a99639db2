//! What holds of the library across its operations.

pub mod bench;
pub mod console;
pub mod encoding;
pub mod frame;
pub mod operations;
pub mod ppk2;
pub mod reads;
pub mod text;
pub mod wire;
