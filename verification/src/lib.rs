//! Text codecs (Base64, hexadecimal, binary digits) with machine-checked
//! contracts, and a handful of small helpers that share their error type.

pub mod crypto;
pub mod encode;
pub mod io;
pub mod math;
pub mod time;
pub mod types;
pub mod utils;

pub use types::error::Error;
