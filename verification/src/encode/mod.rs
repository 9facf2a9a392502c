pub mod base64;
pub mod hex;
