pub mod ascii;
pub mod random;
