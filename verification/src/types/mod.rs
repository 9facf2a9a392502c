pub mod checker;
pub mod error;
pub mod text;
