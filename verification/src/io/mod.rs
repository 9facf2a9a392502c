pub mod cmd;
pub mod env;
pub mod log;
