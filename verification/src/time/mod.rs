pub mod sleep;

pub use sleep::{SleepError, SleepTime};
