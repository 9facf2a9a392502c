pub mod bin;
