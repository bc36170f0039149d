pub mod ansi;
pub mod output;
pub mod rolling;
