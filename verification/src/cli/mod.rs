//! The settings of a run and their pre-flight validation.

pub mod args;

pub use args::{Args, LogLevel, OutputFormat};
