//! Rendering of the collected results.

pub mod clock;
pub mod csv;
pub mod json;

pub use self::csv::{format_csv, CsvRecord};
pub use self::json::{json_output, JsonMetadata, JsonOutput, JsonResult};
