//! Free-form time expressions such as "3pm tomorrow", "2d 1h ago" or
//! "25/10/2025 11:25am", parsed into a typed value and resolved against a
//! reference instant.

pub mod calendar;
pub mod error;
pub mod parser;

pub use error::{FlexitimeError, FlexitimeResult, ParseFailure};
pub use parser::{parse_timestring, ParsedTime};
