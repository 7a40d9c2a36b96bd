//! In-process log retention and presentation pipeline.
//!
//! The crate keeps a bounded, insertion-ordered history of log records,
//! filters them by severity, and decodes ANSI "Select Graphic Rendition"
//! (SGR) color escape sequences embedded in each record into discrete
//! styled text runs that a rendering surface can draw.

pub mod color;
pub mod decode;
pub mod severity;
pub mod store;

pub use color::Color;
pub use decode::{decode_line, StyledRun};
pub use severity::{Severity, SeverityFilter};
pub use store::{LogRecord, LogStore};
