//! Rendering of log events into the two syslog wire formats: the BSD
//! one-line format (RFC 3164) and the structured format (RFC 5424).
//!
//! The crate only encodes. It returns the finished line as a `String`,
//! without a newline at its end; delivering it to a transport is the
//! caller's business.

pub mod format;
pub mod priority;
pub mod structured_data;
pub mod text;
pub mod timestamp;

pub use format::{Formatter3164, Formatter5424, LogFormat};
pub use priority::{encode_priority, Facility, Priority, Severity};
pub use structured_data::{SdParams, StructuredData};
pub use text::{is_us_print_ascii, normalize_message_id};
pub use timestamp::Timestamp;
