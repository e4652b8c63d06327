//! Classification, body extraction and redaction of notification mail.
pub mod classify;
pub mod extract;
pub mod matcher;
pub mod pipeline;
pub mod redact;
pub mod select;
pub mod text;
