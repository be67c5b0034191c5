//! Versioned, redactable, bilingual text records: encryption at rest,
//! append-only revision history, redaction markup and display rendering.

pub mod chars;
pub mod code;
pub mod codec;
pub mod error;
pub mod forms;
pub mod keywords;
pub mod lang;
pub mod markdown;
pub mod redaction;
pub mod span;
pub mod text;
pub mod view;
