//! Inline formatting marks over a range of a text.
use vstd::prelude::*;

verus! {

/// A mark over the characters `start..end` of a text.
pub struct Span {
    pub start: usize,
    pub end: usize,
    pub modifier: Modifier,
}

pub enum Modifier {
    Strong,
    Underline,
    Italic,
    Code,
    Redact(Rationale),
}

/// Why a passage is redacted.
pub enum Rationale {
    PersonalInformation,
    PublicInterest,
    LegalAdvice,
    Other(String),
}

} // verus!
