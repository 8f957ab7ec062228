//! Error taxonomy: texture (backend/image) failures, shader failures
//! surfaced by a renderer, and font failures.

use vstd::prelude::*;

verus! {

/// The library's error type. Each variant carries a human-readable detail.
#[derive(Debug, Clone, PartialEq, Eq)]
pub enum NonaError {
    Texture(String),
    Shader(String),
    Font(String),
}

impl NonaError {
    /// Spec view of the carried detail.
    pub open spec fn detail(&self) -> Seq<char> {
        match self {
            NonaError::Texture(m) => m@,
            NonaError::Shader(m) => m@,
            NonaError::Font(m) => m@,
        }
    }

    /// The detail string carried by the error.
    pub fn message(&self) -> (r: String)
        ensures
            r@ == self.detail(),
    {
        match self {
            NonaError::Texture(m) => m.clone(),
            NonaError::Shader(m) => m.clone(),
            NonaError::Font(m) => m.clone(),
        }
    }
}

/// A font failure detail, for callers that report font problems separately.
#[derive(Debug, Clone, PartialEq, Eq)]
pub struct FontError {
    pub message: String,
}

impl FontError {
    pub fn new(message: String) -> (r: FontError)
        ensures
            r.message@ == message@,
    {
        FontError { message }
    }
}

} // verus!
