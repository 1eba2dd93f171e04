//! Text in TOML as the body of an answer.

use vstd::prelude::*;

verus! {

/// A payload in TOML.
#[derive(Debug, Clone, PartialEq, Eq)]
pub struct Toml<T>(pub T);

/// The media type of a TOML payload.
pub open spec fn content_type_spec() -> Seq<char> {
    "application/toml"@
}

impl<T> Toml<T> {
    /// The payload.
    pub fn get(&self) -> (inner: &T)
        ensures
            *inner == self.0,
    {
        &self.0
    }

    /// The payload, taken out.
    pub fn into_inner(self) -> (inner: T)
        ensures
            inner == self.0,
    {
        self.0
    }

    /// The media type under which the payload is sent.
    pub fn content_type() -> (media_type: &'static str)
        ensures
            media_type@ == content_type_spec(),
    {
        "application/toml"
    }
}

} // verus!
