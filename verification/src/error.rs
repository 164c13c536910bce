//! Error type of the library.

use vstd::prelude::*;
use vstd::std_specs::convert::IntoSpec;

verus! {

/// Main error type.
#[derive(Debug)]
pub enum Error {
    Composition(String),
    Rendering(String),
    Audio(String),
    VoiceOver(String),
    Export(String),
    Midi(String),
    InvalidConfig(String),
    InvalidInput(String),
    NotFound(String),
    Stream(String),
    Synthesis(String),
    Other(String),
}

impl Error {
    /// Create a composition error.
    pub fn composition<M: Into<String>>(msg: M) -> (e: Self)
        ensures
            e matches Error::Composition(m) && (M::obeys_into_spec() ==> m == msg.into_spec()),
    {
        Error::Composition(msg.into())
    }

    /// Create a rendering error.
    pub fn rendering<M: Into<String>>(msg: M) -> (e: Self)
        ensures
            e matches Error::Rendering(m) && (M::obeys_into_spec() ==> m == msg.into_spec()),
    {
        Error::Rendering(msg.into())
    }

    /// Create an audio error.
    pub fn audio<M: Into<String>>(msg: M) -> (e: Self)
        ensures
            e matches Error::Audio(m) && (M::obeys_into_spec() ==> m == msg.into_spec()),
    {
        Error::Audio(msg.into())
    }

    /// Create a voice-over error.
    pub fn vo<M: Into<String>>(msg: M) -> (e: Self)
        ensures
            e matches Error::VoiceOver(m) && (M::obeys_into_spec() ==> m == msg.into_spec()),
    {
        Error::VoiceOver(msg.into())
    }

    /// Create an export error.
    pub fn export<M: Into<String>>(msg: M) -> (e: Self)
        ensures
            e matches Error::Export(m) && (M::obeys_into_spec() ==> m == msg.into_spec()),
    {
        Error::Export(msg.into())
    }
}

} // verus!
