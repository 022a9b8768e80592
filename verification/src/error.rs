use vstd::prelude::*;

verus! {

/// Errors shared by the configuration and buffer layers of the engine.
#[derive(Debug)]
pub enum RStudioError {
    /// A configuration field lies outside its accepted range.
    InvalidConfiguration { field: &'static str, reason: &'static str },
    /// An audio buffer or format description cannot be represented.
    InvalidAudioBuffer(&'static str),
    /// A failure reported by the audio backend.
    Audio(String),
}

} // verus!
