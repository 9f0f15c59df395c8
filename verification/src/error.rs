//! Error taxonomy of the pipeline.
//!
//! Construction-time conditions are fatal and surface to the caller before
//! any streaming begins; a corrupt packet is recoverable and never aborts a
//! running source; a closed, drained channel is a normal end of stream and
//! is not represented here at all.

use vstd::prelude::*;

verus! {

/// A fatal error raised while constructing a component, before streaming.
#[derive(Clone, Copy, Debug, PartialEq, Eq, Structural)]
pub enum SourceError {
    /// The container or codec format is not supported.
    UnsupportedFormat,
    /// The media holds no decodable audio track.
    NoAudioTrack,
    /// No usable capture or playback device is available.
    NoDevice,
    /// The device's native sample format is not supported.
    UnsupportedSampleFormat,
}

/// A fatal error raised while configuring an analysis component.
#[derive(Clone, Copy, Debug, PartialEq, Eq, Structural)]
pub enum ConfigError {
    /// A window or band shape parameter is outside its valid range.
    BadShape,
    /// A rate parameter is zero.
    BadRate,
}

impl SourceError {
    /// A short description for display at session teardown.
    pub fn message(&self) -> (m: &'static str)
        ensures
            *self is UnsupportedFormat ==> m@ == "unsupported container or codec format"@,
            *self is NoAudioTrack ==> m@ == "no supported audio track"@,
            *self is NoDevice ==> m@ == "no device available"@,
            *self is UnsupportedSampleFormat ==> m@ == "unsupported native sample format"@,
    {
        match self {
            SourceError::UnsupportedFormat => "unsupported container or codec format",
            SourceError::NoAudioTrack => "no supported audio track",
            SourceError::NoDevice => "no device available",
            SourceError::UnsupportedSampleFormat => "unsupported native sample format",
        }
    }
}

impl ConfigError {
    /// A short description for display at session teardown.
    pub fn message(&self) -> (m: &'static str)
        ensures
            *self is BadShape ==> m@ == "invalid analysis shape"@,
            *self is BadRate ==> m@ == "invalid sample rate"@,
    {
        match self {
            ConfigError::BadShape => "invalid analysis shape",
            ConfigError::BadRate => "invalid sample rate",
        }
    }
}

} // verus!
