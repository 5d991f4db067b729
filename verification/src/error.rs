//! The ways in which decoding or synthesis can fail.

use vstd::prelude::*;

verus! {

/// Why an instrument could not be decoded or rendered.
///
/// Every error ends the call that met it: nothing is returned in part.
#[derive(Clone, Copy, Debug, PartialEq, Eq, Structural)]
pub enum Error {
    /// A variable-length field still asks for more after its fifth byte.
    MalformedVarint,
    /// The buffer does not start with the instrument signature.
    BadSignature,
    /// The version number is newer than the supported one.
    UnsupportedVersion,
    /// More than four units are announced.
    TooManyUnits,
    /// More than three envelope points are announced for one unit.
    TooManyEnvelopePoints,
    /// A unit sets a feature flag outside the known mask.
    UnknownFeatureFlag,
    /// An oscillator names a waveform index that maps to no known kind, or a
    /// voice names a kind of wave that is not read.
    UnknownWaveform,
    /// The buffer ends in the middle of a field.
    TruncatedInput,
    /// Channel count, sample rate or bit depth is outside the allowed set;
    /// of a RIFF/WAVE file, also a format chunk that is too short, states
    /// another coding than linear PCM, or states byte counts that do not
    /// follow from its form.
    UnsupportedTarget,
    /// A voice is laid out in a way that is not read: a reserved word is
    /// set, or an envelope has body points or not exactly one tail point.
    UnsupportedVoice,
}

} // verus!
