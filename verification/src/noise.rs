//! The target of a rendering, and a test of whether a buffer holds an
//! instrument.

use crate::error::Error;
use crate::pulse::noise_at;
use crate::pulse::Noise;
use vstd::prelude::*;

verus! {

/// The form in which an instrument is to be rendered.
#[derive(Clone, Copy, Debug, PartialEq, Eq, Structural)]
pub struct PxtoneNoise {
    /// The number of channels: 2 or 1.
    pub channel: u16,
    /// The samples per second: 48000, 44100, 22050 or 11025.
    pub sample_rate: u32,
    /// The bits per sample: 16 or 8.
    pub bits_per_sample: u16,
}

impl PxtoneNoise {
    /// Reads the instrument that `bytes` hold and tells whether that went
    /// well: the error, if there is one, is that of the parser.
    pub fn generate(&self, bytes: Vec<u8>) -> (r: Result<(), Error>)
        ensures
            match noise_at(bytes@) {
                Ok(_) => r == Ok::<(), Error>(()),
                Err(e) => r == Err::<(), Error>(e),
            },
    {
        match Noise::new(bytes.as_slice()) {
            Ok(_) => Ok(()),
            Err(e) => Err(e),
        }
    }
}

} // verus!
