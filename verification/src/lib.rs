//! Decoder for PxTone instruments and the whole-number core of the
//! rendering of noise instruments: the variable-length field codec, the
//! parsers of noise and voice documents, the wave tables that need no
//! transcendental arithmetic, the envelope and oscillator state of a unit
//! while it is rendered, and the assembly of the output as linear PCM, with
//! its layout as a RIFF/WAVE file.
//!
//! The arithmetic of a rendering is floating-point and is done by the caller:
//! the library hands out table samples and envelope terms, and takes back
//! mixed amplitudes. Single-precision numbers of a document are kept by their
//! bit patterns.

pub mod byte_order;
pub mod descriptor;
pub mod error;
pub mod helper;
pub mod noise;
pub mod pulse;
pub mod single;
