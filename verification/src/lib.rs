//! Turns a stream of raw PCM 16-bit little-endian samples into a fixed-count
//! sequence of (min, max) peak pairs and renders each pair as one text record.

use vstd::prelude::*;

pub mod decode;
pub mod downsample;
pub mod encode;
pub mod numfmt;

pub use decode::decode;
pub use downsample::downsample;
pub use encode::OutputType;
pub use encode::format_peak;

verus! {

/// The two failures the core can report: an input byte buffer whose length
/// cannot be paired into 16-bit samples, and a sample sequence too short to
/// fill every requested output window at least once.
#[derive(Debug, Copy, Clone, PartialEq, Eq, Structural)]
pub enum WaveError {
    InvalidLength,
    InsufficientData,
}

impl WaveError {
    /// The human-readable description that the command-line layer prints.
    pub fn message(&self) -> (s: String)
        ensures
            *self is InvalidLength ==> s@ == "PCM stream length is not divisible by 2."@,
            *self is InsufficientData ==> s@
                == "Not enough PCM data to transform into the specified number of samples."@,
    {
        match self {
            WaveError::InvalidLength => String::from_str(
                "PCM stream length is not divisible by 2.",
            ),
            WaveError::InsufficientData => String::from_str(
                "Not enough PCM data to transform into the specified number of samples.",
            ),
        }
    }
}

/// A pair of extrema, `min` and `max`.
#[derive(Debug, Copy, Clone)]
pub struct MinMax<T> {
    pub min: T,
    pub max: T,
}

impl<T> MinMax<T> {
    pub fn new(min: T, max: T) -> (r: Self)
        ensures
            r.min == min,
            r.max == max,
    {
        MinMax { min, max }
    }
}

/// Restricts `value` to the inclusive range `[lower, upper]`: values below
/// `lower` become `lower`, values above `upper` become `upper`. The
/// command-line layer uses it to force the float precision into `[0, 7]`.
pub fn clamp(lower: usize, upper: usize, value: usize) -> (r: usize)
    ensures
        r == (if value < lower {
            lower
        } else if value > upper {
            upper
        } else {
            value
        }),
{
    if value < lower {
        lower
    } else if value > upper {
        upper
    } else {
        value
    }
}

} // verus!
