use vstd::prelude::*;

verus! {

/// How one sample is encoded.
#[derive(Debug, PartialEq, Eq, Structural, Clone, Copy)]
pub enum SampleFormat {
    Int8,
    Int16,
    Float32,
}

/// The portable description of a stream: channel count, frames per second and
/// sample encoding.
#[derive(Debug, PartialEq, Eq, Structural, Clone, Copy)]
pub struct Format {
    pub channels: u16,
    pub sample_rate: u32,
    pub sample_format: SampleFormat,
}

/// Width in bits of one sample of the given encoding.
pub open spec fn spec_bits_per_sample(f: SampleFormat) -> u16 {
    match f {
        SampleFormat::Int8 => 8,
        SampleFormat::Int16 => 16,
        SampleFormat::Float32 => 32,
    }
}

impl SampleFormat {
    pub fn bits_per_sample(self) -> (r: u16)
        ensures
            r == spec_bits_per_sample(self),
            self == SampleFormat::Int8 ==> r == 8,
            self == SampleFormat::Int16 ==> r == 16,
            self == SampleFormat::Float32 ==> r == 32,
    {
        match self {
            SampleFormat::Int8 => 8,
            SampleFormat::Int16 => 16,
            SampleFormat::Float32 => 32,
        }
    }
}

} // verus!
