//! Reduces a native mix-format descriptor to a portable `Format`.
//!
//! The descriptor arrives as the bytes of a packed `WAVEFORMATEX`, possibly
//! extended to a `WAVEFORMATEXTENSIBLE`; its fields are read at fixed offsets,
//! little-endian, so no alignment is assumed.

use vstd::bytes::*;
use vstd::prelude::*;

use crate::format::{Format, SampleFormat};

verus! {

/// Format tag of integer PCM.
pub const WAVE_FORMAT_PCM: u16 = 1;

/// Format tag of IEEE floating point.
pub const WAVE_FORMAT_IEEE_FLOAT: u16 = 3;

/// Format tag of a descriptor whose sub-format identifier decides.
pub const WAVE_FORMAT_EXTENSIBLE: u16 = 0xfffe;

/// Bytes of the base descriptor.
pub const BASE_LEN: usize = 18;

/// Bytes that the extensible descriptor adds to the base one.
pub const EXTENSION_LEN: u16 = 22;

/// A 128-bit identifier in its four native parts.
#[derive(Debug, Clone, Copy)]
pub struct Guid(pub u32, pub u16, pub u16, pub [u8; 8]);

impl PartialEq for Guid {
    fn eq(&self, o: &Guid) -> (r: bool) {
        let r = self.0 == o.0 && self.1 == o.1 && self.2 == o.2 && self.3[0] == o.3[0] && self.3[1]
            == o.3[1] && self.3[2] == o.3[2] && self.3[3] == o.3[3] && self.3[4] == o.3[4]
            && self.3[5] == o.3[5] && self.3[6] == o.3[6] && self.3[7] == o.3[7];
        proof {
            if r {
                assert(self.3@ =~= o.3@);
            }
        }
        r
    }
}

impl vstd::std_specs::cmp::PartialEqSpecImpl for Guid {
    open spec fn obeys_eq_spec() -> bool {
        true
    }

    open spec fn eq_spec(&self, o: &Guid) -> bool {
        self.0 == o.0 && self.1 == o.1 && self.2 == o.2 && self.3@ == o.3@
    }
}

impl Eq for Guid {

}

impl Guid {
    /// The sub-format identifier of integer PCM.
    pub fn subtype_pcm() -> (g: Guid)
        ensures
            is_subtype_pcm(g),
    {
        let g = Guid(1, 0, 0x10, [0x80, 0x00, 0x00, 0xaa, 0x00, 0x38, 0x9b, 0x71]);
        assert(g.3@ =~= seq![0x80u8, 0x00, 0x00, 0xaa, 0x00, 0x38, 0x9b, 0x71]);
        g
    }

    /// The sub-format identifier of IEEE floating point.
    pub fn subtype_ieee_float() -> (g: Guid)
        ensures
            is_subtype_ieee_float(g),
    {
        let g = Guid(3, 0, 0x10, [0x80, 0x00, 0x00, 0xaa, 0x00, 0x38, 0x9b, 0x71]);
        assert(g.3@ =~= seq![0x80u8, 0x00, 0x00, 0xaa, 0x00, 0x38, 0x9b, 0x71]);
        g
    }
}

/// The trailing eight bytes shared by the two known sub-format identifiers.
pub open spec fn subtype_tail() -> Seq<u8> {
    seq![0x80u8, 0x00, 0x00, 0xaa, 0x00, 0x38, 0x9b, 0x71]
}

pub open spec fn is_subtype_pcm(g: Guid) -> bool {
    g.0 == 1 && g.1 == 0 && g.2 == 0x10 && g.3@ == subtype_tail()
}

pub open spec fn is_subtype_ieee_float(g: Guid) -> bool {
    g.0 == 3 && g.1 == 0 && g.2 == 0x10 && g.3@ == subtype_tail()
}

/// The fields of a mix-format descriptor that negotiation reads.
#[derive(Debug, Clone, Copy)]
pub struct MixFormat {
    pub format_tag: u16,
    pub channels: u16,
    pub samples_per_sec: u32,
    pub bits_per_sample: u16,
    /// Declared size of the structure that follows the base descriptor.
    pub extra_size: u16,
    /// The sub-format identifier, present where the descriptor is extensible
    /// with the extension's exact size.
    pub sub_format: Option<Guid>,
}

/// Error: the descriptor names no format that `Format` can hold.
#[derive(Debug, PartialEq, Eq, Structural, Clone, Copy)]
pub struct UnknownFormat;

/// The sample encoding that the resolution rules give, in order: a PCM tag
/// with 8 or 16 bits; a float tag with 32 bits; an extensible tag with the
/// extension's exact size, whose sub-format (PCM or float) is read with the
/// same widths; nothing otherwise.
pub open spec fn resolve_sample_format(m: MixFormat) -> Option<SampleFormat> {
    if m.format_tag == WAVE_FORMAT_PCM && m.bits_per_sample == 8 {
        Some(SampleFormat::Int8)
    } else if m.format_tag == WAVE_FORMAT_PCM && m.bits_per_sample == 16 {
        Some(SampleFormat::Int16)
    } else if m.format_tag == WAVE_FORMAT_IEEE_FLOAT && m.bits_per_sample == 32 {
        Some(SampleFormat::Float32)
    } else if m.format_tag == WAVE_FORMAT_EXTENSIBLE && m.extra_size == EXTENSION_LEN {
        match m.sub_format {
            Some(g) => if is_subtype_pcm(g) && m.bits_per_sample == 8 {
                Some(SampleFormat::Int8)
            } else if is_subtype_pcm(g) && m.bits_per_sample == 16 {
                Some(SampleFormat::Int16)
            } else if is_subtype_ieee_float(g) && m.bits_per_sample == 32 {
                Some(SampleFormat::Float32)
            } else {
                None
            },
            None => None,
        }
    } else {
        None
    }
}

/// The `Format` that a descriptor resolves to.
pub open spec fn resolve(m: MixFormat) -> Result<Format, UnknownFormat> {
    match resolve_sample_format(m) {
        Some(sf) => Ok(
            Format { channels: m.channels, sample_rate: m.samples_per_sec, sample_format: sf },
        ),
        None => Err(UnknownFormat),
    }
}

/// A little-endian `u16` at byte offset `at`.
pub open spec fn u16_at(b: Seq<u8>, at: int) -> u16 {
    spec_u16_from_le_bytes(b.subrange(at, at + 2))
}

/// A little-endian `u32` at byte offset `at`.
pub open spec fn u32_at(b: Seq<u8>, at: int) -> u32 {
    spec_u32_from_le_bytes(b.subrange(at, at + 4))
}

/// Whether the descriptor bytes `b` carry the extension with its identifier.
pub open spec fn has_extension(b: Seq<u8>) -> bool {
    u16_at(b, 0) == WAVE_FORMAT_EXTENSIBLE && u16_at(b, 16) == EXTENSION_LEN && b.len()
        >= BASE_LEN + EXTENSION_LEN
}

fn read_u16(b: &[u8], at: usize) -> (r: u16)
    requires
        at <= BASE_LEN + EXTENSION_LEN,
        at + 2 <= b@.len(),
    ensures
        r == u16_at(b@, at as int),
{
    u16_from_le_bytes(vstd::slice::slice_subrange(b, at, at + 2))
}

fn read_u32(b: &[u8], at: usize) -> (r: u32)
    requires
        at <= BASE_LEN + EXTENSION_LEN,
        at + 4 <= b@.len(),
    ensures
        r == u32_at(b@, at as int),
{
    u32_from_le_bytes(vstd::slice::slice_subrange(b, at, at + 4))
}

impl MixFormat {
    /// Reads the descriptor fields from its bytes: `None` where they are
    /// fewer than the base descriptor's.
    pub fn parse(b: &[u8]) -> (r: Option<MixFormat>)
        ensures
            r is None <==> b@.len() < BASE_LEN,
            r matches Some(m) ==> {
                &&& m.format_tag == u16_at(b@, 0)
                &&& m.channels == u16_at(b@, 2)
                &&& m.samples_per_sec == u32_at(b@, 4)
                &&& m.bits_per_sample == u16_at(b@, 14)
                &&& m.extra_size == u16_at(b@, 16)
                &&& m.sub_format is Some <==> has_extension(b@)
                &&& m.sub_format matches Some(g) ==> g.0 == u32_at(b@, 24) && g.1 == u16_at(b@, 28)
                    && g.2 == u16_at(b@, 30) && g.3@ == b@.subrange(32, 40)
            },
    {
        if b.len() < BASE_LEN {
            return None;
        }
        let format_tag = read_u16(b, 0);
        let extra_size = read_u16(b, 16);
        let sub_format = if format_tag == WAVE_FORMAT_EXTENSIBLE && extra_size == EXTENSION_LEN
            && b.len() >= BASE_LEN + EXTENSION_LEN as usize {
            let g = Guid(
                read_u32(b, 24),
                read_u16(b, 28),
                read_u16(b, 30),
                [b[32], b[33], b[34], b[35], b[36], b[37], b[38], b[39]],
            );
            assert(g.3@ =~= b@.subrange(32, 40));
            Some(g)
        } else {
            None
        };
        Some(
            MixFormat {
                format_tag,
                channels: read_u16(b, 2),
                samples_per_sec: read_u32(b, 4),
                bits_per_sample: read_u16(b, 14),
                extra_size,
                sub_format,
            },
        )
    }

    /// Resolves the descriptor to a portable `Format` by the rules of
    /// `resolve_sample_format`.
    pub fn resolve(&self) -> (r: Result<Format, UnknownFormat>)
        ensures
            r == resolve(*self),
    {
        let bits = self.bits_per_sample;
        let tag = self.format_tag;
        let sample_format = if tag == WAVE_FORMAT_PCM && bits == 8 {
            SampleFormat::Int8
        } else if tag == WAVE_FORMAT_PCM && bits == 16 {
            SampleFormat::Int16
        } else if tag == WAVE_FORMAT_IEEE_FLOAT && bits == 32 {
            SampleFormat::Float32
        } else if tag == WAVE_FORMAT_EXTENSIBLE && self.extra_size == EXTENSION_LEN {
            match self.sub_format {
                Some(g) => {
                    let pcm = g == Guid::subtype_pcm();
                    let float = g == Guid::subtype_ieee_float();
                    if pcm && bits == 8 {
                        SampleFormat::Int8
                    } else if pcm && bits == 16 {
                        SampleFormat::Int16
                    } else if float && bits == 32 {
                        SampleFormat::Float32
                    } else {
                        return Err(UnknownFormat);
                    }
                },
                None => return Err(UnknownFormat),
            }
        } else {
            return Err(UnknownFormat);
        };
        Ok(
            Format {
                channels: self.channels,
                sample_rate: self.samples_per_sec,
                sample_format,
            },
        )
    }
}

/// The `Format` of the descriptor bytes `b`, by the resolution rules applied
/// to the fields at their offsets.
pub open spec fn resolve_descriptor(b: Seq<u8>) -> Result<Format, UnknownFormat> {
    if b.len() < BASE_LEN {
        Err(UnknownFormat)
    } else {
        let tag = u16_at(b, 0);
        let bits = u16_at(b, 14);
        let known_tail = has_extension(b) && b.subrange(32, 40) == subtype_tail();
        let pcm = known_tail && u32_at(b, 24) == 1 && u16_at(b, 28) == 0 && u16_at(b, 30) == 0x10;
        let float = known_tail && u32_at(b, 24) == 3 && u16_at(b, 28) == 0 && u16_at(b, 30)
            == 0x10;
        let sf = if tag == WAVE_FORMAT_PCM && bits == 8 {
            Some(SampleFormat::Int8)
        } else if tag == WAVE_FORMAT_PCM && bits == 16 {
            Some(SampleFormat::Int16)
        } else if tag == WAVE_FORMAT_IEEE_FLOAT && bits == 32 {
            Some(SampleFormat::Float32)
        } else if pcm && bits == 8 {
            Some(SampleFormat::Int8)
        } else if pcm && bits == 16 {
            Some(SampleFormat::Int16)
        } else if float && bits == 32 {
            Some(SampleFormat::Float32)
        } else {
            None
        };
        match sf {
            Some(sample_format) => Ok(
                Format { channels: u16_at(b, 2), sample_rate: u32_at(b, 4), sample_format },
            ),
            None => Err(UnknownFormat),
        }
    }
}

/// The `Format` of the descriptor held in `b`: `UnknownFormat` where the
/// bytes are too few for a descriptor or it resolves to nothing.
pub fn format_of_descriptor(b: &[u8]) -> (r: Result<Format, UnknownFormat>)
    ensures
        r == resolve_descriptor(b@),
{
    match MixFormat::parse(b) {
        Some(m) => m.resolve(),
        None => Err(UnknownFormat),
    }
}

} // verus!
