//! Integers on the wire: the variable-length form of bincode's standard
//! configuration, and the width check that a field of a given type applies.

use vstd::bytes::*;
use vstd::prelude::*;

verus! {

/// Why a byte sequence is not an encoded packet.
#[derive(Debug, PartialEq, Eq, Structural, Clone, Copy)]
pub enum DecodeError {
    /// The bytes end before the value does.
    UnexpectedEnd,
    /// An integer marker that the field's type does not allow.
    InvalidInteger,
    /// A variant index that names no variant.
    UnknownVariant,
    /// Text that is not UTF-8.
    InvalidUtf8,
}

/// Largest value written as a single byte.
pub const SINGLE_BYTE_MAX: u8 = 250;

/// Marker byte before a two-byte value.
pub const MARK_U16: u8 = 251;

/// Marker byte before a four-byte value.
pub const MARK_U32: u8 = 252;

/// Marker byte before an eight-byte value.
pub const MARK_U64: u8 = 253;

/// The variable-length encoding of `v`: one byte up to 250, else a marker
/// and the value in the fewest of 2, 4 or 8 little-endian bytes.
pub open spec fn varint_bytes(v: u64) -> Seq<u8> {
    if v <= SINGLE_BYTE_MAX as u64 {
        seq![v as u8]
    } else if v <= 0xffff {
        seq![MARK_U16] + spec_u16_to_le_bytes(v as u16)
    } else if v <= 0xffff_ffff {
        seq![MARK_U32] + spec_u32_to_le_bytes(v as u32)
    } else {
        seq![MARK_U64] + spec_u64_to_le_bytes(v)
    }
}

/// Reads one variable-length integer from the front of `b`: its value and the
/// number of bytes it takes.
pub open spec fn varint_read(b: Seq<u8>) -> Result<(u64, nat), DecodeError> {
    if b.len() == 0 {
        Err(DecodeError::UnexpectedEnd)
    } else if b[0] <= SINGLE_BYTE_MAX {
        Ok((b[0] as u64, 1))
    } else if b[0] == MARK_U16 {
        if b.len() >= 3 {
            Ok((spec_u16_from_le_bytes(b.subrange(1, 3)) as u64, 3))
        } else {
            Err(DecodeError::UnexpectedEnd)
        }
    } else if b[0] == MARK_U32 {
        if b.len() >= 5 {
            Ok((spec_u32_from_le_bytes(b.subrange(1, 5)) as u64, 5))
        } else {
            Err(DecodeError::UnexpectedEnd)
        }
    } else if b[0] == MARK_U64 {
        if b.len() >= 9 {
            Ok((spec_u64_from_le_bytes(b.subrange(1, 9)), 9))
        } else {
            Err(DecodeError::UnexpectedEnd)
        }
    } else {
        Err(DecodeError::InvalidInteger)
    }
}

/// Reads an integer field whose type allows markers up to `widest`
/// (`MARK_U16` for 16 bits, `MARK_U32` for 32, `MARK_U64` for 64): a wider
/// marker is refused before any further byte is needed.
pub open spec fn uint_read(b: Seq<u8>, widest: u8) -> Result<(u64, nat), DecodeError> {
    if b.len() > 0 && widest < b[0] && b[0] <= MARK_U64 {
        Err(DecodeError::InvalidInteger)
    } else {
        varint_read(b)
    }
}

/// The marker that an integer field of at most `max` admits.
pub open spec fn widest_marker(max: u64) -> u8 {
    if max <= 0xffff {
        MARK_U16
    } else if max <= 0xffff_ffff {
        MARK_U32
    } else {
        MARK_U64
    }
}

/// Relies on bincode::encode_to_vec under `config::standard()`, which writes
/// a `u64` in the variable-length form (bincode's varint_encode_u64). Writing
/// into a `Vec` does not fail.
#[verifier::external_body]
fn varint_encode(v: u64) -> (r: Vec<u8>)
    ensures
        r@ == varint_bytes(v),
{
    bincode::encode_to_vec(v, bincode::config::standard()).unwrap_or_default()
}

/// Relies on bincode::decode_from_slice for a `u64` under
/// `config::standard()` (bincode's varint_decode_u64): the value and the bytes
/// read; `UnexpectedEnd` where the slice runs out, an invalid integer type for
/// the markers 254 and 255.
#[verifier::external_body]
fn varint_decode(b: &[u8]) -> (r: Result<(u64, usize), DecodeError>)
    ensures
        match r {
            Ok((v, n)) => varint_read(b@) == Ok::<(u64, nat), DecodeError>((v, n as nat)),
            Err(e) => varint_read(b@) == Err::<(u64, nat), DecodeError>(e),
        },
{
    match bincode::decode_from_slice::<u64, _>(b, bincode::config::standard()) {
        Ok(pair) => Ok(pair),
        Err(bincode::error::DecodeError::UnexpectedEnd { .. }) => Err(DecodeError::UnexpectedEnd),
        Err(_) => Err(DecodeError::InvalidInteger),
    }
}

/// Appends the variable-length encoding of `v` to `out`.
pub fn write_uint(out: &mut Vec<u8>, v: u64)
    ensures
        final(out)@ == old(out)@ + varint_bytes(v),
{
    let mut enc = varint_encode(v);
    out.append(&mut enc);
}

/// Reads an integer field from `b` starting at `at`: its value and the offset
/// just past it.
pub fn read_uint(b: &[u8], at: usize, widest: u8) -> (r: Result<(u64, usize), DecodeError>)
    requires
        at <= b@.len(),
    ensures
        match r {
            Ok((v, end)) => uint_read(b@.subrange(at as int, b@.len() as int), widest)
                == Ok::<(u64, nat), DecodeError>((v, (end - at) as nat)) && at <= end <= b@.len(),
            Err(e) => uint_read(b@.subrange(at as int, b@.len() as int), widest) == Err::<
                (u64, nat),
                DecodeError,
            >(e),
        },
{
    let rest = vstd::slice::slice_subrange(b, at, b.len());
    if rest.len() > 0 && widest < rest[0] && rest[0] <= MARK_U64 {
        return Err(DecodeError::InvalidInteger);
    }
    match varint_decode(rest) {
        Ok((v, n)) => {
            assert(n <= rest@.len());
            Ok((v, at + n))
        },
        Err(e) => Err(e),
    }
}

/// What `varint_read` reports of a sequence that starts with an encoding.
pub proof fn lemma_varint_round_trip(v: u64, rest: Seq<u8>)
    ensures
        varint_read(varint_bytes(v) + rest) == Ok::<(u64, nat), DecodeError>(
            (v, varint_bytes(v).len()),
        ),
        1 <= varint_bytes(v).len() <= 9,
        varint_bytes(v)[0] <= widest_marker(v),
{
    lemma_auto_spec_u16_to_from_le_bytes();
    lemma_auto_spec_u32_to_from_le_bytes();
    lemma_auto_spec_u64_to_from_le_bytes();
    let b = varint_bytes(v) + rest;
    if v <= SINGLE_BYTE_MAX as u64 {
    } else if v <= 0xffff {
        assert(b.subrange(1, 3) =~= spec_u16_to_le_bytes(v as u16));
    } else if v <= 0xffff_ffff {
        assert(b.subrange(1, 5) =~= spec_u32_to_le_bytes(v as u32));
    } else {
        assert(b.subrange(1, 9) =~= spec_u64_to_le_bytes(v));
    }
}

/// Reading a field back from its encoding, under the width of a type that
/// holds the value.
pub proof fn lemma_uint_round_trip(v: u64, max: u64, rest: Seq<u8>)
    requires
        v <= max,
        max == 0xffff || max == 0xffff_ffff || max == 0xffff_ffff_ffff_ffff,
    ensures
        uint_read(varint_bytes(v) + rest, widest_marker(max)) == Ok::<(u64, nat), DecodeError>(
            (v, varint_bytes(v).len()),
        ),
{
    lemma_varint_round_trip(v, rest);
}

/// The first `j` bytes of an encoded field followed by `rest`: a cut inside
/// the field reads as ended too early, any other as the whole field.
pub proof fn lemma_uint_prefix(v: u64, max: u64, rest: Seq<u8>, j: nat)
    requires
        v <= max,
        max == 0xffff || max == 0xffff_ffff || max == 0xffff_ffff_ffff_ffff,
        j <= varint_bytes(v).len() + rest.len(),
    ensures
        j < varint_bytes(v).len() ==> uint_read((varint_bytes(v) + rest).take(j as int), widest_marker(max))
            == Err::<(u64, nat), DecodeError>(DecodeError::UnexpectedEnd),
        j >= varint_bytes(v).len() ==> uint_read((varint_bytes(v) + rest).take(j as int), widest_marker(max))
            == Ok::<(u64, nat), DecodeError>((v, varint_bytes(v).len())),
{
    let enc = varint_bytes(v);
    lemma_varint_round_trip(v, rest);
    lemma_auto_spec_u16_to_from_le_bytes();
    lemma_auto_spec_u32_to_from_le_bytes();
    lemma_auto_spec_u64_to_from_le_bytes();
    if j < enc.len() {
        let t = (enc + rest).take(j as int);
        if j > 0 {
            assert(t[0] == enc[0]);
        }
    } else {
        assert((enc + rest).take(j as int) =~= enc + rest.take(j - enc.len()));
        lemma_uint_round_trip(v, max, rest.take(j - enc.len()));
    }
}

} // verus!
