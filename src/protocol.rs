//! The application packets and their byte encoding: a variant index, then the
//! fields in order. Text is a length and UTF-8 bytes; a `Format` is its three
//! fields; samples are a length and each sample's IEEE-754 bits in four
//! little-endian bytes.

use vstd::bytes::*;
use vstd::prelude::*;
use vstd::utf8::*;

use crate::format::{Format, SampleFormat};
use crate::wire::{lemma_uint_prefix, lemma_uint_round_trip, read_uint, uint_read, varint_bytes, write_uint, DecodeError, MARK_U16, MARK_U32, MARK_U64};

verus! {

broadcast use vstd::string::group_string_axioms;

/// One message between client and server.
pub enum Packet {
    /// Opens a session: the client's name and the negotiated format.
    Henlo(String, Format),
    /// A batch of samples, each given by the bits of its 32-bit float.
    Data(Vec<u32>),
}

/// What a packet holds.
pub enum PacketModel {
    Henlo(Seq<char>, Format),
    Data(Seq<u32>),
}

impl View for Packet {
    type V = PacketModel;

    open spec fn view(&self) -> PacketModel {
        match self {
            Packet::Henlo(name, format) => PacketModel::Henlo(name@, *format),
            Packet::Data(samples) => PacketModel::Data(samples@),
        }
    }
}

/// Variant index of `Henlo`.
pub const HENLO_INDEX: u64 = 0;

/// Variant index of `Data`.
pub const DATA_INDEX: u64 = 1;

/// Variant index of a sample format, in declaration order.
pub open spec fn sample_format_index(f: SampleFormat) -> u64 {
    match f {
        SampleFormat::Int8 => 0,
        SampleFormat::Int16 => 1,
        SampleFormat::Float32 => 2,
    }
}

pub open spec fn sample_format_of_index(i: u64) -> Option<SampleFormat> {
    if i == 0 {
        Some(SampleFormat::Int8)
    } else if i == 1 {
        Some(SampleFormat::Int16)
    } else if i == 2 {
        Some(SampleFormat::Float32)
    } else {
        None
    }
}

pub open spec fn format_bytes(f: Format) -> Seq<u8> {
    varint_bytes(f.channels as u64) + varint_bytes(f.sample_rate as u64) + varint_bytes(
        sample_format_index(f.sample_format),
    )
}

pub open spec fn text_bytes(s: Seq<char>) -> Seq<u8> {
    varint_bytes(encode_utf8(s).len() as u64) + encode_utf8(s)
}

/// Each sample's four little-endian bytes, in order.
pub open spec fn samples_bytes(s: Seq<u32>) -> Seq<u8>
    decreases s.len(),
{
    if s.len() == 0 {
        Seq::empty()
    } else {
        samples_bytes(s.drop_last()) + spec_u32_to_le_bytes(s.last())
    }
}

/// The encoding of a packet.
pub open spec fn packet_bytes(p: PacketModel) -> Seq<u8> {
    match p {
        PacketModel::Henlo(name, f) => varint_bytes(HENLO_INDEX) + text_bytes(name) + format_bytes(
            f,
        ),
        PacketModel::Data(s) => varint_bytes(DATA_INDEX) + varint_bytes(s.len() as u64)
            + samples_bytes(s),
    }
}

/// A packet whose lengths can be written on the wire.
pub open spec fn encodable(p: PacketModel) -> bool {
    match p {
        PacketModel::Henlo(name, _) => encode_utf8(name).len() <= u64::MAX,
        PacketModel::Data(s) => s.len() <= u64::MAX,
    }
}

/// The rest of `b` from offset `at`.
pub open spec fn tail(b: Seq<u8>, at: nat) -> Seq<u8> {
    b.subrange(at as int, b.len() as int)
}

/// Reads a length-prefixed UTF-8 text at `at`: the characters and the offset
/// past them.
pub open spec fn parse_text(b: Seq<u8>, at: nat) -> Result<(Seq<char>, nat), DecodeError> {
    match uint_read(tail(b, at), MARK_U64) {
        Err(e) => Err(e),
        Ok((len, n)) => {
            let start = at + n;
            if b.len() < start + len {
                Err(DecodeError::UnexpectedEnd)
            } else {
                let bytes = b.subrange(start as int, start + len);
                if valid_utf8(bytes) {
                    Ok((decode_utf8(bytes), (start + len) as nat))
                } else {
                    Err(DecodeError::InvalidUtf8)
                }
            }
        },
    }
}

/// Reads a `Format` at `at`: the format and the offset past it.
pub open spec fn parse_format(b: Seq<u8>, at: nat) -> Result<(Format, nat), DecodeError> {
    match uint_read(tail(b, at), MARK_U16) {
        Err(e) => Err(e),
        Ok((channels, n1)) => match uint_read(tail(b, at + n1), MARK_U32) {
            Err(e) => Err(e),
            Ok((rate, n2)) => match uint_read(tail(b, at + n1 + n2), MARK_U32) {
                Err(e) => Err(e),
                Ok((index, n3)) => match sample_format_of_index(index) {
                    None => Err(DecodeError::UnknownVariant),
                    Some(sf) => Ok(
                        (
                            Format {
                                channels: channels as u16,
                                sample_rate: rate as u32,
                                sample_format: sf,
                            },
                            at + n1 + n2 + n3,
                        ),
                    ),
                },
            },
        },
    }
}

/// The `i`-th sample of a run that starts at `start`.
pub open spec fn sample_at(b: Seq<u8>, start: nat, i: int) -> u32 {
    spec_u32_from_le_bytes(b.subrange(start + 4 * i, start + 4 * i + 4))
}

/// Reads a length-prefixed run of samples at `at`.
pub open spec fn parse_samples(b: Seq<u8>, at: nat) -> Result<(Seq<u32>, nat), DecodeError> {
    match uint_read(tail(b, at), MARK_U64) {
        Err(e) => Err(e),
        Ok((len, n)) => {
            let start = at + n;
            if b.len() < start + 4 * len {
                Err(DecodeError::UnexpectedEnd)
            } else {
                Ok((Seq::new(len as nat, |i: int| sample_at(b, start, i)), (start + 4 * len) as nat))
            }
        },
    }
}

/// Reads one packet from the front of `b`: the packet and the number of bytes
/// it takes.
pub open spec fn parse_packet(b: Seq<u8>) -> Result<(PacketModel, nat), DecodeError> {
    match uint_read(b, MARK_U32) {
        Err(e) => Err(e),
        Ok((index, n)) => if index == HENLO_INDEX {
            match parse_text(b, n) {
                Err(e) => Err(e),
                Ok((name, n1)) => match parse_format(b, n1) {
                    Err(e) => Err(e),
                    Ok((f, n2)) => Ok((PacketModel::Henlo(name, f), n2)),
                },
            }
        } else if index == DATA_INDEX {
            match parse_samples(b, n) {
                Err(e) => Err(e),
                Ok((s, n1)) => Ok((PacketModel::Data(s), n1)),
            }
        } else {
            Err(DecodeError::UnknownVariant)
        },
    }
}

/// Relies on String::from_utf8: it succeeds exactly when the bytes are valid
/// UTF-8, and the string then holds the characters that they encode.
#[verifier::external_body]
fn string_from_utf8(bytes: Vec<u8>) -> (r: Option<String>)
    ensures
        r is Some <==> valid_utf8(bytes@),
        r matches Some(s) ==> s@ == decode_utf8(bytes@),
{
    String::from_utf8(bytes).ok()
}

fn write_samples(out: &mut Vec<u8>, s: &Vec<u32>)
    ensures
        final(out)@ == old(out)@ + samples_bytes(s@),
{
    let ghost start = out@;
    let mut i: usize = 0;
    while i < s.len()
        invariant
            i <= s@.len(),
            out@ == start + samples_bytes(s@.subrange(0, i as int)),
        decreases s@.len() - i,
    {
        let mut b = u32_to_le_bytes(s[i]);
        let ghost before = out@;
        out.append(&mut b);
        proof {
            let next = s@.subrange(0, i + 1);
            assert(next.drop_last() =~= s@.subrange(0, i as int));
            assert(next.last() == s@[i as int]);
            assert(out@ =~= start + samples_bytes(next));
        }
        i += 1;
    }
    assert(s@.subrange(0, s@.len() as int) =~= s@);
}

fn write_format(out: &mut Vec<u8>, f: Format)
    ensures
        final(out)@ == old(out)@ + format_bytes(f),
{
    let ghost start = out@;
    write_uint(out, f.channels as u64);
    write_uint(out, f.sample_rate as u64);
    let index: u64 = match f.sample_format {
        SampleFormat::Int8 => 0,
        SampleFormat::Int16 => 1,
        SampleFormat::Float32 => 2,
    };
    write_uint(out, index);
    assert(out@ =~= start + format_bytes(f));
}

/// Encodes a packet.
pub fn encode_packet(p: &Packet) -> (r: Vec<u8>)
    ensures
        r@ == packet_bytes(p@),
{
    let mut out: Vec<u8> = Vec::new();
    match p {
        Packet::Henlo(name, f) => {
            write_uint(&mut out, HENLO_INDEX);
            let bytes = name.as_str().as_bytes();
            write_uint(&mut out, bytes.len() as u64);
            let mut text = vstd::slice::slice_to_vec(bytes);
            out.append(&mut text);
            write_format(&mut out, *f);
            assert(out@ =~= packet_bytes(p@));
        },
        Packet::Data(s) => {
            write_uint(&mut out, DATA_INDEX);
            write_uint(&mut out, s.len() as u64);
            write_samples(&mut out, s);
            assert(out@ =~= packet_bytes(p@));
        },
    }
    out
}

fn read_text(b: &[u8], at: usize) -> (r: Result<(String, usize), DecodeError>)
    requires
        at <= b@.len(),
    ensures
        match r {
            Ok((s, end)) => parse_text(b@, at as nat) == Ok::<(Seq<char>, nat), DecodeError>(
                (s@, end as nat),
            ),
            Err(e) => parse_text(b@, at as nat) == Err::<(Seq<char>, nat), DecodeError>(e),
        },
{
    let (len, start) = match read_uint(b, at, MARK_U64) {
        Ok(pair) => pair,
        Err(e) => return Err(e),
    };
    if ((b.len() - start) as u64) < len {
        return Err(DecodeError::UnexpectedEnd);
    }
    let end = start + len as usize;
    let bytes = vstd::slice::slice_to_vec(vstd::slice::slice_subrange(b, start, end));
    match string_from_utf8(bytes) {
        Some(s) => Ok((s, end)),
        None => Err(DecodeError::InvalidUtf8),
    }
}

fn read_format(b: &[u8], at: usize) -> (r: Result<(Format, usize), DecodeError>)
    requires
        at <= b@.len(),
    ensures
        match r {
            Ok((f, end)) => parse_format(b@, at as nat) == Ok::<(Format, nat), DecodeError>(
                (f, end as nat),
            ),
            Err(e) => parse_format(b@, at as nat) == Err::<(Format, nat), DecodeError>(e),
        },
{
    let (channels, after_channels) = match read_uint(b, at, MARK_U16) {
        Ok(pair) => pair,
        Err(e) => return Err(e),
    };
    let (rate, after_rate) = match read_uint(b, after_channels, MARK_U32) {
        Ok(pair) => pair,
        Err(e) => return Err(e),
    };
    let (index, end) = match read_uint(b, after_rate, MARK_U32) {
        Ok(pair) => pair,
        Err(e) => return Err(e),
    };
    let sample_format = if index == 0 {
        SampleFormat::Int8
    } else if index == 1 {
        SampleFormat::Int16
    } else if index == 2 {
        SampleFormat::Float32
    } else {
        return Err(DecodeError::UnknownVariant);
    };
    Ok((Format { channels: channels as u16, sample_rate: rate as u32, sample_format }, end))
}

fn read_samples(b: &[u8], at: usize) -> (r: Result<(Vec<u32>, usize), DecodeError>)
    requires
        at <= b@.len(),
    ensures
        match r {
            Ok((s, end)) => parse_samples(b@, at as nat) == Ok::<(Seq<u32>, nat), DecodeError>(
                (s@, end as nat),
            ),
            Err(e) => parse_samples(b@, at as nat) == Err::<(Seq<u32>, nat), DecodeError>(e),
        },
{
    let (len, start) = match read_uint(b, at, MARK_U64) {
        Ok(pair) => pair,
        Err(e) => return Err(e),
    };
    let room = b.len() - start;
    if ((room / 4) as u64) < len {
        assert(b@.len() < start + 4 * len) by (nonlinear_arith)
            requires
                room == b@.len() - start,
                room / 4 < len,
        ;
        return Err(DecodeError::UnexpectedEnd);
    }
    let n = len as usize;
    assert(start + 4 * n <= b@.len()) by (nonlinear_arith)
        requires
            room == b@.len() - start,
            room / 4 >= n,
    ;
    let blen = b.len();
    let mut out: Vec<u32> = Vec::new();
    let mut i: usize = 0;
    while i < n
        invariant
            i <= n,
            blen == b@.len(),
            n == len,
            start + 4 * n <= b@.len(),
            out@ =~= Seq::new(i as nat, |j: int| sample_at(b@, start as nat, j)),
        decreases n - i,
    {
        let pos = start + 4 * i;
        let v = u32_from_le_bytes(vstd::slice::slice_subrange(b, pos, pos + 4));
        out.push(v);
        i += 1;
    }
    Ok((out, start + 4 * n))
}

/// Decodes one packet from the front of `b`, with the number of bytes it
/// takes.
pub fn decode_packet(b: &[u8]) -> (r: Result<(Packet, usize), DecodeError>)
    ensures
        match r {
            Ok((p, n)) => parse_packet(b@) == Ok::<(PacketModel, nat), DecodeError>(
                (p@, n as nat),
            ),
            Err(e) => parse_packet(b@) == Err::<(PacketModel, nat), DecodeError>(e),
        },
{
    proof {
        assert(b@.subrange(0, b@.len() as int) =~= b@);
    }
    let (index, n) = match read_uint(b, 0, MARK_U32) {
        Ok(pair) => pair,
        Err(e) => return Err(e),
    };
    if index == HENLO_INDEX {
        let (name, n1) = match read_text(b, n) {
            Ok(pair) => pair,
            Err(e) => return Err(e),
        };
        let (f, n2) = match read_format(b, n1) {
            Ok(pair) => pair,
            Err(e) => return Err(e),
        };
        Ok((Packet::Henlo(name, f), n2))
    } else if index == DATA_INDEX {
        let (s, n1) = match read_samples(b, n) {
            Ok(pair) => pair,
            Err(e) => return Err(e),
        };
        Ok((Packet::Data(s), n1))
    } else {
        Err(DecodeError::UnknownVariant)
    }
}

/// The encoding of `s` has four bytes per sample, the `i`-th group holding
/// `s[i]`.
pub proof fn lemma_samples_bytes(s: Seq<u32>)
    ensures
        samples_bytes(s).len() == 4 * s.len(),
        forall|i: int|
            0 <= i < s.len() ==> #[trigger] samples_bytes(s).subrange(4 * i, 4 * i + 4)
                == spec_u32_to_le_bytes(s[i]),
    decreases s.len(),
{
    lemma_auto_spec_u32_to_from_le_bytes();
    if s.len() > 0 {
        let init = s.drop_last();
        lemma_samples_bytes(init);
        assert forall|i: int| 0 <= i < s.len() implies #[trigger] samples_bytes(s).subrange(
            4 * i,
            4 * i + 4,
        ) == spec_u32_to_le_bytes(s[i]) by {
            if i < init.len() {
                assert(samples_bytes(s).subrange(4 * i, 4 * i + 4) =~= samples_bytes(
                    init,
                ).subrange(4 * i, 4 * i + 4));
            } else {
                assert(samples_bytes(s).subrange(4 * i, 4 * i + 4) =~= spec_u32_to_le_bytes(
                    s.last(),
                ));
            }
        }
    }
}

proof fn lemma_text_round_trip(pre: Seq<u8>, name: Seq<char>, rest: Seq<u8>)
    requires
        encode_utf8(name).len() <= u64::MAX,
    ensures
        parse_text(pre + text_bytes(name) + rest, pre.len()) == Ok::<(Seq<char>, nat), DecodeError>(
            (name, pre.len() + text_bytes(name).len()),
        ),
{
    let b = pre + text_bytes(name) + rest;
    let t = encode_utf8(name);
    let vl = varint_bytes(t.len() as u64);
    assert(tail(b, pre.len()) =~= vl + (t + rest));
    lemma_uint_round_trip(t.len() as u64, 0xffff_ffff_ffff_ffff, t + rest);
    let start = pre.len() + vl.len();
    assert(b.subrange(start as int, (start + t.len()) as int) =~= t);
    encode_utf8_valid_utf8(name);
    encode_utf8_decode_utf8(name);
}

proof fn lemma_format_round_trip(pre: Seq<u8>, f: Format, rest: Seq<u8>)
    ensures
        parse_format(pre + format_bytes(f) + rest, pre.len()) == Ok::<(Format, nat), DecodeError>(
            (f, pre.len() + format_bytes(f).len()),
        ),
{
    let b = pre + format_bytes(f) + rest;
    let c = varint_bytes(f.channels as u64);
    let r = varint_bytes(f.sample_rate as u64);
    let x = varint_bytes(sample_format_index(f.sample_format));
    let n = pre.len();
    assert(tail(b, n) =~= c + (r + x + rest));
    lemma_uint_round_trip(f.channels as u64, 0xffff, r + x + rest);
    assert(tail(b, n + c.len()) =~= r + (x + rest));
    lemma_uint_round_trip(f.sample_rate as u64, 0xffff_ffff, x + rest);
    assert(tail(b, n + c.len() + r.len()) =~= x + rest);
    lemma_uint_round_trip(sample_format_index(f.sample_format), 0xffff_ffff, rest);
}

proof fn lemma_samples_round_trip(pre: Seq<u8>, s: Seq<u32>, rest: Seq<u8>)
    requires
        s.len() <= u64::MAX,
    ensures
        parse_samples(pre + (varint_bytes(s.len() as u64) + samples_bytes(s)) + rest, pre.len())
            == Ok::<(Seq<u32>, nat), DecodeError>(
            (s, pre.len() + varint_bytes(s.len() as u64).len() + samples_bytes(s).len()),
        ),
{
    lemma_auto_spec_u32_to_from_le_bytes();
    let vl = varint_bytes(s.len() as u64);
    let sb = samples_bytes(s);
    let b = pre + (vl + sb) + rest;
    assert(tail(b, pre.len()) =~= vl + (sb + rest));
    lemma_uint_round_trip(s.len() as u64, 0xffff_ffff_ffff_ffff, sb + rest);
    let start = pre.len() + vl.len();
    lemma_samples_bytes(s);
    assert forall|i: int| 0 <= i < s.len() implies sample_at(b, start, i) == s[i] by {
        assert(b.subrange(start + 4 * i, start + 4 * i + 4) =~= sb.subrange(4 * i, 4 * i + 4));
    }
    assert(Seq::new(s.len(), |i: int| sample_at(b, start, i)) =~= s);
}

/// Decoding a packet's encoding, followed by anything, gives the packet back
/// and reports the length of its encoding: nothing is lost, and every sample
/// keeps its bits.
pub proof fn lemma_packet_round_trip(p: PacketModel, rest: Seq<u8>)
    requires
        encodable(p),
    ensures
        parse_packet(packet_bytes(p) + rest) == Ok::<(PacketModel, nat), DecodeError>(
            (p, packet_bytes(p).len()),
        ),
{
    let b = packet_bytes(p) + rest;
    match p {
        PacketModel::Henlo(name, f) => {
            let v0 = varint_bytes(HENLO_INDEX);
            let tb = text_bytes(name);
            let fb = format_bytes(f);
            assert(b =~= v0 + (tb + fb + rest));
            lemma_uint_round_trip(HENLO_INDEX, 0xffff_ffff, tb + fb + rest);
            assert(b =~= v0 + tb + (fb + rest));
            lemma_text_round_trip(v0, name, fb + rest);
            assert(b =~= (v0 + tb) + fb + rest);
            lemma_format_round_trip(v0 + tb, f, rest);
        },
        PacketModel::Data(s) => {
            let v0 = varint_bytes(DATA_INDEX);
            let body = varint_bytes(s.len() as u64) + samples_bytes(s);
            assert(b =~= v0 + (body + rest));
            lemma_uint_round_trip(DATA_INDEX, 0xffff_ffff, body + rest);
            assert(b =~= v0 + body + rest);
            lemma_samples_round_trip(v0, s, rest);
        },
    }
}

proof fn lemma_text_prefix(pre: Seq<u8>, name: Seq<char>, rest: Seq<u8>, k: nat)
    requires
        encode_utf8(name).len() <= u64::MAX,
        pre.len() <= k <= pre.len() + text_bytes(name).len() + rest.len(),
    ensures
        k < pre.len() + text_bytes(name).len() ==> parse_text(
            (pre + text_bytes(name) + rest).take(k as int),
            pre.len(),
        ) == Err::<(Seq<char>, nat), DecodeError>(DecodeError::UnexpectedEnd),
        k >= pre.len() + text_bytes(name).len() ==> parse_text(
            (pre + text_bytes(name) + rest).take(k as int),
            pre.len(),
        ) == Ok::<(Seq<char>, nat), DecodeError>((name, pre.len() + text_bytes(name).len())),
{
    let t = encode_utf8(name);
    let vl = varint_bytes(t.len() as u64);
    let b = (pre + text_bytes(name) + rest).take(k as int);
    assert(tail(b, pre.len()) =~= (vl + (t + rest)).take(k - pre.len()));
    lemma_uint_prefix(t.len() as u64, 0xffff_ffff_ffff_ffff, t + rest, (k - pre.len()) as nat);
    let start = pre.len() + vl.len();
    if k >= start + t.len() {
        assert(b.subrange(start as int, (start + t.len()) as int) =~= t);
        encode_utf8_valid_utf8(name);
        encode_utf8_decode_utf8(name);
    }
}

proof fn lemma_format_prefix(pre: Seq<u8>, f: Format, k: nat)
    requires
        pre.len() <= k < pre.len() + format_bytes(f).len(),
    ensures
        parse_format((pre + format_bytes(f)).take(k as int), pre.len()) == Err::<
            (Format, nat),
            DecodeError,
        >(DecodeError::UnexpectedEnd),
{
    let c = varint_bytes(f.channels as u64);
    let r = varint_bytes(f.sample_rate as u64);
    let x = varint_bytes(sample_format_index(f.sample_format));
    let b = (pre + format_bytes(f)).take(k as int);
    let n = pre.len();
    assert(tail(b, n) =~= (c + (r + x)).take(k - n));
    lemma_uint_prefix(f.channels as u64, 0xffff, r + x, (k - n) as nat);
    if k >= n + c.len() {
        assert(tail(b, n + c.len()) =~= (r + x).take(k - n - c.len()));
        lemma_uint_prefix(f.sample_rate as u64, 0xffff_ffff, x, (k - n - c.len()) as nat);
        if k >= n + c.len() + r.len() {
            let j = (k - n - c.len() - r.len()) as nat;
            assert(tail(b, n + c.len() + r.len()) =~= (x + Seq::<u8>::empty()).take(j as int));
            lemma_uint_prefix(sample_format_index(f.sample_format), 0xffff_ffff, Seq::empty(), j);
        }
    }
}

proof fn lemma_samples_prefix(pre: Seq<u8>, s: Seq<u32>, k: nat)
    requires
        s.len() <= u64::MAX,
        pre.len() <= k < pre.len() + varint_bytes(s.len() as u64).len() + samples_bytes(s).len(),
    ensures
        parse_samples((pre + (varint_bytes(s.len() as u64) + samples_bytes(s))).take(k as int), pre.len())
            == Err::<(Seq<u32>, nat), DecodeError>(DecodeError::UnexpectedEnd),
{
    let vl = varint_bytes(s.len() as u64);
    let sb = samples_bytes(s);
    let b = (pre + (vl + sb)).take(k as int);
    assert(tail(b, pre.len()) =~= (vl + sb).take(k - pre.len()));
    lemma_uint_prefix(s.len() as u64, 0xffff_ffff_ffff_ffff, sb, (k - pre.len()) as nat);
    lemma_samples_bytes(s);
}

/// Every proper prefix of a packet's encoding reads as ended too early, never
/// as malformed: a reader of a byte stream that holds part of a packet waits
/// for more bytes, and any other error means the stream is broken.
pub proof fn lemma_prefix_is_unfinished(p: PacketModel, k: nat)
    requires
        encodable(p),
        k < packet_bytes(p).len(),
    ensures
        parse_packet(packet_bytes(p).take(k as int)) == Err::<(PacketModel, nat), DecodeError>(
            DecodeError::UnexpectedEnd,
        ),
{
    let b = packet_bytes(p).take(k as int);
    match p {
        PacketModel::Henlo(name, f) => {
            let v0 = varint_bytes(HENLO_INDEX);
            let tb = text_bytes(name);
            let fb = format_bytes(f);
            assert(packet_bytes(p) =~= v0 + (tb + fb));
            lemma_uint_prefix(HENLO_INDEX, 0xffff_ffff, tb + fb, k);
            if k >= v0.len() {
                assert(packet_bytes(p) =~= v0 + tb + fb);
                lemma_text_prefix(v0, name, fb, k);
                if k >= v0.len() + tb.len() {
                    assert(packet_bytes(p) =~= (v0 + tb) + fb);
                    lemma_format_prefix(v0 + tb, f, k);
                }
            }
        },
        PacketModel::Data(s) => {
            let v0 = varint_bytes(DATA_INDEX);
            let body = varint_bytes(s.len() as u64) + samples_bytes(s);
            assert(packet_bytes(p) =~= v0 + body);
            lemma_uint_prefix(DATA_INDEX, 0xffff_ffff, body, k);
            if k >= v0.len() {
                lemma_samples_prefix(v0, s, k);
            }
        },
    }
}

} // verus!
