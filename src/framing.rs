//! Datagram framing: each datagram is a four-byte little-endian payload size
//! followed by the encoded packet.

use vstd::bytes::*;
use vstd::prelude::*;

use crate::protocol::{
    decode_packet, encode_packet, encodable, lemma_packet_round_trip, packet_bytes, parse_packet,
    Packet, PacketModel,
};
use crate::wire::DecodeError;

verus! {

/// Bytes of the size prefix.
pub const HEADER_LEN: usize = 4;

/// Why a datagram yields no packet.
#[derive(Debug, PartialEq, Eq, Structural, Clone, Copy)]
pub enum ReadPacketError {
    /// Fewer bytes than the prefix, or than the size it announces.
    UnexpectedEof,
    /// The payload is not an encoded packet.
    Decode(DecodeError),
    /// The payload holds more than one packet's bytes.
    TrailingBytes,
}

/// A packet whose encoding is larger than a size prefix can announce.
#[derive(Debug, PartialEq, Eq, Structural, Clone, Copy)]
pub struct PayloadTooLarge;

/// A datagram carrying `payload`.
pub open spec fn datagram_bytes(payload: Seq<u8>) -> Seq<u8> {
    spec_u32_to_le_bytes(payload.len() as u32) + payload
}

/// The payload size that the prefix of `d` announces.
pub open spec fn announced_size(d: Seq<u8>) -> nat {
    spec_u32_from_le_bytes(d.subrange(0, 4)) as nat
}

/// What a receiver makes of the bytes `d` of one datagram.
pub open spec fn read_packet_result(d: Seq<u8>) -> Result<PacketModel, ReadPacketError> {
    if d.len() < 4 {
        Err(ReadPacketError::UnexpectedEof)
    } else if d.len() < 4 + announced_size(d) {
        Err(ReadPacketError::UnexpectedEof)
    } else {
        match parse_packet(d.subrange(4, 4 + announced_size(d) as int)) {
            Err(e) => Err(ReadPacketError::Decode(e)),
            Ok((p, n)) => if n == announced_size(d) {
                Ok(p)
            } else {
                Err(ReadPacketError::TrailingBytes)
            },
        }
    }
}

/// The number of bytes to receive for a datagram whose first bytes (as
/// peeked) are `head`: the prefix and the payload it announces.
pub fn datagram_len(head: &[u8]) -> (r: Result<u64, ReadPacketError>)
    ensures
        head@.len() < 4 ==> r == Err::<u64, ReadPacketError>(ReadPacketError::UnexpectedEof),
        head@.len() >= 4 ==> r == Ok::<u64, ReadPacketError>((4 + announced_size(head@)) as u64),
{
    if head.len() < HEADER_LEN {
        return Err(ReadPacketError::UnexpectedEof);
    }
    let size = u32_from_le_bytes(vstd::slice::slice_subrange(head, 0, 4));
    Ok(4 + size as u64)
}

/// Decodes the packet of one received datagram.
pub fn read_packet(datagram: &[u8]) -> (r: Result<Packet, ReadPacketError>)
    ensures
        match r {
            Ok(p) => read_packet_result(datagram@) == Ok::<PacketModel, ReadPacketError>(p@),
            Err(e) => read_packet_result(datagram@) == Err::<PacketModel, ReadPacketError>(e),
        },
{
    if datagram.len() < HEADER_LEN {
        return Err(ReadPacketError::UnexpectedEof);
    }
    let size = u32_from_le_bytes(vstd::slice::slice_subrange(datagram, 0, 4)) as usize;
    if datagram.len() - HEADER_LEN < size {
        return Err(ReadPacketError::UnexpectedEof);
    }
    let payload = vstd::slice::slice_subrange(datagram, HEADER_LEN, HEADER_LEN + size);
    match decode_packet(payload) {
        Err(e) => Err(ReadPacketError::Decode(e)),
        Ok((p, n)) => if n == size {
            Ok(p)
        } else {
            Err(ReadPacketError::TrailingBytes)
        },
    }
}

/// Encodes a packet as one datagram, or fails where its encoding is larger
/// than a size prefix can announce.
pub fn write_packet(p: &Packet) -> (r: Result<Vec<u8>, PayloadTooLarge>)
    ensures
        packet_bytes(p@).len() <= u32::MAX ==> (r matches Ok(d) && d@ == datagram_bytes(
            packet_bytes(p@),
        )),
        packet_bytes(p@).len() > u32::MAX ==> r == Err::<Vec<u8>, PayloadTooLarge>(
            PayloadTooLarge,
        ),
{
    let payload = encode_packet(p);
    if payload.len() > u32::MAX as usize {
        return Err(PayloadTooLarge);
    }
    let mut out = u32_to_le_bytes(payload.len() as u32);
    let mut rest = payload;
    out.append(&mut rest);
    Ok(out)
}

/// A datagram written for a packet reads back as that packet, whatever
/// follows it in the buffer: exactly one packet is decoded and no byte of the
/// payload is left over.
pub proof fn lemma_datagram_round_trip(p: PacketModel, extra: Seq<u8>)
    requires
        encodable(p),
        packet_bytes(p).len() <= u32::MAX,
    ensures
        read_packet_result(datagram_bytes(packet_bytes(p)) + extra) == Ok::<
            PacketModel,
            ReadPacketError,
        >(p),
{
    lemma_auto_spec_u32_to_from_le_bytes();
    let payload = packet_bytes(p);
    let d = datagram_bytes(payload) + extra;
    assert(d.subrange(0, 4) =~= spec_u32_to_le_bytes(payload.len() as u32));
    assert(d.subrange(4, 4 + payload.len() as int) =~= payload + Seq::<u8>::empty());
    lemma_packet_round_trip(p, Seq::empty());
}

/// A datagram shorter than the size that its prefix announces is refused as
/// ended too early, before its payload is decoded.
pub proof fn lemma_truncated_datagram(d: Seq<u8>)
    requires
        d.len() < 4 || d.len() < 4 + announced_size(d),
    ensures
        read_packet_result(d) == Err::<PacketModel, ReadPacketError>(
            ReadPacketError::UnexpectedEof,
        ),
{
}

} // verus!
