//! Loopback audio streaming: format negotiation, capture bookkeeping, the wire
//! protocol with its framing, the playback queue and the session decisions.

pub mod capture;
pub mod format;
pub mod framing;
pub mod negotiate;
pub mod playback;
pub mod protocol;
pub mod session;
pub mod wire;

pub use capture::{
    buffer_duration_ticks, packet_outcome, packet_sample_count, winapi_result, CaptureInit,
    DrainAction, DrainEnd, DrainEvent, DrainPhase, InitStep, Info, PacketDrain, ReadSamplesError,
    Resource, WinError,
};
pub use format::{Format, SampleFormat};
pub use framing::{datagram_len, read_packet, write_packet, PayloadTooLarge, ReadPacketError};
pub use negotiate::{format_of_descriptor, Guid, MixFormat, UnknownFormat};
pub use playback::PlaybackBuffer;
pub use protocol::{decode_packet, encode_packet, Packet};
pub use session::{
    pacing_nanos, ClientAction, ClientSession, ClientState, Outcome, ServerSession, ServerState,
    UnsupportedFormat,
};
pub use wire::DecodeError;
