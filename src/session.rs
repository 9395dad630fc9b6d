//! The session decisions of both roles. The client is a state machine that a
//! driver runs: it performs each action and reports the outcome, which gives
//! the next action. The server feeds the packets of a connection into the
//! playback queue once the connection has opened with a handshake.

use vstd::prelude::*;

use crate::format::{Format, SampleFormat};
use crate::playback::PlaybackBuffer;
use crate::protocol::{Packet, PacketModel};

verus! {

/// Reconnect delay, in milliseconds, used where none is configured.
pub const DEFAULT_BACKOFF_MS: u64 = 10_000;

/// Where the client stands.
#[derive(Debug, PartialEq, Eq, Structural, Clone, Copy)]
pub enum ClientState {
    Disconnected,
    Connecting,
    Handshaking,
    Streaming,
}

/// What the driver does next.
#[derive(Debug, PartialEq, Eq, Structural, Clone, Copy)]
pub enum ClientAction {
    /// Stop capture, ignoring any error, and open a connection.
    Connect,
    /// Close the connection, if any, and wait this many milliseconds.
    Backoff(u64),
    /// Send the handshake packet on the new connection.
    SendHenlo,
    /// Start capture.
    StartCapture,
    /// Wait this many nanoseconds, then read what was captured and send each
    /// batch as a data packet.
    Poll(u64),
}

/// How the last action went.
#[derive(Debug, PartialEq, Eq, Structural, Clone, Copy)]
pub enum Outcome {
    Done,
    Failed,
}

/// Error: only 32-bit float samples are streamed.
#[derive(Debug, PartialEq, Eq, Structural, Clone, Copy)]
pub struct UnsupportedFormat;

/// The client's transition: the next state and the action to perform.
pub open spec fn client_step(s: ClientState, o: Outcome, backoff_ms: u64, pacing_ns: u64) -> (
    ClientState,
    ClientAction,
) {
    match s {
        ClientState::Disconnected => (ClientState::Connecting, ClientAction::Connect),
        ClientState::Connecting => match o {
            Outcome::Done => (ClientState::Handshaking, ClientAction::SendHenlo),
            Outcome::Failed => (ClientState::Disconnected, ClientAction::Backoff(backoff_ms)),
        },
        ClientState::Handshaking => match o {
            Outcome::Done => (ClientState::Streaming, ClientAction::StartCapture),
            Outcome::Failed => (ClientState::Disconnected, ClientAction::Backoff(backoff_ms)),
        },
        ClientState::Streaming => match o {
            Outcome::Done => (ClientState::Streaming, ClientAction::Poll(pacing_ns)),
            Outcome::Failed => (ClientState::Disconnected, ClientAction::Backoff(backoff_ms)),
        },
    }
}

/// The client's session: its state, its name, the negotiated format and the
/// two waits.
pub struct ClientSession {
    state: ClientState,
    name: String,
    format: Format,
    backoff_ms: u64,
    pacing_ns: u64,
}

impl ClientSession {
    pub closed spec fn spec_state(&self) -> ClientState {
        self.state
    }

    pub closed spec fn name(&self) -> Seq<char> {
        self.name@
    }

    pub closed spec fn format(&self) -> Format {
        self.format
    }

    pub closed spec fn backoff_ms(&self) -> u64 {
        self.backoff_ms
    }

    pub closed spec fn pacing_ns(&self) -> u64 {
        self.pacing_ns
    }

    /// A disconnected session, or `UnsupportedFormat` where the samples are
    /// not 32-bit floats.
    pub fn new(name: String, format: Format, backoff_ms: u64, pacing_ns: u64) -> (r: Result<
        ClientSession,
        UnsupportedFormat,
    >)
        ensures
            format.sample_format != SampleFormat::Float32 ==> r == Err::<
                ClientSession,
                UnsupportedFormat,
            >(UnsupportedFormat),
            format.sample_format == SampleFormat::Float32 ==> (r matches Ok(c) && c.state()
                == ClientState::Disconnected && c.name() == name@ && c.format() == format
                && c.backoff_ms() == backoff_ms && c.pacing_ns() == pacing_ns),
    {
        match format.sample_format {
            SampleFormat::Float32 => Ok(
                ClientSession {
                    state: ClientState::Disconnected,
                    name,
                    format,
                    backoff_ms,
                    pacing_ns,
                },
            ),
            _ => Err(UnsupportedFormat),
        }
    }

    #[verifier::when_used_as_spec(spec_state)]
    pub fn state(&self) -> (r: ClientState)
        ensures
            r == self.spec_state(),
    {
        self.state
    }

    /// Takes the outcome of the last action (any outcome when nothing was
    /// done yet) and gives the next action.
    pub fn step(&mut self, o: Outcome) -> (r: ClientAction)
        ensures
            (final(self).state(), r) == client_step(
                old(self).state(),
                o,
                old(self).backoff_ms(),
                old(self).pacing_ns(),
            ),
            final(self).name() == old(self).name(),
            final(self).format() == old(self).format(),
            final(self).backoff_ms() == old(self).backoff_ms(),
            final(self).pacing_ns() == old(self).pacing_ns(),
    {
        let (next, action) = match self.state {
            ClientState::Disconnected => (ClientState::Connecting, ClientAction::Connect),
            ClientState::Connecting => match o {
                Outcome::Done => (ClientState::Handshaking, ClientAction::SendHenlo),
                Outcome::Failed => (
                    ClientState::Disconnected,
                    ClientAction::Backoff(self.backoff_ms),
                ),
            },
            ClientState::Handshaking => match o {
                Outcome::Done => (ClientState::Streaming, ClientAction::StartCapture),
                Outcome::Failed => (
                    ClientState::Disconnected,
                    ClientAction::Backoff(self.backoff_ms),
                ),
            },
            ClientState::Streaming => match o {
                Outcome::Done => (ClientState::Streaming, ClientAction::Poll(self.pacing_ns)),
                Outcome::Failed => (
                    ClientState::Disconnected,
                    ClientAction::Backoff(self.backoff_ms),
                ),
            },
        };
        self.state = next;
        action
    }

    /// The handshake packet: the client's name and format.
    pub fn henlo(&self) -> (r: Packet)
        ensures
            r@ == PacketModel::Henlo(self.name(), self.format()),
    {
        Packet::Henlo(self.name.clone(), self.format)
    }
}

/// The actions that a run from state `s` emits for the outcomes `outs`.
pub open spec fn client_run(s: ClientState, outs: Seq<Outcome>, backoff_ms: u64, pacing_ns: u64) -> Seq<
    ClientAction,
>
    decreases outs.len(),
{
    if outs.len() == 0 {
        Seq::empty()
    } else {
        let (next, a) = client_step(s, outs[0], backoff_ms, pacing_ns);
        seq![a] + client_run(next, outs.drop_first(), backoff_ms, pacing_ns)
    }
}

/// The number of connection attempts that succeed in a run from `s`.
pub open spec fn successful_connects(s: ClientState, outs: Seq<Outcome>) -> nat
    decreases outs.len(),
{
    if outs.len() == 0 {
        0
    } else {
        let next = client_step(s, outs[0], 0, 0).0;
        (if s == ClientState::Connecting && outs[0] == Outcome::Done {
            1nat
        } else {
            0nat
        }) + successful_connects(next, outs.drop_first())
    }
}

/// The number of handshakes among `actions`.
pub open spec fn henlo_count(actions: Seq<ClientAction>) -> nat
    decreases actions.len(),
{
    if actions.len() == 0 {
        0
    } else {
        (if actions[0] == ClientAction::SendHenlo {
            1nat
        } else {
            0nat
        }) + henlo_count(actions.drop_first())
    }
}

/// Every run, through any failures and reconnects, sends exactly one
/// handshake per successful connection attempt, and sends it right after
/// that attempt: a handshake follows a successful connection and nothing else.
pub proof fn lemma_one_henlo_per_connection(
    s: ClientState,
    outs: Seq<Outcome>,
    backoff_ms: u64,
    pacing_ns: u64,
)
    ensures
        henlo_count(client_run(s, outs, backoff_ms, pacing_ns)) == successful_connects(s, outs),
        forall|c: ClientState, o: Outcome|
            (#[trigger] client_step(c, o, backoff_ms, pacing_ns)).1 == ClientAction::SendHenlo
                <==> c == ClientState::Connecting && o == Outcome::Done,
    decreases outs.len(),
{
    if outs.len() > 0 {
        let (next, a) = client_step(s, outs[0], backoff_ms, pacing_ns);
        assert(client_step(s, outs[0], 0, 0).0 == next);
        lemma_one_henlo_per_connection(next, outs.drop_first(), backoff_ms, pacing_ns);
        let run = client_run(s, outs, backoff_ms, pacing_ns);
        assert(run.drop_first() =~= client_run(next, outs.drop_first(), backoff_ms, pacing_ns));
    }
}

/// The wait between polls, in nanoseconds: half the buffer duration scaled by
/// the realized buffer size over the sample rate, where it fits in a `u64`.
pub open spec fn pacing_interval(buffer_ns: u64, frames: u32, sample_rate: u32) -> int {
    (buffer_ns * frames) / (2 * sample_rate)
}

/// The pacing interval, or `None` where it exceeds a `u64`.
pub fn pacing_nanos(buffer_ns: u64, frames: u32, sample_rate: u32) -> (r: Option<u64>)
    requires
        sample_rate > 0,
    ensures
        pacing_interval(buffer_ns, frames, sample_rate) <= u64::MAX ==> r == Some(
            pacing_interval(buffer_ns, frames, sample_rate) as u64,
        ),
        pacing_interval(buffer_ns, frames, sample_rate) > u64::MAX ==> r is None,
{
    assert(buffer_ns * frames <= u64::MAX * u32::MAX) by (nonlinear_arith);
    let product = buffer_ns as u128 * frames as u128;
    let q = product / (2 * sample_rate as u128);
    if q > u64::MAX as u128 {
        None
    } else {
        Some(q as u64)
    }
}

/// Where the server stands on its current connection.
#[derive(Debug, PartialEq, Eq, Structural, Clone, Copy)]
pub enum ServerState {
    /// Waiting for a connection to open with a handshake.
    AwaitingHenlo,
    /// Playing the data of a connection that opened with a handshake.
    Receiving,
}

/// The server's transition on a packet.
pub open spec fn server_next(s: ServerState, p: PacketModel) -> ServerState {
    match p {
        PacketModel::Henlo(_, _) => ServerState::Receiving,
        PacketModel::Data(_) => s,
    }
}

/// What the playback queue holds after the server takes packet `p` in state
/// `s`: data is played only on a connection that opened with a handshake.
pub open spec fn server_queue(s: ServerState, p: PacketModel, queue: Seq<u32>) -> Seq<u32> {
    match p {
        PacketModel::Data(samples) => if s == ServerState::Receiving {
            queue + samples
        } else {
            queue
        },
        PacketModel::Henlo(_, _) => queue,
    }
}

/// Whether a datagram from `from` carrying `p` is taken, given the pinned
/// sender: before one is pinned only a handshake is, after it only what its
/// sender sends.
pub open spec fn datagram_taken(pinned: Option<Seq<u8>>, from: Seq<u8>, p: PacketModel) -> bool {
    match pinned {
        None => p is Henlo,
        Some(q) => q == from,
    }
}

/// The server's session: on a stream, one connection at a time; on
/// datagrams, the sender of the first handshake.
pub struct ServerSession {
    state: ServerState,
    peer: Option<Vec<u8>>,
}

fn same_bytes(a: &[u8], b: &Vec<u8>) -> (r: bool)
    ensures
        r == (a@ == b@),
{
    if a.len() != b.len() {
        return false;
    }
    let mut i: usize = 0;
    while i < a.len()
        invariant
            a@.len() == b@.len(),
            i <= a@.len(),
            a@.take(i as int) == b@.take(i as int),
        decreases a@.len() - i,
    {
        if a[i] != b[i] {
            assert(a@.take(i + 1)[i as int] != b@.take(i + 1)[i as int]);
            assert(a@[i as int] != b@[i as int]);
            return false;
        }
        assert(a@.take(i + 1) =~= a@.take(i as int).push(a@[i as int]));
        assert(b@.take(i + 1) =~= b@.take(i as int).push(b@[i as int]));
        i += 1;
    }
    assert(a@ =~= a@.take(a@.len() as int));
    assert(b@ =~= b@.take(b@.len() as int));
    true
}

impl ServerSession {
    pub closed spec fn spec_state(&self) -> ServerState {
        self.state
    }

    /// The sender that datagrams are taken from, once pinned.
    pub closed spec fn pinned(&self) -> Option<Seq<u8>> {
        match self.peer {
            Some(v) => Some(v@),
            None => None,
        }
    }

    /// A server waiting for a handshake, with no sender pinned.
    pub fn new() -> (r: ServerSession)
        ensures
            r.state() == ServerState::AwaitingHenlo,
            r.pinned() is None,
    {
        ServerSession { state: ServerState::AwaitingHenlo, peer: None }
    }

    #[verifier::when_used_as_spec(spec_state)]
    pub fn state(&self) -> (r: ServerState)
        ensures
            r == self.spec_state(),
    {
        self.state
    }

    /// Takes one packet of the current connection: a handshake opens it, and
    /// the samples of data on an open connection go to the playback queue. It
    /// returns whether the packet was a handshake.
    pub fn on_packet(&mut self, p: &Packet, queue: &mut PlaybackBuffer) -> (r: bool)
        ensures
            r == (p@ is Henlo),
            final(self).state() == server_next(old(self).state(), p@),
            final(self).pinned() == old(self).pinned(),
            final(queue)@ == server_queue(old(self).state(), p@, old(queue)@),
    {
        match p {
            Packet::Henlo(_, _) => {
                self.state = ServerState::Receiving;
                true
            },
            Packet::Data(samples) => {
                if self.state == ServerState::Receiving {
                    queue.push_samples(samples.as_slice());
                }
                false
            },
        }
    }

    /// Takes the packet of one datagram sent from the address `from`. The
    /// first handshake pins its sender; after that only the pinned sender's
    /// datagrams are taken, and their samples go to the playback queue. It
    /// returns whether the datagram was taken.
    pub fn on_datagram(&mut self, from: &[u8], p: &Packet, queue: &mut PlaybackBuffer) -> (r:
        bool)
        ensures
            r == datagram_taken(old(self).pinned(), from@, p@),
            r ==> final(self).pinned() == Some(from@) && final(self).state()
                == ServerState::Receiving,
            !r ==> final(self).pinned() == old(self).pinned() && final(self).state() == old(
                self,
            ).state(),
            (r && p@ is Data) ==> final(queue)@ == old(queue)@ + p@->Data_0,
            !(r && p@ is Data) ==> final(queue)@ == old(queue)@,
    {
        let taken = match &self.peer {
            None => match p {
                Packet::Henlo(_, _) => true,
                Packet::Data(_) => false,
            },
            Some(q) => same_bytes(from, q),
        };
        if taken {
            if self.peer.is_none() {
                self.peer = Some(vstd::slice::slice_to_vec(from));
            }
            self.state = ServerState::Receiving;
            if let Packet::Data(samples) = p {
                queue.push_samples(samples.as_slice());
            }
        }
        taken
    }

    /// The connection ended or sent bytes that do not decode: wait for the
    /// next connection's handshake.
    pub fn on_connection_lost(&mut self)
        ensures
            final(self).state() == ServerState::AwaitingHenlo,
            final(self).pinned() is None,
    {
        self.state = ServerState::AwaitingHenlo;
        self.peer = None;
    }
}

} // verus!
