//! The decisions of the capture engine: native status codes, per-packet
//! quality flags, the buffer duration in native ticks, and the chain of
//! resources that initialization acquires and teardown releases.

use vstd::prelude::*;

verus! {

/// The native success status.
pub const S_OK: i32 = 0;

/// A failing native call's status code.
#[derive(Debug, PartialEq, Eq, Structural, Clone, Copy)]
pub struct WinError(pub i32);

/// `Ok` for the success status, else the status as an error.
pub fn winapi_result(hresult: i32) -> (r: Result<(), WinError>)
    ensures
        hresult == S_OK ==> r == Ok::<(), WinError>(()),
        hresult != S_OK ==> r == Err::<(), WinError>(WinError(hresult)),
{
    if hresult == S_OK {
        Ok(())
    } else {
        Err(WinError(hresult))
    }
}

/// Buffer flag: a gap precedes this packet.
pub const BUFFERFLAGS_DATA_DISCONTINUITY: u32 = 0x1;

/// Buffer flag: the packet is silence.
pub const BUFFERFLAGS_SILENT: u32 = 0x2;

/// Buffer flag: the packet's timestamp is unreliable.
pub const BUFFERFLAGS_TIMESTAMP_ERROR: u32 = 0x4;

/// Advisory quality flags of one captured packet.
#[derive(Debug, PartialEq, Eq, Structural, Clone, Copy)]
pub struct Info {
    pub is_silent: bool,
    pub data_discontinuity: bool,
    pub timestamp_error: bool,
}

impl Info {
    /// Reads the three flags from a native flag word; other bits are ignored.
    pub fn from_flags(flags: u32) -> (r: Info)
        ensures
            r.is_silent == (flags & BUFFERFLAGS_SILENT != 0),
            r.data_discontinuity == (flags & BUFFERFLAGS_DATA_DISCONTINUITY != 0),
            r.timestamp_error == (flags & BUFFERFLAGS_TIMESTAMP_ERROR != 0),
    {
        Info {
            is_silent: flags & BUFFERFLAGS_SILENT != 0,
            data_discontinuity: flags & BUFFERFLAGS_DATA_DISCONTINUITY != 0,
            timestamp_error: flags & BUFFERFLAGS_TIMESTAMP_ERROR != 0,
        }
    }
}

/// Why reading captured samples stopped: the caller's handler failed, or a
/// native call did.
pub enum ReadSamplesError<E> {
    E(E),
    WinError(WinError),
}

impl<E> From<WinError> for ReadSamplesError<E> {
    fn from(e: WinError) -> (r: Self) {
        ReadSamplesError::WinError(e)
    }
}

impl<E> vstd::std_specs::convert::FromSpecImpl<WinError> for ReadSamplesError<E> {
    open spec fn obeys_from_spec() -> bool {
        true
    }

    open spec fn from_spec(e: WinError) -> Self {
        ReadSamplesError::WinError(e)
    }
}

/// The result of one delivered packet, once its buffer has been handed back:
/// the handler's failure is always reported; a failed hand-back is reported
/// where the handler succeeded.
pub fn packet_outcome<E>(delivered: Result<(), E>, released: Result<(), WinError>) -> (r: Result<
    (),
    ReadSamplesError<E>,
>)
    ensures
        delivered matches Err(e) ==> (r matches Err(ReadSamplesError::E(x)) && x == e),
        delivered is Ok ==> (released matches Err(w) ==> (r matches Err(
            ReadSamplesError::WinError(x),
        ) && x == w)),
        (released is Ok && delivered is Ok) ==> r is Ok,
{
    match delivered {
        Err(e) => Err(ReadSamplesError::E(e)),
        Ok(()) => match released {
            Ok(()) => Ok(()),
            Err(w) => Err(ReadSamplesError::WinError(w)),
        },
    }
}

/// Number of samples in a packet of `frames` frames of `channels` channels.
pub fn packet_sample_count(frames: u32, channels: u16) -> (r: u64)
    ensures
        r == frames * channels,
{
    assert(frames * channels <= u32::MAX * u16::MAX) by (nonlinear_arith);
    frames as u64 * channels as u64
}

/// Native ticks (100 ns) per second.
pub const TICKS_PER_SECOND: i64 = 10_000_000;

/// Nanoseconds per native tick.
pub const NANOS_PER_TICK: u32 = 100;

/// A duration of `secs` seconds and `nanos` nanoseconds in whole native
/// ticks, where it fits in an `i64`.
pub open spec fn duration_ticks(secs: u64, nanos: u32) -> int {
    secs as int * TICKS_PER_SECOND as int + (nanos / NANOS_PER_TICK) as int
}

/// The buffer duration in native ticks, or `None` where it overflows.
pub fn buffer_duration_ticks(secs: u64, subsec_nanos: u32) -> (r: Option<i64>)
    requires
        subsec_nanos < 1_000_000_000,
    ensures
        duration_ticks(secs, subsec_nanos) <= i64::MAX ==> r == Some(
            duration_ticks(secs, subsec_nanos) as i64,
        ),
        duration_ticks(secs, subsec_nanos) > i64::MAX ==> r is None,
{
    let limit: u64 = (i64::MAX / TICKS_PER_SECOND) as u64;
    if secs > limit {
        assert(secs * TICKS_PER_SECOND > i64::MAX) by (nonlinear_arith)
            requires
                secs > limit,
                limit == i64::MAX / TICKS_PER_SECOND,
        ;
        return None;
    }
    assert(secs * TICKS_PER_SECOND <= i64::MAX) by (nonlinear_arith)
        requires
            secs <= limit,
            limit == i64::MAX / TICKS_PER_SECOND,
    ;
    let whole = secs as i64 * TICKS_PER_SECOND;
    let part = (subsec_nanos / NANOS_PER_TICK) as i64;
    whole.checked_add(part)
}

/// A native resource that initialization acquires.
#[derive(Debug, PartialEq, Eq, Structural, Clone, Copy)]
pub enum Resource {
    /// The process-wide component runtime, where this engine initialized it.
    Runtime,
    Enumerator,
    Device,
    Client,
    /// The mix-format descriptor, owned by the client.
    MixFormat,
    CaptureClient,
}

/// The steps of initialization, in the order they run.
#[derive(Debug, PartialEq, Eq, Structural, Clone, Copy)]
pub enum InitStep {
    CreateEnumerator,
    GetDefaultDevice,
    ActivateClient,
    GetMixFormat,
    InitializeClient,
    GetBufferSize,
    GetCaptureClient,
}

/// Number of initialization steps.
pub const INIT_STEPS: usize = 7;

/// The `k`-th step (from zero).
pub open spec fn init_step(k: int) -> InitStep {
    if k == 0 {
        InitStep::CreateEnumerator
    } else if k == 1 {
        InitStep::GetDefaultDevice
    } else if k == 2 {
        InitStep::ActivateClient
    } else if k == 3 {
        InitStep::GetMixFormat
    } else if k == 4 {
        InitStep::InitializeClient
    } else if k == 5 {
        InitStep::GetBufferSize
    } else {
        InitStep::GetCaptureClient
    }
}

/// The resource that a step acquires, if any.
pub open spec fn step_resource(s: InitStep) -> Option<Resource> {
    match s {
        InitStep::CreateEnumerator => Some(Resource::Enumerator),
        InitStep::GetDefaultDevice => Some(Resource::Device),
        InitStep::ActivateClient => Some(Resource::Client),
        InitStep::GetMixFormat => Some(Resource::MixFormat),
        InitStep::InitializeClient => None,
        InitStep::GetBufferSize => None,
        InitStep::GetCaptureClient => Some(Resource::CaptureClient),
    }
}

/// What is held once the first `k` steps succeeded: the runtime first where
/// this engine initialized it, then each step's resource in order.
pub open spec fn acquired(k: nat, owns_runtime: bool) -> Seq<Resource>
    decreases k,
{
    if k == 0 {
        if owns_runtime {
            seq![Resource::Runtime]
        } else {
            Seq::empty()
        }
    } else {
        match step_resource(init_step(k - 1)) {
            Some(r) => acquired((k - 1) as nat, owns_runtime).push(r),
            None => acquired((k - 1) as nat, owns_runtime),
        }
    }
}

/// The order in which held resources are released: the reverse of
/// acquisition.
pub open spec fn release_order(held: Seq<Resource>) -> Seq<Resource> {
    Seq::new(held.len(), |i: int| held[held.len() - 1 - i])
}

/// Tracks initialization of the capture engine's resource chain: which step
/// runs next, and what has been acquired so far.
pub struct CaptureInit {
    done: usize,
    owns_runtime: bool,
    held: Vec<Resource>,
}

impl CaptureInit {
    pub closed spec fn steps_done(&self) -> nat {
        self.done as nat
    }

    pub closed spec fn owns_runtime(&self) -> bool {
        self.owns_runtime
    }

    /// The resources held, in acquisition order.
    pub closed spec fn held(&self) -> Seq<Resource> {
        self.held@
    }

    pub closed spec fn wf(&self) -> bool {
        &&& self.done <= INIT_STEPS
        &&& self.held@ == acquired(self.done as nat, self.owns_runtime)
    }

    /// Starts tracking; `runtime_initialized` says whether this engine's own
    /// call initialized the shared runtime, which it must then tear down.
    pub fn new(runtime_initialized: bool) -> (r: CaptureInit)
        ensures
            r.wf(),
            r.steps_done() == 0,
            r.owns_runtime() == runtime_initialized,
            r.held() == acquired(0, runtime_initialized),
    {
        let mut held: Vec<Resource> = Vec::new();
        if runtime_initialized {
            held.push(Resource::Runtime);
        }
        assert(held@ =~= acquired(0, runtime_initialized));
        CaptureInit { done: 0, owns_runtime: runtime_initialized, held }
    }

    /// The step to run next, or `None` once all have succeeded.
    pub fn next_step(&self) -> (r: Option<InitStep>)
        requires
            self.wf(),
        ensures
            self.steps_done() < INIT_STEPS ==> r == Some(init_step(self.steps_done() as int)),
            self.steps_done() >= INIT_STEPS ==> r is None,
    {
        match self.done {
            0 => Some(InitStep::CreateEnumerator),
            1 => Some(InitStep::GetDefaultDevice),
            2 => Some(InitStep::ActivateClient),
            3 => Some(InitStep::GetMixFormat),
            4 => Some(InitStep::InitializeClient),
            5 => Some(InitStep::GetBufferSize),
            6 => Some(InitStep::GetCaptureClient),
            _ => None,
        }
    }

    /// Records that the next step succeeded, holding what it acquired.
    pub fn step_succeeded(&mut self)
        requires
            old(self).wf(),
            old(self).steps_done() < INIT_STEPS,
        ensures
            final(self).wf(),
            final(self).steps_done() == old(self).steps_done() + 1,
            final(self).owns_runtime() == old(self).owns_runtime(),
            final(self).held() == acquired(final(self).steps_done(), final(self).owns_runtime()),
    {
        match self.done {
            0 => self.held.push(Resource::Enumerator),
            1 => self.held.push(Resource::Device),
            2 => self.held.push(Resource::Client),
            3 => self.held.push(Resource::MixFormat),
            6 => self.held.push(Resource::CaptureClient),
            _ => {},
        }
        self.done = self.done + 1;
    }

    /// Whether every step has succeeded.
    pub fn is_complete(&self) -> (r: bool)
        requires
            self.wf(),
        ensures
            r == (self.steps_done() == INIT_STEPS),
    {
        self.done == INIT_STEPS
    }

    /// The resources to release, in order: the reverse of acquisition. This is
    /// the whole teardown, after a failed step or at the end of the engine's
    /// life.
    pub fn release_plan(&self) -> (r: Vec<Resource>)
        requires
            self.wf(),
        ensures
            r@ == release_order(self.held()),
    {
        let mut out: Vec<Resource> = Vec::new();
        let mut i: usize = self.held.len();
        while i > 0
            invariant
                i <= self.held@.len(),
                out@ =~= Seq::new(
                    (self.held@.len() - i) as nat,
                    |j: int| self.held@[self.held@.len() - 1 - j],
                ),
            decreases i,
        {
            i = i - 1;
            out.push(self.held[i]);
        }
        out
    }
}

/// Position of a resource in the acquisition chain.
pub open spec fn chain_rank(r: Resource) -> nat {
    match r {
        Resource::Runtime => 0,
        Resource::Enumerator => 1,
        Resource::Device => 2,
        Resource::Client => 3,
        Resource::MixFormat => 4,
        Resource::CaptureClient => 5,
    }
}

/// The highest chain position held after `k` steps.
spec fn rank_bound(k: nat) -> nat {
    if k <= 4 {
        k
    } else if k < 7 {
        4
    } else {
        5
    }
}

proof fn lemma_acquired_ordered(k: nat, owns: bool)
    requires
        k <= INIT_STEPS,
    ensures
        forall|i: int, j: int|
            0 <= i < j < acquired(k, owns).len() ==> chain_rank(#[trigger] acquired(k, owns)[i])
                < chain_rank(#[trigger] acquired(k, owns)[j]),
        forall|i: int|
            0 <= i < acquired(k, owns).len() ==> chain_rank(#[trigger] acquired(k, owns)[i])
                <= rank_bound(k),
    decreases k,
{
    if k > 0 {
        let prev = acquired((k - 1) as nat, owns);
        lemma_acquired_ordered((k - 1) as nat, owns);
        assert(rank_bound((k - 1) as nat) <= rank_bound(k));
        match step_resource(init_step(k - 1)) {
            Some(r) => {
                let cur = prev.push(r);
                assert(cur == acquired(k, owns));
                assert(rank_bound((k - 1) as nat) < chain_rank(r) <= rank_bound(k));
                assert forall|i: int| 0 <= i < prev.len() implies cur[i] == prev[i] by {}
            },
            None => {},
        }
    }
}

/// Teardown after `k` successful steps (a failure at the next one, or the end
/// of a complete engine's life) releases exactly what was acquired: each
/// resource once, in the reverse of acquisition order, and nothing else.
pub proof fn lemma_failed_init_releases_all(k: nat, owns_runtime: bool)
    requires
        k <= INIT_STEPS,
    ensures
        release_order(acquired(k, owns_runtime)).len() == acquired(k, owns_runtime).len(),
        forall|i: int|
            0 <= i < acquired(k, owns_runtime).len() ==> #[trigger] release_order(
                acquired(k, owns_runtime),
            )[i] == acquired(k, owns_runtime)[acquired(k, owns_runtime).len() - 1 - i],
        forall|r: Resource|
            release_order(acquired(k, owns_runtime)).contains(r) <==> acquired(
                k,
                owns_runtime,
            ).contains(r),
        acquired(k, owns_runtime).no_duplicates(),
        release_order(acquired(k, owns_runtime)).no_duplicates(),
{
    let held = acquired(k, owns_runtime);
    let rel = release_order(held);
    lemma_acquired_ordered(k, owns_runtime);
    assert forall|r: Resource| rel.contains(r) <==> held.contains(r) by {
        if rel.contains(r) {
            let i = choose|i: int| 0 <= i < rel.len() && rel[i] == r;
            assert(held[held.len() - 1 - i] == r);
        }
        if held.contains(r) {
            let i = choose|i: int| 0 <= i < held.len() && held[i] == r;
            assert(rel[held.len() - 1 - i] == r);
        }
    }
    assert forall|i: int, j: int| 0 <= i < held.len() && 0 <= j < held.len() && i != j implies held[i]
        != held[j] by {
        if i < j {
            assert(chain_rank(held[i]) < chain_rank(held[j]));
        } else {
            assert(chain_rank(held[j]) < chain_rank(held[i]));
        }
    }
    assert forall|i: int, j: int| 0 <= i < rel.len() && 0 <= j < rel.len() && i != j implies rel[i]
        != rel[j] by {
        assert(held[held.len() - 1 - i] != held[held.len() - 1 - j]);
    }
}

/// Where the draining of captured packets stands.
#[derive(Debug, PartialEq, Eq, Structural, Clone, Copy)]
pub enum DrainPhase {
    /// Waiting for the size of the next packet.
    Querying,
    /// Waiting for the next packet's buffer.
    Fetching,
    /// A buffer of this many frames is held and being delivered.
    Delivering(u32),
    /// A buffer of this many frames is being handed back; the flag says
    /// whether its delivery succeeded.
    Releasing(u32, bool),
    /// Done: no buffer is held.
    Finished,
}

/// How a drain ended.
#[derive(Debug, PartialEq, Eq, Structural, Clone, Copy)]
pub enum DrainEnd {
    /// No packet is pending.
    Drained,
    /// The handler failed on a packet; its buffer was handed back.
    HandlerFailed,
    /// A native call failed.
    Native(WinError),
}

/// The native work to do next.
#[derive(Debug, PartialEq, Eq, Structural, Clone, Copy)]
pub enum DrainAction {
    QueryNextPacketSize,
    GetBuffer,
    /// Hand the held buffer's samples, this many, to the handler.
    Deliver(u64, Info),
    /// Hand back the held buffer of this many frames.
    ReleaseBuffer(u32),
    Finish(DrainEnd),
}

/// What the last native work gave.
#[derive(Debug, PartialEq, Eq, Structural, Clone, Copy)]
pub enum DrainEvent {
    /// Frames in the next packet; zero when none is pending.
    PacketSize(u32),
    /// The buffer was obtained: its frames and flag word.
    Buffer(u32, u32),
    /// The handler returned; whether it succeeded.
    Delivered(bool),
    /// The buffer was handed back.
    Released,
    /// Handing the buffer back failed.
    ReleaseFailed(WinError),
    /// The size query or the buffer request failed.
    Failed(WinError),
}

/// Whether `ev` is an answer to the work that phase `p` waits on.
pub open spec fn drain_accepts(p: DrainPhase, ev: DrainEvent) -> bool {
    match p {
        DrainPhase::Querying => ev is PacketSize || ev is Failed,
        DrainPhase::Fetching => ev is Buffer || ev is Failed,
        DrainPhase::Delivering(_) => ev is Delivered,
        DrainPhase::Releasing(_, _) => ev is Released || ev is ReleaseFailed,
        DrainPhase::Finished => false,
    }
}

pub open spec fn flags_info(flags: u32) -> Info {
    Info {
        is_silent: flags & BUFFERFLAGS_SILENT != 0,
        data_discontinuity: flags & BUFFERFLAGS_DATA_DISCONTINUITY != 0,
        timestamp_error: flags & BUFFERFLAGS_TIMESTAMP_ERROR != 0,
    }
}

/// The drain's transition for packets of `channels` channels.
pub open spec fn drain_step(p: DrainPhase, channels: u16, ev: DrainEvent) -> (
    DrainPhase,
    DrainAction,
) {
    match ev {
        DrainEvent::PacketSize(n) => if n == 0 {
            (DrainPhase::Finished, DrainAction::Finish(DrainEnd::Drained))
        } else {
            (DrainPhase::Fetching, DrainAction::GetBuffer)
        },
        DrainEvent::Failed(w) => (DrainPhase::Finished, DrainAction::Finish(DrainEnd::Native(w))),
        DrainEvent::Buffer(frames, flags) => (
            DrainPhase::Delivering(frames),
            DrainAction::Deliver((frames * channels) as u64, flags_info(flags)),
        ),
        DrainEvent::Delivered(ok) => match p {
            DrainPhase::Delivering(frames) => (
                DrainPhase::Releasing(frames, ok),
                DrainAction::ReleaseBuffer(frames),
            ),
            _ => (p, DrainAction::Finish(DrainEnd::Drained)),
        },
        DrainEvent::Released => match p {
            DrainPhase::Releasing(_, ok) => if ok {
                (DrainPhase::Querying, DrainAction::QueryNextPacketSize)
            } else {
                (DrainPhase::Finished, DrainAction::Finish(DrainEnd::HandlerFailed))
            },
            _ => (p, DrainAction::Finish(DrainEnd::Drained)),
        },
        DrainEvent::ReleaseFailed(w) => match p {
            DrainPhase::Releasing(_, ok) => if ok {
                (DrainPhase::Finished, DrainAction::Finish(DrainEnd::Native(w)))
            } else {
                (DrainPhase::Finished, DrainAction::Finish(DrainEnd::HandlerFailed))
            },
            _ => (p, DrainAction::Finish(DrainEnd::Drained)),
        },
    }
}

/// Drains the packets that the capture device has pending, one native call
/// at a time: size, buffer, delivery, hand-back, and again. A held buffer is
/// always handed back before the drain ends, and a handler failure is
/// reported over a failed hand-back.
pub struct PacketDrain {
    phase: DrainPhase,
    channels: u16,
}

impl PacketDrain {
    pub closed spec fn spec_phase(&self) -> DrainPhase {
        self.phase
    }

    pub closed spec fn channels(&self) -> u16 {
        self.channels
    }

    /// A drain for packets of `channels` channels; its first work is the
    /// size query.
    pub fn new(channels: u16) -> (r: (PacketDrain, DrainAction))
        ensures
            r.0.phase() == DrainPhase::Querying,
            r.0.channels() == channels,
            r.1 == DrainAction::QueryNextPacketSize,
    {
        (PacketDrain { phase: DrainPhase::Querying, channels }, DrainAction::QueryNextPacketSize)
    }

    #[verifier::when_used_as_spec(spec_phase)]
    pub fn phase(&self) -> (r: DrainPhase)
        ensures
            r == self.spec_phase(),
    {
        self.phase
    }

    /// Takes the answer to the last work and gives the next work.
    pub fn step(&mut self, ev: DrainEvent) -> (r: DrainAction)
        requires
            drain_accepts(old(self).phase(), ev),
        ensures
            (final(self).phase(), r) == drain_step(old(self).phase(), old(self).channels(), ev),
            final(self).channels() == old(self).channels(),
    {
        let (next, action) = match ev {
            DrainEvent::PacketSize(n) => if n == 0 {
                (DrainPhase::Finished, DrainAction::Finish(DrainEnd::Drained))
            } else {
                (DrainPhase::Fetching, DrainAction::GetBuffer)
            },
            DrainEvent::Failed(w) => (
                DrainPhase::Finished,
                DrainAction::Finish(DrainEnd::Native(w)),
            ),
            DrainEvent::Buffer(frames, flags) => (
                DrainPhase::Delivering(frames),
                DrainAction::Deliver(
                    packet_sample_count(frames, self.channels),
                    Info::from_flags(flags),
                ),
            ),
            DrainEvent::Delivered(ok) => match self.phase {
                DrainPhase::Delivering(frames) => (
                    DrainPhase::Releasing(frames, ok),
                    DrainAction::ReleaseBuffer(frames),
                ),
                _ => (self.phase, DrainAction::Finish(DrainEnd::Drained)),
            },
            DrainEvent::Released | DrainEvent::ReleaseFailed(_) => match self.phase {
                DrainPhase::Releasing(_, ok) => {
                    let delivered: Result<(), ()> = if ok {
                        Ok(())
                    } else {
                        Err(())
                    };
                    let res = match ev {
                        DrainEvent::ReleaseFailed(w) => Err(w),
                        _ => Ok(()),
                    };
                    match packet_outcome(delivered, res) {
                        Ok(()) => (DrainPhase::Querying, DrainAction::QueryNextPacketSize),
                        Err(ReadSamplesError::E(_)) => (
                            DrainPhase::Finished,
                            DrainAction::Finish(DrainEnd::HandlerFailed),
                        ),
                        Err(ReadSamplesError::WinError(w)) => (
                            DrainPhase::Finished,
                            DrainAction::Finish(DrainEnd::Native(w)),
                        ),
                    }
                },
                _ => (self.phase, DrainAction::Finish(DrainEnd::Drained)),
            },
        };
        self.phase = next;
        action
    }
}

/// Whether the events `evs` each answer the work of the phase they reach,
/// starting from `p`.
pub open spec fn drain_run_accepted(p: DrainPhase, channels: u16, evs: Seq<DrainEvent>) -> bool
    decreases evs.len(),
{
    evs.len() == 0 || (drain_accepts(p, evs[0]) && drain_run_accepted(
        drain_step(p, channels, evs[0]).0,
        channels,
        evs.drop_first(),
    ))
}

/// The phase that the events `evs` lead to from `p`.
pub open spec fn drain_final(p: DrainPhase, channels: u16, evs: Seq<DrainEvent>) -> DrainPhase
    decreases evs.len(),
{
    if evs.len() == 0 {
        p
    } else {
        drain_final(drain_step(p, channels, evs[0]).0, channels, evs.drop_first())
    }
}

/// Buffers obtained minus buffers whose hand-back was asked for, over the
/// events `evs` from `p`.
pub open spec fn drain_releases(p: DrainPhase, channels: u16, evs: Seq<DrainEvent>) -> nat
    decreases evs.len(),
{
    if evs.len() == 0 {
        0
    } else {
        let (next, a) = drain_step(p, channels, evs[0]);
        (if a is ReleaseBuffer {
            1nat
        } else {
            0nat
        }) + drain_releases(next, channels, evs.drop_first())
    }
}

/// The number of buffers obtained among `evs`.
pub open spec fn buffers_obtained(evs: Seq<DrainEvent>) -> nat
    decreases evs.len(),
{
    if evs.len() == 0 {
        0
    } else {
        (if evs[0] is Buffer {
            1nat
        } else {
            0nat
        }) + buffers_obtained(evs.drop_first())
    }
}

/// Whether a buffer is held whose hand-back has not been asked for.
pub open spec fn awaiting_release(p: DrainPhase) -> bool {
    p is Delivering
}

/// Whether a buffer is held in phase `p`.
pub open spec fn holds_buffer(p: DrainPhase) -> bool {
    p is Delivering || p is Releasing
}

/// Over any run of answered work, every buffer obtained has its hand-back
/// asked for exactly once, unless it is still being delivered; and a drain
/// that has finished holds no buffer. So a drain from the size query that
/// reaches its end has handed back every buffer it obtained.
pub proof fn lemma_one_release_per_buffer(p: DrainPhase, channels: u16, evs: Seq<DrainEvent>)
    requires
        drain_run_accepted(p, channels, evs),
    ensures
        drain_releases(p, channels, evs) + (if awaiting_release(drain_final(p, channels, evs)) {
            1nat
        } else {
            0nat
        }) == buffers_obtained(evs) + (if awaiting_release(p) {
            1nat
        } else {
            0nat
        }),
        drain_final(p, channels, evs) == DrainPhase::Finished ==> !holds_buffer(
            drain_final(p, channels, evs),
        ),
        (p == DrainPhase::Querying && drain_final(p, channels, evs) == DrainPhase::Finished)
            ==> drain_releases(p, channels, evs) == buffers_obtained(evs),
    decreases evs.len(),
{
    if evs.len() > 0 {
        let next = drain_step(p, channels, evs[0]).0;
        lemma_one_release_per_buffer(next, channels, evs.drop_first());
    }
}

} // verus!
