use earplugs::{
    buffer_duration_ticks, packet_outcome, packet_sample_count, winapi_result, CaptureInit,
    DrainAction, DrainEnd, DrainEvent, DrainPhase, Info, InitStep, PacketDrain, ReadSamplesError,
    Resource, WinError,
};

#[test]
fn status_codes() {
    assert_eq!(winapi_result(0), Ok(()));
    assert_eq!(winapi_result(-2147024891), Err(WinError(-2147024891)));
    assert_eq!(winapi_result(1), Err(WinError(1)));
}

#[test]
fn buffer_flags() {
    assert_eq!(
        Info::from_flags(0),
        Info { is_silent: false, data_discontinuity: false, timestamp_error: false }
    );
    assert_eq!(
        Info::from_flags(0x2),
        Info { is_silent: true, data_discontinuity: false, timestamp_error: false }
    );
    assert_eq!(
        Info::from_flags(0x1 | 0x4),
        Info { is_silent: false, data_discontinuity: true, timestamp_error: true }
    );
    assert_eq!(
        Info::from_flags(0xffff_fff8),
        Info { is_silent: false, data_discontinuity: false, timestamp_error: false }
    );
}

#[test]
fn duration_in_native_ticks() {
    assert_eq!(buffer_duration_ticks(0, 100_000_000), Some(1_000_000));
    assert_eq!(buffer_duration_ticks(2, 150), Some(20_000_001));
    assert_eq!(buffer_duration_ticks(922_337_203_685, 477_580_700), Some(i64::MAX));
    assert_eq!(buffer_duration_ticks(922_337_203_685, 477_580_800), None);
    assert_eq!(buffer_duration_ticks(u64::MAX, 0), None);
}

#[test]
fn samples_per_packet() {
    assert_eq!(packet_sample_count(480, 2), 960);
    assert_eq!(packet_sample_count(0, 8), 0);
    assert_eq!(packet_sample_count(u32::MAX, u16::MAX), u32::MAX as u64 * u16::MAX as u64);
}

#[test]
fn handler_failure_is_never_dropped() {
    let r: Result<(), ReadSamplesError<&str>> = packet_outcome(Err("sink"), Err(WinError(5)));
    assert!(matches!(r, Err(ReadSamplesError::E("sink"))));
    let r: Result<(), ReadSamplesError<&str>> = packet_outcome(Ok(()), Err(WinError(5)));
    assert!(matches!(r, Err(ReadSamplesError::WinError(WinError(5)))));
    let r: Result<(), ReadSamplesError<&str>> = packet_outcome(Err("sink"), Ok(()));
    assert!(matches!(r, Err(ReadSamplesError::E("sink"))));
    let r: Result<(), ReadSamplesError<&str>> = packet_outcome(Ok(()), Ok(()));
    assert!(r.is_ok());
    let e: ReadSamplesError<()> = WinError(9).into();
    assert!(matches!(e, ReadSamplesError::WinError(WinError(9))));
}

/// A stand-in for the native layer: it counts what is acquired and released.
struct FakeNative {
    live: Vec<Resource>,
    acquires: usize,
    releases: usize,
}

fn resource_of(step: InitStep) -> Option<Resource> {
    match step {
        InitStep::CreateEnumerator => Some(Resource::Enumerator),
        InitStep::GetDefaultDevice => Some(Resource::Device),
        InitStep::ActivateClient => Some(Resource::Client),
        InitStep::GetMixFormat => Some(Resource::MixFormat),
        InitStep::GetCaptureClient => Some(Resource::CaptureClient),
        InitStep::InitializeClient | InitStep::GetBufferSize => None,
    }
}

fn run_init(fail_at: Option<usize>, runtime: bool) -> FakeNative {
    let mut native = FakeNative { live: Vec::new(), acquires: 0, releases: 0 };
    if runtime {
        native.live.push(Resource::Runtime);
        native.acquires += 1;
    }
    let mut init = CaptureInit::new(runtime);
    let mut index = 0;
    while let Some(step) = init.next_step() {
        if fail_at == Some(index) {
            break;
        }
        if let Some(r) = resource_of(step) {
            native.live.push(r);
            native.acquires += 1;
        }
        init.step_succeeded();
        index += 1;
    }
    assert_eq!(init.is_complete(), fail_at.is_none());
    for r in init.release_plan() {
        assert_eq!(native.live.pop(), Some(r), "released out of order");
        native.releases += 1;
    }
    native
}

#[test]
fn failed_init_releases_everything_acquired() {
    for runtime in [false, true] {
        for k in 0..7 {
            let native = run_init(Some(k), runtime);
            assert!(native.live.is_empty());
            assert_eq!(native.acquires, native.releases);
        }
        let native = run_init(None, runtime);
        assert!(native.live.is_empty());
        assert_eq!(native.acquires, if runtime { 6 } else { 5 });
        assert_eq!(native.releases, native.acquires);
    }
}

#[test]
fn release_plan_is_reverse_acquisition() {
    let mut init = CaptureInit::new(true);
    while !init.is_complete() {
        init.step_succeeded();
    }
    assert_eq!(
        init.release_plan(),
        vec![
            Resource::CaptureClient,
            Resource::MixFormat,
            Resource::Client,
            Resource::Device,
            Resource::Enumerator,
            Resource::Runtime
        ]
    );
    assert_eq!(init.next_step(), None);
    let fresh = CaptureInit::new(false);
    assert_eq!(fresh.next_step(), Some(InitStep::CreateEnumerator));
    assert!(fresh.release_plan().is_empty());
}

/// A fake device with pending packets of the given frame counts; it counts
/// buffers handed out and handed back.
struct FakeDevice {
    packets: Vec<u32>,
    out: usize,
    back: usize,
    fail_release: bool,
}

fn drain(device: &mut FakeDevice, handler_fails_at: Option<usize>) -> (DrainEnd, usize) {
    let (mut d, mut action) = PacketDrain::new(2);
    let mut delivered = 0;
    loop {
        let ev = match action {
            DrainAction::QueryNextPacketSize => {
                DrainEvent::PacketSize(device.packets.first().copied().unwrap_or(0))
            }
            DrainAction::GetBuffer => {
                device.out += 1;
                DrainEvent::Buffer(device.packets.remove(0), 0x2)
            }
            DrainAction::Deliver(count, info) => {
                assert!(info.is_silent);
                assert_eq!(count % 2, 0);
                delivered += 1;
                DrainEvent::Delivered(handler_fails_at != Some(delivered))
            }
            DrainAction::ReleaseBuffer(_) => {
                device.back += 1;
                if device.fail_release {
                    DrainEvent::ReleaseFailed(WinError(-1))
                } else {
                    DrainEvent::Released
                }
            }
            DrainAction::Finish(end) => {
                assert_eq!(d.phase(), DrainPhase::Finished);
                return (end, delivered);
            }
        };
        action = d.step(ev);
    }
}

#[test]
fn drain_releases_every_buffer() {
    let mut dev = FakeDevice { packets: vec![480, 480, 960], out: 0, back: 0, fail_release: false };
    assert_eq!(drain(&mut dev, None), (DrainEnd::Drained, 3));
    assert_eq!((dev.out, dev.back), (3, 3));

    let mut dev = FakeDevice { packets: vec![480, 480, 960], out: 0, back: 0, fail_release: false };
    assert_eq!(drain(&mut dev, Some(2)), (DrainEnd::HandlerFailed, 2));
    assert_eq!((dev.out, dev.back), (2, 2));

    let mut dev = FakeDevice { packets: vec![480, 480], out: 0, back: 0, fail_release: true };
    assert_eq!(drain(&mut dev, Some(1)), (DrainEnd::HandlerFailed, 1));
    assert_eq!((dev.out, dev.back), (1, 1));

    let mut dev = FakeDevice { packets: vec![480, 480], out: 0, back: 0, fail_release: true };
    assert_eq!(drain(&mut dev, None), (DrainEnd::Native(WinError(-1)), 1));
    assert_eq!((dev.out, dev.back), (1, 1));
}

#[test]
fn drain_stops_on_native_failure() {
    let (mut d, first) = PacketDrain::new(2);
    assert_eq!(first, DrainAction::QueryNextPacketSize);
    assert_eq!(d.step(DrainEvent::PacketSize(10)), DrainAction::GetBuffer);
    assert_eq!(d.step(DrainEvent::Failed(WinError(7))), DrainAction::Finish(DrainEnd::Native(WinError(7))));
    let (mut d, _) = PacketDrain::new(6);
    d.step(DrainEvent::PacketSize(10));
    assert_eq!(
        d.step(DrainEvent::Buffer(10, 0x1)),
        DrainAction::Deliver(60, Info { is_silent: false, data_discontinuity: true, timestamp_error: false })
    );
    assert_eq!(d.phase(), DrainPhase::Delivering(10));
    assert_eq!(d.step(DrainEvent::Delivered(true)), DrainAction::ReleaseBuffer(10));
    assert_eq!(d.step(DrainEvent::Released), DrainAction::QueryNextPacketSize);
}
