use earplugs::{
    decode_packet, encode_packet, pacing_nanos, ClientAction, ClientSession, ClientState, Format,
    Outcome, Packet, PlaybackBuffer, SampleFormat, ServerSession, ServerState, UnsupportedFormat,
};

fn stereo48k() -> Format {
    Format { channels: 2, sample_rate: 48000, sample_format: SampleFormat::Float32 }
}

#[test]
fn pops_in_insertion_order_then_silence() {
    let mut q = PlaybackBuffer::new();
    let (a, b, c) = (0.25f32.to_bits(), (-0.5f32).to_bits(), 1.0f32.to_bits());
    q.push_samples(&[a, b, c]);
    assert_eq!(q.pop_sample(), a);
    assert_eq!(q.pop_sample(), b);
    assert_eq!(q.pop_sample(), c);
    assert_eq!(q.pop_sample(), 0);
    assert_eq!(f32::from_bits(q.pop_sample()), 0.0);
    assert_eq!(q.len(), 0);
}

#[test]
fn interleaved_pushes_and_pops_stay_fifo() {
    let mut q = PlaybackBuffer::with_capacity(16);
    q.push_samples(&[1, 2]);
    assert_eq!(q.pop_sample(), 1);
    q.push_samples(&[3, 4, 5]);
    assert_eq!(q.pop_samples(3), vec![2, 3, 4]);
    q.push_samples(&[6]);
    assert_eq!(q.pop_samples(4), vec![5, 6, 0, 0]);
    assert_eq!(q.pop_samples(0), Vec::<u32>::new());
}

#[test]
fn end_to_end_stream() {
    let format = stereo48k();
    let mut client = ClientSession::new("client 0.1".to_string(), format, 10_000, 1_000_000).unwrap();
    let mut wire: Vec<u8> = Vec::new();
    let mut sent: Vec<u32> = Vec::new();
    let mut batches = 0;
    let mut outcome = Outcome::Done;
    while batches < 3 {
        match client.step(outcome) {
            ClientAction::Connect | ClientAction::StartCapture => {}
            ClientAction::SendHenlo => wire.extend(encode_packet(&client.henlo())),
            ClientAction::Poll(ns) => {
                assert_eq!(ns, 1_000_000);
                let batch: Vec<u32> =
                    (0..960).map(|i| ((batches * 960 + i) as f32 / 2880.0).to_bits()).collect();
                sent.extend_from_slice(&batch);
                wire.extend(encode_packet(&Packet::Data(batch)));
                batches += 1;
            }
            ClientAction::Backoff(_) => panic!("no failure was reported"),
        }
        outcome = Outcome::Done;
    }
    let mut server = ServerSession::new();
    let mut queue = PlaybackBuffer::new();
    let mut at = 0;
    let mut henlos = 0;
    while at < wire.len() {
        let (p, used) = decode_packet(&wire[at..]).unwrap();
        if server.on_packet(&p, &mut queue) {
            henlos += 1;
            if let Packet::Henlo(name, f) = &p {
                assert_eq!(name, "client 0.1");
                assert_eq!(*f, format);
            }
        }
        at += used;
    }
    assert_eq!(henlos, 1);
    assert_eq!(server.state(), ServerState::Receiving);
    assert_eq!(queue.len(), 2880);
    assert_eq!(queue.pop_samples(2880), sent);
}

#[test]
fn server_ignores_data_before_henlo() {
    let mut server = ServerSession::new();
    let mut queue = PlaybackBuffer::new();
    assert!(!server.on_packet(&Packet::Data(vec![1, 2]), &mut queue));
    assert_eq!(queue.len(), 0);
    assert!(server.on_packet(&Packet::Henlo("x".to_string(), stereo48k()), &mut queue));
    assert!(!server.on_packet(&Packet::Data(vec![3]), &mut queue));
    server.on_connection_lost();
    assert_eq!(server.state(), ServerState::AwaitingHenlo);
    assert!(!server.on_packet(&Packet::Data(vec![4]), &mut queue));
    assert_eq!(queue.pop_samples(2), vec![3, 0]);
}

#[test]
fn reconnect_sends_one_henlo_per_connection() {
    let mut client = ClientSession::new("c".to_string(), stereo48k(), 5_000, 2_000).unwrap();
    assert_eq!(client.state(), ClientState::Disconnected);
    let outcomes = [
        Outcome::Done,   // start: connect
        Outcome::Failed, // connection refused: back off
        Outcome::Done,   // waited: connect
        Outcome::Done,   // connected: henlo
        Outcome::Done,   // henlo sent: start capture
        Outcome::Done,   // poll
        Outcome::Done,   // poll
        Outcome::Failed, // send failed mid-stream: back off
        Outcome::Done,   // waited: connect
        Outcome::Done,   // connected: henlo
        Outcome::Done,   // start capture
        Outcome::Done,   // poll
    ];
    let mut actions = Vec::new();
    for o in outcomes {
        actions.push(client.step(o));
    }
    assert_eq!(
        actions,
        vec![
            ClientAction::Connect,
            ClientAction::Backoff(5_000),
            ClientAction::Connect,
            ClientAction::SendHenlo,
            ClientAction::StartCapture,
            ClientAction::Poll(2_000),
            ClientAction::Poll(2_000),
            ClientAction::Backoff(5_000),
            ClientAction::Connect,
            ClientAction::SendHenlo,
            ClientAction::StartCapture,
            ClientAction::Poll(2_000),
        ]
    );
    let henlos = actions.iter().filter(|a| **a == ClientAction::SendHenlo).count();
    assert_eq!(henlos, 2);
    assert_eq!(client.state(), ClientState::Streaming);
}

#[test]
fn handshake_failure_backs_off() {
    let mut client = ClientSession::new("c".to_string(), stereo48k(), 10_000, 1).unwrap();
    assert_eq!(client.step(Outcome::Done), ClientAction::Connect);
    assert_eq!(client.step(Outcome::Done), ClientAction::SendHenlo);
    assert_eq!(client.step(Outcome::Failed), ClientAction::Backoff(10_000));
    assert_eq!(client.state(), ClientState::Disconnected);
}

#[test]
fn only_float_samples_stream() {
    let f = Format { channels: 2, sample_rate: 48000, sample_format: SampleFormat::Int16 };
    assert!(matches!(ClientSession::new("c".to_string(), f, 1, 1), Err(UnsupportedFormat)));
    let g = Format { sample_format: SampleFormat::Int8, ..f };
    assert!(ClientSession::new("c".to_string(), g, 1, 1).is_err());
}

#[test]
fn pacing_interval() {
    assert_eq!(pacing_nanos(100_000_000, 4800, 48000), Some(5_000_000));
    assert_eq!(pacing_nanos(100_000_000, 0, 48000), Some(0));
    assert_eq!(pacing_nanos(3, 1, 2), Some(0));
    assert_eq!(pacing_nanos(u64::MAX, u32::MAX, 1), None);
    assert_eq!(pacing_nanos(u64::MAX, 2, 1), Some(u64::MAX));
}

#[test]
fn datagram_server_pins_first_henlo_sender() {
    let mut server = ServerSession::new();
    let mut queue = PlaybackBuffer::new();
    let a = [10, 0, 0, 1, 0x0e, 0x14];
    let b = [10, 0, 0, 2, 0x0e, 0x14];
    assert!(!server.on_datagram(&a, &Packet::Data(vec![1]), &mut queue));
    assert!(server.on_datagram(&a, &Packet::Henlo("a".to_string(), stereo48k()), &mut queue));
    assert_eq!(server.state(), ServerState::Receiving);
    assert!(!server.on_datagram(&b, &Packet::Henlo("b".to_string(), stereo48k()), &mut queue));
    assert!(!server.on_datagram(&b, &Packet::Data(vec![2]), &mut queue));
    assert!(server.on_datagram(&a, &Packet::Data(vec![3, 4]), &mut queue));
    assert!(!server.on_datagram(&a[..5], &Packet::Data(vec![5]), &mut queue));
    assert_eq!(queue.pop_samples(3), vec![3, 4, 0]);
}
