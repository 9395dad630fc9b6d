use bincode::config::standard;
use earplugs::{
    datagram_len, decode_packet, encode_packet, read_packet, write_packet, DecodeError, Format,
    Packet, ReadPacketError, SampleFormat,
};

fn bits(samples: &[f32]) -> Vec<u32> {
    samples.iter().map(|s| s.to_bits()).collect()
}

fn stereo48k() -> Format {
    Format { channels: 2, sample_rate: 48000, sample_format: SampleFormat::Float32 }
}

#[test]
fn data_round_trip_keeps_every_bit() {
    for n in [0usize, 1, 3, 250, 251, 960, 70_000] {
        let samples: Vec<f32> = (0..n).map(|i| (i as f32 * 0.37).sin() * 1e-3).collect();
        let mut with_specials = samples.clone();
        if n >= 3 {
            with_specials[0] = f32::NAN;
            with_specials[1] = -0.0;
            with_specials[2] = f32::INFINITY;
        }
        let p = Packet::Data(bits(&with_specials));
        let bytes = encode_packet(&p);
        let (back, used) = decode_packet(&bytes).unwrap();
        assert_eq!(used, bytes.len());
        match back {
            Packet::Data(b) => assert_eq!(b, bits(&with_specials)),
            Packet::Henlo(..) => panic!("wrong variant"),
        }
    }
}

#[test]
fn data_bytes_are_bincode_standard() {
    let samples: Vec<f32> = (0..300).map(|i| i as f32 / 7.0).collect();
    let ours = encode_packet(&Packet::Data(bits(&samples)));
    let theirs = bincode::encode_to_vec((1u32, samples.clone()), standard()).unwrap();
    assert_eq!(ours, theirs);
    let ((tag, decoded), used): ((u32, Vec<f32>), usize) =
        bincode::decode_from_slice(&ours, standard()).unwrap();
    assert_eq!(tag, 1);
    assert_eq!(used, ours.len());
    assert_eq!(bits(&decoded), bits(&samples));
}

#[test]
fn henlo_bytes_are_bincode_standard() {
    let ours = encode_packet(&Packet::Henlo("client 0.1".to_string(), stereo48k()));
    let theirs =
        bincode::encode_to_vec((0u32, "client 0.1".to_string(), 2u16, 48000u32, 2u32), standard())
            .unwrap();
    assert_eq!(ours, theirs);
    let name = "klïent ♪".to_string();
    let f = Format { channels: 300, sample_rate: 70_000, sample_format: SampleFormat::Int16 };
    let ours = encode_packet(&Packet::Henlo(name.clone(), f));
    let theirs = bincode::encode_to_vec((0u32, name, 300u16, 70_000u32, 1u32), standard()).unwrap();
    assert_eq!(ours, theirs);
}

#[test]
fn henlo_round_trip() {
    let p = Packet::Henlo("client 0.1".to_string(), stereo48k());
    let mut bytes = encode_packet(&p);
    let len = bytes.len();
    bytes.extend_from_slice(&[9, 9, 9]);
    match decode_packet(&bytes) {
        Ok((Packet::Henlo(name, f), used)) => {
            assert_eq!(name, "client 0.1");
            assert_eq!(f, stereo48k());
            assert_eq!(used, len);
        }
        _ => panic!("henlo did not decode"),
    }
}

#[test]
fn decode_errors() {
    assert_eq!(decode_packet(&[]).err(), Some(DecodeError::UnexpectedEnd));
    assert_eq!(decode_packet(&[2]).err(), Some(DecodeError::UnknownVariant));
    assert_eq!(decode_packet(&[253, 0, 0, 0, 0, 0, 0, 0, 0]).err(), Some(DecodeError::InvalidInteger));
    assert_eq!(decode_packet(&[255]).err(), Some(DecodeError::InvalidInteger));
    assert_eq!(decode_packet(&[1, 2, 0, 0, 0, 0]).err(), Some(DecodeError::UnexpectedEnd));
    assert_eq!(decode_packet(&[0, 2, 0xc3, 0x28, 2, 0, 2]).err(), Some(DecodeError::InvalidUtf8));
    assert_eq!(decode_packet(&[0, 1, b'a', 2, 10, 5]).err(), Some(DecodeError::UnknownVariant));
    assert_eq!(decode_packet(&[0, 1, b'a', 252, 2, 0, 0, 0, 10, 0]).err(), Some(DecodeError::InvalidInteger));
    let (p, used) = decode_packet(&[1, 251, 1, 0]).map(|(p, n)| (matches!(p, Packet::Data(_)), n)).unwrap_or((false, 0));
    assert!(!p && used == 0);
}

#[test]
fn datagram_round_trip_leaves_nothing() {
    let p = Packet::Data(bits(&[0.5, -0.25, 1.0]));
    let d = write_packet(&p).unwrap();
    assert_eq!(&d[..4], &((d.len() - 4) as u32).to_le_bytes());
    assert_eq!(datagram_len(&d[..4]), Ok(d.len() as u64));
    match read_packet(&d) {
        Ok(Packet::Data(b)) => assert_eq!(b, bits(&[0.5, -0.25, 1.0])),
        _ => panic!("datagram did not decode"),
    }
    let mut longer = d.clone();
    longer.extend_from_slice(&[1, 2, 3]);
    assert!(matches!(read_packet(&longer), Ok(Packet::Data(_))));
}

#[test]
fn truncated_datagram_is_eof() {
    let d = write_packet(&Packet::Data(bits(&[0.5, -0.25, 1.0]))).unwrap();
    for cut in 0..d.len() {
        assert_eq!(read_packet(&d[..cut]).err(), Some(ReadPacketError::UnexpectedEof));
    }
    assert_eq!(datagram_len(&[1, 0, 0]), Err(ReadPacketError::UnexpectedEof));
}

#[test]
fn datagram_payload_errors() {
    let mut d = vec![2, 0, 0, 0];
    d.extend_from_slice(&[1, 0]);
    assert!(matches!(read_packet(&d), Ok(Packet::Data(ref v)) if v.is_empty()));
    let mut extra = vec![3, 0, 0, 0];
    extra.extend_from_slice(&[1, 0, 7]);
    assert_eq!(read_packet(&extra).err(), Some(ReadPacketError::TrailingBytes));
    let mut bad = vec![1, 0, 0, 0];
    bad.push(9);
    assert_eq!(read_packet(&bad).err(), Some(ReadPacketError::Decode(DecodeError::UnknownVariant)));
}

#[test]
fn every_cut_of_a_packet_is_unfinished() {
    let packets = vec![
        Packet::Henlo("klïent".to_string(), Format { channels: 300, sample_rate: 70_000, sample_format: SampleFormat::Float32 }),
        Packet::Data(bits(&[0.1; 260])),
        Packet::Data(Vec::new()),
    ];
    for p in &packets {
        let bytes = encode_packet(p);
        for cut in 0..bytes.len() {
            assert_eq!(decode_packet(&bytes[..cut]).err(), Some(DecodeError::UnexpectedEnd), "cut {}", cut);
        }
        assert_eq!(decode_packet(&bytes).map(|(_, n)| n), Ok(bytes.len()));
    }
}
