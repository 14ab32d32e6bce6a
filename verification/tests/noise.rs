use palmtop::hex::{from_hex, to_hex};
use palmtop::noise::{
    chunk_and_encrypt, frame_length, read_one_frame, Handshake, HandshakeStep, NoiseError,
    NoiseTransport, Reassembler, CHUNK_MAX,
};

/// The two ends of one channel: the host's, and the client's.
fn connected() -> (NoiseTransport, NoiseTransport) {
    let (priv_key, pub_key) = NoiseTransport::generate_keypair().unwrap();
    let mut host: Handshake = NoiseTransport::handshake_responder(&priv_key).unwrap();
    let mut client: Handshake = NoiseTransport::handshake_initiator(&pub_key).unwrap();

    assert_eq!(client.step(), HandshakeStep::Send);
    assert_eq!(host.step(), HandshakeStep::Receive);
    let first = client.send().unwrap();
    host.receive(&first[4..]).unwrap();

    assert_eq!(client.step(), HandshakeStep::Receive);
    assert_eq!(host.step(), HandshakeStep::Send);
    let second = host.send().unwrap();
    client.receive(&second[4..]).unwrap();

    assert_eq!(client.step(), HandshakeStep::Done);
    assert_eq!(host.step(), HandshakeStep::Done);
    (host.finish().unwrap(), client.finish().unwrap())
}

#[test]
fn hex_round_trips_including_zero_bytes() {
    let bytes = [0x00, 0xff, 0x01, 0xa2, 0x00];
    assert_eq!(from_hex(&to_hex(&bytes)).unwrap(), bytes);
}

#[test]
fn hex_rejects_odd_length() {
    assert!(from_hex("abc").is_err());
}

#[test]
fn hex_is_lower_case_and_read_in_either() {
    assert_eq!(to_hex(&[0xAB, 0x09]), "ab09");
    assert_eq!(from_hex("AbfF").unwrap(), [0xAB, 0xFF]);
    assert_eq!(from_hex("").unwrap(), Vec::<u8>::new());
    assert_eq!(from_hex("+f").unwrap(), [15]);
    assert_eq!(from_hex("0g"), Err(NoiseError::HexDigit));
    assert_eq!(from_hex("-1"), Err(NoiseError::HexDigit));
    assert_eq!(from_hex("++"), Err(NoiseError::HexDigit));
    assert_eq!(from_hex("é"), Err(NoiseError::HexDigit));
    assert_eq!(from_hex("0"), Err(NoiseError::OddHex));
}

#[test]
fn handshake_and_round_trip_small_message() {
    let (mut host, mut client) = connected();

    let mut wire = Vec::new();
    client.send(&mut wire, b"hello from client").unwrap();
    let got = host.recv(&mut &wire[..]).unwrap().unwrap();
    assert_eq!(got, b"hello from client");

    let mut wire = Vec::new();
    host.send(&mut wire, b"hello from host").unwrap();
    let got = client.recv(&mut &wire[..]).unwrap().unwrap();
    assert_eq!(got, b"hello from host");
}

#[test]
fn chunks_large_payloads_and_reassembles() {
    let (mut host, mut client) = connected();

    let big: Vec<u8> = (0..200_000u32).map(|i| (i % 251) as u8).collect();
    let mut wire = Vec::new();
    client.send(&mut wire, &big).unwrap();
    // four chunks, each with a length in front and a tag behind
    assert_eq!(wire.len(), 200_004 + 4 * 20);
    let got = host.recv(&mut &wire[..]).unwrap().unwrap();
    assert_eq!(got, big);
}

#[test]
fn payloads_follow_each_other_on_one_stream() {
    let (mut host, mut client) = connected();
    let mut wire = Vec::new();
    client.send(&mut wire, b"").unwrap();
    client.send(&mut wire, b"second").unwrap();
    let mut r = &wire[..];
    assert_eq!(host.recv(&mut r).unwrap().unwrap(), b"");
    assert_eq!(host.recv(&mut r).unwrap().unwrap(), b"second");
    assert_eq!(host.recv(&mut r).unwrap(), None);
}

#[test]
fn the_wire_does_not_show_the_plaintext() {
    let (_, mut client) = connected();
    let frames = chunk_and_encrypt(&mut client, b"attack at dawn").unwrap();
    assert_eq!(frames.len(), 1);
    assert_eq!(frames[0].len(), 4 + 4 + 14 + 16);
    assert!(!frames[0].windows(6).any(|w| w == b"attack"));
}

#[test]
fn a_chunk_may_be_as_long_as_a_noise_message_allows() {
    let (mut host, mut client) = connected();
    let whole = vec![7u8; 65535 - 16];
    let sealed = client.encrypt_chunk(&whole).unwrap();
    assert_eq!(sealed.len(), 65535);
    assert_ne!(&sealed[..whole.len()], &whole[..]);
    assert_eq!(host.decrypt_chunk(&sealed).unwrap(), whole);
    assert_eq!(client.encrypt_chunk(&vec![7u8; 65535 - 15]), Err(NoiseError::Encrypt));
}

#[test]
fn what_was_altered_or_came_twice_is_refused() {
    let (mut host, mut client) = connected();
    let good = client.encrypt_chunk(b"once").unwrap();
    let mut bad = good.clone();
    bad[0] ^= 1;
    assert_eq!(host.decrypt_chunk(&bad), Err(NoiseError::Decrypt));
    assert_eq!(host.decrypt_chunk(&good[..15]), Err(NoiseError::Decrypt));
    assert_eq!(host.decrypt_chunk(&good).unwrap(), b"once");
    assert_eq!(host.decrypt_chunk(&good), Err(NoiseError::Decrypt));
    assert_eq!(client.decrypt_chunk(&good), Err(NoiseError::Decrypt));
}

#[test]
fn the_handshake_keeps_to_its_order() {
    let (priv_key, pub_key) = NoiseTransport::generate_keypair().unwrap();
    assert_eq!((priv_key.len(), pub_key.len()), (32, 32));
    assert_ne!(priv_key, pub_key);
    let mut host = NoiseTransport::handshake_responder(&priv_key).unwrap();
    let mut client = NoiseTransport::handshake_initiator(&pub_key).unwrap();
    assert_eq!(host.send(), Err(NoiseError::HandshakeWrite));
    assert_eq!(client.receive(&[0; 48]), Err(NoiseError::HandshakeRead));
    let first = client.send().unwrap();
    assert_eq!(first.len(), 52);
    assert_eq!(&first[..4], &[0, 0, 0, 48]);
    assert_eq!(client.send(), Err(NoiseError::HandshakeWrite));
    assert_eq!(client.finish().err(), Some(NoiseError::NotFinished));
    assert_eq!(host.receive(&[1; 48]), Err(NoiseError::HandshakeRead));
    host.receive(&first[4..]).unwrap();
    assert_eq!(host.step(), HandshakeStep::Send);
}

#[test]
fn a_client_with_another_key_gets_nowhere() {
    let (priv_key, _) = NoiseTransport::generate_keypair().unwrap();
    let (_, other_pub) = NoiseTransport::generate_keypair().unwrap();
    let mut host = NoiseTransport::handshake_responder(&priv_key).unwrap();
    let mut client = NoiseTransport::handshake_initiator(&other_pub).unwrap();
    let first = client.send().unwrap();
    assert_eq!(host.receive(&first[4..]), Err(NoiseError::HandshakeRead));
}

#[test]
fn the_two_sides_of_a_handshake_come_to_one_channel() {
    let (private, public) = NoiseTransport::generate_keypair().unwrap();
    assert_ne!(private, public);
    // only the first 32 bytes of a public key count
    let mut longer = public.clone();
    longer.extend_from_slice(&[7, 7, 7]);
    for key in [public, longer] {
        let mut host = NoiseTransport::handshake_responder(&private).unwrap();
        let mut client = NoiseTransport::handshake_initiator(&key).unwrap();
        let first = client.send().unwrap();
        assert_eq!(first.len(), 52);
        // what was not accepted leaves the handshake where it was
        assert_eq!(host.receive(&first), Err(NoiseError::HandshakeRead));
        host.receive(&first[4..]).unwrap();
        let second = host.send().unwrap();
        client.receive(&second[4..]).unwrap();
        let (mut host, mut client) = (host.finish().unwrap(), client.finish().unwrap());
        let c = client.encrypt_chunk(b"there").unwrap();
        assert_eq!(host.decrypt_chunk(&c).unwrap(), b"there");
        let c = host.encrypt_chunk(b"and back").unwrap();
        assert_eq!(client.decrypt_chunk(&c).unwrap(), b"and back");
    }
}

#[test]
fn frames_are_checked_before_they_are_read() {
    assert_eq!(frame_length(&[0, 0, 0, 0]), Err(NoiseError::FrameLength(0)));
    assert_eq!(frame_length(&[0, 0, 0xFF, 0xFF]), Ok(65535));
    assert_eq!(frame_length(&[0, 1, 0, 0]), Err(NoiseError::FrameLength(65536)));
    assert_eq!(
        NoiseError::FrameLength(65536).to_string(),
        "noise ciphertext frame length 65536 out of range"
    );

    let stream = [0u8, 0, 0, 2, 8, 9, 7];
    let mut r = &stream[..];
    assert_eq!(read_one_frame(&mut r), Ok(Some(vec![8, 9])));
    assert_eq!(r, &[7][..]);
    // a stream that ends inside a frame does not end cleanly, not even inside the length of one
    assert_eq!(read_one_frame(&mut r), Err(NoiseError::TruncatedLength));
    assert_eq!(r, &[][..]);
    assert_eq!(read_one_frame(&mut r), Ok(None));
    assert_eq!(read_one_frame(&mut &stream[..5]), Err(NoiseError::TruncatedFrame));
    let mut empty: &[u8] = &[];
    assert_eq!(read_one_frame(&mut empty), Ok(None));
}

#[test]
fn chunks_are_put_together_by_the_length_in_front() {
    let mut r = Reassembler::new();
    assert_eq!(r.push(&[0, 0, 0]), Err(NoiseError::ShortFirstChunk));
    assert!(r.is_fresh());
    assert_eq!(r.push(&[0, 0, 0, 5, 1, 2]), Ok(None));
    assert!(!r.is_fresh());
    assert_eq!(r.push(&[3]), Ok(None));
    assert_eq!(r.push(&[4, 5, 6]), Ok(Some(vec![1, 2, 3, 4, 5])));
    // the length stays known, and what was taken is gone
    assert_eq!(r.push(&[1]), Ok(None));

    let mut empty = Reassembler::default();
    assert_eq!(empty.push(&[0, 0, 0, 0]), Ok(Some(vec![])));
}

#[test]
fn a_payload_that_fills_its_chunks_needs_no_more() {
    let (mut host, mut client) = connected();
    let exact = vec![1u8; CHUNK_MAX - 4];
    let frames = chunk_and_encrypt(&mut client, &exact).unwrap();
    assert_eq!(frames.len(), 1);
    let more = vec![2u8; CHUNK_MAX - 3];
    let frames2 = chunk_and_encrypt(&mut client, &more).unwrap();
    assert_eq!(frames2.len(), 2);
    assert_eq!(frames2[1].len(), 4 + 1 + 16);
    let mut wire = frames[0].clone();
    wire.extend_from_slice(&frames2[0]);
    wire.extend_from_slice(&frames2[1]);
    let mut r = &wire[..];
    assert_eq!(host.recv(&mut r).unwrap().unwrap(), exact);
    assert_eq!(host.recv(&mut r).unwrap().unwrap(), more);
}

#[test]
fn a_bad_stream_fails_as_it_should() {
    let (mut host, _) = connected();
    assert_eq!(host.recv(&mut &[0u8, 0, 0, 0][..]), Err(NoiseError::FrameLength(0)));
    assert_eq!(host.recv(&mut &[0u8, 0][..]), Err(NoiseError::TruncatedLength));
    assert_eq!(host.recv(&mut &[0u8, 0, 0, 9, 1][..]), Err(NoiseError::TruncatedFrame));
    assert_eq!(host.recv(&mut &[0u8, 0, 0, 1, 1][..]), Err(NoiseError::Decrypt));
}
