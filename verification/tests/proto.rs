use palmtop::proto::{Button, DeviceProfile, Message, Modifiers, ProtoError, F32, MAX_PAYLOAD, PROTOCOL_VERSION};

fn roundtrip(msg: Message) -> Message {
    let mut buf = Vec::new();
    msg.write_to(&mut buf);
    Message::read_from(&mut &buf[..]).unwrap().unwrap()
}

fn f(v: f32) -> F32 {
    F32(v.to_bits())
}

fn number(v: F32) -> f32 {
    f32::from_bits(v.0)
}

#[test]
fn hello_roundtrips() {
    let token = "deadbeef".to_string();
    let profile = DeviceProfile {
        model: "Pixel 9 Pro".to_string(),
        screen_width: 1280,
        screen_height: 2856,
        density_dpi: 495,
        refresh_hz: 120,
        max_decode_width: 3840,
        max_decode_height: 2160,
        max_decode_fps: 60,
        low_latency_decoder: true,
    };
    match roundtrip(Message::Hello {
        protocol_version: PROTOCOL_VERSION,
        token: token.clone(),
        profile: profile.clone(),
    }) {
        Message::Hello { protocol_version, token: t, profile: p } => {
            assert_eq!(protocol_version, PROTOCOL_VERSION);
            assert_eq!(t, token);
            assert_eq!(p, profile);
        }
        other => panic!("wrong variant: {other:?}"),
    }
}

#[test]
fn hello_roundtrips_a_profile_with_a_unicode_model_name() {
    let mut profile = DeviceProfile::conservative_default();
    profile.model = "小米 14 Ultra".to_string();
    match roundtrip(Message::Hello {
        protocol_version: PROTOCOL_VERSION,
        token: String::new(),
        profile: profile.clone(),
    }) {
        Message::Hello { profile: p, .. } => assert_eq!(p, profile),
        other => panic!("wrong variant: {other:?}"),
    }
}

#[test]
fn status_roundtrips_both_outcomes() {
    match roundtrip(Message::Status {
        stage: "encode".to_string(),
        ok: false,
        detail: "ffmpeg exited immediately:\n  cannot open /dev/dri/renderD128".to_string(),
    }) {
        Message::Status { stage, ok, detail } => {
            assert_eq!(stage, "encode");
            assert!(!ok);
            assert!(detail.contains("renderD128"));
            assert!(detail.contains('\n'));
        }
        other => panic!("wrong variant: {other:?}"),
    }

    match roundtrip(Message::Status {
        stage: "portal".to_string(),
        ok: true,
        detail: String::new(),
    }) {
        Message::Status { stage, ok, detail } => {
            assert_eq!(stage, "portal");
            assert!(ok);
            assert!(detail.is_empty());
        }
        other => panic!("wrong variant: {other:?}"),
    }
}

#[test]
fn video_frame_roundtrips_bytes_exactly() {
    let data = vec![0u8, 1, 2, 255, 254, 0, 0, 0];
    match roundtrip(Message::VideoFrame { keyframe: true, capture_us: 0, data: data.clone() }) {
        Message::VideoFrame { keyframe, data: d, .. } => {
            assert!(keyframe);
            assert_eq!(d, data);
        }
        other => panic!("wrong variant: {other:?}"),
    }
}

#[test]
fn pointer_motion_preserves_float_precision() {
    match roundtrip(Message::PointerMotionRelative { dx: f(-12.375), dy: f(0.001) }) {
        Message::PointerMotionRelative { dx, dy } => {
            assert_eq!(number(dx), -12.375);
            assert_eq!(number(dy), 0.001);
        }
        other => panic!("wrong variant: {other:?}"),
    }
}

#[test]
fn text_roundtrips_unicode() {
    match roundtrip(Message::Text { utf8: "héllo 世界 🎉".into() }) {
        Message::Text { utf8 } => assert_eq!(utf8, "héllo 世界 🎉"),
        other => panic!("wrong variant: {other:?}"),
    }
}

#[test]
fn clean_eof_at_boundary_is_none() {
    let mut empty: &[u8] = &[];
    assert!(Message::read_from(&mut empty).unwrap().is_none());
}

#[test]
fn oversized_length_is_rejected_not_allocated() {
    let mut buf = vec![4u8];
    buf.extend_from_slice(&(MAX_PAYLOAD + 1).to_be_bytes());
    assert!(Message::read_from(&mut &buf[..]).is_err());
    assert_eq!(
        Message::read_from(&mut &buf[..]).unwrap_err(),
        ProtoError::PayloadTooLarge(16 * 1024 * 1024 + 1)
    );
}

#[test]
fn ping_pong_roundtrip_carries_timestamps() {
    match roundtrip(Message::Ping { nonce: 7, t_client_us: 123_456 }) {
        Message::Ping { nonce, t_client_us } => {
            assert_eq!(nonce, 7);
            assert_eq!(t_client_us, 123_456);
        }
        other => panic!("expected Ping, got {other:?}"),
    }
    match roundtrip(Message::Pong {
        nonce: 7,
        t_client_us: 123_456,
        t_host_recv_us: 200_000,
        t_host_send_us: 200_050,
    }) {
        Message::Pong { nonce, t_client_us, t_host_recv_us, t_host_send_us } => {
            assert_eq!(nonce, 7);
            assert_eq!(t_client_us, 123_456);
            assert_eq!(t_host_recv_us, 200_000);
            assert_eq!(t_host_send_us, 200_050);
        }
        other => panic!("expected Pong, got {other:?}"),
    }
}

#[test]
fn video_frame_roundtrip_carries_capture_timestamp() {
    let payload = vec![0u8, 0, 0, 1, 0x65, 0xAA, 0xBB];
    match roundtrip(Message::VideoFrame {
        keyframe: true,
        capture_us: 987_654_321,
        data: payload.clone(),
    }) {
        Message::VideoFrame { keyframe, capture_us, data } => {
            assert!(keyframe);
            assert_eq!(capture_us, 987_654_321);
            assert_eq!(data, payload);
        }
        other => panic!("expected VideoFrame, got {other:?}"),
    }
}

#[test]
fn set_mode_roundtrips() {
    match roundtrip(Message::SetMode { mode: 2 }) {
        Message::SetMode { mode } => assert_eq!(mode, 2),
        other => panic!("expected SetMode, got {other:?}"),
    }
}

#[test]
fn protocol_version_is_five() {
    assert_eq!(PROTOCOL_VERSION, 5);
}

#[test]
fn the_wire_form_is_tag_length_payload() {
    let mut buf = vec![0xEE];
    Message::Key {
        evdev_code: 0x01020304,
        pressed: true,
        modifiers: Modifiers::ctrl() | Modifiers::super_key(),
    }
    .write_to(&mut buf);
    assert_eq!(buf, vec![0xEE, 9, 0, 0, 0, 6, 1, 2, 3, 4, 1, 10]);

    let mut buf = Vec::new();
    Message::HelloAck { ok: false, reason: "né".to_string() }.write_to(&mut buf);
    assert_eq!(buf, vec![2, 0, 0, 0, 8, 0, 0, 0, 0, 3, b'n', 0xC3, 0xA9]);

    let mut buf = Vec::new();
    Message::Scroll { dx: f(1.0), dy: f(-2.0) }.write_to(&mut buf);
    assert_eq!(buf, vec![8, 0, 0, 0, 8, 0x3F, 0x80, 0, 0, 0xC0, 0, 0, 0]);
}

#[test]
fn every_kind_of_message_survives_the_wire() {
    let all = vec![
        Message::HelloAck { ok: true, reason: "r".to_string() },
        Message::VideoConfig {
            codec: "h264".to_string(),
            width: 1,
            height: 2,
            fps: 3,
            mode: 4,
            drop_budget_ms: 5,
        },
        Message::PointerMotionAbsolute { x: f(0.25), y: f(0.75) },
        Message::PointerButton { button: Button::Middle, pressed: true },
        Message::PointerButton { button: Button::Right, pressed: false },
        Message::Scroll { dx: f(0.0), dy: f(-0.0) },
        Message::Key { evdev_code: 30, pressed: false, modifiers: Modifiers::from_bits_truncate(0xF5) },
        Message::Text { utf8: String::new() },
    ];
    for m in all {
        let before = format!("{m:?}");
        assert_eq!(format!("{:?}", roundtrip(m)), before);
    }
}

#[test]
fn messages_are_read_one_behind_the_other() {
    let mut buf = Vec::new();
    Message::SetMode { mode: 3 }.write_to(&mut buf);
    Message::Ping { nonce: 1, t_client_us: 2 }.write_to(&mut buf);
    let mut r = &buf[..];
    assert!(matches!(Message::read_from(&mut r), Ok(Some(Message::SetMode { mode: 3 }))));
    assert_eq!(r.len(), 21);
    assert!(matches!(Message::read_from(&mut r), Ok(Some(Message::Ping { nonce: 1, t_client_us: 2 }))));
    assert!(matches!(Message::read_from(&mut r), Ok(None)));
}

#[test]
fn a_stream_that_ends_inside_a_message_is_an_error() {
    let mut buf = Vec::new();
    Message::Text { utf8: "abc".to_string() }.write_to(&mut buf);
    for k in 1..buf.len() {
        let got = Message::read_from(&mut &buf[..k]).unwrap_err();
        let want =
            if k < 5 { ProtoError::TruncatedLength } else { ProtoError::TruncatedPayload };
        assert_eq!(got, want);
    }
}

fn framed(tag: u8, payload: &[u8]) -> Vec<u8> {
    let mut buf = vec![tag];
    buf.extend_from_slice(&(payload.len() as u32).to_be_bytes());
    buf.extend_from_slice(payload);
    buf
}

fn error_of(tag: u8, payload: &[u8]) -> ProtoError {
    let buf = framed(tag, payload);
    let mut r = &buf[..];
    let e = Message::read_from(&mut r).unwrap_err();
    assert!(r.is_empty());
    e
}

#[test]
fn each_malformed_payload_has_its_error() {
    assert_eq!(error_of(0, &[]), ProtoError::UnknownTag(0));
    assert_eq!(error_of(15, &[1, 2]), ProtoError::UnknownTag(15));
    assert_eq!(error_of(7, &[3, 1]), ProtoError::UnknownButton(3));
    assert_eq!(error_of(13, &[]), ProtoError::TruncatedU8);
    assert_eq!(error_of(1, &[5]), ProtoError::TruncatedU16);
    assert_eq!(error_of(5, &[0, 0, 0]), ProtoError::TruncatedU32);
    assert_eq!(error_of(11, &[0; 15]), ProtoError::TruncatedU64);
    assert_eq!(error_of(10, &[0, 0, 0, 2, b'a']), ProtoError::TruncatedString);
    assert_eq!(
        error_of(10, &[0, 0, 0, 2, b'a', 0xFF]),
        ProtoError::InvalidUtf8 { valid_up_to: 1, error_len: Some(1) }
    );
}

#[test]
fn text_that_is_not_well_formed_is_located() {
    let cases: [&[u8]; 5] = [
        &[0xFF],
        b"ab\xE4\xB8",
        b"\xC3\xA9\xF0\x9F\x8Ex",
        b"abc\xED\xA0\x80",
        b"\xF0\x9F",
    ];
    for bytes in cases {
        let mut payload = (bytes.len() as u32).to_be_bytes().to_vec();
        payload.extend_from_slice(bytes);
        let std_error = String::from_utf8(bytes.to_vec()).unwrap_err();
        assert_eq!(error_of(10, &payload).to_string(), format!("{std_error}"));
    }
    assert_eq!(
        error_of(10, &[0, 0, 0, 3, b'a', 0xE4, 0xB8]).to_string(),
        "incomplete utf-8 byte sequence from index 1"
    );
    assert_eq!(
        error_of(10, &[0, 0, 0, 3, b'a', b'b', 0xFF]).to_string(),
        "invalid utf-8 sequence of 1 bytes from index 2"
    );
}

#[test]
fn flags_and_trailing_bytes_are_read_leniently() {
    let buf = framed(7, &[1, 200, 9, 9]);
    assert!(matches!(
        Message::read_from(&mut &buf[..]),
        Ok(Some(Message::PointerButton { button: Button::Right, pressed: true }))
    ));
}

#[test]
fn errors_are_described() {
    assert_eq!(
        ProtoError::PayloadTooLarge(16777217).to_string(),
        "payload length 16777217 exceeds max 16777216 -- corrupt stream?"
    );
    assert_eq!(ProtoError::UnknownButton(3).to_string(), "unknown button 3");
    assert_eq!(ProtoError::UnknownTag(0).to_string(), "unknown message tag 0");
    assert_eq!(ProtoError::TruncatedString.to_string(), "truncated string field");
}

#[test]
fn modifiers_are_sets_of_bits() {
    let both = Modifiers::shift() | Modifiers::alt();
    assert_eq!(both.bits(), 5);
    assert!(both.contains(Modifiers::shift()));
    assert!(!both.contains(Modifiers::ctrl()));
    assert!(both.contains(Modifiers::none()));
    assert_eq!(Modifiers::default().bits(), 0);
}

#[test]
fn an_unknown_client_is_taken_for_a_modest_one() {
    let p = DeviceProfile::conservative_default();
    assert_eq!(p.model, "unknown");
    assert_eq!((p.screen_width, p.screen_height, p.density_dpi, p.refresh_hz), (1280, 720, 320, 60));
    assert_eq!((p.max_decode_width, p.max_decode_height, p.max_decode_fps), (1280, 720, 30));
    assert!(!p.low_latency_decoder);
}

#[test]
fn zero_is_zero_of_either_sign() {
    assert!(f(0.0).is_zero());
    assert!(f(-0.0).is_zero());
    assert!(!f(f32::MIN_POSITIVE).is_zero());
    assert!(!f(f32::NAN).is_zero());
}
