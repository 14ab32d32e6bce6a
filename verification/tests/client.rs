use palmtop::client::{
    ClientAction, ClientError, ClientEvent, ClientPhase, TestClient, COLLECT_SECS, SWITCH_SECS,
};
use palmtop::proto::{Button, Message, Modifiers, F32};
use palmtop::recording::{Recorded, Recorder, Snapshot, TARGET_FRAMES};

fn ack(ok: bool, reason: &str) -> ClientEvent {
    ClientEvent::Message(Message::HelloAck { ok, reason: reason.to_string() })
}

fn config(width: u32, height: u32, mode: u8) -> ClientEvent {
    ClientEvent::Message(Message::VideoConfig {
        codec: "h264_vaapi".to_string(),
        width,
        height,
        fps: 30,
        mode,
        drop_budget_ms: 80,
    })
}

fn frame(keyframe: bool, data: &[u8]) -> ClientEvent {
    ClientEvent::Message(Message::VideoFrame { keyframe, capture_us: 0, data: data.to_vec() })
}

fn streaming() -> TestClient {
    let mut c = TestClient::new(false);
    assert!(matches!(c.handle(ack(true, "")), ClientAction::Wait));
    assert!(matches!(c.handle(config(1920, 1080, 1)), ClientAction::Wait));
    assert_eq!(c.phase(), ClientPhase::Collecting);
    c
}

#[test]
fn a_client_takes_video_and_then_tries_input() {
    let mut c = streaming();
    assert!(matches!(c.handle(frame(true, &[1, 2])), ClientAction::Store(d) if d == [1, 2]));
    assert!(matches!(c.handle(frame(false, &[3])), ClientAction::Store(d) if d == [3]));
    assert!(matches!(c.handle(ack(true, "")), ClientAction::Show(Message::HelloAck { .. })));
    assert_eq!((c.frames(), c.bytes(), c.first_keyframe()), (2, 3, Some(true)));
    assert!(c.has_room(&frame(true, &[0])));
    match c.handle(ClientEvent::TimeUp) {
        ClientAction::Finish { input, stalls } => {
            assert!(!stalls);
            let middle = F32(0.5f32.to_bits());
            let expected = vec![
                Message::PointerMotionAbsolute { x: middle, y: middle },
                Message::PointerButton { button: Button::Left, pressed: true },
                Message::PointerButton { button: Button::Left, pressed: false },
                Message::Key { evdev_code: 35, pressed: true, modifiers: Modifiers::none() },
                Message::Key { evdev_code: 35, pressed: false, modifiers: Modifiers::none() },
            ];
            assert_eq!(format!("{input:?}"), format!("{expected:?}"));
        }
        _ => panic!("not finished"),
    }
    assert_eq!(c.phase(), ClientPhase::Ended);
    assert!(matches!(c.handle(ClientEvent::Closed), ClientAction::Wait));
    assert_eq!((SWITCH_SECS, COLLECT_SECS), (10, 4));
}

#[test]
fn a_client_that_gets_no_video_fails() {
    let mut c = streaming();
    assert!(matches!(c.handle(ClientEvent::Closed), ClientAction::Fail(ClientError::NoFrames)));
    let mut c = streaming();
    c.handle(frame(false, &[1]));
    assert!(matches!(c.handle(ClientEvent::Closed), ClientAction::Finish { stalls: true, .. }));
}

#[test]
fn a_client_that_is_not_let_in_fails() {
    let mut c = TestClient::new(false);
    match c.handle(ack(false, "wrong token")) {
        ClientAction::Fail(ClientError::Rejected(reason)) => assert_eq!(reason, "wrong token"),
        _ => panic!("let in"),
    }
    assert!(matches!(
        TestClient::new(false).handle(ClientEvent::Closed),
        ClientAction::Fail(ClientError::ClosedInHandshake)
    ));
    assert!(matches!(
        TestClient::new(false).handle(config(1, 1, 1)),
        ClientAction::Fail(ClientError::NotAnAck(Message::VideoConfig { .. }))
    ));
    let mut c = TestClient::new(false);
    c.handle(ack(true, ""));
    assert!(matches!(
        c.handle(ack(true, "")),
        ClientAction::Fail(ClientError::NotAConfig(Message::HelloAck { .. }))
    ));
    let mut c = TestClient::new(false);
    c.handle(ack(true, ""));
    assert!(matches!(
        c.handle(ClientEvent::Closed),
        ClientAction::Fail(ClientError::ClosedBeforeConfig)
    ));
}

fn switching() -> TestClient {
    let mut c = TestClient::new(true);
    c.handle(ack(true, ""));
    assert!(matches!(
        c.handle(config(1920, 1080, 1)),
        ClientAction::Send(Message::SetMode { mode: 0 })
    ));
    c
}

#[test]
fn a_switch_of_modes_has_to_show() {
    let mut c = switching();
    assert!(matches!(c.handle(frame(true, &[1])), ClientAction::Wait));
    assert!(matches!(c.handle(config(1280, 720, 0)), ClientAction::Wait));
    assert_eq!((c.phase(), c.frames()), (ClientPhase::Collecting, 0));
    assert!(matches!(
        switching().handle(config(1920, 1080, 0)),
        ClientAction::Fail(ClientError::WrongSize { width: 1920, height: 1080 })
    ));
    assert!(matches!(
        switching().handle(config(1280, 720, 1)),
        ClientAction::Fail(ClientError::WrongMode(1))
    ));
    assert!(matches!(
        switching().handle(ClientEvent::Closed),
        ClientAction::Fail(ClientError::ClosedInSwitch)
    ));
    assert!(matches!(
        switching().handle(ClientEvent::TimeUp),
        ClientAction::Fail(ClientError::NeverSwitched)
    ));
}

#[test]
fn a_run_of_frames_is_recorded_without_padding() {
    let buffer = [1, 2, 3, 4, 0, 0];
    let mut r = Recorder::new();
    assert_eq!(r.frame(&buffer, 6), Recorded::Skipped);
    r.negotiated(1, 1);
    assert_eq!(r.size(), Some((1, 1)));
    assert_eq!(r.frame(&buffer, 7), Recorded::Skipped);
    assert_eq!(r.frames(), 0);
    for n in 1..=TARGET_FRAMES {
        assert_eq!(
            r.frame(&buffer, 6),
            Recorded::Frame {
                rows: vec![1, 2, 3, 4],
                report: n == 15 || n == 30 || n == 45 || n == 60,
                done: n == 60,
            }
        );
    }
    assert_eq!(r.frames(), 60);
    r.negotiated(0, 5);
    assert_eq!(r.frame(&buffer, 0), Recorded::Skipped);
}

#[test]
fn the_first_readable_frame_is_saved() {
    let mut s = Snapshot::new();
    assert!(!s.frame(false).save);
    assert!(s.frame(true).save);
    assert!(s.frame(true).save);
    s.saved();
    let fourth = s.frame(true);
    assert_eq!((fourth.number, fourth.save, fourth.done), (4, false, false));
    for _ in 5..30 {
        assert!(!s.frame(true).done);
    }
    assert!(s.frame(true).done);
}
