use palmtop::encode::{EncodedUnit, LatestEncoded};
use palmtop::capture::Take;
use palmtop::modes::Mode;
use palmtop::noise::{NoiseError, NoiseTransport, Reassembler};
use palmtop::proto::{Button, DeviceProfile, Message, ProtoError, F32, PROTOCOL_VERSION};
use palmtop::session::{
    capture_stopped, frame_message, greeting_answer, handshake, parse_payload, recv_encrypted,
    outgoing_message, run_network_reader, send_encrypted, watch_first_frame, Greeting, Incoming,
    Outgoing, Phase, ReaderStep, ReceiveError, Received, Registry, Session, SessionAction,
    SessionEvent, WatchStep, Writer, WriterAction, WriterEvent, FIRST_FRAME_GRACE_SECS, NO_VIDEO, WRONG_TOKEN,
};

#[test]
fn a_taken_over_session_does_not_clear_its_replacements_registration() {
    let mut active = Registry::new();
    let (old_session, new_session) = (1, 2);
    assert_eq!(active.take_over(old_session), None);

    // A newly authenticated client takes over.
    assert_eq!(
        active.take_over(new_session),
        Some(old_session),
        "the old session should be told to stop"
    );

    // Only now does the displaced session finish unwinding.
    active.release(old_session);

    assert_eq!(
        active.current(),
        Some(new_session),
        "the displaced session cleared the wrong registration"
    );
}

#[test]
fn a_session_that_was_never_displaced_clears_itself_on_exit() {
    let mut active = Registry::new();
    active.take_over(7);
    active.release(7);
    assert!(
        active.current().is_none(),
        "a session must not leave a stale registration behind -- the next client \
         would try to shut down a socket nobody is using"
    );
}

fn hello(version: u16, token: &str) -> Option<Message> {
    Some(Message::Hello {
        protocol_version: version,
        token: token.to_string(),
        profile: DeviceProfile::conservative_default(),
    })
}

#[test]
fn only_a_client_with_the_token_is_let_in() {
    match handshake(hello(PROTOCOL_VERSION, "secret"), "secret") {
        Greeting::Accept(p) => assert_eq!(p, DeviceProfile::conservative_default()),
        _ => panic!("not let in"),
    }
    match handshake(hello(PROTOCOL_VERSION, "other"), "secret") {
        Greeting::Refuse(r) => assert_eq!(r, WRONG_TOKEN),
        _ => panic!("not refused"),
    }
    match handshake(hello(4, "secret"), "secret") {
        Greeting::Refuse(r) => assert_eq!(r, "protocol mismatch: host=5 client=4"),
        _ => panic!("not refused"),
    }
    match handshake(hello(65535, "other"), "secret") {
        Greeting::Refuse(r) => assert_eq!(r, "protocol mismatch: host=5 client=65535"),
        _ => panic!("not refused"),
    }
    // an empty token is no token, whatever the host expects
    assert!(matches!(handshake(hello(PROTOCOL_VERSION, ""), ""), Greeting::Refuse(r) if r == WRONG_TOKEN));
    assert!(matches!(handshake(None, "secret"), Greeting::NoGreeting));
    assert!(matches!(handshake(Some(Message::SetMode { mode: 1 }), ""), Greeting::NoGreeting));
}

#[test]
fn only_a_client_that_was_let_in_gets_the_screen() {
    let mut active = Registry::new();
    active.take_over(1);
    assert!(active.enter(2, handshake(hello(PROTOCOL_VERSION, "guess"), "secret")).is_none());
    assert!(active.enter(3, handshake(hello(4, "secret"), "secret")).is_none());
    assert!(active.enter(4, Greeting::NoGreeting).is_none());
    assert_eq!(active.current(), Some(1));
    let a = active.enter(5, handshake(hello(PROTOCOL_VERSION, "secret"), "secret")).unwrap();
    assert_eq!(a.displaced, Some(1));
    assert_eq!(a.profile, DeviceProfile::conservative_default());
    assert_eq!(active.current(), Some(5));
}

#[test]
fn the_writer_empties_the_queue_before_it_sends_a_picture() {
    let mut latest = LatestEncoded::new();
    let mut w = Writer::new();
    let item = |m: u8| WriterEvent::Next {
        item: Some(Outgoing::Reconfigure(Message::SetMode { mode: m })),
        now_us: 0,
    };
    assert!(matches!(w.step(WriterEvent::Sent(true), &mut latest), WriterAction::Nothing));
    assert!(matches!(w.step(WriterEvent::Stopped(false), &mut latest), WriterAction::TakeItem));
    latest.publish(unit());
    assert!(matches!(w.step(item(1), &mut latest), WriterAction::Send(Message::SetMode { mode: 1 })));
    assert!(matches!(latest.take_latest_timeout(true), Take::Nothing));
    assert!(matches!(w.step(WriterEvent::Sent(true), &mut latest), WriterAction::TakeItem));
    assert!(matches!(w.step(item(2), &mut latest), WriterAction::Send(Message::SetMode { mode: 2 })));
    assert!(matches!(w.step(WriterEvent::Sent(true), &mut latest), WriterAction::TakeItem));
    assert!(matches!(
        w.step(WriterEvent::Next { item: None, now_us: 0 }, &mut latest),
        WriterAction::TakePicture
    ));
    assert!(matches!(
        w.step(WriterEvent::Picture(Some(unit())), &mut latest),
        WriterAction::Send(Message::VideoFrame { capture_us: 5, .. })
    ));
    assert!(matches!(
        w.step(WriterEvent::Sent(true), &mut latest),
        WriterAction::LookForStop { picture_sent: true }
    ));
    w.step(WriterEvent::Stopped(false), &mut latest);
    w.step(WriterEvent::Next { item: None, now_us: 0 }, &mut latest);
    assert!(matches!(
        w.step(WriterEvent::Picture(None), &mut latest),
        WriterAction::LookForStop { picture_sent: false }
    ));
    assert!(matches!(w.step(WriterEvent::Stopped(true), &mut latest), WriterAction::Exit));
    assert!(matches!(w.step(WriterEvent::Stopped(false), &mut latest), WriterAction::Nothing));
}

#[test]
fn the_writer_ends_where_a_message_cannot_be_sent() {
    let mut latest = LatestEncoded::new();
    let mut w = Writer::new();
    w.step(WriterEvent::Stopped(false), &mut latest);
    let pong = Outgoing::Pong { nonce: 1, t_client_us: 2, t_host_recv_us: 3 };
    assert!(matches!(
        w.step(WriterEvent::Next { item: Some(pong), now_us: 9 }, &mut latest),
        WriterAction::Send(Message::Pong { t_host_send_us: 9, .. })
    ));
    assert!(matches!(w.step(WriterEvent::Sent(false), &mut latest), WriterAction::Exit));
    let mut w = Writer::new();
    w.step(WriterEvent::Stopped(false), &mut latest);
    w.step(WriterEvent::Next { item: None, now_us: 0 }, &mut latest);
    w.step(WriterEvent::Picture(Some(unit())), &mut latest);
    assert!(matches!(w.step(WriterEvent::Sent(false), &mut latest), WriterAction::Exit));
}

#[test]
fn a_greeting_is_answered() {
    let g = handshake(hello(PROTOCOL_VERSION, "x"), "x");
    assert!(matches!(greeting_answer(&g), Some(Message::HelloAck { ok: true, reason }) if reason.is_empty()));
    let g = handshake(hello(PROTOCOL_VERSION, "y"), "x");
    assert!(matches!(greeting_answer(&g), Some(Message::HelloAck { ok: false, reason }) if reason == WRONG_TOKEN));
    assert!(greeting_answer(&Greeting::NoGreeting).is_none());
}

fn connected() -> (NoiseTransport, NoiseTransport) {
    let (priv_key, pub_key) = NoiseTransport::generate_keypair().unwrap();
    let mut host = NoiseTransport::handshake_responder(&priv_key).unwrap();
    let mut client = NoiseTransport::handshake_initiator(&pub_key).unwrap();
    host.receive(&client.send().unwrap()[4..]).unwrap();
    client.receive(&host.send().unwrap()[4..]).unwrap();
    (host.finish().unwrap(), client.finish().unwrap())
}

#[test]
fn a_message_arrives_with_its_last_frame() {
    let (mut host, mut client) = connected();
    let data: Vec<u8> = (0..150_000u32).map(|i| (i % 253) as u8).collect();
    let msg = Message::VideoFrame { keyframe: true, capture_us: 42, data: data.clone() };
    let frames = send_encrypted(&mut host, &msg).unwrap();
    assert_eq!(frames.len(), 3);

    let mut pending = Reassembler::new();
    for f in &frames[..2] {
        assert!(matches!(recv_encrypted(&mut client, &mut pending, Some(&f[4..])), Ok(Received::Partial)));
    }
    // a stream that ends here ends inside a message
    assert_eq!(
        recv_encrypted(&mut client, &mut pending, None).err(),
        Some(ReceiveError::CutOff)
    );
    match recv_encrypted(&mut client, &mut pending, Some(&frames[2][4..])) {
        Ok(Received::Message(Message::VideoFrame { keyframe: true, capture_us: 42, data: got })) => {
            assert_eq!(got, data)
        }
        _ => panic!("not the message"),
    }
    assert!(matches!(
        recv_encrypted(&mut client, &mut Reassembler::new(), None),
        Ok(Received::Closed)
    ));
}

#[test]
fn a_frame_that_was_altered_is_refused() {
    let (mut host, mut client) = connected();
    let mut frames = send_encrypted(&mut host, &Message::SetMode { mode: 1 }).unwrap();
    frames[0][5] ^= 0x80;
    let got = recv_encrypted(&mut client, &mut Reassembler::new(), Some(&frames[0][4..]));
    assert_eq!(got.err(), Some(ReceiveError::Channel(NoiseError::Decrypt)));
}

#[test]
fn a_payload_holds_one_message() {
    assert_eq!(parse_payload(&[]).unwrap_err(), ReceiveError::NoMessage);
    assert_eq!(
        parse_payload(&[99, 0, 0, 0, 0]).unwrap_err(),
        ReceiveError::Message(ProtoError::UnknownTag(99))
    );
    assert!(matches!(parse_payload(&[13, 0, 0, 0, 1, 2, 77]), Ok(Message::SetMode { mode: 2 })));
}

#[test]
fn messages_of_a_client_lead_to_steps() {
    let step = |m: Message| run_network_reader(Incoming::Message(m));
    assert!(matches!(
        step(Message::Ping { nonce: 3, t_client_us: 4 }),
        ReaderStep::Reply { nonce: 3, t_client_us: 4 }
    ));
    assert!(matches!(step(Message::SetMode { mode: 2 }), ReaderStep::SwitchMode(Mode::Quality)));
    assert!(matches!(step(Message::SetMode { mode: 9 }), ReaderStep::UnknownMode(9)));
    assert!(matches!(
        step(Message::PointerButton { button: Button::Left, pressed: true }),
        ReaderStep::Inject(Message::PointerButton { button: Button::Left, pressed: true })
    ));
    assert!(matches!(
        step(Message::Scroll { dx: F32(0), dy: F32(0) }),
        ReaderStep::Inject(Message::Scroll { .. })
    ));
    assert!(matches!(step(Message::HelloAck { ok: true, reason: String::new() }), ReaderStep::Skip));
    assert!(matches!(run_network_reader(Incoming::Closed), ReaderStep::Stop));
    assert!(matches!(run_network_reader(Incoming::Failed), ReaderStep::Stop));
}

fn unit() -> EncodedUnit {
    EncodedUnit { keyframe: true, capture_us: 5, data: vec![1, 2] }
}

#[test]
fn a_new_format_throws_away_the_picture_that_waits() {
    let mut latest = LatestEncoded::new();
    latest.publish(unit());
    let pong = Outgoing::Pong { nonce: 1, t_client_us: 2, t_host_recv_us: 3 };
    assert!(matches!(
        outgoing_message(pong, 4, &mut latest),
        Message::Pong { nonce: 1, t_client_us: 2, t_host_recv_us: 3, t_host_send_us: 4 }
    ));
    let status = Outgoing::Status { stage: "s".to_string(), ok: true, detail: "d".to_string() };
    assert!(matches!(
        outgoing_message(status, 4, &mut latest),
        Message::Status { stage, ok: true, detail } if stage == "s" && detail == "d"
    ));
    assert!(matches!(latest.take_latest_timeout(true), Take::Got(_)));
    latest.publish(unit());
    let config = Message::SetMode { mode: 1 };
    assert!(matches!(
        outgoing_message(Outgoing::Reconfigure(config), 4, &mut latest),
        Message::SetMode { mode: 1 }
    ));
    assert!(matches!(latest.take_latest_timeout(true), Take::Nothing));
    assert!(matches!(
        frame_message(unit()),
        Message::VideoFrame { keyframe: true, capture_us: 5, data } if data == [1, 2]
    ));
}

#[test]
fn a_stream_without_pictures_is_reported() {
    assert!(matches!(watch_first_frame(false, false, false), WatchStep::Wait));
    assert!(matches!(watch_first_frame(true, true, false), WatchStep::Done));
    assert!(matches!(watch_first_frame(true, false, true), WatchStep::Done));
    match watch_first_frame(true, false, false) {
        WatchStep::Tell(Outgoing::Status { stage, ok, detail }) => {
            assert_eq!(stage, "stream");
            assert!(!ok);
            assert_eq!(detail, NO_VIDEO);
        }
        _ => panic!("the client is not told"),
    }
    assert_eq!(FIRST_FRAME_GRACE_SECS, 8);
    match capture_stopped("gone") {
        Outgoing::Status { stage, ok: false, detail } => {
            assert_eq!(stage, "capture");
            assert_eq!(detail, "screen capture stopped: gone");
        }
        _ => panic!("not a report"),
    }
}

/// An action in a few words.
fn words(a: &SessionAction) -> String {
    match a {
        SessionAction::SendNow(Message::Status { stage, ok, detail }) => {
            format!("now {stage} {ok} {detail}")
        }
        SessionAction::SendNow(_) => "now".to_string(),
        SessionAction::AskForScreen => "ask".to_string(),
        SessionAction::StartCapture => "capture".to_string(),
        SessionAction::SetSendBuffer(n) => format!("buffer {n}"),
        SessionAction::StartEncoder(p) => format!("start {}x{}@{}", p.width, p.height, p.fps),
        SessionAction::StopEncoder => "stop encoder".to_string(),
        SessionAction::StartWriter => "writer".to_string(),
        SessionAction::StartWatch => "watch".to_string(),
        SessionAction::StartReader => "reader".to_string(),
        SessionAction::Queue(Outgoing::Reconfigure(Message::VideoConfig {
            codec,
            width,
            height,
            fps,
            mode,
            drop_budget_ms,
        })) => format!("announce {codec} {width}x{height}@{fps} mode {mode} budget {drop_budget_ms}"),
        SessionAction::Queue(Outgoing::Status { stage, ok, detail }) => {
            format!("queue {stage} {ok} {detail}")
        }
        SessionAction::Queue(_) => "queue".to_string(),
        SessionAction::SignalStop => "signal".to_string(),
        SessionAction::SendQueued => "send queued".to_string(),
        SessionAction::Disconnect => "disconnect".to_string(),
        SessionAction::WaitForAll => "wait".to_string(),
        SessionAction::Finish { failed } => format!("finish {failed}"),
    }
}

fn told(s: &mut Session, e: SessionEvent) -> Vec<String> {
    s.handle(e).iter().map(words).collect()
}

fn session() -> Session {
    Session::new(
        DeviceProfile::conservative_default(),
        "h264_vaapi".to_string(),
        "VA-API on /dev/dri/renderD128".to_string(),
    )
}

#[test]
fn a_session_runs_its_course() {
    let mut s = session();
    assert_eq!(s.phase(), Phase::Admitted);
    assert!(told(&mut s, SessionEvent::Idle).is_empty());
    assert_eq!(
        told(&mut s, SessionEvent::Begin),
        vec!["now portal true asking for screen-share permission -- approve the dialog on the laptop", "ask"]
    );
    assert_eq!(
        told(&mut s, SessionEvent::ScreenShared { width: 2560, height: 1440 }),
        vec![
            "now portal true screen sharing approved -- capturing 2560x1440",
            "capture",
            "buffer 100000",
            "start 1280x720@30",
        ]
    );
    assert_eq!(
        told(&mut s, SessionEvent::EncoderStarted),
        vec![
            "writer",
            "watch",
            "announce h264_vaapi 1280x720@30 mode 1 budget 80",
            "queue encode true encoding 1280x720@30 on VA-API on /dev/dri/renderD128 (balanced mode)",
            "reader",
        ]
    );
    assert_eq!(s.phase(), Phase::Streaming);
    assert!(told(&mut s, SessionEvent::Idle).is_empty());
    let battery = Mode::Battery.preset();
    assert_eq!(
        told(&mut s, SessionEvent::ModeRequested(Mode::Battery)),
        vec![
            "stop encoder".to_string(),
            format!("buffer {}", battery.sndbuf_bytes),
            format!("start {}x{}@{}", battery.width, battery.height, battery.fps),
        ]
    );
    assert_eq!(s.mode(), Mode::Battery);
    assert_eq!(s.preset().fps, battery.fps);
    assert_eq!(
        told(&mut s, SessionEvent::EncoderStarted),
        vec![format!(
            "announce h264_vaapi {}x{}@{} mode 3 budget {}",
            battery.width, battery.height, battery.fps, battery.drop_budget_ms
        )]
    );
    assert_eq!(
        told(&mut s, SessionEvent::StopRequested),
        vec!["signal", "stop encoder", "wait", "finish false"]
    );
    assert_eq!(s.phase(), Phase::Ended);
    assert!(told(&mut s, SessionEvent::Begin).is_empty());
    assert!(told(&mut s, SessionEvent::StopRequested).is_empty());
}

#[test]
fn a_session_that_cannot_start_tells_the_client() {
    let mut s = session();
    s.handle(SessionEvent::Begin);
    assert_eq!(
        told(&mut s, SessionEvent::ScreenRefused("denied".to_string())),
        vec![
            "now portal false the laptop could not start screen sharing: denied\n\
             Run `palmtopd --doctor` on the laptop for the specific cause.",
            "finish true",
        ]
    );

    let mut s = session();
    s.handle(SessionEvent::Begin);
    s.handle(SessionEvent::ScreenShared { width: 1, height: 1 });
    assert_eq!(
        told(&mut s, SessionEvent::EncoderFailed("no ffmpeg".to_string())),
        vec![
            "now encode false the laptop could not start its video encoder: no ffmpeg\n\
             Run `palmtopd --doctor` on the laptop -- this is usually the GPU render node being \
             wrong, or ffmpeg missing.",
            "finish true",
        ]
    );

    let mut s = session();
    s.handle(SessionEvent::Begin);
    s.handle(SessionEvent::ScreenShared { width: 1, height: 1 });
    s.handle(SessionEvent::EncoderStarted);
    s.handle(SessionEvent::ModeRequested(Mode::Sync));
    assert_eq!(
        told(&mut s, SessionEvent::EncoderFailed("no ffmpeg".to_string())),
        vec![
            "queue encode false the laptop could not start its video encoder: no ffmpeg\n\
             Run `palmtopd --doctor` on the laptop -- this is usually the GPU render node being \
             wrong, or ffmpeg missing.",
            "send queued",
            "signal",
            "disconnect",
            "wait",
            "finish true",
        ]
    );
    assert_eq!(s.phase(), Phase::Ended);
}
