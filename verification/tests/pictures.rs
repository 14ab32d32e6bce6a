use palmtop::input::{
    modifiers_to_depressed, wayland_requests, windows_events, WaylandRequest, WindowsEvent,
    BTN_MIDDLE, BTN_RIGHT, EXTENT,
};
use palmtop::keymap::{sc, KEYEVENTF_KEYUP, KEYEVENTF_SCANCODE};
use palmtop::latency::{downsample, ChangeDetector, TrialRun, FAR, NEAR, TRIALS};
use palmtop::pixels::{pack_rows, to_ppm, PictureError, VideoFormat};
use palmtop::proto::{Button, Message, Modifiers, F32};

fn f(v: f32) -> F32 {
    F32(v.to_bits())
}

#[test]
fn padding_between_rows_is_left_out() {
    // two rows of one pixel, six bytes apart
    let b = [1, 2, 3, 4, 9, 9, 5, 6, 7, 8, 9, 9];
    assert_eq!(pack_rows(&b, 1, 2, 6), Some(vec![1, 2, 3, 4, 5, 6, 7, 8]));
    assert_eq!(pack_rows(&b, 1, 2, 7), None);
    assert_eq!(pack_rows(&b, 0, 2, 6), None);
    assert_eq!(pack_rows(&b, 1, 0, 6), None);
    assert_eq!(pack_rows(&b, 1, 3, 4), Some(b.to_vec()));
}

#[test]
fn a_picture_becomes_a_ppm_file() {
    let b = [1, 2, 3, 4, 5, 6, 7, 8];
    let shown = |format| to_ppm(&b, 2, 1, 8, format).unwrap();
    let header = b"P6\n2 1\n255\n";
    assert_eq!(&shown(VideoFormat::Bgrx)[..11], header);
    assert_eq!(&shown(VideoFormat::Bgra)[11..], &[3, 2, 1, 7, 6, 5]);
    assert_eq!(&shown(VideoFormat::Rgbx)[11..], &[1, 2, 3, 5, 6, 7]);
    assert_eq!(&shown(VideoFormat::Rgba)[11..], &[1, 2, 3, 5, 6, 7]);
    assert_eq!(&shown(VideoFormat::Xrgb)[11..], &[2, 3, 4, 6, 7, 8]);
    assert_eq!(&shown(VideoFormat::Argb)[11..], &[2, 3, 4, 6, 7, 8]);
    assert_eq!(&shown(VideoFormat::Xbgr)[11..], &[4, 3, 2, 8, 7, 6]);
    assert_eq!(&shown(VideoFormat::Abgr)[11..], &[4, 3, 2, 8, 7, 6]);
    assert_eq!(to_ppm(&b, 2, 1, 8, VideoFormat::Other), Err(PictureError::UnknownFormat));
    assert_eq!(to_ppm(&b, 2, 2, 8, VideoFormat::Bgra), Err(PictureError::ShortBuffer));
    assert_eq!(to_ppm(&b, 1, 2, 4, VideoFormat::Rgba).unwrap(), b"P6\n1 2\n255\n\x01\x02\x03\x05\x06\x07");
}

#[test]
fn every_fourth_pixel_of_every_fourth_row_is_looked_at() {
    // 5 by 5 pixels, numbered
    let mut b = Vec::new();
    for n in 0..25u8 {
        b.extend_from_slice(&[n, 100, 100, 100]);
    }
    assert_eq!(downsample(&b, 5, 5, 20), Some(vec![0, 4, 20, 24]));
    assert_eq!(downsample(&b, 4, 4, 20), Some(vec![0]));
    assert_eq!(downsample(&b, 5, 6, 20), None);
    assert_eq!(downsample(&b, 0, 5, 20), None);
    assert_eq!(downsample(&b, 5, 5, 0), None);
    // rows that overlap: only the bytes that are looked at have to be there
    assert_eq!(downsample(&b, 9, 4, 4), Some(vec![0, 4, 8]));
    assert_eq!(downsample(&b[..33], 9, 2, 4), Some(vec![0, 4, 8]));
}

#[test]
fn a_change_is_seen_once_enough_samples_differ() {
    let mut d = ChangeDetector::new();
    assert_eq!(d.observe(vec![0; 6], 5_000, Some(1_000)), None);
    assert_eq!(d.observe(vec![0; 6], 6_000, Some(1_000)), None);
    assert_eq!(d.observe(vec![21, 21, 21, 20, 20, 20], 7_000, Some(1_000)), None);
    assert_eq!(d.observe(vec![0, 0, 0, 41, 20, 20], 9_999, Some(1_000)), Some(8));
    assert_eq!(d.observe(vec![200; 6], 9_999, None), None);
    assert_eq!(d.observe(vec![0; 6], 1_000, Some(2_000)), Some(0));
    assert_eq!(d.observe(vec![200; 5], 9_000, Some(2_000)), None);
}

#[test]
fn the_pointer_moves_in_every_trial() {
    let mut run = TrialRun::new();
    let mut places = Vec::new();
    while let Some(at) = run.next_target() {
        places.push(at);
        run.record(if at == FAR { Some(places.len() as u64) } else { None });
    }
    assert_eq!(places.len(), TRIALS);
    assert!(places.windows(2).all(|w| w[0] != w[1]));
    assert_eq!((places[0], places[1]), (FAR, NEAR));
    assert_eq!(run.results(), (0..10).map(|i| 2 * i + 1).collect::<Vec<u64>>());
}

#[test]
fn modifiers_have_the_bits_of_the_usual_keymap() {
    assert_eq!(modifiers_to_depressed(Modifiers::none()), 0);
    assert_eq!(modifiers_to_depressed(Modifiers::shift()), 1);
    assert_eq!(modifiers_to_depressed(Modifiers::ctrl()), 4);
    assert_eq!(modifiers_to_depressed(Modifiers::alt()), 8);
    assert_eq!(modifiers_to_depressed(Modifiers::super_key()), 64);
    assert_eq!(modifiers_to_depressed(Modifiers::from_bits_truncate(0xFF)), 77);
}

#[test]
fn input_becomes_requests_to_the_compositor() {
    assert_eq!(
        wayland_requests(&Message::PointerMotionRelative { dx: f(1.5), dy: f(-2.0) }),
        vec![WaylandRequest::Motion { dx: f(1.5), dy: f(-2.0) }, WaylandRequest::Frame]
    );
    assert_eq!(
        wayland_requests(&Message::PointerMotionAbsolute { x: f(0.5), y: f(1.0) }),
        vec![WaylandRequest::MotionAbsolute { x: f(0.5), y: f(1.0) }, WaylandRequest::Frame]
    );
    assert_eq!(EXTENT, 1000);
    assert_eq!(
        wayland_requests(&Message::PointerButton { button: Button::Right, pressed: true }),
        vec![WaylandRequest::Button { code: BTN_RIGHT, pressed: true }, WaylandRequest::Frame]
    );
    assert_eq!(BTN_MIDDLE, 0x112);
    assert_eq!(
        wayland_requests(&Message::Scroll { dx: f(-0.0), dy: f(3.0) }),
        vec![WaylandRequest::Axis { vertical: true, amount: f(3.0) }, WaylandRequest::Frame]
    );
    assert_eq!(
        wayland_requests(&Message::Scroll { dx: f(1.0), dy: f(3.0) }).len(),
        3
    );
    assert_eq!(
        wayland_requests(&Message::Key { evdev_code: 30, pressed: false, modifiers: Modifiers::ctrl() }),
        vec![
            WaylandRequest::Modifiers { depressed: 4 },
            WaylandRequest::Key { evdev_code: 30, pressed: false },
        ]
    );
    assert!(wayland_requests(&Message::Text { utf8: "a".to_string() }).is_empty());
    assert!(wayland_requests(&Message::SetMode { mode: 0 }).is_empty());
}

#[test]
fn input_becomes_events_of_windows() {
    assert_eq!(
        windows_events(&Message::Scroll { dx: f(1.0), dy: f(2.0) }),
        vec![
            WindowsEvent::Wheel { amount: f(2.0) },
            WindowsEvent::HorizontalWheel { amount: f(1.0) },
        ]
    );
    assert!(windows_events(&Message::Scroll { dx: f(0.0), dy: f(-0.0) }).is_empty());
    assert_eq!(
        windows_events(&Message::Key { evdev_code: 30, pressed: false, modifiers: Modifiers::none() }),
        vec![WindowsEvent::Key { scancode: sc(0x1E), flags: KEYEVENTF_SCANCODE | KEYEVENTF_KEYUP }]
    );
    assert!(windows_events(&Message::Key { evdev_code: 999, pressed: true, modifiers: Modifiers::none() }).is_empty());
    assert_eq!(
        windows_events(&Message::PointerButton { button: Button::Middle, pressed: true }),
        vec![WindowsEvent::Button { button: Button::Middle, pressed: true }]
    );
    assert_eq!(
        windows_events(&Message::PointerMotionAbsolute { x: f(0.25), y: f(0.5) }),
        vec![WindowsEvent::MoveAbsolute { x: f(0.25), y: f(0.5) }]
    );
    assert_eq!(
        windows_events(&Message::PointerMotionRelative { dx: f(1.0), dy: f(2.0) }),
        vec![WindowsEvent::Move { dx: f(1.0), dy: f(2.0) }]
    );
}
