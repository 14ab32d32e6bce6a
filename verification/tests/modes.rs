use palmtop::modes::{sndbuf_for, Mode, SNDBUF_FLOOR};
use palmtop::proto::DeviceProfile;

#[test]
fn mode_discriminants_round_trip() {
    for m in [Mode::Sync, Mode::Balanced, Mode::Quality, Mode::Battery] {
        assert_eq!(Mode::from_u8(m.as_u8()), Some(m));
    }
}

#[test]
fn unknown_mode_is_rejected() {
    assert_eq!(Mode::from_u8(200), None);
    assert_eq!(Mode::from_u8(4), None);
}

#[test]
fn sync_is_lower_latency_than_quality_on_every_axis() {
    let s = Mode::Sync.preset();
    let q = Mode::Quality.preset();
    assert!(s.width * s.height < q.width * q.height, "fewer pixels");
    assert!(s.gop < q.gop, "tighter GOP");
    assert!(s.drop_budget_ms < q.drop_budget_ms, "stricter staleness budget");
}

#[test]
fn battery_is_the_cheapest_preset() {
    let b = Mode::Battery.preset();
    for other in [Mode::Sync, Mode::Balanced, Mode::Quality] {
        let o = other.preset();
        assert!(b.maxrate_kbps <= o.maxrate_kbps, "{} bitrate", other.name());
        assert!(b.fps <= o.fps, "{} fps", other.name());
    }
}

#[test]
fn send_buffer_never_below_the_floor() {
    for m in [Mode::Sync, Mode::Balanced, Mode::Quality, Mode::Battery] {
        assert!(
            m.preset().sndbuf_bytes >= SNDBUF_FLOOR,
            "{} would not fit a keyframe",
            m.name()
        );
    }
}

#[test]
fn send_buffer_scales_with_bitrate_above_the_floor() {
    assert!(Mode::Quality.preset().sndbuf_bytes > Mode::Sync.preset().sndbuf_bytes);
}

#[test]
fn send_buffers_hold_a_tenth_of_a_second() {
    assert_eq!(sndbuf_for(16000), 200_000);
    assert_eq!(sndbuf_for(8000), 100_000);
    assert_eq!(sndbuf_for(3000), 65536);
    assert_eq!(sndbuf_for(0), 65536);
}

#[test]
fn the_default_mode_is_balanced() {
    assert_eq!(Mode::default(), Mode::Balanced);
    assert_eq!(Mode::default().name(), "balanced");
    let p = Mode::default().preset();
    assert_eq!((p.width, p.height, p.fps, p.maxrate_kbps, p.gop, p.drop_budget_ms), (1920, 1080, 30, 8000, 15, 80));
    assert_eq!(Mode::Sync.as_u8(), 0);
    assert_eq!(Mode::Battery.as_u8(), 3);
}

#[test]
fn a_preset_is_fitted_to_the_client() {
    let mut d = DeviceProfile::conservative_default();
    let p = Mode::Quality.preset().clamped_to(&d);
    assert_eq!((p.width, p.height, p.fps), (1280, 720, 30));
    assert_eq!(p.maxrate_kbps, 16000);

    d.max_decode_width = 0;
    d.max_decode_height = 4000;
    d.max_decode_fps = 24;
    let p = Mode::Quality.preset().clamped_to(&d);
    assert_eq!((p.width, p.height, p.fps), (1920, 1080, 24));
}
