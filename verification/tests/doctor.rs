use palmtop::backend::{EncodeBackend, Platform};
use palmtop::config::{EncodeSection, GpuSection, HostConfig, HostSection, PairingSection};
use palmtop::diagnostics::{Report, Status};
use palmtop::doctor::{
    check_ffmpeg, check_portal, check_vaapi, classify_build, run_linux, run_windows, BuildCheck,
    LinuxFacts, PortalProbe, WindowsFacts, PORTAL_FIX, WGC_MIN_BUILD,
};

#[test]
fn a_report_with_only_passes_has_zero_failures_and_no_fix_section() {
    let mut r = Report::new();
    r.pass("A", "fine");
    r.pass("B", "also fine");
    assert_eq!(r.failures(), 0);
    assert!(!r.render().contains("What to do"));
    assert!(r.render().contains("Everything checks out"));
}

#[test]
fn warnings_do_not_count_as_failures_but_still_get_a_fix_section() {
    let mut r = Report::new();
    r.pass("A", "fine");
    r.warn("B", "meh", "try this");
    assert_eq!(r.failures(), 0);
    assert!(r.render().contains("What to do"));
    assert!(r.render().contains("try this"));
}

#[test]
fn failures_are_counted_and_their_fix_text_is_rendered() {
    let mut r = Report::new();
    r.fail("A", "broken", "fix A this way");
    r.fail("B", "also broken", "fix B this way");
    assert_eq!(r.failures(), 2);
    let rendered = r.render();
    assert!(rendered.contains("fix A this way"));
    assert!(rendered.contains("fix B this way"));
    assert!(!rendered.contains("Everything checks out"));
}

#[test]
fn a_report_is_laid_out_in_columns() {
    let mut r = Report::default();
    r.pass("A", "fine");
    r.fail("a name that is longer than its column", "broken", "one\ntwo");
    assert_eq!(
        r.render(),
        "\nPalmtop host diagnostics\n\n\
         [  ok  ] A                      fine\n\
         [ FAIL ] a name that is longer than its column broken\n\
         \nWhat to do:\n\n  a name that is longer than its column:\n    one\n    two\n\n"
    );
    assert_eq!(Status::Warn.marker(), " warn ");
}

#[test]
fn a_build_at_or_above_the_floor_passes() {
    assert_eq!(classify_build(Some(WGC_MIN_BUILD)), BuildCheck::Recent(WGC_MIN_BUILD));
    assert_eq!(
        classify_build(Some(WGC_MIN_BUILD + 1000)),
        BuildCheck::Recent(WGC_MIN_BUILD + 1000)
    );
}

#[test]
fn a_build_below_the_floor_fails_rather_than_warns() {
    assert_eq!(classify_build(Some(WGC_MIN_BUILD - 1)), BuildCheck::TooOld(WGC_MIN_BUILD - 1));
}

#[test]
fn no_build_number_is_unknown_not_a_failure() {
    assert_eq!(classify_build(None), BuildCheck::Unknown);
}

fn some(s: &str) -> Option<String> {
    Some(s.to_string())
}

fn config(node: &str) -> HostConfig {
    HostConfig {
        host: HostSection { ip: String::new(), port: 9999 },
        gpu: GpuSection { vaapi_render_node: node.to_string() },
        encode: EncodeSection::default(),
        pairing: PairingSection {
            token: "t".to_string(),
            noise_private_key: "a".to_string(),
            noise_public_key: "b".to_string(),
        },
    }
}

fn healthy_linux() -> LinuxFacts {
    LinuxFacts {
        wayland_display: some("wayland-0"),
        runtime_dir: some("/run/user/1000"),
        bus_address: some("unix:path=/run/user/1000/bus"),
        portal: PortalProbe::Available("Hidden".to_string()),
        pipewire_socket: some("/run/user/1000/pipewire-0"),
        ffmpeg: some("ffmpeg version 6.1\r\nbuilt with gcc\n"),
        nodes: vec!["/dev/dri/renderD128".to_string(), "/dev/dri/renderD129".to_string()],
        node_works: vec![false, true],
        nvenc: true,
        software: true,
        detected_ip: Ok("10.0.0.7".to_string()),
        backend: Some(EncodeBackend::Vaapi { render_node: "/dev/dri/renderD129".to_string() }),
    }
}

#[test]
fn a_healthy_linux_machine_passes_every_check() {
    let d = run_linux(healthy_linux(), Some(&config("/dev/dri/renderD129")));
    assert!(d.healthy);
    assert_eq!(
        d.report,
        "\nPalmtop host diagnostics\n\n\
         [  ok  ] Wayland session        WAYLAND_DISPLAY=wayland-0\n\
         [  ok  ] XDG_RUNTIME_DIR        /run/user/1000\n\
         [  ok  ] DBUS_SESSION_BUS_ADDRESS unix:path=/run/user/1000/bus\n\
         [  ok  ] Desktop portal         ScreenCast available (cursor modes: Hidden)\n\
         [  ok  ] PipeWire               socket at /run/user/1000/pipewire-0\n\
         [  ok  ] ffmpeg                 ffmpeg version 6.1\n\
         [  ok  ] VA-API hardware encode h264_vaapi works on /dev/dri/renderD129\n\
         [  ok  ] Configured render node /dev/dri/renderD129\n\
         [  ok  ] NVENC hardware encode  works (h264_nvenc)\n\
         [  ok  ] Software encode        works (libx264) -- the fallback of last resort\n\
         [  ok  ] Pairing credentials    token and host key present\n\
         [  ok  ] Host address           10.0.0.7:9999\n\
         [  ok  ] Video encoder          will stream via VA-API on /dev/dri/renderD129\n\
         \nEverything checks out. If the phone still shows nothing, the problem is between the two \
         devices rather than on this machine -- run the daemon in the foreground (`palmtopd`) and \
         watch its output while the phone connects.\n"
    );
}

#[test]
fn a_broken_linux_machine_is_told_what_to_do() {
    let mut facts = healthy_linux();
    facts.wayland_display = some("");
    facts.runtime_dir = None;
    facts.portal = PortalProbe::Unavailable("no such interface".to_string());
    facts.pipewire_socket = None;
    facts.ffmpeg = None;
    facts.node_works = vec![false, false];
    facts.nvenc = false;
    facts.software = false;
    facts.backend = None;
    let mut cfg = config("");
    cfg.pairing.token = String::new();
    facts.detected_ip = Err("Network is unreachable (os error 101)".to_string());
    let d = run_linux(facts, Some(&cfg));
    assert!(!d.healthy);
    for line in [
        "[ FAIL ] Wayland session        WAYLAND_DISPLAY is not set\n",
        "[ FAIL ] XDG_RUNTIME_DIR        not set\n",
        "systemctl --user import-environment XDG_RUNTIME_DIR\n",
        "[ FAIL ] Desktop portal         ScreenCast unavailable: no such interface\n",
        "[ FAIL ] PipeWire               no pipewire-0 socket found\n",
        "[ FAIL ] ffmpeg                 not found on PATH\n",
        "[ warn ] VA-API hardware encode no node among [/dev/dri/renderD128, /dev/dri/renderD129] can encode h264_vaapi\n",
        "[ warn ] NVENC hardware encode  not available\n",
        "[ warn ] Software encode        libx264 not available in this ffmpeg build\n",
        "[ FAIL ] Pairing credentials    missing token or host key\n",
        "[ FAIL ] Host address           could not auto-detect host IP -- set `ip` explicitly in config/host.toml: Network is unreachable (os error 101)\n",
        "[ FAIL ] Video encoder          no working backend found\n",
    ] {
        assert!(d.report.contains(line), "{line} is not in {}", d.report);
    }
}

#[test]
fn a_machine_without_a_configuration_has_no_verdict_on_encoders() {
    let d = run_linux(healthy_linux(), None);
    assert!(!d.healthy);
    assert!(d.report.contains("[ FAIL ] Configuration          could not be loaded\n"));
    assert!(d.report.contains("[ warn ] Configured render node not set (will auto-detect at startup)\n"));
    assert!(!d.report.contains("Video encoder"));
}

#[test]
fn a_configured_node_that_cannot_encode_is_a_warning() {
    let nodes = vec!["/a".to_string(), "/b".to_string()];
    let mut r = Report::new();
    check_vaapi(&mut r, "/c", &nodes, &vec![true, true]);
    assert_eq!(r.failures(), 0);
    let text = r.render();
    assert!(text.contains("h264_vaapi works on /a, /b\n"));
    assert!(text.contains("[ warn ] Configured render node /c cannot encode h264_vaapi\n"));
    assert!(text.contains("    vaapi_render_node = \"/a\"\n"));

    let mut r = Report::new();
    check_vaapi(&mut r, "/c", &Vec::new(), &Vec::new());
    assert_eq!(r.failures(), 0);
    assert!(r.render().contains("[ warn ] VA-API render nodes    none found under /dev/dri\n"));
}

#[test]
fn what_could_not_be_asked_is_a_warning() {
    let mut r = Report::new();
    check_portal(&mut r, &PortalProbe::NotAsked("no runtime".to_string()));
    assert_eq!(r.failures(), 0);
    check_portal(&mut r, &PortalProbe::Unavailable("x".to_string()));
    assert_eq!(r.failures(), 1);
    assert!(r.render().contains(PORTAL_FIX.lines().next().unwrap()));
}

#[test]
fn the_version_of_ffmpeg_is_its_first_line() {
    let shown = |v: Option<&str>| {
        let mut r = Report::new();
        check_ffmpeg(&mut r, Platform::Linux, &v.map(|s| s.to_string()));
        r.render().lines().nth(3).unwrap().to_string()
    };
    assert_eq!(shown(Some("v1\nx")), "[  ok  ] ffmpeg                 v1");
    assert_eq!(shown(Some("v2")), "[  ok  ] ffmpeg                 v2");
    assert_eq!(shown(Some("")), "[  ok  ] ffmpeg                 ffmpeg");
    assert_eq!(shown(None), "[ FAIL ] ffmpeg                 not found on PATH");
}

fn windows(build: Option<u32>) -> WindowsFacts {
    WindowsFacts {
        build,
        ffmpeg: some("ffmpeg version 7"),
        qsv: false,
        nvenc: true,
        amf: false,
        software: true,
        detected_ip: Err("no route".to_string()),
        backend: Some(EncodeBackend::Nvenc),
        task: false,
    }
}

#[test]
fn a_windows_machine_is_diagnosed() {
    let mut cfg = config("");
    cfg.host.ip = "1.2.3.4".to_string();
    let d = run_windows(windows(Some(19045)), Some(&cfg));
    assert!(d.healthy);
    for line in [
        "[  ok  ] Windows.Graphics.Capture build 19045 >= 18362 (Win10 1903)\n",
        "[ warn ] Intel Quick Sync (QSV) not available\n",
        "[  ok  ] NVENC hardware encode  works (h264_nvenc)\n",
        "[ warn ] AMD AMF                not available\n",
        "[  ok  ] Host address           1.2.3.4:9999\n",
        "[  ok  ] Video encoder          will stream via NVENC\n",
        "[ warn ] Logon Scheduled Task   not found\n",
    ] {
        assert!(d.report.contains(line), "{line} is not in {}", d.report);
    }
    assert!(run_windows(windows(None), Some(&cfg)).healthy);
    let old = run_windows(windows(Some(17763)), Some(&cfg));
    assert!(!old.healthy);
    assert!(old.report.contains("build 17763 is older than 18362 (Windows 10 version 1903)\n"));
}
