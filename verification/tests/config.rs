use palmtop::backend::{
    candidates, list_encoders, no_encoder, probe_args, render_nodes, BackendProbe, BackendSearch,
    EncodeBackend, Platform, AUTO_CODEC, TEST_SOURCE,
};
use palmtop::config::{
    config_dir, default_port, missing_host_file, no_device_help, DecoderSection, DeviceConfig,
    DisplaySection, EncodeSection, GpuSection, HostConfig, HostSection, LimitsSection, Loaded,
    PairingSection, Surroundings, F64,
};
use palmtop::setting::with_codec;

#[test]
fn every_backend_has_a_distinct_ffmpeg_codec_name() {
    let names = [
        EncodeBackend::Vaapi { render_node: "/dev/dri/renderD128".to_string() }.codec_name(),
        EncodeBackend::Nvenc.codec_name(),
        EncodeBackend::Qsv.codec_name(),
        EncodeBackend::Amf.codec_name(),
        EncodeBackend::Software.codec_name(),
    ];
    let mut unique = names.to_vec();
    unique.sort();
    unique.dedup();
    assert_eq!(unique.len(), names.len(), "two backends share a codec_name: {names:?}");
}

#[test]
fn qsv_and_amf_display_as_the_vendor_name_not_the_ffmpeg_codec() {
    assert_eq!(EncodeBackend::Qsv.to_string(), "Intel Quick Sync (QSV)");
    assert_eq!(EncodeBackend::Amf.to_string(), "AMD AMF");
}

// [encode] is the last real table, followed only by a comment that happens to contain the header of
// a section that is not there.
const HOST_TOML_WITH_MISLEADING_COMMENT: &str = r#"
[host]
ip = ""
port = 9999

[gpu]
vaapi_render_node = "/dev/dri/renderD128"

[encode]
codec = "h264_vaapi"
qp = 24
fps = 30
async_depth = 1

# [pairing] is NOT listed here on purpose -- generated on first run.
"#;

fn entry(table: &toml::Table, section: &str, key: &str) -> Option<toml::Value> {
    table.get(section).and_then(|s| s.get(key)).cloned()
}

fn text(table: &toml::Table, section: &str, key: &str) -> String {
    match entry(table, section, key) {
        Some(toml::Value::String(s)) => s,
        _ => String::new(),
    }
}

fn number(table: &toml::Table, section: &str, key: &str) -> i64 {
    match entry(table, section, key) {
        Some(toml::Value::Integer(n)) => n,
        _ => panic!("{section}.{key} is not a number"),
    }
}

/// Reads the file, completes the configuration, and writes the file where it is to be written.
fn load(file: &mut String, token: &[u8]) -> HostConfig {
    let table: toml::Table = file.parse().expect("the file must stay readable");
    let read = HostConfig {
        host: HostSection {
            ip: text(&table, "host", "ip"),
            port: number(&table, "host", "port") as u16,
        },
        gpu: GpuSection { vaapi_render_node: text(&table, "gpu", "vaapi_render_node") },
        encode: EncodeSection {
            codec: text(&table, "encode", "codec"),
            qp: number(&table, "encode", "qp") as u32,
            fps: number(&table, "encode", "fps") as u32,
            async_depth: number(&table, "encode", "async_depth") as u32,
        },
        pairing: PairingSection {
            token: text(&table, "pairing", "token"),
            noise_private_key: text(&table, "pairing", "noise_private_key"),
            noise_public_key: text(&table, "pairing", "noise_public_key"),
        },
    };
    let Loaded { config, rewritten } = read.load(file, token).expect("keys can be made");
    if let Some(updated) = rewritten {
        *file = updated;
    }
    config
}

#[test]
fn a_fresh_config_survives_repeated_loads_without_crashing_or_duplicating_the_token() {
    let mut file = HOST_TOML_WITH_MISLEADING_COMMENT.to_string();

    let first = load(&mut file, &[1; 16]);
    assert!(!first.pairing.token.is_empty());
    assert!(!first.pairing.noise_public_key.is_empty());

    let second = load(&mut file, &[2; 16]);
    assert_eq!(first.pairing.token, second.pairing.token);
    assert_eq!(first.pairing.noise_public_key, second.pairing.noise_public_key);

    let third = load(&mut file, &[3; 16]);
    assert_eq!(first.pairing.token, third.pairing.token);
}

#[test]
fn the_generated_pairing_section_is_a_real_toml_table_not_just_matching_text() {
    let mut file = HOST_TOML_WITH_MISLEADING_COMMENT.to_string();
    load(&mut file, &[9; 16]);
    assert!(
        file.lines().any(|line| line.trim() == "[pairing]"),
        "expected a real [pairing] section header, got:\n{file}"
    );
}

#[test]
fn loading_keeps_the_file_and_adds_what_is_lacking() {
    let mut file = HOST_TOML_WITH_MISLEADING_COMMENT.to_string();
    let cfg = load(&mut file, &[0xAB, 0x01]);
    assert!(file.starts_with(HOST_TOML_WITH_MISLEADING_COMMENT));
    assert_eq!(cfg.pairing.token, "ab01");
    assert_eq!(cfg.pairing.noise_private_key.len(), 64);
    assert_eq!(cfg.pairing.noise_public_key.len(), 64);
    assert_ne!(cfg.pairing.noise_private_key, cfg.pairing.noise_public_key);
    assert_eq!(cfg.host.port, 9999);
    assert_eq!(cfg.gpu.vaapi_render_node, "/dev/dri/renderD128");
}

fn bare(pairing: PairingSection) -> HostConfig {
    HostConfig {
        host: HostSection { ip: String::new(), port: default_port() },
        gpu: GpuSection { vaapi_render_node: String::new() },
        encode: EncodeSection::default(),
        pairing,
    }
}

#[test]
fn completion_adds_exactly_what_is_lacking() {
    let l = bare(PairingSection::default()).completed_with("a = 1", &[1], &[2], &[3]);
    assert_eq!(
        l.rewritten.unwrap(),
        "a = 1\n\n[pairing]\n# Generated on first run -- required in Hello for a client to be accepted.\n\
         token = \"01\"\n\
         # Static Noise keypair -- the public half also goes into the QR/pairing\n\
         # info so clients can TOFU-pin it. See palmtop-proto::noise.\n\
         noise_private_key = \"02\"\nnoise_public_key = \"03\"\n"
    );

    // a header that is there is not added again, and a token that is there is kept
    let p = PairingSection { token: "t".to_string(), ..PairingSection::default() };
    let l = bare(p).completed_with("  [pairing] \ntoken = \"t\"\n", &[1], &[2], &[3]);
    assert_eq!(l.config.pairing.token, "t");
    assert_eq!(l.config.pairing.noise_private_key, "02");
    assert_eq!(
        l.rewritten.unwrap(),
        "  [pairing] \ntoken = \"t\"\n\
         # Static Noise keypair -- the public half also goes into the QR/pairing\n\
         # info so clients can TOFU-pin it. See palmtop-proto::noise.\n\
         noise_private_key = \"02\"\nnoise_public_key = \"03\"\n"
    );

    // one key alone is no pair
    let p = PairingSection {
        token: "t".to_string(),
        noise_private_key: String::new(),
        noise_public_key: "old".to_string(),
    };
    let l = bare(p).completed_with("", &[1], &[2], &[3]);
    assert_eq!(l.config.pairing.noise_public_key, "03");

    let full = PairingSection {
        token: "t".to_string(),
        noise_private_key: "a".to_string(),
        noise_public_key: "b".to_string(),
    };
    assert!(bare(full).completed_with("x", &[1], &[2], &[3]).rewritten.is_none());
}

#[test]
fn a_missing_file_is_explained() {
    assert_eq!(
        missing_host_file("/c/host.toml"),
        "missing /c/host.toml\n\nCreate it from the template:\n    cp config/host.example.toml config/host.toml\n\
         Then edit it, or run ./scripts/probe-host.sh to generate one."
    );
}

#[test]
fn a_blank_address_is_detected() {
    let mut cfg = bare(PairingSection::default());
    let no_route = || Err("Network is unreachable (os error 101)".to_string());
    assert_eq!(cfg.resolved_ip(Ok("10.0.0.7".to_string())).unwrap(), "10.0.0.7");
    let e = cfg.resolved_ip(no_route()).unwrap_err();
    assert_eq!(e.cause, "Network is unreachable (os error 101)");
    assert_eq!(
        e.to_string(),
        "could not auto-detect host IP -- set `ip` explicitly in config/host.toml"
    );
    assert_eq!(
        e.with_cause(),
        "could not auto-detect host IP -- set `ip` explicitly in config/host.toml: \
         Network is unreachable (os error 101)"
    );
    cfg.host.ip = "192.168.1.42".to_string();
    assert_eq!(cfg.resolved_ip(Ok("10.0.0.7".to_string())).unwrap(), "192.168.1.42");
    assert_eq!(cfg.resolved_ip(no_route()).unwrap(), "192.168.1.42");
}

#[test]
fn a_search_that_falls_back_says_so() {
    let mut cfg = bare(PairingSection::default());
    let nodes = strings(&["/dev/dri/renderD128", "/dev/dri/renderD129"]);
    cfg.encode.codec = "h264_vaapi".to_string();
    cfg.gpu.vaapi_render_node = " /dev/dri/renderD130 ".to_string();
    let linux = |cfg: &HostConfig, failed: usize| cfg.fallback_notes(Platform::Linux, &nodes, failed);

    // the configured node, then the two there are, then NVENC, then software
    assert!(linux(&cfg, 0).is_empty());
    let instead = "[gpu] configured render node /dev/dri/renderD130 cannot encode h264_vaapi -- \
                   using /dev/dri/renderD129 instead. Set `vaapi_render_node = \
                   \"/dev/dri/renderD129\"` in host.toml to silence this.";
    assert_eq!(linux(&cfg, 2), [instead]);
    assert_eq!(
        linux(&cfg, 3),
        ["[gpu] no VA-API render node can encode -- using NVENC instead."]
    );
    assert!(linux(&cfg, 4)[0].starts_with(
        "[gpu] no hardware encoder (VA-API or NVENC) is available -- falling back to software"
    ));
    assert!(linux(&cfg, 5).is_empty());
    assert!(cfg.render_node_notes(&nodes, 0).is_empty());
    assert_eq!(cfg.render_node_notes(&nodes, 2), [instead]);
    assert!(cfg.render_node_notes(&nodes, 3).is_empty());

    cfg.gpu.vaapi_render_node = "  ".to_string();
    assert_eq!(linux(&cfg, 0), ["[gpu] auto-detected render node: /dev/dri/renderD128"]);

    cfg.encode.codec = " h264_nvenc".to_string();
    assert!(linux(&cfg, 0).is_empty());
    let pin = "[gpu] configured codec h264_nvenc does not work on this machine -- falling back to \
               auto-detection.";
    assert_eq!(linux(&cfg, 1), [pin, "[gpu] auto-detected render node: /dev/dri/renderD128"]);
    assert_eq!(linux(&cfg, 5), [pin]);

    cfg.encode.codec = "libx264".to_string();
    assert_eq!(
        cfg.fallback_notes(Platform::Windows, &nodes, 1),
        [
            "[gpu] configured codec libx264 does not work on this machine (is ffmpeg built with \
             libx264?) -- falling back to auto-detection.",
            "[gpu] using Intel Quick Sync (QSV).",
        ]
    );
    cfg.encode.codec = "auto".to_string();
    assert_eq!(
        cfg.fallback_notes(Platform::Windows, &nodes, 1),
        ["[gpu] no Quick Sync device found -- using NVENC instead."]
    );
    assert_eq!(
        cfg.fallback_notes(Platform::Windows, &nodes, 2),
        ["[gpu] no Quick Sync or NVENC device found -- using AMD AMF instead."]
    );
    assert!(cfg.fallback_notes(Platform::Windows, &nodes, 3)[0].starts_with(
        "[gpu] no hardware encoder (QSV, NVENC, or AMF) is available -- falling back to software"
    ));
    assert!(cfg.fallback_notes(Platform::Windows, &nodes, 4).is_empty());
}

fn strings(v: &[&str]) -> Vec<String> {
    v.iter().map(|s| s.to_string()).collect()
}

#[test]
fn the_environment_names_the_device_before_the_file_does() {
    assert_eq!(DeviceConfig::selected(Some(" pixel\n"), Some("other")), Some("pixel".to_string()));
    assert_eq!(DeviceConfig::selected(Some("  "), Some("other\n")), Some("other".to_string()));
    assert_eq!(DeviceConfig::selected(None, Some("\u{a0}x\u{3000}")), Some("x".to_string()));
    assert_eq!(DeviceConfig::selected(Some(""), None), None);
}

#[test]
fn profiles_are_listed_in_order_without_the_template() {
    let files = strings(&["z.toml", "example.toml", "a.toml", "notes.md", ".toml", "b.toml.bak", "é.toml"]);
    let found = DeviceConfig::available(&files);
    assert_eq!(found, strings(&["a", "z", "é"]));
    assert_eq!(
        no_device_help("/c/devices", &found),
        "No device selected.\n\nAvailable profiles in /c/devices:\n  a\n  z\n  é\n\n\
         Pick one with either:\n    echo <name> > config/active\n    PALMTOP_DEVICE=<name> <command>\n\n\
         Create one with:\n    ./scripts/probe-device.sh <adb-serial>"
    );
    assert!(no_device_help("d", &Vec::new()).contains("\n  (none yet)\n"));
    assert!(DeviceConfig::missing_profile("p", "/d/p.toml", "/d", &found)
        .starts_with("no device profile 'p' at /d/p.toml\nNo device selected."));
}

#[test]
fn device_sections_have_defaults() {
    let d = DisplaySection::default();
    assert_eq!((d.width, d.height, d.density, d.refresh_hz), (0, 0, 0, F64(0.0f64.to_bits())));
    let l = LimitsSection::default();
    assert_eq!((l.max_width, l.max_height, l.max_fps), (1920, 1080, 30));
    assert!(DecoderSection::default().h264.is_empty());
    let e = EncodeSection::default();
    assert_eq!((e.codec.as_str(), e.qp, e.fps, e.async_depth), ("h264_vaapi", 24, 30, 1));
}

fn somewhere(explicit: bool, checkout: bool, config_home: bool, home: bool, windows: bool) -> Surroundings {
    let name = |there: bool, n: &str| if there { Some(n.to_string()) } else { None };
    Surroundings {
        explicit: name(explicit, "/explicit"),
        checkout: name(checkout, "/checkout"),
        config_home: name(config_home, "/cfg"),
        home: name(home, "/home/u"),
        windows,
    }
}

fn place(s: Surroundings) -> String {
    match config_dir(s) {
        Ok(d) => {
            let mut parts = vec![d.root];
            parts.extend(d.below);
            parts.join("/")
        }
        Err(e) => e,
    }
}

#[test]
fn the_nearest_directory_counts() {
    assert_eq!(place(somewhere(true, true, true, true, false)), "/explicit");
    assert_eq!(place(somewhere(false, true, true, true, false)), "/checkout/config");
    assert_eq!(place(somewhere(false, false, true, true, false)), "/cfg/palmtop");
    assert_eq!(place(somewhere(false, false, false, true, false)), "/home/u/.config/palmtop");
    assert_eq!(
        place(somewhere(false, false, false, false, false)),
        "could not locate the config/ directory, and neither XDG_CONFIG_HOME nor HOME is set to \
         fall back to -- set PALMTOP_CONFIG_DIR explicitly"
    );
    assert_eq!(place(somewhere(false, false, true, true, true)), "/cfg/palmtop");
    assert_eq!(
        place(somewhere(false, false, false, true, true)),
        "could not locate the config directory -- %APPDATA% is not set; set PALMTOP_CONFIG_DIR explicitly"
    );
}

/// Runs a search on a machine where the encoders with these labels work.
fn run(mut search: BackendSearch, works: &[&str]) -> (Vec<String>, Option<EncodeBackend>) {
    let mut tried = Vec::new();
    loop {
        let ok = match search.next() {
            None => return (tried, None),
            Some(b) => {
                tried.push(b.to_string());
                works.contains(&b.to_string().as_str())
            }
        };
        if let Some(found) = search.tell(ok) {
            return (tried, Some(found));
        }
    }
}

#[test]
fn encoders_are_tried_in_order_until_one_works() {
    let mut cfg = bare(PairingSection::default());
    cfg.gpu.vaapi_render_node = " /dev/dri/renderD129 ".to_string();
    let nodes = strings(&["/dev/dri/renderD128", "/dev/dri/renderD129"]);

    let (tried, found) = run(cfg.resolved_encode_backend(Platform::Linux, &nodes), &[]);
    assert_eq!(
        tried,
        strings(&[
            "VA-API on /dev/dri/renderD129",
            "VA-API on /dev/dri/renderD128",
            "VA-API on /dev/dri/renderD129",
            "NVENC",
            "software (libx264)",
        ])
    );
    assert_eq!(found, None);

    let (tried, found) =
        run(cfg.resolved_encode_backend(Platform::Linux, &nodes), &["NVENC", "software (libx264)"]);
    assert_eq!(tried.len(), 4);
    assert_eq!(found, Some(EncodeBackend::Nvenc));

    let (tried, _) = run(cfg.resolved_encode_backend(Platform::Windows, &nodes), &[]);
    assert_eq!(tried, strings(&["Intel Quick Sync (QSV)", "NVENC", "AMD AMF", "software (libx264)"]));

    let (tried, found) =
        run(cfg.resolved_render_node(&nodes), &["VA-API on /dev/dri/renderD128"]);
    assert_eq!(tried.len(), 2);
    assert_eq!(
        found,
        Some(EncodeBackend::Vaapi { render_node: "/dev/dri/renderD128".to_string() })
    );
}

#[test]
fn a_search_knows_how_to_try_what_is_next() {
    let mut cfg = bare(PairingSection::default());
    cfg.gpu.vaapi_render_node = "/n".to_string();
    cfg.encode.codec = "hevc_vaapi".to_string();
    let node = EncodeBackend::Vaapi { render_node: "/n".to_string() };
    let mut search = cfg.resolved_encode_backend(Platform::Linux, &Vec::new());
    assert_eq!(search.probe(), Some(probe_args(&node, "h264_vaapi")));
    search.tell(false);
    assert_eq!(search.probe(), Some(probe_args(&EncodeBackend::Nvenc, "")));
    let mut search = cfg.resolved_render_node(&Vec::new());
    assert_eq!(search.probe(), Some(probe_args(&node, "hevc_vaapi")));
    search.tell(false);
    assert_eq!(search.probe(), None);
}

#[test]
fn a_pinned_encoder_is_tried_first() {
    let mut cfg = bare(PairingSection::default());
    for (codec, label) in [
        ("h264_nvenc", "NVENC"),
        (" libx264\n", "software (libx264)"),
        ("h264_qsv", "Intel Quick Sync (QSV)"),
        ("h264_amf", "AMD AMF"),
    ] {
        cfg.encode.codec = codec.to_string();
        let (tried, _) = run(cfg.resolved_encode_backend(Platform::Linux, &Vec::new()), &[]);
        assert_eq!(tried, strings(&[label, "NVENC", "software (libx264)"]));
        let (_, found) = run(cfg.resolved_encode_backend(Platform::Windows, &Vec::new()), &[label]);
        assert_eq!(found.unwrap().to_string(), label);
    }
    cfg.encode.codec = AUTO_CODEC.to_string();
    let (tried, _) = run(cfg.resolved_encode_backend(Platform::Linux, &Vec::new()), &[]);
    assert_eq!(tried, strings(&["NVENC", "software (libx264)"]));
}

#[test]
fn software_is_taken_where_nothing_else_works() {
    let cfg = bare(PairingSection::default());
    for p in [Platform::Linux, Platform::Windows] {
        let (_, found) = run(cfg.resolved_encode_backend(p, &Vec::new()), &["software (libx264)"]);
        assert_eq!(found, Some(EncodeBackend::Software));
    }
}

#[test]
fn a_machine_that_cannot_encode_is_told_so() {
    let cfg = bare(PairingSection::default());
    assert_eq!(
        no_encoder(Platform::Linux),
        "no working video encoder found on this machine -- tried VA-API, NVENC, and software \
         (libx264) encoding. Run `palmtopd --doctor` for the full diagnosis."
    );
    assert!(no_encoder(Platform::Windows).contains("tried Quick Sync, NVENC, AMF, and software"));
    assert_eq!(
        cfg.no_render_node(&strings(&["a", "b"])),
        "none of the available render nodes (a, b) can hardware-encode h264_vaapi. Run \
         `palmtopd --doctor` for the full diagnosis and how to fix it."
    );
    assert_eq!(
        cfg.no_render_node(&Vec::new()),
        "no DRM render nodes found under /dev/dri -- this machine has no GPU available for \
         hardware encode. Run `palmtopd --doctor` for details."
    );
}

#[test]
fn render_nodes_are_found_by_their_names() {
    assert_eq!(
        render_nodes(&strings(&["renderD129", "card0", "by-path", "renderD128", "render"])),
        strings(&["/dev/dri/renderD128", "/dev/dri/renderD129"])
    );
}

#[test]
fn an_encoder_is_tried_on_generated_frames() {
    assert_eq!(
        probe_args(&EncodeBackend::Vaapi { render_node: "/n".to_string() }, "hevc_vaapi").join(" "),
        format!(
            "-hide_banner -loglevel error -init_hw_device vaapi=va:/n -f lavfi -i {TEST_SOURCE} \
             -vf format=nv12,hwupload -c:v hevc_vaapi -f null -"
        )
    );
    assert_eq!(
        probe_args(&EncodeBackend::Software, "x").join(" "),
        format!("-hide_banner -loglevel error -f lavfi -i {TEST_SOURCE} -c:v libx264 -preset ultrafast -f null -")
    );
    assert_eq!(
        probe_args(&EncodeBackend::Amf, "x").join(" "),
        format!("-hide_banner -loglevel error -f lavfi -i {TEST_SOURCE} -c:v h264_amf -f null -")
    );
}

fn tried(codec: &str, label: &str, works: bool) -> BackendProbe {
    BackendProbe { codec: codec.to_string(), label: label.to_string(), works }
}

#[test]
fn the_list_of_encoders_shows_what_works_and_what_is_configured() {
    let probes = vec![tried("h264_nvenc", "NVENC", true), tried("libx264", "software (libx264)", false)];
    assert_eq!(
        list_encoders(" h264_nvenc ", &probes, &Ok(EncodeBackend::Nvenc)),
        "[  ok  ] h264_nvenc   NVENC  <- configured\n\
         [ no   ] libx264      software (libx264)\n\
         [  --  ] auto         pick the first one that works, automatically\n\n\
         Right now the daemon would stream via: NVENC\n\n\
         To pin one (any of these, or `auto`):\n  palmtopd --set-encoder h264_nvenc\n\n\
         Worth trying more than one if the stream feels sluggish: whichever the probe\n\
         happens to find first is not necessarily the one that feels best on your hardware.\n"
    );
    assert_eq!(
        list_encoders("", &vec![tried("libx264", "s", false)], &Err("no".to_string())),
        "[ no   ] libx264      s\n\
         [  --  ] auto         pick the first one that works, automatically  <- configured\n\n\
         Right now the daemon could not encode at all: no\n\n\
         Nothing works here -- run `palmtopd --doctor` for the specific cause.\n"
    );
}

#[test]
fn every_encoder_is_listed_in_order() {
    let nodes = strings(&["/dev/dri/renderD128", "/dev/dri/renderD129"]);
    let codecs: Vec<String> = candidates(&nodes).iter().map(EncodeBackend::to_string).collect();
    assert_eq!(
        codecs,
        [
            "VA-API on /dev/dri/renderD128",
            "VA-API on /dev/dri/renderD129",
            "NVENC",
            "Intel Quick Sync (QSV)",
            "AMD AMF",
            "software (libx264)",
        ]
    );
}

#[test]
fn an_encoder_is_set_in_the_file_and_the_rest_is_kept() {
    // the line that sets it
    let file = "# codec = \"x\"\n[gpu]\ncodec = 1\n [ encode ] # here\nqp = 24\n  codec=\"h264_vaapi\" # old\nfps = 30\n[pairing]\ncodec = 2";
    let set = with_codec(file, "h264_nvenc").unwrap();
    assert_eq!(
        set,
        "# codec = \"x\"\n[gpu]\ncodec = 1\n [ encode ] # here\nqp = 24\ncodec = \"h264_nvenc\"\nfps = 30\n[pairing]\ncodec = 2"
    );
    assert_eq!(with_codec(&set, "h264_nvenc").unwrap(), set);
    // a section without it
    assert_eq!(
        with_codec("[encode]\nqp = 24\n[pairing]\ncodec = 2\n", "auto").unwrap(),
        "[encode]\ncodec = \"auto\"\nqp = 24\n[pairing]\ncodec = 2\n"
    );
    // no section
    assert_eq!(
        with_codec("[gpu]\nvaapi_render_node = \"\"", "libx264").unwrap(),
        "[gpu]\nvaapi_render_node = \"\"\n\n[encode]\ncodec = \"libx264\"\n"
    );
    assert_eq!(with_codec("", "h264_amf").unwrap(), "\n\n[encode]\ncodec = \"h264_amf\"\n");
    assert!(with_codec("", "h264_qsv").is_ok());

    let e = with_codec(file, "h265_nvenc").unwrap_err();
    assert_eq!(e.codec, "h265_nvenc");
    assert_eq!(
        e.to_string(),
        "unknown encoder h265_nvenc -- valid values are auto, h264_vaapi, h264_nvenc, h264_qsv, \
         h264_amf and libx264"
    );
}

#[test]
fn a_file_in_which_an_encoder_was_set_still_parses() {
    for file in ["", "[encode]\n", "[encode]\nqp = 3\ncodec = \"auto\"\n", "[gpu]\nx = 1\n"] {
        let set = with_codec(file, "h264_qsv").unwrap();
        let table: toml::Table = toml::from_str(&set).unwrap();
        assert_eq!(table["encode"]["codec"].as_str(), Some("h264_qsv"));
    }
}
