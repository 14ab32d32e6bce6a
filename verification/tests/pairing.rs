use palmtop::cli::{flag_value, has_flag};
use palmtop::pairing::{
    advertise, connect_info, connect_svg, moved_to, render_connect_info, uri, TooLong,
    SERVICE_TYPE, SVG_SIZE,
};

#[test]
fn the_connection_is_one_line() {
    assert_eq!(uri("10.0.0.7", 9999, "tok", "ab12"), "palmtop://10.0.0.7:9999/tok?pubkey=ab12");
    assert_eq!(uri("h", 0, "", ""), "palmtop://h:0/?pubkey=");
}

#[test]
fn the_connection_is_shown_with_a_code_and_by_hand() {
    let file = Ok("/tmp/palmtop-connect.svg".to_string());
    let shown = render_connect_info("10.0.0.7", 9999, "tok", "ab12", &file).unwrap();
    let (code, rest) = shown.split_at(shown.find("\nScan with the Palmtop app,\n").unwrap());
    assert!(code.contains('█') || code.contains('▀') || code.contains('▄'));
    let rows: Vec<&str> = code.lines().collect();
    let width = rows[0].chars().count();
    assert!(rows.iter().all(|r| r.chars().count() == width));
    // a version-3 code has 29 modules, and a quiet zone of 4 on either side
    assert_eq!(width, 37);
    assert_eq!(
        rest,
        "\nScan with the Palmtop app,\n  or open this, which scans far more reliably:\n    \
         /tmp/palmtop-connect.svg\nor enter manually:\n  host:   10.0.0.7\n  port:   9999\n  \
         token:  tok\n  pubkey: ab12\n"
    );
    assert_eq!(shown, connect_info(code, &file, "10.0.0.7", 9999, "tok", "ab12"));
}

#[test]
fn a_picture_that_could_not_be_written_is_mentioned() {
    assert_eq!(
        connect_info("#", &Err("disk full".to_string()), "h", 1, "t", "k"),
        "#\nScan with the Palmtop app,\n  (couldn't write the scannable QR file: disk full)\n\
         or enter manually:\n  host:   h\n  port:   1\n  token:  t\n  pubkey: k\n"
    );
}

#[test]
fn the_picture_is_an_svg_of_at_least_its_size() {
    let svg = connect_svg("10.0.0.7", 9999, "tok", "ab12").unwrap();
    assert!(svg.contains("<svg"));
    assert!(svg.trim_end().ends_with("</svg>"));
    let at = svg.find("width=\"").unwrap() + 7;
    let width: u32 = svg[at..].split('"').next().unwrap().parse().unwrap();
    assert!(width >= SVG_SIZE);
    assert_ne!(svg, connect_svg("10.0.0.8", 9999, "tok", "ab12").unwrap());
}

#[test]
fn what_does_not_fit_into_a_code_is_refused() {
    let long = "x".repeat(4000);
    assert_eq!(connect_svg("h", 1, &long, "k"), Err(TooLong));
    assert_eq!(render_connect_info("h", 1, &long, "k", &Ok("f".to_string())), Err(TooLong));
}

#[test]
fn the_host_announces_its_name_and_key() {
    let a = advertise(Some("box"), Some("other\n"), 5, "ab12");
    assert_eq!(a.instance, "Palmtop on box");
    assert_eq!(a.host, "box.local.");
    assert_eq!(a.protocol_version, "5");
    assert_eq!(a.pubkey, "ab12");
    assert_eq!(advertise(None, Some(" other\n"), 5, "").host, "other.local.");
    assert_eq!(advertise(None, None, 5, "").instance, "Palmtop on palmtop-host");
    assert_eq!(SERVICE_TYPE, "_palmtop._tcp.local.");
}

fn args(v: &[&str]) -> Vec<String> {
    v.iter().map(|s| s.to_string()).collect()
}

#[test]
fn a_flag_is_given_in_two_ways() {
    assert_eq!(flag_value(&args(&["--set", "a", "--set=b"]), "--set"), Some("a".to_string()));
    assert_eq!(flag_value(&args(&["x", "--set=b"]), "--set"), Some("b".to_string()));
    assert_eq!(flag_value(&args(&["--set="]), "--set"), Some(String::new()));
    assert_eq!(flag_value(&args(&["--set"]), "--set"), None);
    assert_eq!(flag_value(&args(&["--settle=b"]), "--set"), None);
    assert!(has_flag(&args(&["a", "--doctor"]), "--doctor"));
    assert!(!has_flag(&args(&["--doctor=1"]), "--doctor"));
}

#[test]
fn only_another_address_is_a_move() {
    assert_eq!(moved_to("10.0.0.7", Ok("10.0.0.7".to_string())), None);
    assert_eq!(moved_to("10.0.0.7", Ok("10.0.0.8".to_string())), Some("10.0.0.8".to_string()));
    assert_eq!(moved_to("10.0.0.7", Err("no route".to_string())), None);
}
