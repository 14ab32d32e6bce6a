use palmtop::annexb::{find_start_codes, served, split_access_units, AnnexBSplitter};
use palmtop::backend::EncodeBackend;
use palmtop::capture::{Frame, FrameSlot, PixelFormat, Take};
use palmtop::config::{EncodeSection, GpuSection, HostConfig, HostSection, PairingSection};
use palmtop::encode::{
    encode_with_vaapi, run_reader, spawn_args, EncodedUnit, Feed, Feeder, LatestEncoded,
    TimestampFifo, FIFO_DESYNC_BOUND,
};
use palmtop::modes::Mode;

fn nal(start_code: &[u8], nal_type: u8, payload: &[u8]) -> Vec<u8> {
    let mut v = start_code.to_vec();
    v.push(nal_type);
    v.extend_from_slice(payload);
    v
}

#[test]
fn single_vcl_nal_waits_for_next_start_code() {
    let mut s = AnnexBSplitter::new();
    let au = nal(&[0, 0, 0, 1], 5, &[0xAA, 0xBB]);
    assert!(s.push(&au).is_empty());
}

#[test]
fn emits_once_the_next_nal_begins() {
    let mut s = AnnexBSplitter::new();
    let mut stream = nal(&[0, 0, 0, 1], 5, &[0xAA, 0xBB]);
    stream.extend(nal(&[0, 0, 0, 1], 1, &[0xCC]));
    let out = s.push(&stream);
    assert_eq!(out.len(), 1);
    assert!(out[0].0, "first NAL was type 5 (IDR) -> keyframe");
    assert_eq!(out[0].1, nal(&[0, 0, 0, 1], 5, &[0xAA, 0xBB]));
}

#[test]
fn groups_parameter_sets_with_the_following_slice() {
    let mut s = AnnexBSplitter::new();
    let mut stream = nal(&[0, 0, 0, 1], 7, &[0x01]);
    stream.extend(nal(&[0, 0, 0, 1], 8, &[0x02]));
    stream.extend(nal(&[0, 0, 0, 1], 5, &[0x03]));
    stream.extend(nal(&[0, 0, 0, 1], 1, &[0x04]));
    let out = s.push(&stream);
    assert_eq!(out.len(), 1);
    assert!(out[0].0);
    assert_eq!(out[0].1.len(), stream.len() - nal(&[0, 0, 0, 1], 1, &[0x04]).len());
}

#[test]
fn timestamp_fifo_is_first_in_first_out() {
    let mut fifo = TimestampFifo::new();
    fifo.push(10);
    fifo.push(20);
    assert_eq!(fifo.pop(), 10);
    assert_eq!(fifo.pop(), 20);
}

#[test]
fn timestamp_fifo_returns_zero_when_empty() {
    let mut fifo = TimestampFifo::new();
    assert_eq!(fifo.pop(), 0);
}

#[test]
fn timestamp_fifo_resets_when_it_grows_past_the_bound() {
    let mut fifo = TimestampFifo::new();
    for i in 0..FIFO_DESYNC_BOUND {
        assert!(!fifo.push(i as u64));
    }
    assert_eq!(fifo.len(), FIFO_DESYNC_BOUND);
    assert!(fifo.push(999));
    assert_eq!(fifo.len(), 1);
    assert_eq!(fifo.pop(), 999);
}

#[test]
fn works_across_multiple_push_calls_split_mid_nal() {
    let mut s = AnnexBSplitter::new();
    let mut stream = nal(&[0, 0, 0, 1], 5, &[0xAA, 0xBB, 0xCC]);
    stream.extend(nal(&[0, 0, 0, 1], 1, &[0xDD]));
    let (a, b) = stream.split_at(5);
    assert!(s.push(a).is_empty());
    let out = s.push(b);
    assert_eq!(out.len(), 1);
    assert!(out[0].0);
}

fn sample_stream() -> Vec<u8> {
    let mut v = vec![9, 9];
    v.extend(nal(&[0, 0, 0, 1], 0x67, &[1, 0, 0]));
    v.extend(nal(&[0, 0, 1], 0x68, &[2]));
    v.extend(nal(&[0, 0, 0, 1], 0x65, &[3, 0, 3]));
    v.extend(nal(&[0, 0, 1], 0x41, &[4]));
    v.extend(nal(&[0, 0, 0, 1], 0x41, &[0, 0, 5]));
    v.extend(nal(&[0, 0, 1], 0x06, &[6]));
    v
}

#[test]
fn the_cutting_into_chunks_does_not_matter() {
    let stream = sample_stream();
    let mut whole = AnnexBSplitter::new();
    let expected = whole.push(&stream);
    assert_eq!(expected.len(), 3);
    assert_eq!(expected.iter().map(|u| u.0).collect::<Vec<_>>(), vec![true, false, false]);
    for size in 1..stream.len() {
        let mut s = AnnexBSplitter::new();
        let mut got = Vec::new();
        for chunk in stream.chunks(size) {
            got.extend(s.push(chunk));
        }
        assert_eq!(got, expected, "chunks of {size}");
    }
}

#[test]
fn units_and_the_rest_are_the_stream() {
    let stream = sample_stream();
    let units = split_access_units(&stream);
    assert_eq!(units.concat(), stream[2..].to_vec());
    assert_eq!(units.len(), 4);
    assert_eq!(units[3], nal(&[0, 0, 1], 0x06, &[6]));
    assert!(split_access_units(&[1, 2, 3]).is_empty());
    assert_eq!(split_access_units(&nal(&[0, 0, 1], 5, &[7])), vec![nal(&[0, 0, 1], 5, &[7])]);
}

#[test]
fn start_codes_are_found_where_they_begin() {
    assert_eq!(find_start_codes(&[0, 0, 1, 5, 0, 0, 0, 1]), vec![(0, 3), (4, 4)]);
    assert_eq!(find_start_codes(&[0, 0, 0, 0, 1]), vec![(1, 4)]);
    assert_eq!(find_start_codes(&[0, 0, 1, 0, 0, 1]), vec![(0, 3), (3, 3)]);
    assert_eq!(find_start_codes(&[0, 0, 0, 1, 0, 0, 1]), vec![(0, 4), (4, 3)]);
    assert_eq!(find_start_codes(&[0, 0, 0]), vec![]);
}

#[test]
fn units_get_the_timestamps_in_order() {
    let mut splitter = AnnexBSplitter::new();
    let mut fifo = TimestampFifo::new();
    fifo.push(100);
    fifo.push(200);
    let out = run_reader(&mut splitter, &mut fifo, &sample_stream());
    let seen: Vec<(bool, u64)> = out.iter().map(|u| (u.keyframe, u.capture_us)).collect();
    assert_eq!(seen, vec![(true, 100), (false, 200), (false, 0)]);
    assert_eq!(out[1].data, nal(&[0, 0, 1], 0x41, &[4]));
    assert_eq!(fifo.len(), 0);
}

fn unit(n: u64) -> EncodedUnit {
    EncodedUnit { keyframe: false, capture_us: n, data: vec![n as u8] }
}

#[test]
fn only_the_latest_unit_is_kept() {
    let mut latest = LatestEncoded::new();
    assert!(matches!(latest.take_latest_timeout(false), Take::Wait));
    assert!(matches!(latest.take_latest_timeout(true), Take::Nothing));
    latest.publish(unit(1));
    latest.publish(unit(2));
    match latest.take_latest_timeout(false) {
        Take::Got(u) => assert_eq!(u.capture_us, 2),
        _ => panic!("a unit was there"),
    }
    assert!(matches!(latest.take_latest_timeout(true), Take::Nothing));
    latest.publish(unit(3));
    latest.clear();
    assert!(matches!(latest.take_latest_timeout(true), Take::Nothing));
}

fn frame(format: PixelFormat, capture_us: u64) -> Frame {
    Frame { width: 1, height: 1, format, bytes: vec![0; 4], capture_us }
}

#[test]
fn only_the_latest_frame_is_kept() {
    let mut slot = FrameSlot::new();
    assert!(matches!(slot.take_latest_blocking(false), Take::Wait));
    assert!(matches!(slot.take_latest_blocking(true), Take::Nothing));
    slot.publish(frame(PixelFormat::Bgra, 1));
    slot.publish(frame(PixelFormat::Bgra, 2));
    match slot.take_latest_blocking(true) {
        Take::Got(f) => assert_eq!(f.capture_us, 2),
        _ => panic!("a frame was there"),
    }
    assert!(matches!(slot.take_latest_blocking(false), Take::Wait));
}

#[test]
fn the_first_frame_decides_on_the_format() {
    let mut fifo = TimestampFifo::new();
    let mut feeder = Feeder::new();
    let odd = frame(PixelFormat::Other("RGBx".to_string()), 5);
    assert_eq!(feeder.feed(&odd, &mut fifo), Feed::Refuse);
    assert_eq!(fifo.len(), 0);

    let mut feeder = Feeder::new();
    assert_eq!(feeder.feed(&frame(PixelFormat::Bgra, 7), &mut fifo), Feed::Write { first: true });
    assert_eq!(feeder.feed(&odd, &mut fifo), Feed::Write { first: false });
    assert_eq!(fifo.pop(), 7);
    assert_eq!(fifo.pop(), 5);
}

fn config() -> HostConfig {
    HostConfig {
        host: HostSection { ip: String::new(), port: 9999 },
        gpu: GpuSection { vaapi_render_node: "/dev/dri/renderD129".to_string() },
        encode: EncodeSection::default(),
        pairing: PairingSection::default(),
    }
}

fn on_gpu() -> EncodeBackend {
    EncodeBackend::Vaapi { render_node: "/dev/dri/renderD129".to_string() }
}

#[test]
fn ffmpeg_runs_the_encoder_that_was_found() {
    let mut cfg = config();
    cfg.encode.codec = "auto".to_string();
    cfg.gpu.vaapi_render_node = "/dev/dri/renderD128".to_string();
    let args = spawn_args(&cfg, &on_gpu(), &Mode::Sync.preset(), 1920, 1080).join(" ");
    assert!(args.contains("-init_hw_device vaapi=va:/dev/dri/renderD129 "));
    assert!(args.contains(" -c:v h264_vaapi "));
    assert!(!args.contains("auto") && !args.contains("renderD128"));

    let args = spawn_args(&cfg, &EncodeBackend::Nvenc, &Mode::Sync.preset(), 1920, 1080).join(" ");
    assert_eq!(
        args,
        "-y -hide_banner -loglevel error -f rawvideo -pix_fmt bgra -s 1920x1080 -r 30 -i pipe:0 \
         -vf format=nv12,scale=1280:720 -c:v h264_nvenc -b:v 3000k -maxrate 6000k -bufsize 600k \
         -bf 0 -g 8 -f h264 pipe:1"
    );
    let args = spawn_args(&cfg, &EncodeBackend::Software, &Mode::Sync.preset(), 1280, 720).join(" ");
    assert!(args.contains(" -vf format=nv12 -c:v libx264 -preset ultrafast -b:v 3000k "));
}

#[test]
fn ffmpeg_is_started_with_a_capped_bit_rate() {
    let args = spawn_args(&config(), &on_gpu(), &Mode::Sync.preset(), 1920, 1080);
    let expected = "-y -hide_banner -loglevel error -init_hw_device vaapi=va:/dev/dri/renderD129 \
                    -f rawvideo -pix_fmt bgra -s 1920x1080 -r 30 -i pipe:0 \
                    -vf format=nv12,hwupload,scale_vaapi=1280:720 -c:v h264_vaapi -rc_mode VBR \
                    -b:v 3000k -maxrate 6000k -bufsize 600k -bf 0 -g 8 -async_depth 1 \
                    -f h264 pipe:1";
    assert_eq!(args.join(" "), expected);

    let args = spawn_args(&config(), &on_gpu(), &Mode::Balanced.preset(), 1920, 1080);
    assert!(args.contains(&"format=nv12,hwupload".to_string()));

    let mut slow = Mode::Battery.preset();
    slow.maxrate_kbps = 1;
    let args = spawn_args(&config(), &on_gpu(), &slow, 1280, 720);
    assert_eq!(args[23], "1k");
    assert_eq!(args[27], "1k");
}

#[test]
fn a_file_is_encoded_at_a_constant_quality() {
    let args = encode_with_vaapi(&config(), "in.raw", "out.h264", 640, 480).unwrap();
    let expected = "-y -hide_banner -loglevel warning -init_hw_device vaapi=va:/dev/dri/renderD129 \
                    -f rawvideo -pix_fmt bgra -s 640x480 -r 30 -i in.raw \
                    -vf format=nv12,hwupload -c:v h264_vaapi -qp 24 -f h264 out.h264";
    assert_eq!(args.join(" "), expected);
    assert!(encode_with_vaapi(&config(), "in.raw", "out.h264", 0, 480).is_none());
}

#[test]
fn a_unit_is_served_with_its_length() {
    assert_eq!(served(&[7, 8, 9]), vec![0, 0, 0, 3, 7, 8, 9]);
    assert_eq!(served(&[]), vec![0, 0, 0, 0]);
    assert_eq!(&served(&vec![1; 70_000])[..5], &[0, 1, 0x11, 0x70, 1]);
}
