use rtsp2web::annexb::{AvccError, ConfigError};
use rtsp2web::frame::{build_frame, elapsed_millis, FrameError};

fn h264_record() -> Vec<u8> {
    vec![
        0x01, 0x42, 0x00, 0x1E, 0xFF, 0xE1, 0x00, 0x04, 0x67, 0x42, 0x00, 0x1E, 0x01, 0x00, 0x04,
        0x68, 0xCE, 0x38, 0x80,
    ]
}

const H264_PREFIX: [u8; 16] = [
    0x00, 0x00, 0x00, 0x01, 0x67, 0x42, 0x00, 0x1E, 0x00, 0x00, 0x00, 0x01, 0x68, 0xCE, 0x38, 0x80,
];

#[test]
fn keyframe_frame_shape() {
    let au = [0x00, 0x00, 0x00, 0x03, 0x65, 0x88, 0x84, 0x00, 0x00, 0x00, 0x02, 0x65, 0x01];
    let frame = build_frame(1500, "avc1.42001E", &h264_record(), true, &au).unwrap();
    let mut expected = H264_PREFIX.to_vec();
    expected.extend_from_slice(&[0x00, 0x00, 0x00, 0x01, 0x65, 0x88, 0x84]);
    expected.extend_from_slice(&[0x00, 0x00, 0x00, 0x01, 0x65, 0x01]);
    assert_eq!(frame.data, expected);
    assert!(frame.metadata.keyframe);
    assert_eq!(frame.metadata.ts, 1500);
    assert_eq!(frame.metadata.media, "video");
    assert_eq!(frame.metadata.codec, "avc1.42001E");
}

#[test]
fn keyframe_starts_with_parameter_sets() {
    let au = [0x00, 0x00, 0x00, 0x01, 0x65];
    let frame = build_frame(0, "avc1.640028", &h264_record(), true, &au).unwrap();
    assert_eq!(&frame.data[..4], &[0x00, 0x00, 0x00, 0x01]);
    assert_eq!(&frame.data[..16], &H264_PREFIX);
    assert_eq!(&frame.data[16..], &[0x00, 0x00, 0x00, 0x01, 0x65]);
    assert!(frame.metadata.codec.starts_with("avc1"));
}

#[test]
fn delta_frame_has_no_prefix() {
    let au = [0x00, 0x00, 0x00, 0x02, 0x41, 0x9A];
    let frame = build_frame(40, "avc1.42001E", &h264_record(), false, &au).unwrap();
    assert_eq!(frame.data, vec![0x00, 0x00, 0x00, 0x01, 0x41, 0x9A]);
    assert!(!frame.metadata.keyframe);
}

#[test]
fn delta_frame_ignores_bad_record() {
    let au = [0x00, 0x00, 0x00, 0x01, 0x41];
    let frame = build_frame(40, "mp4a.40.2", &[], false, &au).unwrap();
    assert_eq!(frame.data, vec![0x00, 0x00, 0x00, 0x01, 0x41]);
}

#[test]
fn keyframe_with_bad_record_is_dropped() {
    let au = [0x00, 0x00, 0x00, 0x01, 0x65];
    let r = build_frame(0, "avc1.42001E", &h264_record()[..10], true, &au);
    assert!(matches!(r, Err(FrameError::Config(ConfigError::Truncated))));
    let r = build_frame(0, "mp4v.20.9", &h264_record(), true, &au);
    assert!(matches!(r, Err(FrameError::Config(ConfigError::UnsupportedCodec))));
}

#[test]
fn frame_with_bad_payload_is_dropped() {
    let au = [0x00, 0x00, 0x00, 0x05, 0x65];
    let r = build_frame(0, "avc1.42001E", &h264_record(), true, &au);
    assert!(matches!(r, Err(FrameError::Payload(AvccError::PartialBody))));
    let r = build_frame(0, "avc1.42001E", &h264_record(), false, &[0x00]);
    assert!(matches!(r, Err(FrameError::Payload(AvccError::PartialLength))));
}

#[test]
fn duplicate_keeps_everything() {
    let au = [0x00, 0x00, 0x00, 0x01, 0x65];
    let frame = build_frame(7, "avc1.42001E", &h264_record(), true, &au).unwrap();
    let copy = frame.duplicate();
    assert_eq!(copy.data, frame.data);
    assert_eq!(copy.metadata.ts, 7);
    assert_eq!(copy.metadata.codec, frame.metadata.codec);
    assert_eq!(copy.metadata.media, "video");
    assert!(copy.metadata.keyframe);
}

#[test]
fn millis_from_clock_ticks() {
    assert_eq!(elapsed_millis(90_000, 90_000), Some(1000));
    assert_eq!(elapsed_millis(3_003, 90_000), Some(33));
    assert_eq!(elapsed_millis(0, 90_000), Some(0));
    assert_eq!(elapsed_millis(-1, 90_000), Some(-1));
    assert_eq!(elapsed_millis(-90_000, 90_000), Some(-1000));
    assert_eq!(elapsed_millis(-90_001, 90_000), Some(-1001));
    assert_eq!(elapsed_millis(i64::MAX, 1), None);
    assert_eq!(elapsed_millis(i64::MIN, 1), None);
    assert_eq!(elapsed_millis(i64::MAX, 1000), Some(i64::MAX));
}

fn h265_record(units: &[&[u8]]) -> Vec<u8> {
    let mut r = vec![0u8; 22];
    r[0] = 0x01;
    r.push(units.len() as u8);
    for (i, u) in units.iter().enumerate() {
        r.push(0x20 + i as u8);
        r.extend_from_slice(&[0x00, 0x01]);
        r.extend_from_slice(&(u.len() as u16).to_be_bytes());
        r.extend_from_slice(u);
    }
    r
}

#[test]
fn h265_keyframe_starts_with_vps_sps_pps() {
    let record = h265_record(&[&[0x40, 0x01], &[0x42, 0x01], &[0x44, 0x01]]);
    let au = [0x00, 0x00, 0x00, 0x02, 0x26, 0x01];
    let frame = build_frame(10, "hvc1.1.6.L93.B0", &record, true, &au).unwrap();
    assert_eq!(
        frame.data,
        vec![
            0x00, 0x00, 0x00, 0x01, 0x40, 0x01, 0x00, 0x00, 0x00, 0x01, 0x42, 0x01, 0x00, 0x00,
            0x00, 0x01, 0x44, 0x01, 0x00, 0x00, 0x00, 0x01, 0x26, 0x01
        ]
    );
    assert!(frame.metadata.keyframe);
    assert_eq!(frame.metadata.codec, "hvc1.1.6.L93.B0");
}

#[test]
fn h265_keyframe_without_parameter_sets_is_dropped() {
    let au = [0x00, 0x00, 0x00, 0x02, 0x26, 0x01];
    let r = build_frame(10, "hvc1.1.6.L93.B0", &h265_record(&[]), true, &au);
    assert!(matches!(r, Err(FrameError::Config(ConfigError::MissingParameterSets))));
    let r = build_frame(10, "hvc1.1.6.L93.B0", &h265_record(&[&[0x40, 0x01]]), true, &au);
    assert!(matches!(r, Err(FrameError::Config(ConfigError::MissingParameterSets))));
    let frame = build_frame(10, "hvc1.1.6.L93.B0", &h265_record(&[]), false, &au).unwrap();
    assert_eq!(frame.data, vec![0x00, 0x00, 0x00, 0x01, 0x26, 0x01]);
}
