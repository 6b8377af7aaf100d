use rtsp2web::annexb::{
    avcc_to_annex_b, parse_codec_config, parse_h264_config, parse_h265_config, AvccError,
    ConfigError,
};

fn avcc_of(units: &[&[u8]]) -> Vec<u8> {
    let mut out = Vec::new();
    for u in units {
        out.extend_from_slice(&(u.len() as u32).to_be_bytes());
        out.extend_from_slice(u);
    }
    out
}

fn annex_b_of(units: &[&[u8]]) -> Vec<u8> {
    let mut out = Vec::new();
    for u in units {
        out.extend_from_slice(&[0, 0, 0, 1]);
        out.extend_from_slice(u);
    }
    out
}

fn h264_record(sps: &[u8], pps: &[u8]) -> Vec<u8> {
    let mut r = vec![0x01, 0x42, 0x00, 0x1E, 0xFF, 0xE1];
    r.extend_from_slice(&(sps.len() as u16).to_be_bytes());
    r.extend_from_slice(sps);
    r.push(0x01);
    r.extend_from_slice(&(pps.len() as u16).to_be_bytes());
    r.extend_from_slice(pps);
    r
}

fn h265_record(arrays: &[(u8, &[&[u8]])]) -> Vec<u8> {
    let mut r = vec![0u8; 22];
    r[0] = 0x01;
    r.push(arrays.len() as u8);
    for (kind, units) in arrays {
        r.push(0x80 | kind);
        r.extend_from_slice(&(units.len() as u16).to_be_bytes());
        for u in units.iter() {
            r.extend_from_slice(&(u.len() as u16).to_be_bytes());
            r.extend_from_slice(u);
        }
    }
    r
}

#[test]
fn avcc_single_nal() {
    let input = [0x00, 0x00, 0x00, 0x05, 0x61, 0x88, 0x00, 0x02, 0x00];
    let out = avcc_to_annex_b(&input).unwrap();
    assert_eq!(out, vec![0x00, 0x00, 0x00, 0x01, 0x61, 0x88, 0x00, 0x02, 0x00]);
}

#[test]
fn avcc_two_nals() {
    let input = [0x00, 0x00, 0x00, 0x02, 0x67, 0x42, 0x00, 0x00, 0x00, 0x03, 0x68, 0xCE, 0x01];
    let out = avcc_to_annex_b(&input).unwrap();
    assert_eq!(
        out,
        vec![0x00, 0x00, 0x00, 0x01, 0x67, 0x42, 0x00, 0x00, 0x00, 0x01, 0x68, 0xCE, 0x01]
    );
}

#[test]
fn avcc_truncated_body() {
    let input = [0x00, 0x00, 0x00, 0x05, 0x61, 0x88];
    assert_eq!(avcc_to_annex_b(&input), Err(AvccError::PartialBody));
}

#[test]
fn avcc_trailing_partial_length() {
    let mut input = avcc_of(&[&[0x65, 0x01, 0x02]]);
    input.extend_from_slice(&[0x00, 0x00]);
    assert_eq!(avcc_to_annex_b(&input), Err(AvccError::PartialLength));
}

#[test]
fn avcc_trailing_partial_body() {
    let mut input = avcc_of(&[&[0x65, 0x01, 0x02], &[0x41]]);
    input.extend_from_slice(&[0x00, 0x00, 0x00, 0x04, 0x41, 0x9A]);
    assert_eq!(avcc_to_annex_b(&input), Err(AvccError::PartialBody));
}

#[test]
fn avcc_zero_length() {
    let input = [0x00, 0x00, 0x00, 0x00, 0x61];
    assert_eq!(avcc_to_annex_b(&input), Err(AvccError::ZeroLength));
}

#[test]
fn avcc_empty_input() {
    assert_eq!(avcc_to_annex_b(&[]), Ok(vec![]));
}

#[test]
fn avcc_round_trip_many_units() {
    let big = vec![0x5Au8; 300];
    let units: Vec<&[u8]> = vec![&[0x09, 0xF0], &big, &[0x65], &[0x41, 0x9A, 0x00, 0x00, 0x01]];
    let out = avcc_to_annex_b(&avcc_of(&units)).unwrap();
    assert_eq!(out, annex_b_of(&units));
}

#[test]
fn h264_config_extraction() {
    let record = h264_record(&[0x67, 0x42, 0x00, 0x1E], &[0x68, 0xCE, 0x38, 0x80]);
    let cfg = parse_h264_config(&record).unwrap();
    assert_eq!(
        cfg,
        vec![
            0x00, 0x00, 0x00, 0x01, 0x67, 0x42, 0x00, 0x1E, 0x00, 0x00, 0x00, 0x01, 0x68, 0xCE,
            0x38, 0x80
        ]
    );
}

#[test]
fn h264_config_truncated() {
    let record = h264_record(&[0x67, 0x42, 0x00, 0x1E], &[0x68, 0xCE, 0x38, 0x80]);
    assert_eq!(parse_h264_config(&record[..record.len() - 1]), Err(ConfigError::Truncated));
    assert_eq!(parse_h264_config(&record[..11]), Err(ConfigError::Truncated));
    assert_eq!(parse_h264_config(&record[..5]), Err(ConfigError::Truncated));
    assert_eq!(parse_h264_config(&[]), Err(ConfigError::Truncated));
}

#[test]
fn h265_config_extraction() {
    let record = h265_record(&[
        (32, &[&[0x40, 0x01, 0x0C]]),
        (33, &[&[0x42, 0x01, 0x01, 0x60]]),
        (34, &[&[0x44, 0x01], &[0x44, 0x02]]),
    ]);
    let cfg = parse_h265_config(&record).unwrap();
    let expected = annex_b_of(&[
        &[0x40, 0x01, 0x0C],
        &[0x42, 0x01, 0x01, 0x60],
        &[0x44, 0x01],
        &[0x44, 0x02],
    ]);
    assert_eq!(cfg, expected);
}

#[test]
fn h265_config_too_few_parameter_sets() {
    let record = h265_record(&[]);
    assert_eq!(parse_h265_config(&record), Err(ConfigError::MissingParameterSets));
    let record = h265_record(&[(33, &[&[0x42, 0x01]])]);
    assert_eq!(parse_h265_config(&record), Err(ConfigError::MissingParameterSets));
    let record = h265_record(&[(32, &[]), (33, &[&[0x42, 0x01]]), (34, &[&[0x44, 0x01]])]);
    assert_eq!(
        parse_h265_config(&record),
        Ok(annex_b_of(&[&[0x42, 0x01], &[0x44, 0x01]]))
    );
}

#[test]
fn h265_config_truncated() {
    let record = h265_record(&[(32, &[&[0x40, 0x01, 0x0C]]), (33, &[&[0x42, 0x01]])]);
    for cut in [1, 2, 3, 4, 6, 9] {
        assert_eq!(
            parse_h265_config(&record[..record.len() - cut]),
            Err(ConfigError::Truncated)
        );
    }
    assert_eq!(parse_h265_config(&record[..22]), Err(ConfigError::Truncated));
}

#[test]
fn codec_config_dispatch() {
    let h264 = h264_record(&[0x67, 0x64], &[0x68, 0xEE]);
    assert_eq!(
        parse_codec_config("avc1.64001F", &h264),
        Ok(annex_b_of(&[&[0x67, 0x64], &[0x68, 0xEE]]))
    );
    let h265 = h265_record(&[(32, &[&[0x40, 0x01]]), (33, &[&[0x42, 0x01]]), (34, &[&[0x44]])]);
    assert_eq!(
        parse_codec_config("hvc1.1.6.L93.B0", &h265),
        Ok(annex_b_of(&[&[0x40, 0x01], &[0x42, 0x01], &[0x44]]))
    );
    assert_eq!(parse_codec_config("mp4a.40.2", &h264), Err(ConfigError::UnsupportedCodec));
    assert_eq!(parse_codec_config("avc", &h264), Err(ConfigError::UnsupportedCodec));
    assert_eq!(parse_codec_config("AVC1.64001F", &h264), Err(ConfigError::UnsupportedCodec));
}
