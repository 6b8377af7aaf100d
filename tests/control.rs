use rtsp2web::ingest::{
    choose_transport, ingest_step, select_video_stream, IngestAction, IngestError, IngestEvent,
    IngestState, StreamInfo,
};
use rtsp2web::loglevel::{level_name, parse_level, LogLevel};
use rtsp2web::options::{Opts, DEFAULT_PORT};

fn info(media: &str, encoding: &str) -> StreamInfo {
    StreamInfo { media: media.to_string(), encoding: encoding.to_string() }
}

#[test]
fn selects_first_supported_video() {
    let streams = vec![
        info("audio", "mpeg4-generic"),
        info("video", "jpeg"),
        info("video", "h265"),
        info("video", "h264"),
    ];
    assert_eq!(select_video_stream(&streams), Some(2));
    let streams = vec![info("video", "h264"), info("video", "h265")];
    assert_eq!(select_video_stream(&streams), Some(0));
}

#[test]
fn no_supported_video() {
    let streams = vec![info("audio", "h264"), info("video", "H264"), info("application", "h265")];
    assert_eq!(select_video_stream(&streams), None);
    assert_eq!(select_video_stream(&vec![]), None);
}

#[test]
fn transport_choice() {
    assert_eq!(format!("{}", choose_transport(None).unwrap()), "tcp");
    assert_eq!(format!("{}", choose_transport(Some("udp")).unwrap()), "udp");
    assert_eq!(format!("{}", choose_transport(Some("tcp")).unwrap()), "tcp");
    assert!(matches!(choose_transport(Some("http")), Err(IngestError::BadTransport)));
    assert!(matches!(choose_transport(Some("TCP")), Err(IngestError::BadTransport)));
}

#[test]
fn ingester_happy_path() {
    let (s, a) = ingest_step(IngestState::Init, IngestEvent::Spawned);
    assert_eq!((s, a), (IngestState::Describing, IngestAction::Describe));
    let (s, a) = ingest_step(s, IngestEvent::DescribeOk);
    assert_eq!((s, a), (IngestState::Selecting, IngestAction::SelectStream));
    let (s, a) = ingest_step(s, IngestEvent::VideoFound);
    assert_eq!((s, a), (IngestState::SettingUp, IngestAction::Setup));
    let (s, a) = ingest_step(s, IngestEvent::SetupOk);
    assert_eq!((s, a), (IngestState::Playing, IngestAction::Play));
    let (s, a) = ingest_step(s, IngestEvent::Item);
    assert_eq!((s, a), (IngestState::Playing, IngestAction::ReadNext));
    let (s, a) = ingest_step(s, IngestEvent::Shutdown);
    assert_eq!((s, a), (IngestState::Terminating, IngestAction::Teardown));
    let (s, a) = ingest_step(s, IngestEvent::TornDown);
    assert_eq!((s, a), (IngestState::Done, IngestAction::Finish));
}

#[test]
fn ingester_failures_tear_down() {
    for (state, event) in [
        (IngestState::Describing, IngestEvent::DescribeFailed),
        (IngestState::Selecting, IngestEvent::NoVideo),
        (IngestState::SettingUp, IngestEvent::SetupFailed),
        (IngestState::Playing, IngestEvent::PlayFailed),
        (IngestState::Playing, IngestEvent::DemuxFailed),
        (IngestState::Playing, IngestEvent::EndOfStream),
    ] {
        assert_eq!(
            ingest_step(state, event),
            (IngestState::Terminating, IngestAction::Teardown)
        );
    }
}

#[test]
fn ingester_ignores_events_out_of_place() {
    assert_eq!(
        ingest_step(IngestState::Done, IngestEvent::Item),
        (IngestState::Done, IngestAction::Ignore)
    );
    assert_eq!(
        ingest_step(IngestState::Describing, IngestEvent::SetupOk),
        (IngestState::Describing, IngestAction::Ignore)
    );
}

#[test]
fn log_levels_by_name() {
    assert_eq!(parse_level("Off"), Some(LogLevel::Off));
    assert_eq!(parse_level("Error"), Some(LogLevel::Error));
    assert_eq!(parse_level("Warn"), Some(LogLevel::Warn));
    assert_eq!(parse_level("Info"), Some(LogLevel::Info));
    assert_eq!(parse_level("Debug"), Some(LogLevel::Debug));
    assert_eq!(parse_level("Trace"), Some(LogLevel::Trace));
    assert_eq!(parse_level("debug"), None);
    assert_eq!(parse_level(""), None);
    for l in [LogLevel::Off, LogLevel::Error, LogLevel::Warn, LogLevel::Info, LogLevel::Debug, LogLevel::Trace] {
        assert_eq!(parse_level(level_name(l)), Some(l));
    }
}

#[test]
fn tls_needs_both_files() {
    let mut opts = Opts {
        config: "config.json".to_string(),
        transport: None,
        cert: Some("cert.pem".to_string()),
        key: None,
        port: DEFAULT_PORT,
    };
    assert!(opts.tls_files().is_none());
    opts.key = Some("key.pem".to_string());
    let (c, k) = opts.tls_files().unwrap();
    assert_eq!(c, "cert.pem");
    assert_eq!(k, "key.pem");
    opts.cert = None;
    assert!(opts.tls_files().is_none());
    assert_eq!(DEFAULT_PORT, 8080);
}
