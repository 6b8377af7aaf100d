use vstd::prelude::*;
use crate::frame::{build_frame, frame_of, keyframe_shaped, FrameError};
use crate::streamdef::StreamsDef;
use crate::text::same_text;

verus! {

/// `retina::client::Transport`, the RTP transport asked for at SETUP.
#[verifier::external_type_specification]
#[verifier::external_body]
pub struct ExTransport(retina::client::Transport);

/// `retina::Error`.
#[verifier::external_type_specification]
#[verifier::external_body]
pub struct ExRetinaError(retina::Error);

/// The transport that retina's `Transport::from_str` makes of `name`; it
/// depends on the name alone.
pub uninterp spec fn transport_named(name: Seq<char>) -> retina::client::Transport;

/// Relies on retina's `Transport::default`, which builds
/// `Tcp(TcpTransportOptions::default())`, the same value that `from_str` makes
/// of `tcp`.
pub assume_specification[ <retina::client::Transport as core::default::Default>::default ]() -> (r: retina::client::Transport)
    ensures
        r == transport_named("tcp"@),
;

/// Relies on retina's `Transport::from_str`, which accepts exactly `tcp` and
/// `udp` and refuses anything else.
#[verifier::external_body]
fn parse_transport(s: &str) -> (r: Result<retina::client::Transport, retina::Error>)
    ensures
        r is Ok <==> (s@ == "tcp"@ || s@ == "udp"@),
        r is Ok ==> r->Ok_0 == transport_named(s@),
{
    s.parse::<retina::client::Transport>()
}

/// Why an ingester ends.
#[derive(Debug, Clone, Copy, PartialEq, Eq, Structural)]
pub enum IngestError {
    /// DESCRIBE failed.
    Describe,
    /// No substream is H.264 or H.265 video.
    NoVideoStream,
    /// The requested transport is neither `tcp` nor `udp`.
    BadTransport,
    /// SETUP failed.
    Setup,
    /// PLAY failed.
    Play,
    /// The demuxer reported an error.
    Demux,
    /// The server ended the stream.
    EndOfStream,
}

/// Whether `name` is a transport that can be requested.
pub open spec fn known_transport(name: Seq<char>) -> bool {
    name == "tcp"@ || name == "udp"@
}

/// The transport to request at SETUP: the library default (TCP) when none is
/// named, else the named one, which must be `tcp` or `udp`.
pub fn choose_transport(requested: Option<&str>) -> (r: Result<
    retina::client::Transport,
    IngestError,
>)
    ensures
        match requested {
            None => r is Ok && r->Ok_0 == transport_named("tcp"@),
            Some(name) => {
                &&& r is Ok <==> known_transport(name@)
                &&& r is Ok ==> r->Ok_0 == transport_named(name@)
                &&& r is Err ==> r->Err_0 == IngestError::BadTransport
            },
        },
{
    match requested {
        None => Ok(retina::client::Transport::default()),
        Some(name) => match parse_transport(name) {
            Ok(t) => Ok(t),
            Err(_) => Err(IngestError::BadTransport),
        },
    }
}

/// What the session description says of one substream.
pub struct StreamInfo {
    /// The media type, such as `video` or `audio`.
    pub media: String,
    /// The encoding name, such as `h264`.
    pub encoding: String,
}

/// Whether a substream is video in a supported encoding.
pub open spec fn supported_video(media: Seq<char>, encoding: Seq<char>) -> bool {
    media == "video"@ && (encoding == "h264"@ || encoding == "h265"@)
}

/// The first substream that is H.264 or H.265 video, if any.
pub fn select_video_stream(streams: &Vec<StreamInfo>) -> (r: Option<usize>)
    ensures
        match r {
            Some(i) => {
                &&& i < streams@.len()
                &&& supported_video(streams@[i as int].media@, streams@[i as int].encoding@)
                &&& forall|j: int|
                    0 <= j < i ==> !supported_video(
                        #[trigger] streams@[j].media@,
                        streams@[j].encoding@,
                    )
            },
            None => forall|j: int|
                0 <= j < streams@.len() ==> !supported_video(
                    #[trigger] streams@[j].media@,
                    streams@[j].encoding@,
                ),
        },
{
    let mut i: usize = 0;
    while i < streams.len()
        invariant
            i <= streams@.len(),
            forall|j: int|
                0 <= j < i ==> !supported_video(
                    #[trigger] streams@[j].media@,
                    streams@[j].encoding@,
                ),
        decreases streams@.len() - i,
    {
        let s = &streams[i];
        let video = same_text(s.media.as_str(), "video");
        let h264 = same_text(s.encoding.as_str(), "h264");
        let h265 = same_text(s.encoding.as_str(), "h265");
        if video && (h264 || h265) {
            return Some(i);
        }
        i = i + 1;
    }
    None
}

/// Builds the frame for one video access unit and publishes it on `stream`.
/// A unit that gives no frame is dropped: the stream is left as it was.
pub fn process_video_frame(
    stream: &mut StreamsDef,
    ts: i64,
    codec: &str,
    extra_data: &[u8],
    random_access: bool,
    au: &[u8],
) -> (r: Result<(), FrameError>)
    requires
        old(stream).wf(),
        old(stream).channel_view().history.len() < u64::MAX,
    ensures
        final(stream).wf(),
        final(stream).url_spec() == old(stream).url_spec(),
        final(stream).live() == old(stream).live(),
        final(stream).starts() == old(stream).starts(),
        final(stream).stops() == old(stream).stops(),
        match frame_of(ts, codec@, extra_data@, random_access, au@) {
            Ok(f) => {
                &&& r is Ok
                &&& final(stream).channel_view().history == old(stream).channel_view().history.push(f)
                &&& random_access ==> keyframe_shaped(f, extra_data@)
            },
            Err(e) => {
                &&& r == Err::<(), FrameError>(e)
                &&& final(stream).channel_view() == old(stream).channel_view()
            },
        },
{
    match build_frame(ts, codec, extra_data, random_access, au) {
        Ok(frame) => {
            stream.publish(frame);
            Ok(())
        },
        Err(e) => Err(e),
    }
}

/// The states of one stream's ingester.
#[derive(Debug, Clone, Copy, PartialEq, Eq, Structural)]
pub enum IngestState {
    Init,
    Describing,
    Selecting,
    SettingUp,
    Playing,
    Terminating,
    Done,
}

/// What happened since the ingester's last step.
#[derive(Debug, Clone, Copy, PartialEq, Eq, Structural)]
pub enum IngestEvent {
    /// The ingester task was spawned.
    Spawned,
    DescribeOk,
    DescribeFailed,
    /// A supported video substream was found.
    VideoFound,
    /// No supported video substream was found.
    NoVideo,
    SetupOk,
    /// SETUP failed, or the requested transport was refused.
    SetupFailed,
    PlayFailed,
    /// The demuxer yielded an item: a video frame, or something to discard.
    Item,
    DemuxFailed,
    EndOfStream,
    /// The process was asked to stop.
    Shutdown,
    /// The session teardown finished, successfully or not.
    TornDown,
}

/// What the ingester does next.
#[derive(Debug, Clone, Copy, PartialEq, Eq, Structural)]
pub enum IngestAction {
    Describe,
    SelectStream,
    Setup,
    /// Issue PLAY, then read the first item.
    Play,
    ReadNext,
    Teardown,
    /// The ingester ends.
    Finish,
    /// The event does not apply in this state.
    Ignore,
}

/// The ingester's transition table.
pub open spec fn ingest_transition(s: IngestState, e: IngestEvent) -> (IngestState, IngestAction) {
    match (s, e) {
        (IngestState::Init, IngestEvent::Spawned) => (IngestState::Describing, IngestAction::Describe),
        (IngestState::Describing, IngestEvent::DescribeOk) => (
            IngestState::Selecting,
            IngestAction::SelectStream,
        ),
        (IngestState::Selecting, IngestEvent::VideoFound) => (
            IngestState::SettingUp,
            IngestAction::Setup,
        ),
        (IngestState::SettingUp, IngestEvent::SetupOk) => (IngestState::Playing, IngestAction::Play),
        (IngestState::Playing, IngestEvent::Item) => (IngestState::Playing, IngestAction::ReadNext),
        (IngestState::Describing, IngestEvent::DescribeFailed)
        | (IngestState::Selecting, IngestEvent::NoVideo)
        | (IngestState::SettingUp, IngestEvent::SetupFailed)
        | (IngestState::Playing, IngestEvent::PlayFailed)
        | (IngestState::Playing, IngestEvent::DemuxFailed)
        | (IngestState::Playing, IngestEvent::EndOfStream) => (
            IngestState::Terminating,
            IngestAction::Teardown,
        ),
        (IngestState::Init, IngestEvent::Shutdown)
        | (IngestState::Describing, IngestEvent::Shutdown)
        | (IngestState::Selecting, IngestEvent::Shutdown)
        | (IngestState::SettingUp, IngestEvent::Shutdown)
        | (IngestState::Playing, IngestEvent::Shutdown) => (
            IngestState::Terminating,
            IngestAction::Teardown,
        ),
        (IngestState::Terminating, IngestEvent::TornDown) => (IngestState::Done, IngestAction::Finish),
        _ => (s, IngestAction::Ignore),
    }
}

/// One step of the ingester: its next state and what it does next.
pub fn ingest_step(s: IngestState, e: IngestEvent) -> (r: (IngestState, IngestAction))
    ensures
        r == ingest_transition(s, e),
{
    match (s, e) {
        (IngestState::Init, IngestEvent::Spawned) => (IngestState::Describing, IngestAction::Describe),
        (IngestState::Describing, IngestEvent::DescribeOk) => (
            IngestState::Selecting,
            IngestAction::SelectStream,
        ),
        (IngestState::Selecting, IngestEvent::VideoFound) => (
            IngestState::SettingUp,
            IngestAction::Setup,
        ),
        (IngestState::SettingUp, IngestEvent::SetupOk) => (IngestState::Playing, IngestAction::Play),
        (IngestState::Playing, IngestEvent::Item) => (IngestState::Playing, IngestAction::ReadNext),
        (IngestState::Describing, IngestEvent::DescribeFailed)
        | (IngestState::Selecting, IngestEvent::NoVideo)
        | (IngestState::SettingUp, IngestEvent::SetupFailed)
        | (IngestState::Playing, IngestEvent::PlayFailed)
        | (IngestState::Playing, IngestEvent::DemuxFailed)
        | (IngestState::Playing, IngestEvent::EndOfStream) => (
            IngestState::Terminating,
            IngestAction::Teardown,
        ),
        (IngestState::Init, IngestEvent::Shutdown)
        | (IngestState::Describing, IngestEvent::Shutdown)
        | (IngestState::Selecting, IngestEvent::Shutdown)
        | (IngestState::SettingUp, IngestEvent::Shutdown)
        | (IngestState::Playing, IngestEvent::Shutdown) => (
            IngestState::Terminating,
            IngestAction::Teardown,
        ),
        (IngestState::Terminating, IngestEvent::TornDown) => (IngestState::Done, IngestAction::Finish),
        _ => (s, IngestAction::Ignore),
    }
}

/// Every way out of a live state other than forward goes through teardown:
/// once past `Init`, the ingester reaches `Done` only from `Terminating`.
pub proof fn lemma_teardown_always_attempted(s: IngestState, e: IngestEvent)
    ensures
        ingest_transition(s, e).0 == IngestState::Done ==> s == IngestState::Terminating
            || s == IngestState::Done,
        ingest_transition(s, e).0 == IngestState::Terminating && s != IngestState::Terminating
            ==> ingest_transition(s, e).1 == IngestAction::Teardown,
{
}

} // verus!
