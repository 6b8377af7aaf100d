//! An RTSP-to-WebSocket video relay's core: AVCC to Annex-B repackaging,
//! parameter-set extraction for H.264 and H.265, frame assembly, a bounded
//! broadcast channel per stream with per-subscriber cursors, the ingester's
//! state machine, subscriber sessions and the stream registry.

pub mod annexb;
pub mod channel;
pub mod frame;
pub mod ingest;
pub mod loglevel;
pub mod options;
pub mod registry;
pub mod session;
pub mod streamdef;
pub mod text;
