use vstd::prelude::*;
use vstd::arithmetic::div_mod::lemma_fundamental_div_mod_converse;
use crate::annexb::{
    annex_b, avcc_to_annex_b, avcc_units, codec_family, codec_params, h264_params, h265_params,
    lemma_annex_b_cons, parse_codec_config, start_code, AvccError, CodecFamily, ConfigError,
};

verus! {

/// The metadata sent as JSON text ahead of each frame's payload.
pub struct FrameMetadata {
    /// Milliseconds since the start of the RTP stream, as announced by the
    /// server's `RTP-Info`.
    pub ts: i64,
    /// Always `video`.
    pub media: String,
    /// RFC 6381 codec identifier of the stream.
    pub codec: String,
    /// Whether the payload starts with the configuration prefix and carries a
    /// random-access point.
    pub keyframe: bool,
}

/// The unit of fan-out: metadata and an Annex-B payload.
pub struct DataFrame {
    pub metadata: FrameMetadata,
    pub data: Vec<u8>,
}

/// A frame as plain values.
pub struct FrameView {
    pub ts: i64,
    pub media: Seq<char>,
    pub codec: Seq<char>,
    pub keyframe: bool,
    pub data: Seq<u8>,
}

impl View for DataFrame {
    type V = FrameView;

    open spec fn view(&self) -> FrameView {
        FrameView {
            ts: self.metadata.ts,
            media: self.metadata.media@,
            codec: self.metadata.codec@,
            keyframe: self.metadata.keyframe,
            data: self.data@,
        }
    }
}

impl DataFrame {
    /// A copy of this frame, for one more reader.
    pub fn duplicate(&self) -> (r: DataFrame)
        ensures
            r@ == self@,
    {
        let n = self.data.len();
        let mut data: Vec<u8> = Vec::with_capacity(n);
        let mut i: usize = 0;
        while i < n
            invariant
                i <= n,
                n == self.data@.len(),
                data@ == self.data@.subrange(0, i as int),
            decreases n - i,
        {
            data.push(self.data[i]);
            i = i + 1;
            assert(data@ =~= self.data@.subrange(0, i as int));
        }
        assert(data@ =~= self.data@);
        let metadata = FrameMetadata {
            ts: self.metadata.ts,
            media: self.metadata.media.clone(),
            codec: self.metadata.codec.clone(),
            keyframe: self.metadata.keyframe,
        };
        DataFrame { metadata, data }
    }
}

/// Why an access unit gave no frame.
#[derive(Debug, Clone, Copy, PartialEq, Eq, Structural)]
pub enum FrameError {
    /// The stream's configuration record could not be read at a keyframe.
    Config(ConfigError),
    /// The access unit's AVCC framing is broken.
    Payload(AvccError),
}

/// Milliseconds in `elapsed` ticks of a `clock_rate` Hz clock, rounded down.
pub open spec fn millis(elapsed: int, clock_rate: int) -> int {
    (elapsed * 1000) / clock_rate
}

/// Whether `v` fits in an `i64`.
pub open spec fn fits_i64(v: int) -> bool {
    i64::MIN <= v <= i64::MAX
}

/// Converts an elapsed RTP time, in ticks of the stream's clock, to
/// milliseconds rounded down. `None` when the result does not fit in an `i64`.
pub fn elapsed_millis(elapsed: i64, clock_rate: u32) -> (r: Option<i64>)
    requires
        clock_rate > 0,
    ensures
        match r {
            Some(v) => v == millis(elapsed as int, clock_rate as int),
            None => !fits_i64(millis(elapsed as int, clock_rate as int)),
        },
{
    let c = clock_rate as i128;
    let p = (elapsed as i128) * 1000;
    let q: i128;
    if p >= 0 {
        q = p / c;
    } else {
        let m = -p;
        let k = (m + c - 1) / c;
        proof {
            let top = m + c - 1;
            let rem = top as int % c as int;
            assert(top == k * c + rem) by {
                vstd::arithmetic::div_mod::lemma_fundamental_div_mod(top as int, c as int);
            }
            assert(p == (-k) * c + (c - 1 - rem)) by (nonlinear_arith)
                requires
                    top == m + c - 1,
                    top == k * c + rem,
                    p == -m,
            ;
            lemma_fundamental_div_mod_converse(p as int, c as int, -k, c - 1 - rem);
        }
        q = -k;
    }
    assert(q == millis(elapsed as int, clock_rate as int));
    if q < i64::MIN as i128 || q > i64::MAX as i128 {
        None
    } else {
        Some(q as i64)
    }
}

/// The payload of a frame: for a keyframe, the configuration prefix of the
/// stream, then the access unit in Annex-B framing.
pub open spec fn frame_payload(codec: Seq<char>, extra: Seq<u8>, keyframe: bool, au: Seq<u8>) -> Result<
    Seq<u8>,
    FrameError,
> {
    if keyframe {
        match codec_params(codec, extra) {
            Err(e) => Err(FrameError::Config(e)),
            Ok(params) => match avcc_units(au) {
                Err(e) => Err(FrameError::Payload(e)),
                Ok(nals) => Ok(annex_b(params) + annex_b(nals)),
            },
        }
    } else {
        match avcc_units(au) {
            Err(e) => Err(FrameError::Payload(e)),
            Ok(nals) => Ok(annex_b(nals)),
        }
    }
}

/// The frame made of one access unit, or why it is dropped.
pub open spec fn frame_of(ts: i64, codec: Seq<char>, extra: Seq<u8>, keyframe: bool, au: Seq<u8>) -> Result<
    FrameView,
    FrameError,
> {
    match frame_payload(codec, extra, keyframe, au) {
        Err(e) => Err(e),
        Ok(data) => Ok(
            FrameView { ts, media: "video"@, codec, keyframe, data },
        ),
    }
}

/// `r` seen through the view of its frame.
pub open spec fn frame_result(r: Result<DataFrame, FrameError>) -> Result<FrameView, FrameError> {
    match r {
        Ok(f) => Ok(f@),
        Err(e) => Err(e),
    }
}

/// Builds the frame for one video access unit. `au` is the access unit in AVCC
/// framing; `codec` and `extra_data` are the stream's RFC 6381 identifier and
/// decoder configuration record. A random-access point becomes a keyframe whose
/// payload starts with the configuration prefix.
pub fn build_frame(ts: i64, codec: &str, extra_data: &[u8], random_access: bool, au: &[u8]) -> (r:
    Result<DataFrame, FrameError>)
    ensures
        frame_result(r) == frame_of(ts, codec@, extra_data@, random_access, au@),
        r is Ok && random_access ==> keyframe_shaped(r->Ok_0@, extra_data@),
{
    let mut data: Vec<u8> = Vec::new();
    if random_access {
        match parse_codec_config(codec, extra_data) {
            Ok(cfg) => {
                data = cfg;
            },
            Err(e) => {
                return Err(FrameError::Config(e));
            },
        }
    }
    match avcc_to_annex_b(au) {
        Ok(units) => {
            let mut units = units;
            data.append(&mut units);
            if !random_access {
                assert(data@ =~= annex_b(avcc_units(au@)->Ok_0));
            }
        },
        Err(e) => {
            return Err(FrameError::Payload(e));
        },
    }
    let metadata = FrameMetadata {
        ts,
        media: "video".to_owned(),
        codec: codec.to_owned(),
        keyframe: random_access,
    };
    let frame = DataFrame { metadata, data };
    proof {
        if random_access {
            lemma_keyframe_prefix(ts, codec@, extra_data@, au@, frame@);
        }
    }
    Ok(frame)
}

/// Whether the record `extra` reads as the decoder configuration of `family`.
pub open spec fn record_of_family(family: CodecFamily, extra: Seq<u8>) -> bool {
    match family {
        CodecFamily::H264 => h264_params(extra) is Ok,
        CodecFamily::H265 => h265_params(extra) is Ok,
    }
}

/// The shape of every keyframe: it starts with the start code, then the
/// parameter sets of the stream's record (at least two start-code-delimited
/// units), and its codec names the family whose record the extra data is.
pub open spec fn keyframe_shaped(f: FrameView, extra: Seq<u8>) -> bool {
    &&& f.keyframe
    &&& f.data.len() >= 4
    &&& f.data.subrange(0, 4) == start_code()
    &&& codec_family(f.codec) is Some
    &&& record_of_family(codec_family(f.codec)->Some_0, extra)
    &&& codec_params(f.codec, extra) is Ok
    &&& codec_params(f.codec, extra)->Ok_0.len() >= 2
    &&& annex_b(codec_params(f.codec, extra)->Ok_0).len() <= f.data.len()
    &&& f.data.subrange(0, annex_b(codec_params(f.codec, extra)->Ok_0).len() as int) == annex_b(
        codec_params(f.codec, extra)->Ok_0,
    )
}

/// Every keyframe starts with `00 00 00 01` and with at least two parameter
/// sets (SPS and PPS for H.264; VPS, SPS and PPS for H.265) ahead of the
/// frame's own units, and carries a codec of the family whose record the
/// extra data is.
pub proof fn lemma_keyframe_prefix(
    ts: i64,
    codec: Seq<char>,
    extra: Seq<u8>,
    au: Seq<u8>,
    f: FrameView,
)
    requires
        frame_of(ts, codec, extra, true, au) == Ok::<FrameView, FrameError>(f),
    ensures
        keyframe_shaped(f, extra),
        f.data == annex_b(codec_params(codec, extra)->Ok_0) + annex_b(avcc_units(au)->Ok_0),
{
    let params = codec_params(codec, extra)->Ok_0;
    let nals = avcc_units(au)->Ok_0;
    lemma_annex_b_cons(params[0], params.drop_first());
    assert(seq![params[0]] + params.drop_first() =~= params);
    let tail = params[0] + annex_b(params.drop_first()) + annex_b(nals);
    assert(f.data =~= start_code() + tail);
    assert(f.data.subrange(0, 4) =~= start_code());
    assert(f.data.subrange(0, annex_b(params).len() as int) =~= annex_b(params));
}

/// For a random-access unit of an H.264 stream whose record and payload both
/// read, the frame is a keyframe whose data is the SPS/PPS prefix followed by
/// the unit in Annex-B framing.
pub proof fn lemma_h264_keyframe_payload(ts: i64, codec: Seq<char>, extra: Seq<u8>, au: Seq<u8>)
    requires
        codec_family(codec) == Some(CodecFamily::H264),
        h264_params(extra) is Ok,
        avcc_units(au) is Ok,
    ensures
        frame_of(ts, codec, extra, true, au) == Ok::<FrameView, FrameError>(
            FrameView {
                ts,
                media: "video"@,
                codec,
                keyframe: true,
                data: annex_b(h264_params(extra)->Ok_0) + annex_b(avcc_units(au)->Ok_0),
            },
        ),
{
}

} // verus!
