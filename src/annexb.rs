use vstd::prelude::*;

verus! {

/// Why a decoder configuration record gave no parameter sets.
#[derive(Debug, Clone, Copy, PartialEq, Eq, Structural)]
pub enum ConfigError {
    /// The record ends before a length or a parameter set that it announces.
    Truncated,
    /// The record lists fewer than two parameter sets, too few to begin a
    /// keyframe with.
    MissingParameterSets,
    /// The codec identifier names neither H.264 (`avc1`) nor H.265 (`hvc1`).
    UnsupportedCodec,
}

/// The codec families whose decoder configuration records are understood.
#[derive(Debug, Clone, Copy, PartialEq, Eq, Structural)]
pub enum CodecFamily {
    H264,
    H265,
}

/// Why an AVCC buffer could not be converted.
#[derive(Debug, Clone, Copy, PartialEq, Eq, Structural)]
pub enum AvccError {
    /// Between one and three bytes remain where a 4-byte length was expected.
    PartialLength,
    /// A length announces more bytes than the buffer still holds.
    PartialBody,
    /// A length of zero.
    ZeroLength,
}

/// The four-byte Annex-B start code that precedes every NAL unit.
pub open spec fn start_code() -> Seq<u8> {
    seq![0u8, 0u8, 0u8, 1u8]
}

/// Big-endian 16-bit integer stored at `s[i]`, `s[i + 1]`.
pub open spec fn be16(s: Seq<u8>, i: int) -> int {
    s[i] as int * 256 + s[i + 1] as int
}

/// Big-endian 32-bit integer stored at `s[i]` .. `s[i + 3]`.
pub open spec fn be32(s: Seq<u8>, i: int) -> int {
    s[i] as int * 16777216 + s[i + 1] as int * 65536 + s[i + 2] as int * 256 + s[i + 3] as int
}

/// Annex-B framing of a list of NAL units: each one preceded by the start code.
pub open spec fn annex_b(nals: Seq<Seq<u8>>) -> Seq<u8>
    decreases nals.len(),
{
    if nals.len() == 0 {
        Seq::empty()
    } else {
        start_code() + nals[0] + annex_b(nals.drop_first())
    }
}

/// The NAL units of the AVCC buffer `s` read from offset `pos` to its end.
pub open spec fn avcc_units_from(s: Seq<u8>, pos: int) -> Result<Seq<Seq<u8>>, AvccError>
    decreases s.len() - pos,
{
    if pos >= s.len() {
        Ok(Seq::empty())
    } else if s.len() - pos < 4 {
        Err(AvccError::PartialLength)
    } else {
        let len = be32(s, pos);
        if len == 0 {
            Err(AvccError::ZeroLength)
        } else if s.len() - pos - 4 < len {
            Err(AvccError::PartialBody)
        } else {
            match avcc_units_from(s, pos + 4 + len) {
                Ok(rest) => Ok(seq![s.subrange(pos + 4, pos + 4 + len)] + rest),
                Err(e) => Err(e),
            }
        }
    }
}

/// The NAL units of a whole AVCC buffer, or the first framing fault in it.
pub open spec fn avcc_units(s: Seq<u8>) -> Result<Seq<Seq<u8>>, AvccError> {
    avcc_units_from(s, 0)
}

/// Parameter sets of an AVCDecoderConfigurationRecord: the first SPS and the
/// first PPS. Six header bytes are skipped, then come a 16-bit SPS length and
/// the SPS, one byte (the PPS count), a 16-bit PPS length and the PPS.
pub open spec fn h264_params(s: Seq<u8>) -> Result<Seq<Seq<u8>>, ConfigError> {
    if s.len() < 8 {
        Err(ConfigError::Truncated)
    } else {
        let sps_end = 8 + be16(s, 6);
        let pps_at = sps_end + 1;
        if sps_end > s.len() || pps_at + 2 > s.len() {
            Err(ConfigError::Truncated)
        } else {
            let pps_end = pps_at + 2 + be16(s, pps_at);
            if pps_end > s.len() {
                Err(ConfigError::Truncated)
            } else {
                Ok(seq![s.subrange(8, sps_end), s.subrange(pps_at + 2, pps_end)])
            }
        }
    }
}

/// NAL units of an HEVCDecoderConfigurationRecord from offset `pos` on, where
/// `nalus` units of the current array and then `arrays` whole arrays remain.
/// An array is a type byte, a 16-bit unit count, and that many units, each a
/// 16-bit length and the unit's bytes.
pub open spec fn hevc_units_from(s: Seq<u8>, pos: int, arrays: nat, nalus: nat) -> Result<
    Seq<Seq<u8>>,
    ConfigError,
>
    decreases arrays, nalus,
{
    if nalus > 0 {
        if pos + 2 > s.len() {
            Err(ConfigError::Truncated)
        } else {
            let end = pos + 2 + be16(s, pos);
            if end > s.len() {
                Err(ConfigError::Truncated)
            } else {
                match hevc_units_from(s, end, arrays, (nalus - 1) as nat) {
                    Ok(rest) => Ok(seq![s.subrange(pos + 2, end)] + rest),
                    Err(e) => Err(e),
                }
            }
        }
    } else if arrays > 0 {
        if pos + 3 > s.len() {
            Err(ConfigError::Truncated)
        } else {
            hevc_units_from(s, pos + 3, (arrays - 1) as nat, be16(s, pos + 1) as nat)
        }
    } else {
        Ok(Seq::empty())
    }
}

/// NAL units of an HEVCDecoderConfigurationRecord, in record order: a 22-byte
/// header, the array count, then the arrays.
pub open spec fn h265_units(s: Seq<u8>) -> Result<Seq<Seq<u8>>, ConfigError> {
    if s.len() < 23 {
        Err(ConfigError::Truncated)
    } else {
        hevc_units_from(s, 23, s[22] as nat, 0)
    }
}

/// Parameter sets of an HEVCDecoderConfigurationRecord: its NAL units, of
/// which there must be at least two.
pub open spec fn h265_params(s: Seq<u8>) -> Result<Seq<Seq<u8>>, ConfigError> {
    match h265_units(s) {
        Ok(units) => if units.len() < 2 {
            Err(ConfigError::MissingParameterSets)
        } else {
            Ok(units)
        },
        Err(e) => Err(e),
    }
}

/// The number of units in a successful result.
pub open spec fn unit_count<E>(r: Result<Seq<Seq<u8>>, E>) -> Result<int, E> {
    match r {
        Ok(units) => Ok(units.len() as int),
        Err(e) => Err(e),
    }
}

/// `r` with `k` added to a successful count.
pub open spec fn count_after<E>(k: int, r: Result<int, E>) -> Result<int, E> {
    match r {
        Ok(c) => Ok(k + c),
        Err(e) => Err(e),
    }
}

/// Whether `s` begins with `prefix`.
pub open spec fn has_prefix(s: Seq<char>, prefix: Seq<char>) -> bool {
    prefix.len() <= s.len() && s.subrange(0, prefix.len() as int) == prefix
}

/// The codec family that an RFC 6381 codec identifier names, if any.
pub open spec fn codec_family(codec: Seq<char>) -> Option<CodecFamily> {
    if has_prefix(codec, seq!['a', 'v', 'c', '1']) {
        Some(CodecFamily::H264)
    } else if has_prefix(codec, seq!['h', 'v', 'c', '1']) {
        Some(CodecFamily::H265)
    } else {
        None
    }
}

/// Parameter sets that the extra data of a stream with the given codec holds.
pub open spec fn codec_params(codec: Seq<char>, extra: Seq<u8>) -> Result<
    Seq<Seq<u8>>,
    ConfigError,
> {
    match codec_family(codec) {
        Some(CodecFamily::H264) => h264_params(extra),
        Some(CodecFamily::H265) => h265_params(extra),
        None => Err(ConfigError::UnsupportedCodec),
    }
}

/// `r` with every unit list replaced by its Annex-B framing.
pub open spec fn framed<E>(r: Result<Seq<Seq<u8>>, E>) -> Result<Seq<u8>, E> {
    match r {
        Ok(nals) => Ok(annex_b(nals)),
        Err(e) => Err(e),
    }
}

/// `r` with `prefix` put in front of a successful result.
pub open spec fn after<E>(prefix: Seq<u8>, r: Result<Seq<u8>, E>) -> Result<Seq<u8>, E> {
    match r {
        Ok(bytes) => Ok(prefix + bytes),
        Err(e) => Err(e),
    }
}

/// `r` with its byte buffer seen through its view.
pub open spec fn bytes_result<E>(r: Result<Vec<u8>, E>) -> Result<Seq<u8>, E> {
    match r {
        Ok(v) => Ok(v@),
        Err(e) => Err(e),
    }
}

/// Framing a list whose first unit is `n` puts the start code and `n` first.
pub proof fn lemma_annex_b_cons(n: Seq<u8>, rest: Seq<Seq<u8>>)
    ensures
        annex_b(seq![n] + rest) == start_code() + n + annex_b(rest),
{
    let l = seq![n] + rest;
    assert(l.drop_first() =~= rest);
    assert(l[0] == n);
}

/// Putting nothing in front of a result leaves it as it is.
pub proof fn lemma_after_empty<E>(r: Result<Seq<u8>, E>)
    ensures
        after(Seq::empty(), r) == r,
{
    if let Ok(bytes) = r {
        assert(Seq::<u8>::empty() + bytes =~= bytes);
    }
}

/// The four bytes of `n` in big-endian order.
pub open spec fn be32_bytes(n: nat) -> Seq<u8> {
    seq![
        (n / 16777216) as u8,
        ((n / 65536) % 256) as u8,
        ((n / 256) % 256) as u8,
        (n % 256) as u8,
    ]
}

/// AVCC framing of a list of NAL units: each one behind its length.
pub open spec fn avcc(nals: Seq<Seq<u8>>) -> Seq<u8>
    decreases nals.len(),
{
    if nals.len() == 0 {
        Seq::empty()
    } else {
        be32_bytes(nals[0].len()) + nals[0] + avcc(nals.drop_first())
    }
}

/// Whether every unit of `nals` is non-empty and its length fits in 32 bits.
pub open spec fn avcc_encodable(nals: Seq<Seq<u8>>) -> bool {
    forall|i: int| 0 <= i < nals.len() ==> 0 < #[trigger] nals[i].len() < 0x1_0000_0000
}

/// `r` with the units `nals` put in front of a successful result.
pub open spec fn units_after<E>(nals: Seq<Seq<u8>>, r: Result<Seq<Seq<u8>>, E>) -> Result<
    Seq<Seq<u8>>,
    E,
> {
    match r {
        Ok(rest) => Ok(nals + rest),
        Err(e) => Err(e),
    }
}

proof fn lemma_be32_bytes(n: nat)
    requires
        n < 0x1_0000_0000,
    ensures
        be32_bytes(n).len() == 4,
        be32(be32_bytes(n), 0) == n,
{
    let b = be32_bytes(n);
    assert(n / 16777216 < 256);
    assert(b[0] as int == n / 16777216);
    assert(b[1] as int == (n / 65536) % 256);
    assert(b[2] as int == (n / 256) % 256);
    assert(b[3] as int == n % 256);
    assert(n == (n / 16777216) * 16777216 + ((n / 65536) % 256) * 65536 + ((n / 256) % 256) * 256
        + n % 256) by (nonlinear_arith);
}

/// Reading AVCC units after a prefix `q` is reading them in what follows it.
proof fn lemma_units_shift(q: Seq<u8>, y: Seq<u8>, i: int)
    requires
        0 <= i,
    ensures
        avcc_units_from(q + y, q.len() + i) == avcc_units_from(y, i),
    decreases y.len() - i,
{
    let x = q + y;
    let p = q.len() + i;
    if i < y.len() && y.len() - i >= 4 {
        assert(x[p] == y[i]);
        assert(x[p + 1] == y[i + 1]);
        assert(x[p + 2] == y[i + 2]);
        assert(x[p + 3] == y[i + 3]);
        let len = be32(y, i);
        if len != 0 && y.len() - i - 4 >= len {
            lemma_units_shift(q, y, i + 4 + len);
            assert(x.subrange(p + 4, p + 4 + len) =~= y.subrange(i + 4, i + 4 + len));
        }
    }
}

/// The AVCC framing of `nals` followed by `t` reads as `nals`, then as
/// whatever `t` reads as.
proof fn lemma_units_concat(nals: Seq<Seq<u8>>, t: Seq<u8>)
    requires
        avcc_encodable(nals),
    ensures
        avcc_units(avcc(nals) + t) == units_after(nals, avcc_units(t)),
    decreases nals.len(),
{
    if nals.len() == 0 {
        assert(avcc(nals) + t =~= t);
        if let Ok(u) = avcc_units(t) {
            assert(nals + u =~= u);
        }
    } else {
        let n0 = nals[0];
        let rest = nals.drop_first();
        let len = n0.len();
        assert(0 < len < 0x1_0000_0000);
        assert forall|i: int| 0 <= i < rest.len() implies 0 < #[trigger] rest[i].len()
            < 0x1_0000_0000 by {
            assert(rest[i] == nals[i + 1]);
        }
        lemma_units_concat(rest, t);
        lemma_be32_bytes(len);
        let q = be32_bytes(len) + n0;
        let y = avcc(rest) + t;
        let x = avcc(nals) + t;
        assert(x =~= q + y);
        assert(x[0] == be32_bytes(len)[0]);
        assert(x[1] == be32_bytes(len)[1]);
        assert(x[2] == be32_bytes(len)[2]);
        assert(x[3] == be32_bytes(len)[3]);
        assert(be32(x, 0) == len);
        lemma_units_shift(q, y, 0);
        assert(x.subrange(4, 4 + len as int) =~= n0);
        if let Ok(u) = avcc_units(t) {
            assert(seq![n0] + (rest + u) =~= nals + u);
        }
    }
}

/// Round trip: the AVCC framing of non-empty NAL units `N1, ..., Nk` reads back
/// as exactly those units, so converting it yields
/// `00 00 00 01 N1 ... 00 00 00 01 Nk`.
pub proof fn lemma_round_trip(nals: Seq<Seq<u8>>)
    requires
        avcc_encodable(nals),
    ensures
        avcc_units(avcc(nals)) == Ok::<Seq<Seq<u8>>, AvccError>(nals),
        framed(avcc_units(avcc(nals))) == Ok::<Seq<u8>, AvccError>(annex_b(nals)),
{
    lemma_units_concat(nals, Seq::empty());
    assert(avcc(nals) + Seq::<u8>::empty() =~= avcc(nals));
    assert(nals + Seq::<Seq<u8>>::empty() =~= nals);
}

/// Truncation is detected: well-formed AVCC data followed by one to three
/// bytes, or by a length and fewer bytes than it announces, is rejected.
pub proof fn lemma_truncation_detected(nals: Seq<Seq<u8>>, tail: Seq<u8>)
    requires
        avcc_encodable(nals),
        0 < tail.len() < 4 || (tail.len() >= 4 && tail.len() - 4 < be32(tail, 0)),
    ensures
        avcc_units(avcc(nals) + tail) == Err::<Seq<Seq<u8>>, AvccError>(
            if tail.len() < 4 {
                AvccError::PartialLength
            } else {
                AvccError::PartialBody
            },
        ),
{
    lemma_units_concat(nals, tail);
}

/// Reads the big-endian 16-bit integer at `pos`.
fn read_be16(data: &[u8], pos: usize) -> (r: usize)
    requires
        pos + 2 <= data@.len(),
    ensures
        r as int == be16(data@, pos as int),
{
    (data[pos] as usize) * 256 + (data[pos + 1] as usize)
}

/// Reads the big-endian 32-bit integer at `pos`.
fn read_be32(data: &[u8], pos: usize) -> (r: usize)
    requires
        pos + 4 <= data@.len(),
    ensures
        r as int == be32(data@, pos as int),
{
    (data[pos] as usize) * 16777216 + (data[pos + 1] as usize) * 65536 + (data[pos + 2] as usize)
        * 256 + (data[pos + 3] as usize)
}

/// Appends the start code and then `data[start..end]` to `out`.
fn push_unit(out: &mut Vec<u8>, data: &[u8], start: usize, end: usize)
    requires
        start <= end <= data@.len(),
    ensures
        final(out)@ == old(out)@ + start_code() + data@.subrange(start as int, end as int),
{
    out.push(0u8);
    out.push(0u8);
    out.push(0u8);
    out.push(1u8);
    assert(out@ =~= old(out)@ + start_code() + data@.subrange(start as int, start as int));
    let mut i: usize = start;
    while i < end
        invariant
            start <= i <= end,
            end <= data@.len(),
            out@ == old(out)@ + start_code() + data@.subrange(start as int, i as int),
        decreases end - i,
    {
        out.push(data[i]);
        i = i + 1;
        assert(out@ =~= old(out)@ + start_code() + data@.subrange(start as int, i as int));
    }
}

/// Converts AVCC framing (each NAL unit behind a 4-byte big-endian length) to
/// Annex-B framing (each NAL unit behind the start code `00 00 00 01`).
pub fn avcc_to_annex_b(data: &[u8]) -> (r: Result<Vec<u8>, AvccError>)
    ensures
        bytes_result(r) == framed(avcc_units(data@)),
{
    let n = data.len();
    let mut out: Vec<u8> = Vec::new();
    let mut pos: usize = 0;
    proof {
        lemma_after_empty(framed(avcc_units(data@)));
    }
    while pos < n
        invariant
            pos <= n,
            n == data@.len(),
            framed(avcc_units(data@)) == after(out@, framed(avcc_units_from(data@, pos as int))),
        decreases n - pos,
    {
        if n - pos < 4 {
            return Err(AvccError::PartialLength);
        }
        let len = read_be32(data, pos);
        if len == 0 {
            return Err(AvccError::ZeroLength);
        }
        if n - pos - 4 < len {
            return Err(AvccError::PartialBody);
        }
        let ghost old_out = out@;
        let ghost unit = data@.subrange(pos + 4, pos + 4 + len);
        push_unit(&mut out, data, pos + 4, pos + 4 + len);
        proof {
            let next = pos + 4 + len;
            match avcc_units_from(data@, next as int) {
                Ok(rest) => {
                    lemma_annex_b_cons(unit, rest);
                    assert(old_out + (start_code() + unit + annex_b(rest)) =~= out@ + annex_b(
                        rest,
                    ));
                },
                Err(e) => {},
            }
        }
        pos = pos + 4 + len;
    }
    assert(out@ + annex_b(Seq::empty()) =~= out@);
    Ok(out)
}

/// Builds the Annex-B configuration prefix (SPS then PPS) from an
/// AVCDecoderConfigurationRecord.
pub fn parse_h264_config(data: &[u8]) -> (r: Result<Vec<u8>, ConfigError>)
    ensures
        bytes_result(r) == framed(h264_params(data@)),
{
    let n = data.len();
    if n < 8 {
        return Err(ConfigError::Truncated);
    }
    let sps_len = read_be16(data, 6);
    if n - 8 < sps_len || n - 8 - sps_len < 3 {
        return Err(ConfigError::Truncated);
    }
    let pps_at = 8 + sps_len + 1;
    let pps_len = read_be16(data, pps_at);
    if n - pps_at - 2 < pps_len {
        return Err(ConfigError::Truncated);
    }
    let mut cfg: Vec<u8> = Vec::new();
    push_unit(&mut cfg, data, 8, 8 + sps_len);
    push_unit(&mut cfg, data, pps_at + 2, pps_at + 2 + pps_len);
    proof {
        let sps = data@.subrange(8, 8 + sps_len);
        let pps = data@.subrange(pps_at + 2, pps_at + 2 + pps_len);
        let empty = Seq::<Seq<u8>>::empty();
        lemma_annex_b_cons(pps, empty);
        lemma_annex_b_cons(sps, seq![pps] + empty);
        assert(seq![sps, pps] =~= seq![sps] + (seq![pps] + empty));
        assert(annex_b(empty) =~= Seq::<u8>::empty());
        assert(cfg@ =~= start_code() + sps + (start_code() + pps + annex_b(empty)));
    }
    Ok(cfg)
}

/// Builds the Annex-B configuration prefix (every VPS, SPS and PPS, in record
/// order) from an HEVCDecoderConfigurationRecord. A record with fewer than two
/// parameter sets is refused.
pub fn parse_h265_config(data: &[u8]) -> (r: Result<Vec<u8>, ConfigError>)
    ensures
        bytes_result(r) == framed(h265_params(data@)),
{
    let n = data.len();
    if n < 23 {
        return Err(ConfigError::Truncated);
    }
    let mut arrays: u8 = data[22];
    let mut nalus: usize = 0;
    let mut pos: usize = 23;
    let mut cfg: Vec<u8> = Vec::new();
    let mut count: usize = 0;
    proof {
        lemma_after_empty(framed(h265_units(data@)));
        if let Ok(c) = unit_count(h265_units(data@)) {
            assert(0 + c == c);
        }
    }
    while arrays > 0 || nalus > 0
        invariant
            pos <= n,
            n == data@.len(),
            nalus <= 65535,
            count <= pos,
            framed(h265_units(data@)) == after(
                cfg@,
                framed(hevc_units_from(data@, pos as int, arrays as nat, nalus as nat)),
            ),
            unit_count(h265_units(data@)) == count_after(
                count as int,
                unit_count(hevc_units_from(data@, pos as int, arrays as nat, nalus as nat)),
            ),
        decreases arrays, nalus,
    {
        if nalus > 0 {
            if n - pos < 2 {
                return Err(ConfigError::Truncated);
            }
            let len = read_be16(data, pos);
            if n - pos - 2 < len {
                return Err(ConfigError::Truncated);
            }
            let ghost old_cfg = cfg@;
            let ghost unit = data@.subrange(pos + 2, pos + 2 + len);
            push_unit(&mut cfg, data, pos + 2, pos + 2 + len);
            proof {
                let end = pos + 2 + len;
                match hevc_units_from(data@, end as int, arrays as nat, (nalus - 1) as nat) {
                    Ok(rest) => {
                        lemma_annex_b_cons(unit, rest);
                        assert(old_cfg + (start_code() + unit + annex_b(rest)) =~= cfg@ + annex_b(
                            rest,
                        ));
                        assert((seq![unit] + rest).len() == 1 + rest.len());
                    },
                    Err(e) => {},
                }
            }
            pos = pos + 2 + len;
            nalus = nalus - 1;
            count = count + 1;
        } else {
            if n - pos < 3 {
                return Err(ConfigError::Truncated);
            }
            nalus = read_be16(data, pos + 1);
            pos = pos + 3;
            arrays = arrays - 1;
        }
    }
    assert(cfg@ + annex_b(Seq::empty()) =~= cfg@);
    if count < 2 {
        return Err(ConfigError::MissingParameterSets);
    }
    Ok(cfg)
}

/// Whether `s` begins with the four characters `a`, `b`, `c`, `d`.
fn starts_with4(s: &str, a: char, b: char, c: char, d: char) -> (r: bool)
    ensures
        r == has_prefix(s@, seq![a, b, c, d]),
{
    let n = s.unicode_len();
    if n < 4 {
        return false;
    }
    let r = s.get_char(0) == a && s.get_char(1) == b && s.get_char(2) == c && s.get_char(3) == d;
    assert(r == (s@.subrange(0, 4) =~= seq![a, b, c, d]));
    r
}

/// Builds the Annex-B configuration prefix of a stream from its RFC 6381 codec
/// identifier and its decoder configuration record (the "extra data").
pub fn parse_codec_config(codec: &str, extra_data: &[u8]) -> (r: Result<Vec<u8>, ConfigError>)
    ensures
        bytes_result(r) == framed(codec_params(codec@, extra_data@)),
{
    if starts_with4(codec, 'a', 'v', 'c', '1') {
        parse_h264_config(extra_data)
    } else if starts_with4(codec, 'h', 'v', 'c', '1') {
        parse_h265_config(extra_data)
    } else {
        Err(ConfigError::UnsupportedCodec)
    }
}

} // verus!
