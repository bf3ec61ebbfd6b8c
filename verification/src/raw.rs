use vstd::prelude::*;

use crate::DecodeError;
use crate::bytes::be32_masked_at;
use crate::bytes::be32_at;
use crate::bytes::le16_at;
use crate::bytes::le32_at;
use crate::bytes::read_u16_le;
use crate::bytes::read_u32_be;
use crate::bytes::read_u32_be_masked;
use crate::bytes::read_u32_le;
use crate::bytes::utf16_lossy;
use crate::bytes::utf16le_units;
use crate::bytes::utf16le_lossy_string;
use crate::elements::ElemModel;
use crate::elements::TextElement;
use vstd::slice::slice_subrange;
use vstd::slice::slice_to_vec;

verus! {

/// One raw message row as read from storage: four scalar columns and two
/// byte blobs. `msg_content` is the encoded envelope; `info` is carried
/// through opaquely.
#[derive(Debug, Clone, PartialEq, Eq)]
pub struct RawData {
    /// Time: INTEGER
    pub time: i64,
    /// Rand: INTEGER
    pub rand: i64,
    /// SenderUin: INTEGER
    pub sender_uin: i64,
    /// MsgContent: BLOB
    pub msg_content: Vec<u8>,
    /// Info: BLOB
    pub info: Vec<u8>,
}

/// The scalar metadata of the fixed-layout envelope header, plus the font
/// name it carries as UTF-16LE text.
#[derive(Debug, Clone, PartialEq, Eq)]
pub struct DecodedHeader {
    pub time: u32,
    pub rand: u32,
    pub color_code: u32,
    pub font: u8,
    pub effect: u8,
    pub char_set: u8,
    pub font_family: u8,
    pub font_name: String,
}

/// Mathematical model of a decoded header.
#[verifier::ext_equal]
pub struct HeaderModel {
    pub time: u32,
    pub rand: u32,
    pub color_code: u32,
    pub font: u8,
    pub effect: u8,
    pub char_set: u8,
    pub font_family: u8,
    pub font_name: Seq<char>,
}

impl View for DecodedHeader {
    type V = HeaderModel;

    open spec fn view(&self) -> HeaderModel {
        HeaderModel {
            time: self.time,
            rand: self.rand,
            color_code: self.color_code,
            font: self.font,
            effect: self.effect,
            char_set: self.char_set,
            font_family: self.font_family,
            font_name: self.font_name@,
        }
    }
}

/// A diagnostic record for a length-delimited record whose content the
/// decoder cannot classify; emitted, never fatal.
#[derive(Debug, Clone, PartialEq, Eq)]
pub struct Anomaly {
    pub outer_type: u8,
    pub inner_type: u8,
    pub declared_len: u16,
    pub raw: Vec<u8>,
}

/// Mathematical model of an anomaly record.
#[verifier::ext_equal]
pub struct AnomalyModel {
    pub outer_type: u8,
    pub inner_type: u8,
    pub declared_len: u16,
    pub raw: Seq<u8>,
}

impl View for Anomaly {
    type V = AnomalyModel;

    open spec fn view(&self) -> AnomalyModel {
        AnomalyModel {
            outer_type: self.outer_type,
            inner_type: self.inner_type,
            declared_len: self.declared_len,
            raw: self.raw@,
        }
    }
}

pub open spec fn anom(outer_type: u8, inner_type: u8, declared_len: u16, raw: Seq<u8>) -> AnomalyModel {
    AnomalyModel { outer_type, inner_type, declared_len, raw }
}

/// The header occupies an 8-byte skipped prefix and 22 further bytes at
/// least: embedded time (4, little-endian), embedded rand (4, big-endian),
/// the masked color field (4), four single-byte codes, the 16-bit name
/// length, the name bytes themselves, and 2 trailing pad bytes. The
/// nested record stream begins right after the pad.
pub open spec fn header_model(b: Seq<u8>) -> Option<(HeaderModel, int)> {
    if b.len() < 30 {
        None
    } else {
        let name_len = le16_at(b, 24) as int;
        if 28 + name_len > b.len() {
            None
        } else {
            Some(
                (
                    HeaderModel {
                        time: le32_at(b, 8),
                        rand: be32_at(b, 12),
                        color_code: be32_masked_at(b, 16),
                        font: b[20],
                        effect: b[21],
                        char_set: b[22],
                        font_family: b[23],
                        font_name: utf16_lossy(utf16le_units(b.subrange(26, 26 + name_len))),
                    },
                    28 + name_len,
                ),
            )
        }
    }
}

/// Decodes the fixed-layout header of the envelope and returns it together
/// with the cursor where the record stream begins.
pub fn decode_header(b: &[u8]) -> (r: Result<(DecodedHeader, usize), DecodeError>)
    ensures
        match header_model(b@) {
            Some((h, start)) => r matches Ok((hdr, pos)) && hdr@ == h && pos == start,
            None => r matches Err(e) && e == DecodeError::Truncated,
        },
{
    let n = b.len();
    if n < 30 {
        return Err(DecodeError::Truncated);
    }
    let time = read_u32_le(b, 8);
    let rand = read_u32_be(b, 12);
    let color_code = read_u32_be_masked(b, 16);
    let font = b[20];
    let effect = b[21];
    let char_set = b[22];
    let font_family = b[23];
    let name_len = read_u16_le(b, 24) as usize;
    if n - 28 < name_len {
        return Err(DecodeError::Truncated);
    }
    let name_bytes = slice_subrange(b, 26, 26 + name_len);
    let font_name = utf16le_lossy_string(name_bytes);
    let header = DecodedHeader { time, rand, color_code, font, effect, char_set, font_family, font_name };
    Ok((header, 28 + name_len))
}

/// A buffer shorter than the 8-byte prefix plus the 22 fixed header bytes
/// cannot hold the header: decoding reports truncation, never a fault.
pub proof fn lemma_short_buffer_truncated(b: Seq<u8>)
    requires
        b.len() < 30,
    ensures
        header_model(b) is None,
        decode_model(b) is None,
{
}

/// The known 47-byte filler block that inner type-0 records normally carry.
pub open spec fn filler_text0() -> Seq<u8> {
    seq![
        84u8, 68, 1, 1, 1, 0, 1, 30, 0, 131, 225, 181, 225, 132, 225, 153, 225, 149, 225, 175,
        225, 132, 225, 132, 225, 133, 225, 168, 225, 143, 225, 133, 225, 132, 225, 143, 225, 149,
        225, 4, 0, 0, 0, 1, 0, 0, 0,
    ]
}

/// The known 8-byte filler block that inner type-8 records normally carry.
pub open spec fn filler_text8() -> Seq<u8> {
    seq![0u8, 1, 0, 4, 82, 204, 245, 208]
}

fn filler_text0_bytes() -> (r: Vec<u8>)
    ensures
        r@ == filler_text0(),
{
    let v: Vec<u8> = vec![
        84u8, 68, 1, 1, 1, 0, 1, 30, 0, 131, 225, 181, 225, 132, 225, 153, 225, 149, 225, 175,
        225, 132, 225, 132, 225, 133, 225, 168, 225, 143, 225, 133, 225, 132, 225, 143, 225, 149,
        225, 4, 0, 0, 0, 1, 0, 0, 0,
    ];
    proof {
        assert(v@ =~= filler_text0());
    }
    v
}

fn filler_text8_bytes() -> (r: Vec<u8>)
    ensures
        r@ == filler_text8(),
{
    let v: Vec<u8> = vec![0u8, 1, 0, 4, 82, 204, 245, 208];
    proof {
        assert(v@ =~= filler_text8());
    }
    v
}

fn bytes_equal(a: &[u8], b: &[u8]) -> (r: bool)
    ensures
        r == (a@ == b@),
{
    let n = a.len();
    if n != b.len() {
        return false;
    }
    let mut i: usize = 0;
    while i < n
        invariant
            i <= n,
            n == a@.len(),
            a@.len() == b@.len(),
            forall|k: int| 0 <= k < i ==> a@[k] == b@[k],
        decreases n - i,
    {
        if a[i] != b[i] {
            return false;
        }
        i = i + 1;
    }
    proof {
        assert(a@ =~= b@);
    }
    true
}

fn mk_anomaly(outer_type: u8, inner_type: u8, declared_len: u16, raw: &[u8]) -> (r: Anomaly)
    ensures
        r@ == anom(outer_type, inner_type, declared_len, raw@),
{
    Anomaly { outer_type, inner_type, declared_len, raw: slice_to_vec(raw) }
}

/// The element views of a sequence of elements.
pub open spec fn elems_view(s: Seq<TextElement>) -> Seq<ElemModel> {
    Seq::new(s.len(), |i: int| s[i]@)
}

/// The anomaly views of a sequence of anomaly records.
pub open spec fn anoms_view(s: Seq<Anomaly>) -> Seq<AnomalyModel> {
    Seq::new(s.len(), |i: int| s[i]@)
}

/// Prepends already-produced elements and anomalies to the outcome of the
/// rest of a record stream; a truncation in the rest is final.
pub open spec fn combine(
    es: Seq<ElemModel>,
    ans: Seq<AnomalyModel>,
    rest: Option<(Seq<ElemModel>, Seq<AnomalyModel>)>,
) -> Option<(Seq<ElemModel>, Seq<AnomalyModel>)> {
    match rest {
        None => None,
        Some((es2, ans2)) => Some((es + es2, ans + ans2)),
    }
}

/// What one inner sub-record of a text segment contributes: `t` is its type
/// byte, `l` its declared length, `sub` its payload.
pub open spec fn inner_record_model(t: u8, l: u16, sub: Seq<u8>) -> (Seq<ElemModel>, Seq<
    AnomalyModel,
>) {
    if t == 0x00 {
        // A fixed filler block: a mismatch is diagnostic, not fatal.
        if sub == filler_text0() {
            (seq![], seq![])
        } else {
            (seq![], seq![anom(0x01, t, l, sub)])
        }
    } else if t == 0x01 {
        // A UTF-16LE text run.
        (seq![ElemModel::Text(utf16_lossy(utf16le_units(sub)))], seq![])
    } else if t == 0x02 {
        // A UTF-8 byte run.
        (seq![ElemModel::Text(crate::bytes::utf8_lossy(sub))], seq![])
    } else if t == 0x03 {
        // A UTF-16LE platform constant: non-essential metadata, not surfaced.
        (seq![], seq![])
    } else if t == 0x06 {
        // A raw mention payload: best-effort, a bad size is only diagnostic.
        match crate::elements::mention_model(sub) {
            Ok(m) => (seq![m], seq![]),
            Err(_) => (seq![], seq![anom(0x01, t, l, sub)]),
        }
    } else if t == 0x08 {
        // A second fixed filler block, same policy as type 0.
        if sub == filler_text8() {
            (seq![], seq![])
        } else {
            (seq![], seq![anom(0x01, t, l, sub)])
        }
    } else {
        // Unknown sub-type: surfaced as an anomaly, nothing appended.
        (seq![], seq![anom(0x01, t, l, sub)])
    }
}

/// The elements and anomalies of the inner record stream of a text segment
/// from `pos` on, or `None` where a record header or a declared length
/// overruns the payload.
pub open spec fn parse_inner(p: Seq<u8>, pos: int) -> Option<(Seq<ElemModel>, Seq<AnomalyModel>)>
    decreases p.len() - pos,
{
    if pos == p.len() {
        Some((seq![], seq![]))
    } else if pos < 0 || pos + 3 > p.len() {
        None
    } else {
        let t = p[pos];
        let l = le16_at(p, pos + 1);
        let end = pos + 3 + l;
        if end > p.len() {
            None
        } else {
            let step = inner_record_model(t, l, p.subrange(pos + 3, end));
            combine(step.0, step.1, parse_inner(p, end))
        }
    }
}

/// Walks the inner record stream of one outer text-segment record.
fn decode_text_payload(p: &[u8]) -> (r: Result<(Vec<TextElement>, Vec<Anomaly>), DecodeError>)
    ensures
        match parse_inner(p@, 0) {
            Some((es, ans)) => r matches Ok((ev, av)) && elems_view(ev@) == es && anoms_view(av@)
                == ans,
            None => r matches Err(e) && e == DecodeError::Truncated,
        },
{
    let n = p.len();
    let mut elements: Vec<TextElement> = Vec::new();
    let mut anomalies: Vec<Anomaly> = Vec::new();
    let mut pos: usize = 0;
    while pos < n
        invariant
            pos <= n,
            n == p@.len(),
            parse_inner(p@, 0) == combine(
                elems_view(elements@),
                anoms_view(anomalies@),
                parse_inner(p@, pos as int),
            ),
        decreases n - pos,
    {
        let ghost elements0 = elements@;
        let ghost anomalies0 = anomalies@;
        if n - pos < 3 {
            return Err(DecodeError::Truncated);
        }
        let t = p[pos];
        let l16 = read_u16_le(p, pos + 1);
        let l = l16 as usize;
        if n - (pos + 3) < l {
            return Err(DecodeError::Truncated);
        }
        let end = pos + 3 + l;
        let sub = slice_subrange(p, pos + 3, end);
        let ghost step = inner_record_model(t, l16, sub@);
        if t == 0x00 {
            let expected = filler_text0_bytes();
            if !bytes_equal(sub, expected.as_slice()) {
                anomalies.push(mk_anomaly(0x01, t, l16, sub));
            }
        } else if t == 0x01 {
            let text = utf16le_lossy_string(sub);
            elements.push(TextElement::from_text(text));
        } else if t == 0x02 {
            let text = crate::bytes::utf8_lossy_string(sub);
            elements.push(TextElement::from_text(text));
        } else if t == 0x03 {
            // Non-essential platform string: decoded layout is known but it
            // is not part of the visible element sequence.
        } else if t == 0x06 {
            match TextElement::at_from_raw_db(sub) {
                Ok(e) => elements.push(e),
                Err(_) => anomalies.push(mk_anomaly(0x01, t, l16, sub)),
            }
        } else if t == 0x08 {
            let expected = filler_text8_bytes();
            if !bytes_equal(sub, expected.as_slice()) {
                anomalies.push(mk_anomaly(0x01, t, l16, sub));
            }
        } else {
            anomalies.push(mk_anomaly(0x01, t, l16, sub));
        }
        proof {
            assert(elems_view(elements@) =~= elems_view(elements0) + step.0);
            assert(anoms_view(anomalies@) =~= anoms_view(anomalies0) + step.1);
            assert(parse_inner(p@, pos as int) == combine(step.0, step.1, parse_inner(p@, end as int)));
            match parse_inner(p@, end as int) {
                None => {},
                Some((es2, ans2)) => {
                    assert(elems_view(elements0) + (step.0 + es2) =~= (elems_view(elements0)
                        + step.0) + es2);
                    assert(anoms_view(anomalies0) + (step.1 + ans2) =~= (anoms_view(anomalies0)
                        + step.1) + ans2);
                },
            }
        }
        pos = end;
    }
    proof {
        assert(parse_inner(p@, pos as int) == Some((
            Seq::<ElemModel>::empty(),
            Seq::<AnomalyModel>::empty(),
        )));
        assert(elems_view(elements@) + Seq::<ElemModel>::empty() =~= elems_view(elements@));
        assert(anoms_view(anomalies@) + Seq::<AnomalyModel>::empty() =~= anoms_view(anomalies@));
    }
    Ok((elements, anomalies))
}

/// Whether the one-byte presence marker at the front of a payload is set.
pub open spec fn presence_set(p: Seq<u8>) -> bool {
    p.len() >= 1 && p[0] == 1
}

fn presence_marker_set(p: &[u8]) -> (r: bool)
    ensures
        r == presence_set(p@),
{
    p.len() >= 1 && p[0] == 1
}

/// What one outer record contributes: type 1 carries the nested text-segment
/// stream; type 2 (sticker) and the other presence-gated kinds (group image,
/// private image, voice, nickname card, video) surface nothing; unknown types
/// are skipped for forward compatibility. `None` marks a declared inner
/// length that overruns the record.
pub open spec fn outer_record_model(t: u8, p: Seq<u8>) -> Option<(Seq<ElemModel>, Seq<
    AnomalyModel,
>)> {
    if t == 0x01 {
        parse_inner(p, 0)
    } else if t == 0x02 {
        if presence_set(p) {
            if p.len() < 3 {
                None
            } else if 3 + le16_at(p, 1) > p.len() {
                None
            } else {
                Some((seq![], seq![]))
            }
        } else {
            Some((seq![], seq![]))
        }
    } else {
        Some((seq![], seq![]))
    }
}

/// The elements and anomalies of the outer record stream from `pos` on, or
/// `None` where a record header or a declared length overruns the buffer.
pub open spec fn parse_outer(b: Seq<u8>, pos: int) -> Option<(Seq<ElemModel>, Seq<AnomalyModel>)>
    decreases b.len() - pos,
{
    if pos == b.len() {
        Some((seq![], seq![]))
    } else if pos < 0 || pos + 3 > b.len() {
        None
    } else {
        let t = b[pos];
        let l = le16_at(b, pos + 1);
        let end = pos + 3 + l;
        if end > b.len() {
            None
        } else {
            match outer_record_model(t, b.subrange(pos + 3, end)) {
                None => None,
                Some((es, ans)) => combine(es, ans, parse_outer(b, end)),
            }
        }
    }
}

/// What decoding a whole envelope yields: the header, then the elements and
/// anomalies of its record stream, or `None` where any field or declared
/// length overruns the buffer.
pub open spec fn decode_model(b: Seq<u8>) -> Option<(HeaderModel, Seq<ElemModel>, Seq<
    AnomalyModel,
>)> {
    match header_model(b) {
        None => None,
        Some((h, start)) => match parse_outer(b, start) {
            None => None,
            Some((es, ans)) => Some((h, es, ans)),
        },
    }
}

proof fn lemma_elems_view_concat(s1: Seq<TextElement>, s2: Seq<TextElement>)
    ensures
        elems_view(s1 + s2) =~= elems_view(s1) + elems_view(s2),
{
}

proof fn lemma_anoms_view_concat(s1: Seq<Anomaly>, s2: Seq<Anomaly>)
    ensures
        anoms_view(s1 + s2) =~= anoms_view(s1) + anoms_view(s2),
{
}

/// One fully decoded message row: its header, its ordered element sequence,
/// and the diagnostic anomaly records met along the way.
#[derive(Debug, PartialEq, Eq)]
pub struct DecodedMessage {
    pub header: DecodedHeader,
    pub elements: Vec<TextElement>,
    pub anomalies: Vec<Anomaly>,
}

impl RawData {
    pub fn new(time: i64, rand: i64, sender_uin: i64, msg_content: Vec<u8>, info: Vec<u8>) -> (r:
        Self)
        ensures
            r.time == time,
            r.rand == rand,
            r.sender_uin == sender_uin,
            r.msg_content == msg_content,
            r.info == info,
    {
        Self { time, rand, sender_uin, msg_content, info }
    }

    /// Decodes the envelope in `msg_content`: the fixed header, then the
    /// outer record stream with its nested text segments. Any field or
    /// declared length that overruns the buffer yields `Truncated`; content
    /// that merely cannot be classified becomes an anomaly record instead.
    pub fn decode(&self) -> (r: Result<DecodedMessage, DecodeError>)
        ensures
            match decode_model(self.msg_content@) {
                Some((h, es, ans)) => r matches Ok(m) && m.header@ == h && elems_view(m.elements@)
                    == es && anoms_view(m.anomalies@) == ans,
                None => r matches Err(e) && e == DecodeError::Truncated,
            },
    {
        let b = self.msg_content.as_slice();
        let n = b.len();
        let (header, start) = match decode_header(b) {
            Ok(hs) => hs,
            Err(e) => {
                return Err(e);
            },
        };
        let mut elements: Vec<TextElement> = Vec::new();
        let mut anomalies: Vec<Anomaly> = Vec::new();
        let mut pos: usize = start;
        while pos < n
            invariant
                pos <= n,
                n == b@.len(),
                b@ == self.msg_content@,
                header_model(b@) matches Some(hs) && hs.1 == start as int,
                parse_outer(b@, start as int) == combine(
                    elems_view(elements@),
                    anoms_view(anomalies@),
                    parse_outer(b@, pos as int),
                ),
            decreases n - pos,
        {
            let ghost elements0 = elements@;
            let ghost anomalies0 = anomalies@;
            if n - pos < 3 {
                proof {
                    assert(parse_outer(b@, pos as int) is None);
                }
                return Err(DecodeError::Truncated);
            }
            let t = b[pos];
            let l = read_u16_le(b, pos + 1) as usize;
            if n - (pos + 3) < l {
                proof {
                    assert(parse_outer(b@, pos as int) is None);
                }
                return Err(DecodeError::Truncated);
            }
            let end = pos + 3 + l;
            let payload = slice_subrange(b, pos + 3, end);
            let ghost step = outer_record_model(t, payload@);
            if t == 0x01 {
                match decode_text_payload(payload) {
                    Ok((mut ev, mut av)) => {
                        let ghost ev0 = ev@;
                        let ghost av0 = av@;
                        elements.append(&mut ev);
                        anomalies.append(&mut av);
                        proof {
                            lemma_elems_view_concat(elements0, ev0);
                            lemma_anoms_view_concat(anomalies0, av0);
                        }
                    },
                    Err(e) => {
                        return Err(e);
                    },
                }
            } else if t == 0x02 {
                // Sticker record: a presence marker, then a length-prefixed
                // identifier whose bytes must lie inside the record. The
                // identifier itself is not surfaced as an element.
                if presence_marker_set(payload) {
                    if payload.len() < 3 {
                        return Err(DecodeError::Truncated);
                    }
                    let sl = read_u16_le(payload, 1) as usize;
                    if payload.len() - 3 < sl {
                        return Err(DecodeError::Truncated);
                    }
                }
            } else {
                // The other presence-gated kinds carry no structure beyond
                // the marker, and unknown types are skipped silently.
            }
            proof {
                assert(parse_outer(b@, pos as int) == (match step {
                    None => None,
                    Some((es, ans)) => combine(es, ans, parse_outer(b@, end as int)),
                }));
                match step {
                    None => {},
                    Some((es, ans)) => {
                        assert(elems_view(elements@) =~= elems_view(elements0) + es);
                        assert(anoms_view(anomalies@) =~= anoms_view(anomalies0) + ans);
                        match parse_outer(b@, end as int) {
                            None => {},
                            Some((es2, ans2)) => {
                                assert(elems_view(elements0) + (es + es2) =~= (elems_view(
                                    elements0,
                                ) + es) + es2);
                                assert(anoms_view(anomalies0) + (ans + ans2) =~= (anoms_view(
                                    anomalies0,
                                ) + ans) + ans2);
                            },
                        }
                    },
                }
            }
            pos = end;
        }
        proof {
            assert(parse_outer(b@, pos as int) == Some((
                Seq::<ElemModel>::empty(),
                Seq::<AnomalyModel>::empty(),
            )));
            assert(elems_view(elements@) + Seq::<ElemModel>::empty() =~= elems_view(elements@));
            assert(anoms_view(anomalies@) + Seq::<AnomalyModel>::empty() =~= anoms_view(
                anomalies@,
            ));
        }
        Ok(DecodedMessage { header, elements, anomalies })
    }
}

/// Decoding has no hidden state: any two outcomes the decoder's contract
/// allows for one and the same buffer carry an identical header, identical
/// element sequences and identical anomaly records.
pub proof fn lemma_decode_idempotent(
    b: Seq<u8>,
    h1: HeaderModel,
    e1: Seq<ElemModel>,
    a1: Seq<AnomalyModel>,
    h2: HeaderModel,
    e2: Seq<ElemModel>,
    a2: Seq<AnomalyModel>,
)
    requires
        decode_model(b) == Some((h1, e1, a1)),
        decode_model(b) == Some((h2, e2, a2)),
    ensures
        h1 == h2,
        e1 == e2,
        a1 == a2,
{
}

/// A declared outer length that overruns the buffer makes the stream parse
/// report truncation at that record, never a fault.
pub proof fn lemma_outer_overrun_truncates(b: Seq<u8>, pos: int)
    requires
        0 <= pos,
        pos + 3 <= b.len(),
        pos + 3 + le16_at(b, pos + 1) > b.len(),
    ensures
        parse_outer(b, pos) is None,
{
}

/// A declared inner length that overruns a text-segment payload makes the
/// nested parse report truncation at that record, never a fault.
pub proof fn lemma_inner_overrun_truncates(p: Seq<u8>, pos: int)
    requires
        0 <= pos,
        pos + 3 <= p.len(),
        pos + 3 + le16_at(p, pos + 1) > p.len(),
    ensures
        parse_inner(p, pos) is None,
{
}

} // verus!

