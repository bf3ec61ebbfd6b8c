use richmsg::DecodeError;
use richmsg::raw::RawData;
use richmsg::raw::decode_header;

const FILLER0: [u8; 47] = [
    84, 68, 1, 1, 1, 0, 1, 30, 0, 131, 225, 181, 225, 132, 225, 153, 225, 149, 225, 175, 225, 132,
    225, 132, 225, 133, 225, 168, 225, 143, 225, 133, 225, 132, 225, 143, 225, 149, 225, 4, 0, 0,
    0, 1, 0, 0, 0,
];
const FILLER8: [u8; 8] = [0, 1, 0, 4, 82, 204, 245, 208];

/// A minimal envelope: 8 skipped bytes, zeroed fixed fields, an empty font
/// name, 2 pad bytes, then the given record stream.
fn make_envelope(tlv: &[u8]) -> Vec<u8> {
    let mut b = vec![0u8; 28];
    b.extend_from_slice(tlv);
    b
}

fn row(content: Vec<u8>) -> RawData {
    RawData::new(11, 22, 33, content, Vec::new())
}

fn inner_record(inner_type: u8, payload: &[u8]) -> Vec<u8> {
    let mut r = vec![inner_type, (payload.len() & 0xFF) as u8, (payload.len() >> 8) as u8];
    r.extend_from_slice(payload);
    r
}

fn outer_record(outer_type: u8, payload: &[u8]) -> Vec<u8> {
    let mut r = vec![outer_type, (payload.len() & 0xFF) as u8, (payload.len() >> 8) as u8];
    r.extend_from_slice(payload);
    r
}

#[test]
fn short_buffers_truncated() {
    for len in 0..30 {
        let content = vec![0u8; len];
        assert_eq!(row(content).decode().unwrap_err(), DecodeError::Truncated);
    }
}

#[test]
fn header_fields_extracted() {
    let mut b = vec![0u8; 8];
    b.extend_from_slice(&[0x01, 0x02, 0x03, 0x04]); // time, little-endian
    b.extend_from_slice(&[0x01, 0x02, 0x03, 0x04]); // rand, big-endian
    b.extend_from_slice(&[0xFF, 0x01, 0x02, 0x03]); // color, top byte masked
    b.extend_from_slice(&[5, 6, 7, 8]); // font, effect, char set, family
    b.extend_from_slice(&[2, 0]); // name length, little-endian
    b.extend_from_slice(&[0x41, 0x00]); // "A" in UTF-16LE
    b.extend_from_slice(&[0, 0]); // pad
    let (h, start) = decode_header(&b).unwrap();
    assert_eq!(h.time, 0x04030201);
    assert_eq!(h.rand, 0x01020304);
    assert_eq!(h.color_code, 0x00010203);
    assert_eq!(h.font, 5);
    assert_eq!(h.effect, 6);
    assert_eq!(h.char_set, 7);
    assert_eq!(h.font_family, 8);
    assert_eq!(h.font_name, "A");
    assert_eq!(start, 30);
}

#[test]
fn lossy_font_name() {
    let mut b = vec![0u8; 24];
    b.extend_from_slice(&[2, 0]); // name length
    b.extend_from_slice(&[0x00, 0xD8]); // an unpaired surrogate
    b.extend_from_slice(&[0, 0]); // pad
    let (h, _) = decode_header(&b).unwrap();
    assert_eq!(h.font_name, "\u{FFFD}");
}

#[test]
fn single_text_record() {
    // one outer type-1 record holding one UTF-16LE "ok" sub-record
    let inner = inner_record(0x01, &[0x6F, 0x00, 0x6B, 0x00]);
    let content = make_envelope(&outer_record(0x01, &inner));
    let m = row(content).decode().unwrap();
    assert_eq!(m.elements.len(), 1);
    assert_eq!(m.elements[0].render(), "ok");
    assert_eq!(m.anomalies.len(), 0);
}

#[test]
fn utf8_sub_record() {
    let inner = inner_record(0x02, b"hi");
    let content = make_envelope(&outer_record(0x01, &inner));
    let m = row(content).decode().unwrap();
    assert_eq!(m.elements.len(), 1);
    assert_eq!(m.elements[0].render(), "hi");
    // an invalid UTF-8 byte becomes a replacement character, never an error
    let inner = inner_record(0x02, &[0xFF]);
    let content = make_envelope(&outer_record(0x01, &inner));
    let m = row(content).decode().unwrap();
    assert_eq!(m.elements[0].render(), "\u{FFFD}");
}

#[test]
fn mention_sub_record() {
    let inner = inner_record(0x06, &[0, 1, 0, 0, 0, 9, 0, 0, 56, 101, 16, 0, 0]);
    let content = make_envelope(&outer_record(0x01, &inner));
    let m = row(content).decode().unwrap();
    assert_eq!(m.elements.len(), 1);
    assert_eq!(m.elements[0].render(), "@3695888");
    assert_eq!(m.anomalies.len(), 0);
}

#[test]
fn mention_sub_record_bad_size_is_anomaly() {
    // a 12-byte mention payload is diagnostic, not fatal
    let inner = inner_record(0x06, &[0u8; 12]);
    let content = make_envelope(&outer_record(0x01, &inner));
    let m = row(content).decode().unwrap();
    assert_eq!(m.elements.len(), 0);
    assert_eq!(m.anomalies.len(), 1);
    assert_eq!(m.anomalies[0].outer_type, 0x01);
    assert_eq!(m.anomalies[0].inner_type, 0x06);
    assert_eq!(m.anomalies[0].declared_len, 12);
    assert_eq!(m.anomalies[0].raw, vec![0u8; 12]);
}

#[test]
fn filler_blocks_matched() {
    let mut inner = inner_record(0x00, &FILLER0);
    inner.extend_from_slice(&inner_record(0x08, &FILLER8));
    let content = make_envelope(&outer_record(0x01, &inner));
    let m = row(content).decode().unwrap();
    assert_eq!(m.elements.len(), 0);
    assert_eq!(m.anomalies.len(), 0);
}

#[test]
fn filler_mismatch_is_anomaly() {
    let mut wrong0 = FILLER0;
    wrong0[3] = 99;
    let mut inner = inner_record(0x00, &wrong0);
    let mut wrong8 = FILLER8;
    wrong8[0] = 9;
    inner.extend_from_slice(&inner_record(0x08, &wrong8));
    let content = make_envelope(&outer_record(0x01, &inner));
    let m = row(content).decode().unwrap();
    assert_eq!(m.elements.len(), 0);
    assert_eq!(m.anomalies.len(), 2);
    assert_eq!(m.anomalies[0].inner_type, 0x00);
    assert_eq!(m.anomalies[1].inner_type, 0x08);
    assert_eq!(m.anomalies[1].raw, wrong8.to_vec());
}

#[test]
fn unknown_sub_type_is_anomaly() {
    let inner = inner_record(0x05, &[1, 2, 3]);
    let content = make_envelope(&outer_record(0x01, &inner));
    let m = row(content).decode().unwrap();
    assert_eq!(m.elements.len(), 0);
    assert_eq!(m.anomalies.len(), 1);
    assert_eq!(m.anomalies[0].outer_type, 0x01);
    assert_eq!(m.anomalies[0].inner_type, 0x05);
    assert_eq!(m.anomalies[0].declared_len, 3);
    assert_eq!(m.anomalies[0].raw, vec![1, 2, 3]);
}

#[test]
fn platform_string_not_surfaced() {
    let inner = inner_record(0x03, &[0x6F, 0x00]);
    let content = make_envelope(&outer_record(0x01, &inner));
    let m = row(content).decode().unwrap();
    assert_eq!(m.elements.len(), 0);
    assert_eq!(m.anomalies.len(), 0);
}

#[test]
fn ordering_preserved() {
    let mut inner = inner_record(0x01, &[0x61, 0x00]); // "a"
    inner.extend_from_slice(&inner_record(0x06, &[0, 0, 0, 0, 0, 0, 1, 0, 0, 0, 0, 0, 0]));
    inner.extend_from_slice(&inner_record(0x01, &[0x62, 0x00])); // "b"
    let content = make_envelope(&outer_record(0x01, &inner));
    let m = row(content).decode().unwrap();
    let rendered: Vec<String> = m.elements.iter().map(|e| e.render()).collect();
    assert_eq!(rendered, vec!["a", "@全体成员(0)", "b"]);
}

#[test]
fn sticker_record_skipped() {
    // present marker, 2 identifier bytes: parsed for bounds, not surfaced
    let content = make_envelope(&outer_record(0x02, &[1, 2, 0, 0xAB, 0xCD]));
    let m = row(content).decode().unwrap();
    assert_eq!(m.elements.len(), 0);
    assert_eq!(m.anomalies.len(), 0);
    // absent marker: skipped silently
    let content = make_envelope(&outer_record(0x02, &[0, 0xFF]));
    assert!(row(content).decode().is_ok());
    // empty payload: marker absent
    let content = make_envelope(&outer_record(0x02, &[]));
    assert!(row(content).decode().is_ok());
}

#[test]
fn sticker_identifier_overrun_truncated() {
    // marker present but the declared identifier length overruns the record
    let content = make_envelope(&outer_record(0x02, &[1, 9, 0, 0xAB]));
    assert_eq!(row(content).decode().unwrap_err(), DecodeError::Truncated);
    // marker present but no room for the length field itself
    let content = make_envelope(&outer_record(0x02, &[1, 9]));
    assert_eq!(row(content).decode().unwrap_err(), DecodeError::Truncated);
}

#[test]
fn unknown_outer_types_skipped() {
    let mut tlv = outer_record(0x03, &[1]);
    tlv.extend_from_slice(&outer_record(0x07, &[0]));
    tlv.extend_from_slice(&outer_record(0x12, &[1, 2, 3]));
    tlv.extend_from_slice(&outer_record(0x1A, &[]));
    tlv.extend_from_slice(&outer_record(0x55, &[1, 2]));
    let content = make_envelope(&tlv);
    let m = row(content).decode().unwrap();
    assert_eq!(m.elements.len(), 0);
    assert_eq!(m.anomalies.len(), 0);
}

#[test]
fn outer_length_overrun_truncated() {
    let content = make_envelope(&[0x01, 200, 0, 0xAA]);
    assert_eq!(row(content).decode().unwrap_err(), DecodeError::Truncated);
}

#[test]
fn inner_length_overrun_truncated() {
    let inner = [0x01u8, 200, 0, 0xAA];
    let content = make_envelope(&outer_record(0x01, &inner));
    assert_eq!(row(content).decode().unwrap_err(), DecodeError::Truncated);
}

#[test]
fn every_truncation_point_reports_truncated() {
    let inner = inner_record(0x01, &[0x6F, 0x00, 0x6B, 0x00]);
    let full = make_envelope(&outer_record(0x01, &inner));
    assert!(row(full.clone()).decode().is_ok());
    for len in 0..full.len() {
        let content = full[..len].to_vec();
        assert_eq!(row(content).decode().unwrap_err(), DecodeError::Truncated);
    }
}

#[test]
fn decode_is_repeatable() {
    let mut inner = inner_record(0x01, &[0x6F, 0x00, 0x6B, 0x00]);
    inner.extend_from_slice(&inner_record(0x05, &[7]));
    let data = row(make_envelope(&outer_record(0x01, &inner)));
    let first = data.decode().unwrap();
    let second = data.decode().unwrap();
    assert_eq!(first, second);
}

#[test]
fn empty_stream_after_header() {
    // a 2-byte font name brings the header to the 30-byte minimum
    let mut content = vec![0u8; 24];
    content.extend_from_slice(&[2, 0]); // name length
    content.extend_from_slice(&[0x41, 0x00]); // "A"
    content.extend_from_slice(&[0, 0]); // pad
    let m = row(content).decode().unwrap();
    assert_eq!(m.elements.len(), 0);
    assert_eq!(m.anomalies.len(), 0);
    assert_eq!(m.header.time, 0);
}

#[test]
fn header_name_overrun_truncated() {
    // a declared font-name length that overruns the buffer
    let mut b = vec![0u8; 24];
    b.extend_from_slice(&[100, 0]); // name length far past the end
    b.extend_from_slice(&[0, 0, 0, 0]);
    assert_eq!(decode_header(&b).unwrap_err(), DecodeError::Truncated);
}

#[test]
fn empty_text_segment() {
    // an outer type-1 record with an empty payload holds no sub-records
    let content = make_envelope(&outer_record(0x01, &[]));
    let m = row(content).decode().unwrap();
    assert_eq!(m.elements.len(), 0);
    assert_eq!(m.anomalies.len(), 0);
}

#[test]
fn raw_data_fields_kept() {
    let data = RawData::new(1, 2, 3, vec![4, 5], vec![6]);
    assert_eq!(data.time, 1);
    assert_eq!(data.rand, 2);
    assert_eq!(data.sender_uin, 3);
    assert_eq!(data.msg_content, vec![4, 5]);
    assert_eq!(data.info, vec![6]);
}
