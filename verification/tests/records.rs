use sekonic::bytes::{Binary32, HVec};
use sekonic::capture_data::CaptureData;
use sekonic::capture_info::CaptureInfo;
use sekonic::error::{DecodeError, Error, Fault, FramingError};
use sekonic::records::{parse_global_capture_id, StorageInfoResp, TitleInfo};
use sekonic::schema::Tag;

fn f32_field(out: &mut Vec<u8>, v: f32) {
    out.extend_from_slice(&v.to_be_bytes());
    out.push(b',');
}

fn f64_field(out: &mut Vec<u8>, v: f64) {
    out.extend_from_slice(&v.to_be_bytes());
    out.push(b',');
}

fn text_field(out: &mut Vec<u8>, v: &[u8]) {
    out.extend_from_slice(v);
    out.push(b',');
}

fn spectrum_5nm(i: usize) -> f32 {
    0.001 * i as f32
}

fn spectrum_1nm(i: usize) -> f32 {
    if i == 175 {
        44.0
    } else {
        0.25 * i as f32
    }
}

// A measurement record with a known value in every field, and the offset of
// each field in it.
fn mrb_payload(tail: &[u8]) -> (Vec<u8>, Vec<usize>) {
    let mut p: Vec<u8> = b"MRB@@".to_vec();
    let mut at: Vec<usize> = Vec::new();
    at.push(p.len());
    text_field(&mut p, b"00");
    at.push(p.len());
    text_field(&mut p, b"Studio\0\0\0\0\0\0\0\0\0\0");
    for v in [&b"6"[..], b"0", b"00", b"0"] {
        at.push(p.len());
        text_field(&mut p, v);
    }
    at.push(p.len());
    text_field(&mut p, b"\0\0\0\0");
    at.push(p.len());
    text_field(&mut p, b"0");
    at.push(p.len());
    text_field(&mut p, b"\0\0");
    at.push(p.len());
    text_field(&mut p, b"1");
    at.push(p.len());
    f32_field(&mut p, 5600.0);
    at.push(p.len());
    f32_field(&mut p, -0.0012);
    at.push(p.len());
    text_field(&mut p, b"3");
    for v in [&b"a"[..], b"", b"\xff\xfe", b"d", b"ee", b"\0"] {
        at.push(p.len());
        text_field(&mut p, v);
    }
    at.push(p.len());
    f32_field(&mut p, 1234.5);
    at.push(p.len());
    f32_field(&mut p, 114.7);
    for v in [95.047f64, 100.0, 108.883] {
        at.push(p.len());
        f64_field(&mut p, v);
    }
    for v in [0.3127f32, 0.329, 0.1978, 7.0, 8.0, 0.4683, 555.0, 12.5, 97.25] {
        at.push(p.len());
        f32_field(&mut p, v);
    }
    for i in 0..15 {
        at.push(p.len());
        f32_field(&mut p, 80.0 + i as f32);
    }
    at.push(p.len());
    for i in 0..81 {
        p.extend_from_slice(&spectrum_5nm(i).to_be_bytes());
    }
    p.push(b',');
    at.push(p.len());
    for i in 0..401 {
        p.extend_from_slice(&spectrum_1nm(i).to_be_bytes());
    }
    p.push(b',');
    for v in [&b"1"[..], b"22", b"333", b"4444"] {
        at.push(p.len());
        text_field(&mut p, v);
    }
    for v in [0.5f32, -0.5] {
        at.push(p.len());
        f32_field(&mut p, v);
    }
    at.push(p.len());
    p.extend_from_slice(&321.0f32.to_be_bytes());
    p.extend_from_slice(tail);
    (p, at)
}

fn meb_cell(row: usize, col: usize) -> f32 {
    row as f32 + 0.125 * col as f32
}

// A secondary record with a known value in every field, and the offset of
// each field in it.
fn meb_payload() -> (Vec<u8>, Vec<usize>) {
    let mut p: Vec<u8> = b"MEB@@".to_vec();
    let mut at: Vec<usize> = Vec::new();
    for v in [91.0f32, 102.0] {
        at.push(p.len());
        f32_field(&mut p, v);
    }
    for row in 0..16 {
        for col in 0..4 {
            at.push(p.len());
            f32_field(&mut p, meb_cell(row, col));
        }
    }
    for v in [77.0f32, 66.0] {
        at.push(p.len());
        f32_field(&mut p, v);
    }
    at.push(p.len());
    text_field(&mut p, b"3");
    at.push(p.len());
    f32_field(&mut p, 4.0);
    at.push(p.len());
    text_field(&mut p, b"5");
    at.push(p.len());
    f32_field(&mut p, 6.0);
    at.push(p.len());
    f32_field(&mut p, 98.0);
    at.push(p.len());
    text_field(&mut p, b"8");
    for v in [9.0f32, 9.5, 9.75] {
        at.push(p.len());
        f32_field(&mut p, v);
    }
    at.push(p.len());
    text_field(&mut p, b"10");
    at.push(p.len());
    p.extend_from_slice(b"11");
    (p, at)
}

fn field_fault(tag: Tag, field: usize, offset: usize, fault: Fault) -> Error {
    Error::Decode(DecodeError { tag, field, offset, fault })
}

#[test]
fn storage_info_decodes() {
    assert_eq!(
        StorageInfoResp::parse(b"MIB@@007,0002,0001"),
        Ok(StorageInfoResp { _unk1: 7, num_captures: 2, num_titles: 1 })
    );
}

#[test]
fn storage_info_ignores_what_follows() {
    assert_eq!(
        StorageInfoResp::parse(b"MIB@@1,2,3,more,fields"),
        Ok(StorageInfoResp { _unk1: 1, num_captures: 2, num_titles: 3 })
    );
}

#[test]
fn storage_info_rejects_another_tag() {
    let e = Error::Framing(FramingError::TagMismatch(Tag::Mib));
    assert_eq!(StorageInfoResp::parse(b"GTB@@007,0002,0001"), Err(e));
    assert_eq!(StorageInfoResp::parse(b"MIB@007,0002,0001"), Err(e));
    assert_eq!(StorageInfoResp::parse(b"MIB"), Err(e));
    assert_eq!(StorageInfoResp::parse(b""), Err(e));
}

#[test]
fn storage_info_reports_the_first_bad_field() {
    assert_eq!(
        StorageInfoResp::parse(b"MIB@@007,x,y"),
        Err(field_fault(Tag::Mib, 1, 9, Fault::Number))
    );
    assert_eq!(
        StorageInfoResp::parse(b"MIB@@007,0002"),
        Err(field_fault(Tag::Mib, 2, 13, Fault::Number))
    );
    assert_eq!(StorageInfoResp::parse(b"MIB@@"), Err(field_fault(Tag::Mib, 0, 5, Fault::Number)));
    assert_eq!(
        StorageInfoResp::parse(b"MIB@@1,2,4294967296"),
        Err(field_fault(Tag::Mib, 2, 9, Fault::Number))
    );
}

#[test]
fn title_info_decodes() {
    assert_eq!(
        TitleInfo::parse(b"GTB@@Studio\0\0\0\0,0003"),
        Ok(TitleInfo { name: "Studio".to_string(), num_captures: 3 })
    );
    assert_eq!(
        TitleInfo::parse(b"GTB@@,0"),
        Ok(TitleInfo { name: String::new(), num_captures: 0 })
    );
}

#[test]
fn title_info_reports_the_first_bad_field() {
    assert_eq!(
        TitleInfo::parse(b"GTB@@St\xffdio,0003"),
        Err(field_fault(Tag::Gtb, 0, 5, Fault::Text))
    );
    assert_eq!(
        TitleInfo::parse(b"GTB@@Studio,three"),
        Err(field_fault(Tag::Gtb, 1, 12, Fault::Number))
    );
    assert_eq!(
        TitleInfo::parse(b"MIB@@Studio,3"),
        Err(Error::Framing(FramingError::TagMismatch(Tag::Gtb)))
    );
}

#[test]
fn global_capture_id_decodes() {
    assert_eq!(parse_global_capture_id(b"GAB@@0042"), Ok(42));
    assert_eq!(parse_global_capture_id(b"GAB@@17,anything"), Ok(17));
}

#[test]
fn global_capture_id_reports_failure() {
    assert_eq!(
        parse_global_capture_id(b"GAB@@"),
        Err(field_fault(Tag::Gab, 0, 5, Fault::Number))
    );
    assert_eq!(
        parse_global_capture_id(b"GTB@@0042"),
        Err(Error::Framing(FramingError::TagMismatch(Tag::Gab)))
    );
}

#[test]
fn capture_info_decodes_every_field() {
    let (payload, _) = mrb_payload(b",tail1,,\x01\x02,");
    let ci = CaptureInfo::parse(&payload).unwrap();
    assert_eq!(ci.unk0, 0);
    assert_eq!(ci.title, "Studio");
    assert_eq!((ci.unk1, ci.unk2, ci.unk3, ci.unk4), (6, 0, 0, 0));
    assert_eq!(ci.unk5, HVec(vec![0, 0, 0, 0]));
    assert_eq!(ci.unk6, 0);
    assert_eq!(ci.unk7, HVec(vec![0, 0]));
    assert_eq!(ci.unk8, 1);
    assert_eq!(f32::from_bits(ci.cct_k.bits), 5600.0);
    assert_eq!(f32::from_bits(ci.uv_angle.bits), -0.0012);
    assert_eq!(ci.unk11, 3);
    let unks: Vec<Vec<u8>> = ci.unks.iter().map(|h| h.0.clone()).collect();
    assert_eq!(
        unks,
        vec![b"a".to_vec(), b"".to_vec(), b"\xff\xfe".to_vec(), b"d".to_vec(), b"ee".to_vec(), b"\0".to_vec()]
    );
    assert_eq!(f32::from_bits(ci.illum_lx.bits), 1234.5);
    assert_eq!(f32::from_bits(ci.illum_fc.bits), 114.7);
    assert_eq!(f64::from_bits(ci.tristimulus_x.bits), 95.047);
    assert_eq!(f64::from_bits(ci.tristimulus_y.bits), 100.0);
    assert_eq!(f64::from_bits(ci.tristimulus_z.bits), 108.883);
    assert_eq!(f32::from_bits(ci.cie1931_x.bits), 0.3127);
    assert_eq!(f32::from_bits(ci.cie1931_y.bits), 0.329);
    assert_eq!(f32::from_bits(ci.cie1976_up.bits), 0.1978);
    assert_eq!(f32::from_bits(ci.unk12.bits), 7.0);
    assert_eq!(f32::from_bits(ci.unk13.bits), 8.0);
    assert_eq!(f32::from_bits(ci.cie1976_vp.bits), 0.4683);
    assert_eq!(f32::from_bits(ci.dominant_wavelength.bits), 555.0);
    assert_eq!(f32::from_bits(ci.purity.bits), 12.5);
    assert_eq!(f32::from_bits(ci.cri_ra.bits), 97.25);
    for i in 0..15 {
        assert_eq!(f32::from_bits(ci.cri[i].bits), 80.0 + i as f32);
    }
    for i in 0..81 {
        assert_eq!(f32::from_bits(ci.spectral_data_5nm[i].bits), spectrum_5nm(i));
    }
    for i in 0..401 {
        assert_eq!(f32::from_bits(ci.spectral_data_1nm[i].bits), spectrum_1nm(i));
    }
    assert_eq!(ci.unk14, [1, 22, 333, 4444]);
    assert_eq!(f32::from_bits(ci.unk15[0].bits), 0.5);
    assert_eq!(f32::from_bits(ci.unk15[1].bits), -0.5);
    assert_eq!(f32::from_bits(ci.ppfd.bits), 321.0);
    assert_eq!(ci.remaining, vec![HVec(b"tail1".to_vec()), HVec(vec![1, 2])]);
}

#[test]
fn capture_info_without_a_tail() {
    let (payload, _) = mrb_payload(b"");
    let ci = CaptureInfo::parse(&payload).unwrap();
    assert_eq!(f32::from_bits(ci.ppfd.bits), 321.0);
    assert_eq!(ci.remaining, Vec::<HVec>::new());
}

#[test]
fn capture_info_keeps_raw_fields_byte_for_byte() {
    let (payload, at) = mrb_payload(b",\x00\xff\x80");
    let ci = CaptureInfo::parse(&payload).unwrap();
    assert_eq!(ci.unks[2].0, payload[at[15]..at[15] + 2].to_vec());
    assert_eq!(ci.remaining, vec![HVec(vec![0x00, 0xff, 0x80])]);
}

#[test]
fn capture_info_rejects_another_tag() {
    let (mut payload, _) = mrb_payload(b"");
    payload[1] = b'E';
    assert_eq!(
        CaptureInfo::parse(&payload),
        Err(Error::Framing(FramingError::TagMismatch(Tag::Mrb)))
    );
}

#[test]
fn capture_info_is_all_or_nothing() {
    let (payload, at) = mrb_payload(b"");
    assert_eq!(at.len(), 57);
    // Cut the payload inside each field in turn. Where the cut leaves a field
    // that still reads, the next one is reported.
    let cut = &payload[..at[10] + 3];
    assert_eq!(CaptureInfo::parse(cut), Err(field_fault(Tag::Mrb, 10, at[10], Fault::Width)));
    let cut = &payload[..at[22] + 7];
    assert_eq!(CaptureInfo::parse(cut), Err(field_fault(Tag::Mrb, 22, at[22], Fault::Width)));
    let cut = &payload[..at[48] + 323];
    assert_eq!(CaptureInfo::parse(cut), Err(field_fault(Tag::Mrb, 48, at[48], Fault::Width)));
    let cut = &payload[..at[49] + 1000];
    assert_eq!(CaptureInfo::parse(cut), Err(field_fault(Tag::Mrb, 49, at[49], Fault::Width)));
    let cut = &payload[..at[50]];
    assert_eq!(CaptureInfo::parse(cut), Err(field_fault(Tag::Mrb, 50, at[50], Fault::Number)));
    let cut = &payload[..payload.len() - 1];
    assert_eq!(CaptureInfo::parse(cut), Err(field_fault(Tag::Mrb, 56, at[56], Fault::Width)));
}

#[test]
fn capture_info_reports_a_binary_field_without_its_comma() {
    let (mut payload, at) = mrb_payload(b"");
    payload[at[11] - 1] = b';';
    assert_eq!(
        CaptureInfo::parse(&payload),
        Err(field_fault(Tag::Mrb, 10, at[10], Fault::Width))
    );
}

#[test]
fn capture_info_reports_a_bad_number_and_a_bad_title() {
    let (mut payload, at) = mrb_payload(b"");
    payload[at[12]] = b'x';
    assert_eq!(
        CaptureInfo::parse(&payload),
        Err(field_fault(Tag::Mrb, 12, at[12], Fault::Number))
    );
    payload[at[1]] = 0xff;
    assert_eq!(CaptureInfo::parse(&payload), Err(field_fault(Tag::Mrb, 1, at[1], Fault::Text)));
}

#[test]
fn capture_data_decodes_every_field() {
    let (payload, at) = meb_payload();
    assert_eq!(at.len(), 79);
    let cd = CaptureData::parse(&payload).unwrap();
    assert_eq!(f32::from_bits(cd.tm_30_rf.bits), 91.0);
    assert_eq!(f32::from_bits(cd.tm_30_rg.bits), 102.0);
    for row in 0..16 {
        for col in 0..4 {
            assert_eq!(f32::from_bits(cd.illuminants[row][col].bits), meb_cell(row, col));
        }
    }
    assert_eq!(f32::from_bits(cd.ssit.bits), 77.0);
    assert_eq!(f32::from_bits(cd.ssid.bits), 66.0);
    assert_eq!(cd.unk3, 3);
    assert_eq!(cd.unk4, Binary32 { bits: 4.0f32.to_bits() });
    assert_eq!(cd.unk5, 5);
    assert_eq!(f32::from_bits(cd.unk6.bits), 6.0);
    assert_eq!(f32::from_bits(cd.tlci.bits), 98.0);
    assert_eq!(cd.unk8, 8);
    assert_eq!(
        [f32::from_bits(cd.unk9[0].bits), f32::from_bits(cd.unk9[1].bits), f32::from_bits(cd.unk9[2].bits)],
        [9.0, 9.5, 9.75]
    );
    assert_eq!(cd.unk10, 10);
    assert_eq!(cd.unk11, 11);
}

#[test]
fn capture_data_ignores_what_follows() {
    let (mut payload, _) = meb_payload();
    let plain = CaptureData::parse(&payload).unwrap();
    payload.extend_from_slice(b",more,\xff\xff");
    assert_eq!(CaptureData::parse(&payload), Ok(plain));
}

#[test]
fn capture_data_is_all_or_nothing() {
    let (payload, at) = meb_payload();
    let cut = &payload[..at[40] + 2];
    assert_eq!(CaptureData::parse(cut), Err(field_fault(Tag::Meb, 40, at[40], Fault::Width)));
    let cut = &payload[..at[68]];
    assert_eq!(CaptureData::parse(cut), Err(field_fault(Tag::Meb, 68, at[68], Fault::Number)));
    let cut = &payload[..at[78]];
    assert_eq!(CaptureData::parse(cut), Err(field_fault(Tag::Meb, 78, at[78], Fault::Number)));
    let mut other = payload.clone();
    other[2] = b'X';
    assert_eq!(
        CaptureData::parse(&other),
        Err(Error::Framing(FramingError::TagMismatch(Tag::Meb)))
    );
}

#[test]
fn tag_names() {
    assert_eq!(Tag::Mib.name(), "MIB");
    assert_eq!(Tag::Gtb.name(), "GTB");
    assert_eq!(Tag::Gab.name(), "GAB");
    assert_eq!(Tag::Mrb.name(), "MRB");
    assert_eq!(Tag::Meb.name(), "MEB");
}
