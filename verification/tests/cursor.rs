use sekonic::bytes::{Binary32, Binary64, HVec};
use sekonic::cursor::ParseHelper;
use sekonic::error::{Fault, FieldError};

#[test]
fn bytes_reads_up_to_the_comma() {
    let mut p = ParseHelper::new(b"ab,cd");
    assert_eq!(p.bytes(), b"ab");
    assert_eq!(p.position(), 3);
    assert_eq!(p.bytes(), b"cd");
    assert!(p.is_empty());
    assert_eq!(p.position(), 5);
}

#[test]
fn bytes_on_an_exhausted_cursor_is_empty() {
    let mut p = ParseHelper::new(b"");
    assert_eq!(p.bytes(), b"");
    assert_eq!(p.bytes(), b"");
    assert_eq!(p.position(), 0);
}

#[test]
fn bytes_sees_an_empty_field_between_two_commas() {
    let mut p = ParseHelper::new(b"a,,b,");
    assert_eq!(p.bytes(), b"a");
    assert_eq!(p.bytes(), b"");
    assert_eq!(p.bytes(), b"b");
    assert!(p.is_empty());
}

#[test]
fn bytes_exact_takes_the_field_and_the_comma() {
    let mut p = ParseHelper::new(b"\x01\x02\x03,rest");
    assert_eq!(p.bytes_exact(3), Ok(&b"\x01\x02\x03"[..]));
    assert_eq!(p.position(), 4);
    assert_eq!(p.bytes(), b"rest");
}

#[test]
fn bytes_exact_may_hold_a_comma_inside() {
    let mut p = ParseHelper::new(b",,,,,x");
    assert_eq!(p.bytes_exact(4), Ok(&b",,,,"[..]));
    assert_eq!(p.bytes(), b"x");
}

#[test]
fn bytes_exact_reaches_the_end() {
    let mut p = ParseHelper::new(b"abcd");
    assert_eq!(p.bytes_exact(4), Ok(&b"abcd"[..]));
    assert!(p.is_empty());
    assert_eq!(p.position(), 4);
}

#[test]
fn bytes_exact_of_nothing() {
    let mut p = ParseHelper::new(b"");
    assert_eq!(p.bytes_exact(0), Ok(&b""[..]));
    let mut q = ParseHelper::new(b",x");
    assert_eq!(q.bytes_exact(0), Ok(&b""[..]));
    assert_eq!(q.position(), 1);
    let mut r = ParseHelper::new(b"x");
    assert_eq!(r.bytes_exact(0), Err(FieldError { offset: 0, fault: Fault::Width }));
}

#[test]
fn bytes_exact_fails_when_too_few_bytes_remain() {
    let mut p = ParseHelper::new(b"ab,abc");
    assert_eq!(p.bytes(), b"ab");
    assert_eq!(p.bytes_exact(4), Err(FieldError { offset: 3, fault: Fault::Width }));
    assert_eq!(p.position(), 3);
    assert_eq!(p.bytes_exact(3), Ok(&b"abc"[..]));
}

#[test]
fn bytes_exact_fails_when_no_comma_follows() {
    let mut p = ParseHelper::new(b"abcde");
    assert_eq!(p.bytes_exact(4), Err(FieldError { offset: 0, fault: Fault::Width }));
    assert_eq!(p.position(), 0);
    assert_eq!(p.bytes(), b"abcde");
}

#[test]
fn unsigned_reads_decimal_digits() {
    let mut p = ParseHelper::new(b"007,42,4294967295,0");
    assert_eq!(p.unsigned(), Ok(7));
    assert_eq!(p.unsigned(), Ok(42));
    assert_eq!(p.unsigned(), Ok(4294967295));
    assert_eq!(p.unsigned(), Ok(0));
    assert!(p.is_empty());
}

#[test]
fn unsigned_takes_any_number_of_leading_zeros() {
    let mut p = ParseHelper::new(b"000000000000000000000012");
    assert_eq!(p.unsigned(), Ok(12));
}

#[test]
fn unsigned_rejects_what_needs_more_than_32_bits() {
    let mut p = ParseHelper::new(b"4294967296,99999999999,5");
    assert_eq!(p.unsigned(), Err(FieldError { offset: 0, fault: Fault::Number }));
    assert_eq!(p.unsigned(), Err(FieldError { offset: 11, fault: Fault::Number }));
    assert_eq!(p.unsigned(), Ok(5));
}

#[test]
fn unsigned_rejects_what_is_not_a_digit() {
    for text in [&b"12a"[..], b"", b"-1", b"+1", b" 1", b"1 ", b"0x10", b"1.0", b"\0"] {
        let mut p = ParseHelper::new(text);
        assert_eq!(p.unsigned(), Err(FieldError { offset: 0, fault: Fault::Number }));
        assert!(p.is_empty());
    }
}

#[test]
fn unsigned_consumes_the_field_that_it_rejects() {
    let mut p = ParseHelper::new(b"x,7");
    assert_eq!(p.unsigned(), Err(FieldError { offset: 0, fault: Fault::Number }));
    assert_eq!(p.position(), 2);
    assert_eq!(p.unsigned(), Ok(7));
}

#[test]
fn string_stops_at_the_first_null() {
    let mut p = ParseHelper::new(b"ABC\0garbage");
    assert_eq!(p.string(), Ok("ABC".to_string()));
    assert!(p.is_empty());
}

#[test]
fn string_drops_null_padding() {
    let mut p = ParseHelper::new(b"Title\0\0\0\0,next");
    assert_eq!(p.string(), Ok("Title".to_string()));
    assert_eq!(p.bytes(), b"next");
}

#[test]
fn string_without_null_is_the_whole_field() {
    let mut p = ParseHelper::new("caf\u{e9} \u{2264} \u{1f4a1},x".as_bytes());
    assert_eq!(p.string(), Ok("caf\u{e9} \u{2264} \u{1f4a1}".to_string()));
    assert_eq!(p.bytes(), b"x");
}

#[test]
fn string_may_be_empty() {
    let mut p = ParseHelper::new(b",x");
    assert_eq!(p.string(), Ok(String::new()));
    let mut q = ParseHelper::new(b"\0abc");
    assert_eq!(q.string(), Ok(String::new()));
}

#[test]
fn string_rejects_what_is_not_utf8() {
    let mut p = ParseHelper::new(b"ab\xff,x");
    assert_eq!(p.string(), Err(FieldError { offset: 0, fault: Fault::Text }));
    assert_eq!(p.bytes(), b"x");
}

#[test]
fn string_rejects_bad_bytes_behind_the_null_too() {
    let mut p = ParseHelper::new(b"ab\0\xc3");
    assert_eq!(p.string(), Err(FieldError { offset: 0, fault: Fault::Text }));
}

#[test]
fn float_reads_big_endian() {
    let mut p = ParseHelper::new(b"\x3f\x80\x00\x00,\xc0\x20\x00\x00");
    let a = p.float().unwrap();
    assert_eq!(a, Binary32 { bits: 0x3f80_0000 });
    assert_eq!(f32::from_bits(a.bits), 1.0);
    let b = p.float().unwrap();
    assert_eq!(f32::from_bits(b.bits), -2.5);
    assert!(p.is_empty());
}

#[test]
fn float_fails_on_a_wrong_width() {
    let mut p = ParseHelper::new(b"\x3f\x80\x00\x00\x00,");
    assert_eq!(p.float(), Err(FieldError { offset: 0, fault: Fault::Width }));
    let mut q = ParseHelper::new(b"\x3f\x80\x00");
    assert_eq!(q.float(), Err(FieldError { offset: 0, fault: Fault::Width }));
}

#[test]
fn double_reads_big_endian() {
    let mut bytes = 95.047f64.to_be_bytes().to_vec();
    bytes.push(b',');
    bytes.extend_from_slice(&(-0.0f64).to_be_bytes());
    let mut p = ParseHelper::new(&bytes);
    let a = p.double().unwrap();
    assert_eq!(f64::from_bits(a.bits), 95.047);
    assert_eq!(p.position(), 9);
    let b = p.double().unwrap();
    assert_eq!(b, Binary64 { bits: 0x8000_0000_0000_0000 });
    assert!(p.is_empty());
}

#[test]
fn double_keeps_every_bit() {
    let mut p = ParseHelper::new(b"\x01\x23\x45\x67\x89\xab\xcd\xef");
    assert_eq!(p.double(), Ok(Binary64 { bits: 0x0123_4567_89ab_cdef }));
}

#[test]
fn double_fails_on_a_wrong_width() {
    let mut p = ParseHelper::new(b"\x01\x23\x45\x67\x89\xab\xcd");
    assert_eq!(p.double(), Err(FieldError { offset: 0, fault: Fault::Width }));
}

#[test]
fn float_array_reads_one_field() {
    let mut bytes = Vec::new();
    bytes.extend_from_slice(&1.0f32.to_be_bytes());
    bytes.extend_from_slice(&(-2.5f32).to_be_bytes());
    let mut p = ParseHelper::new(&bytes);
    let a = p.float_array::<2>().unwrap();
    assert_eq!([f32::from_bits(a[0].bits), f32::from_bits(a[1].bits)], [1.0, -2.5]);
    assert_eq!(p.position(), 8);
    assert!(p.is_empty());
}

#[test]
fn float_array_moves_behind_the_comma() {
    let mut bytes = Vec::new();
    bytes.extend_from_slice(&1.0f32.to_be_bytes());
    bytes.extend_from_slice(&(-2.5f32).to_be_bytes());
    bytes.extend_from_slice(b",7");
    let mut p = ParseHelper::new(&bytes);
    let a = p.float_array::<2>().unwrap();
    assert_eq!([f32::from_bits(a[0].bits), f32::from_bits(a[1].bits)], [1.0, -2.5]);
    assert_eq!(p.position(), 9);
    assert_eq!(p.unsigned(), Ok(7));
}

#[test]
fn float_array_takes_commas_inside_the_field() {
    let mut p = ParseHelper::new(b",,,,\x00\x00\x00\x2c,");
    let a = p.float_array::<2>().unwrap();
    assert_eq!(a, [Binary32 { bits: 0x2c2c_2c2c }, Binary32 { bits: 0x2c }]);
    assert!(p.is_empty());
}

#[test]
fn float_array_fails_on_a_wrong_width() {
    let mut p = ParseHelper::new(b"\0\0\0\0\0\0\0\0\0");
    assert_eq!(p.float_array::<2>(), Err(FieldError { offset: 0, fault: Fault::Width }));
    assert_eq!(p.float_array::<3>(), Err(FieldError { offset: 0, fault: Fault::Width }));
    assert_eq!(p.position(), 0);
}

#[test]
fn float_array_of_no_elements() {
    let mut p = ParseHelper::new(b",x");
    let a: [Binary32; 0] = p.float_array::<0>().unwrap();
    assert_eq!(a.len(), 0);
    assert_eq!(p.position(), 1);
}

#[test]
fn collect_remaining_keeps_the_fields_that_are_not_empty() {
    let mut p = ParseHelper::new(b"a,bc,,d,");
    let all = p.collect_remaining();
    assert_eq!(all, vec![HVec(b"a".to_vec()), HVec(b"bc".to_vec()), HVec(b"d".to_vec())]);
    assert!(p.is_empty());
    assert_eq!(p.position(), 8);
}

#[test]
fn collect_remaining_of_nothing() {
    let mut p = ParseHelper::new(b"");
    assert_eq!(p.collect_remaining(), Vec::<HVec>::new());
    let mut q = ParseHelper::new(b",,,");
    assert_eq!(q.collect_remaining(), Vec::<HVec>::new());
    assert!(q.is_empty());
}

#[test]
fn collect_remaining_starts_where_the_cursor_stands() {
    let mut p = ParseHelper::new(b"1,x\xffy,z");
    assert_eq!(p.unsigned(), Ok(1));
    assert_eq!(p.collect_remaining(), vec![HVec(b"x\xffy".to_vec()), HVec(b"z".to_vec())]);
}

#[test]
fn start_checks_tag_and_marker() {
    let mut p = ParseHelper::start(b"MIB@@007,0002", "MIB").unwrap();
    assert_eq!(p.position(), 5);
    assert_eq!(p.unsigned(), Ok(7));
    assert_eq!(p.unsigned(), Ok(2));
    assert!(ParseHelper::start(b"MIB@@", "MIB").unwrap().is_empty());
}

#[test]
fn start_rejects_another_tag_or_marker() {
    assert!(ParseHelper::start(b"MRB@@007", "MIB").is_none());
    assert!(ParseHelper::start(b"MIB@!007", "MIB").is_none());
    assert!(ParseHelper::start(b"MIB!@007", "MIB").is_none());
    assert!(ParseHelper::start(b"mib@@007", "MIB").is_none());
}

#[test]
fn start_rejects_a_payload_that_is_too_short() {
    assert!(ParseHelper::start(b"", "MIB").is_none());
    assert!(ParseHelper::start(b"MI", "MIB").is_none());
    assert!(ParseHelper::start(b"MIB", "MIB").is_none());
    assert!(ParseHelper::start(b"MIB@", "MIB").is_none());
}

#[test]
fn hvec_from_vec_keeps_the_bytes() {
    let h = HVec::from(vec![1u8, 2, 3]);
    assert_eq!(h.0, vec![1u8, 2, 3]);
}
