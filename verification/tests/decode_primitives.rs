//! The byte-decoder primitives: exact values, and the rule that a
//! too-short buffer yields nothing rather than a partial value.
use gamequery::misc::ByteCursor;
use gamequery::misc::FromBytestream;

#[test]
fn test_u8_insufficient() {
    let mut cur = ByteCursor::new(vec![]);
    assert_eq!(u8::next_data_le(&mut cur), None);
}

#[test]
fn test_bool_insufficient() {
    let mut cur = ByteCursor::new(vec![]);
    assert_eq!(bool::next_data_le(&mut cur), None);
}

#[test]
fn test_i16_insufficient() {
    let mut cur = ByteCursor::new(vec![0x01]);
    assert_eq!(i16::next_data_le(&mut cur), None);
    // the failed read consumed nothing
    assert_eq!(cur.remaining(), 1);
}

#[test]
fn test_i32_insufficient() {
    let mut cur = ByteCursor::new(vec![0x01, 0x02, 0x03]);
    assert_eq!(i32::next_data_le(&mut cur), None);
    assert_eq!(cur.remaining(), 3);
}

#[test]
fn test_u32_insufficient() {
    let mut cur = ByteCursor::new(vec![0x01, 0x02, 0x03]);
    assert_eq!(u32::next_data_le(&mut cur), None);
}

#[test]
fn test_u64_insufficient() {
    let mut cur = ByteCursor::new(vec![0x01, 0x02, 0x03, 0x04, 0x05, 0x06, 0x07]);
    assert_eq!(u64::next_data_le(&mut cur), None);
    assert_eq!(cur.remaining(), 7);
}

#[test]
fn test_u8_value() {
    let mut cur = ByteCursor::new(vec![0xab, 0xcd]);
    assert_eq!(u8::next_data_le(&mut cur), Some(0xab));
    assert_eq!(u8::next_data_le(&mut cur), Some(0xcd));
    assert_eq!(u8::next_data_le(&mut cur), None);
}

#[test]
fn test_bool_values() {
    let mut cur = ByteCursor::new(vec![0x00, 0x01, 0x07]);
    assert_eq!(bool::next_data_le(&mut cur), Some(false));
    assert_eq!(bool::next_data_le(&mut cur), Some(true));
    assert_eq!(bool::next_data_le(&mut cur), Some(true));
}

#[test]
fn test_i16_values() {
    let mut cur = ByteCursor::new(vec![0x34, 0x12, 0xff, 0xff, 0x00, 0x80]);
    assert_eq!(i16::next_data_le(&mut cur), Some(0x1234));
    assert_eq!(i16::next_data_le(&mut cur), Some(-1));
    assert_eq!(i16::next_data_le(&mut cur), Some(i16::MIN));
}

#[test]
fn test_i32_values() {
    let mut cur = ByteCursor::new(vec![0xfe, 0xff, 0xff, 0xff, 0x78, 0x56, 0x34, 0x12]);
    assert_eq!(i32::next_data_le(&mut cur), Some(-2));
    assert_eq!(i32::next_data_le(&mut cur), Some(0x12345678));
}

#[test]
fn test_u32_value() {
    let mut cur = ByteCursor::new(vec![0x78, 0x56, 0x34, 0x12, 0xff, 0xff, 0xff, 0xff]);
    assert_eq!(u32::next_data_le(&mut cur), Some(0x12345678));
    assert_eq!(u32::next_data_le(&mut cur), Some(u32::MAX));
}

#[test]
fn test_u64_value() {
    let mut cur = ByteCursor::new(vec![0xf0, 0xde, 0xbc, 0x9a, 0x78, 0x56, 0x34, 0x12]);
    assert_eq!(u64::next_data_le(&mut cur), Some(0x123456789abcdef0));
}

#[test]
fn test_string_terminated() {
    let mut cur = ByteCursor::new(vec![b'a', b'b', b'c', 0x00, b'd']);
    assert_eq!(String::next_data_le(&mut cur), Some(String::from("abc")));
    // the terminator was consumed, the next field follows directly
    assert_eq!(u8::next_data_le(&mut cur), Some(b'd'));
}

#[test]
fn test_string_unterminated() {
    let mut cur = ByteCursor::new(vec![b'a', b'b', b'c']);
    assert_eq!(String::next_data_le(&mut cur), Some(String::from("abc")));
    assert_eq!(cur.remaining(), 0);
}

#[test]
fn test_string_empty_buffer() {
    let mut cur = ByteCursor::new(vec![]);
    assert_eq!(String::next_data_le(&mut cur), Some(String::new()));
}

#[test]
fn test_string_lossy_repair() {
    // 0xff is never valid UTF-8: it is replaced, not an error
    let mut cur = ByteCursor::new(vec![0xff, b'a', 0x00]);
    assert_eq!(String::next_data_le(&mut cur), Some(String::from("\u{FFFD}a")));
}
