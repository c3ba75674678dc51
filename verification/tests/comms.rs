use localdrop::comms::{Deserialiser, Encoder, Serialiser};
use localdrop::MessageType;

#[test]
fn u32_is_four_big_endian_bytes() {
    assert_eq!(0x0102_0304u32.to_bytes(), vec![1, 2, 3, 4]);
    assert_eq!(0u32.to_bytes(), vec![0, 0, 0, 0]);
    assert_eq!(u32::MAX.to_bytes(), vec![255, 255, 255, 255]);
}

#[test]
fn str_is_length_then_utf8() {
    assert_eq!("abc".to_bytes(), vec![3, b'a', b'b', b'c']);
    assert_eq!("".to_bytes(), vec![0]);
    assert_eq!("é".to_bytes(), vec![2, 0xc3, 0xa9]);
}

#[test]
fn str_longer_than_255_bytes_is_cut() {
    let long = "x".repeat(300);
    let bytes = long.as_str().to_bytes();
    assert_eq!(bytes.len(), 256);
    assert_eq!(bytes[0], 255);
    assert!(bytes[1..].iter().all(|b| *b == b'x'));
}

#[test]
fn message_type_is_its_code() {
    assert_eq!(MessageType::Ask.to_bytes(), vec![1]);
    assert_eq!(MessageType::DataRecvd.to_bytes(), vec![5]);
}

#[test]
fn serialiser_concatenates() {
    let mut s = Serialiser::new();
    assert_eq!(s.output(), Vec::<u8>::new());
    s.add_u8(9);
    s.add(MessageType::AskDeny);
    s.add(258u32);
    s.add("hi");
    assert_eq!(s.output(), vec![9, 3, 0, 0, 1, 2, 2, b'h', b'i']);
}

#[test]
fn deserialiser_reads_back_what_was_written() {
    let mut s = Serialiser::new();
    s.add(0xdead_beefu32);
    s.add("name.txt");
    s.add_u8(7);
    let mut d = Deserialiser::from_vec(s.output());
    assert_eq!(d.get_u32(), 0xdead_beef);
    assert_eq!(d.get_string(), "name.txt");
    assert_eq!(d.len(), 1);
    assert_eq!(d.get_u8(), 7);
    assert_eq!(d.len(), 0);
}

#[test]
fn deserialiser_reads_unicode_string() {
    let mut d = Deserialiser::from_vec(vec![4, 0xf0, 0x9f, 0x98, 0x80, 1]);
    assert_eq!(d.get_string(), "\u{1f600}");
    assert_eq!(d.len(), 1);
}

#[test]
fn try_get_string_refuses_short_field() {
    let mut d = Deserialiser::from_vec(vec![5, b'a', b'b']);
    assert_eq!(d.try_get_string(), None);
    assert_eq!(d.len(), 3);
    let mut empty = Deserialiser::from_vec(vec![]);
    assert_eq!(empty.try_get_string(), None);
}

#[test]
fn try_get_string_refuses_invalid_utf8() {
    let mut d = Deserialiser::from_vec(vec![2, 0xc3, 0x28]);
    assert_eq!(d.try_get_string(), None);
    assert_eq!(d.len(), 3);
}

#[test]
fn try_get_string_reads_empty_string() {
    let mut d = Deserialiser::from_vec(vec![0, 42]);
    assert_eq!(d.try_get_string(), Some(String::new()));
    assert_eq!(d.get_u8(), 42);
}
