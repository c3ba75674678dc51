use localdrop::{Message, MessageType};

#[test]
fn type_codes() {
    assert_eq!(MessageType::Ask.to_u8(), 1);
    assert_eq!(MessageType::AskOk.to_u8(), 2);
    assert_eq!(MessageType::AskDeny.to_u8(), 3);
    assert_eq!(MessageType::Data.to_u8(), 4);
    assert_eq!(MessageType::DataRecvd.to_u8(), 5);
}

#[test]
fn build_ask_layout() {
    let bytes = Message::build_ask("a.txt", 0x0001_0203);
    assert_eq!(bytes, vec![1, 0, 1, 2, 3, 5, b'a', b'.', b't', b'x', b't']);
}

#[test]
fn build_replies() {
    assert_eq!(Message::build_ask_ok(), vec![2]);
    assert_eq!(Message::build_ask_deny(), vec![3]);
    assert_eq!(Message::build_data_received(), vec![5]);
    assert_eq!(Message::build_data(&vec![7, 8, 9]), vec![4, 7, 8, 9]);
    assert_eq!(Message::build_data(&vec![]), vec![4]);
}

#[test]
fn ask_roundtrip() {
    let bytes = Message::build_ask("photo.jpg", 123_456);
    match Message::parse(bytes) {
        Ok(Message::Ask(info)) => {
            assert_eq!(info.file_size, 123_456);
            assert_eq!(info.file_name, "photo.jpg");
        }
        _ => panic!("expected an Ask"),
    }
}

#[test]
fn ask_roundtrip_unicode_name() {
    let bytes = Message::build_ask("résumé.pdf", 0);
    match Message::parse(bytes) {
        Ok(Message::Ask(info)) => {
            assert_eq!(info.file_size, 0);
            assert_eq!(info.file_name, "résumé.pdf");
        }
        _ => panic!("expected an Ask"),
    }
}

#[test]
fn ask_long_name_is_cut_at_254_bytes() {
    let name = "n".repeat(400);
    let bytes = Message::build_ask(&name, 9);
    assert_eq!(bytes[5], 254);
    assert_eq!(bytes.len(), 6 + 254);
    match Message::parse(bytes) {
        Ok(Message::Ask(info)) => {
            assert_eq!(info.file_size, 9);
            assert_eq!(info.file_name, "n".repeat(254));
        }
        _ => panic!("expected an Ask"),
    }
}

#[test]
fn ask_name_of_255_bytes_is_cut() {
    let name = "n".repeat(255);
    let bytes = Message::build_ask(&name, 1);
    assert_eq!(bytes[5], 254);
    assert_eq!(&bytes[6..], "n".repeat(254).as_bytes());
}

#[test]
fn ask_name_of_254_bytes_is_whole() {
    let name = format!("{}é", "n".repeat(252));
    let bytes = Message::build_ask(&name, 1);
    assert_eq!(bytes[5], 254);
    match Message::parse(bytes) {
        Ok(Message::Ask(info)) => assert_eq!(info.file_name, name),
        _ => panic!("expected an Ask"),
    }
}

#[test]
fn ask_long_name_is_cut_before_a_split_character() {
    // 253 one-byte characters, then a two-byte one that would end after byte 254.
    let name = format!("{}éabc", "n".repeat(253));
    let bytes = Message::build_ask(&name, 1);
    assert_eq!(bytes[5], 253);
    assert_eq!(bytes.len(), 6 + 253);
    match Message::parse(bytes) {
        Ok(Message::Ask(info)) => assert_eq!(info.file_name, "n".repeat(253)),
        _ => panic!("expected an Ask"),
    }
}

#[test]
fn ask_long_unicode_name_is_cut_at_a_boundary() {
    let name = "\u{1f600}".repeat(100);
    let bytes = Message::build_ask(&name, 3);
    // 63 four-byte characters fit in 254 bytes; the 64th would end at byte 256.
    assert_eq!(bytes[5], 252);
    match Message::parse(bytes) {
        Ok(Message::Ask(info)) => assert_eq!(info.file_name, "\u{1f600}".repeat(63)),
        _ => panic!("expected an Ask"),
    }
}

#[test]
fn replies_roundtrip() {
    assert!(matches!(Message::parse(Message::build_ask_ok()), Ok(Message::AskOk)));
    assert!(matches!(Message::parse(Message::build_ask_deny()), Ok(Message::AskDeny)));
    assert!(matches!(Message::parse(Message::build_data(&vec![1, 2])), Ok(Message::Data)));
    assert!(matches!(Message::parse(Message::build_data_received()), Ok(Message::DataRecvd)));
}

#[test]
fn parse_refuses_empty() {
    assert!(Message::parse(vec![]).is_err());
}

#[test]
fn parse_refuses_unknown_type() {
    assert!(Message::parse(vec![0]).is_err());
    assert!(Message::parse(vec![6, 1, 2]).is_err());
    assert!(Message::parse(vec![255]).is_err());
}

#[test]
fn parse_refuses_short_ask() {
    assert!(Message::parse(vec![1]).is_err());
    assert!(Message::parse(vec![1, 0, 0, 0, 1]).is_err());
    assert!(Message::parse(vec![1, 0, 0, 0, 1, 3, b'a']).is_err());
}

#[test]
fn parse_refuses_ask_with_invalid_utf8_name() {
    assert!(Message::parse(vec![1, 0, 0, 0, 1, 1, 0xff]).is_err());
}

#[test]
fn parse_ignores_bytes_after_ask() {
    match Message::parse(vec![1, 0, 0, 0, 2, 1, b'z', 99, 98]) {
        Ok(Message::Ask(info)) => {
            assert_eq!(info.file_size, 2);
            assert_eq!(info.file_name, "z");
        }
        _ => panic!("expected an Ask"),
    }
}
