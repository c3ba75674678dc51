use localdrop::frame::{decode_frame_size, encode_frame, Incoming};

#[test]
fn frame_is_length_then_payload() {
    assert_eq!(encode_frame(&vec![9, 8, 7]), vec![0, 0, 0, 3, 9, 8, 7]);
    assert_eq!(encode_frame(&vec![]), vec![0, 0, 0, 0]);
    let big = vec![1u8; 0x0102];
    let frame = encode_frame(&big);
    assert_eq!(&frame[..4], &[0, 0, 1, 2]);
    assert_eq!(&frame[4..], &big[..]);
}

#[test]
fn header_roundtrip() {
    let frame = encode_frame(&vec![5; 300]);
    assert_eq!(decode_frame_size(&frame[..4].to_vec()), Some(300));
    assert_eq!(decode_frame_size(&vec![0xff, 0, 0, 1]), Some(0xff00_0001));
}

#[test]
fn header_must_be_four_bytes() {
    assert_eq!(decode_frame_size(&vec![0, 0, 1]), None);
    assert_eq!(decode_frame_size(&vec![]), None);
    assert_eq!(decode_frame_size(&vec![0, 0, 0, 1, 2]), None);
}

#[test]
fn receive_in_chunks() {
    let mut inc = Incoming::new(5);
    assert!(!inc.is_complete());
    assert_eq!(inc.needed(), 5);
    inc.push(&vec![1, 2]);
    assert_eq!(inc.received_len(), 2);
    assert_eq!(inc.needed(), 3);
    inc.push(&vec![]);
    assert_eq!(inc.needed(), 3);
    inc.push(&vec![3, 4, 5]);
    assert!(inc.is_complete());
    assert_eq!(inc.needed(), 0);
    assert_eq!(inc.into_bytes(), vec![1, 2, 3, 4, 5]);
}

#[test]
fn empty_payload_is_complete_at_once() {
    let inc = Incoming::new(0);
    assert!(inc.is_complete());
    assert_eq!(inc.needed(), 0);
    assert_eq!(inc.into_bytes(), Vec::<u8>::new());
}

#[test]
fn extra_bytes_are_kept() {
    let mut inc = Incoming::new(1);
    inc.push(&vec![1, 2, 3]);
    assert!(inc.is_complete());
    assert_eq!(inc.needed(), 0);
    assert_eq!(inc.into_bytes(), vec![1, 2, 3]);
}
