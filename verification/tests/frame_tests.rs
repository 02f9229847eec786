use uart_bridge::frame::{Frame, MAX_FRAME_LEN};

#[test]
fn max_frame_len_is_1024() {
    assert_eq!(MAX_FRAME_LEN, 1024);
}

#[test]
fn empty_frame_has_no_bytes() {
    let frame = Frame::empty();
    assert_eq!(frame.len(), 0);
    assert!(frame.is_empty());
    assert_eq!(frame.as_slice(), &[] as &[u8]);
}

#[test]
fn from_slice_keeps_every_byte() {
    let frame = Frame::from_slice(&[0x41, 0x42, 0x00, 0xff]).unwrap();
    assert_eq!(frame.len(), 4);
    assert!(!frame.is_empty());
    assert_eq!(frame.as_slice(), &[0x41, 0x42, 0x00, 0xff]);
}

#[test]
fn from_slice_of_nothing_is_the_empty_frame() {
    let frame = Frame::from_slice(&[]).unwrap();
    assert!(frame.is_empty());
    assert_eq!(frame.len(), 0);
}

#[test]
fn from_slice_accepts_exactly_the_limit() {
    let bytes = vec![7u8; MAX_FRAME_LEN];
    let frame = Frame::from_slice(&bytes).unwrap();
    assert_eq!(frame.len(), MAX_FRAME_LEN);
    assert_eq!(frame.as_slice(), &bytes[..]);
}

#[test]
fn from_slice_refuses_one_byte_over_the_limit() {
    let bytes = vec![7u8; MAX_FRAME_LEN + 1];
    assert!(Frame::from_slice(&bytes).is_none());
}

#[test]
fn from_prefix_takes_the_first_bytes_only() {
    let buf = [1u8, 2, 3, 4, 5];
    let frame = Frame::from_prefix(&buf, 3).unwrap();
    assert_eq!(frame.as_slice(), &[1, 2, 3]);
}

#[test]
fn from_prefix_of_length_zero_is_empty() {
    let buf = [1u8, 2, 3];
    let frame = Frame::from_prefix(&buf, 0).unwrap();
    assert!(frame.is_empty());
}

#[test]
fn from_prefix_of_the_whole_buffer() {
    let buf = [9u8, 8, 7];
    let frame = Frame::from_prefix(&buf, 3).unwrap();
    assert_eq!(frame.as_slice(), &[9, 8, 7]);
}

#[test]
fn from_prefix_refuses_a_length_beyond_the_buffer() {
    let buf = [1u8, 2, 3];
    assert!(Frame::from_prefix(&buf, 4).is_none());
}

#[test]
fn from_prefix_refuses_a_length_beyond_the_limit() {
    let buf = vec![0u8; 2 * MAX_FRAME_LEN];
    assert!(Frame::from_prefix(&buf, MAX_FRAME_LEN + 1).is_none());
    assert_eq!(Frame::from_prefix(&buf, MAX_FRAME_LEN).unwrap().len(), MAX_FRAME_LEN);
}

#[test]
fn clone_copies_the_bytes() {
    let frame = Frame::from_slice(&[0x4f, 0x4b]).unwrap();
    let copy = frame.clone();
    assert_eq!(copy.as_slice(), frame.as_slice());
    assert_eq!(copy.as_slice(), &[0x4f, 0x4b]);
}
