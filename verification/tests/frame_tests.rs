use ats_bot::frame::{decode_frame, encode_frame, FrameData};

#[test]
fn encoding_matches_bincode_layout() {
    let mut buf = vec![9u8; 3];
    encode_frame(&FrameData { frame: vec![0xFF, 0xD8, 0xFF] }, &mut buf);
    assert_eq!(buf, vec![3, 0, 0, 0, 0, 0, 0, 0, 0xFF, 0xD8, 0xFF]);
    encode_frame(&FrameData { frame: vec![] }, &mut buf);
    assert_eq!(buf, vec![0u8; 8]);
}

#[test]
fn decode_reads_the_received_prefix() {
    let mut buf = vec![2, 0, 0, 0, 0, 0, 0, 0, 7, 8, 99, 99];
    let f = decode_frame(&buf, 10).unwrap();
    assert_eq!(f.frame, vec![7, 8]);
    let f = decode_frame(&buf, 12).unwrap();
    assert_eq!(f.frame, vec![7, 8]);
    assert!(decode_frame(&buf, 9).is_err());
    assert!(decode_frame(&buf, 7).is_err());
    assert!(decode_frame(&buf, 0).is_err());
    buf[1] = 1;
    assert!(decode_frame(&buf, 12).is_err());
}

#[test]
fn encode_then_decode_round_trips() {
    let frame = FrameData { frame: (0..=255u8).collect() };
    let mut buf = Vec::new();
    encode_frame(&frame, &mut buf);
    buf.extend_from_slice(&[1, 2, 3]);
    let back = decode_frame(&buf, buf.len()).unwrap();
    assert_eq!(back.frame, frame.frame);
}
