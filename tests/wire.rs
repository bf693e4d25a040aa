use aranya_afc::error::AfcError;
use aranya_afc::wire::{
    account_write, decode_frame, encode_frame, parse_header, WriteFault, MAX_MSG_SIZE,
    WIRE_HEADER_SIZE,
};

#[test]
fn encode_frame_writes_magic_length_body() {
    let out = encode_frame(b"hello").unwrap();
    assert_eq!(out, b"AFC\0\x05\x00\x00\x00hello".to_vec());
}

#[test]
fn encode_frame_empty_body() {
    let out = encode_frame(b"").unwrap();
    assert_eq!(out, b"AFC\0\x00\x00\x00\x00".to_vec());
    assert_eq!(out.len(), WIRE_HEADER_SIZE);
}

#[test]
fn encode_frame_length_is_little_endian() {
    let body = vec![7u8; 0x0102];
    let out = encode_frame(&body).unwrap();
    assert_eq!(&out[4..8], &[0x02, 0x01, 0x00, 0x00]);
    assert_eq!(&out[8..], &body[..]);
}

#[test]
fn encode_frame_refuses_oversize_body() {
    let body = vec![0u8; MAX_MSG_SIZE as usize + 1];
    assert_eq!(
        encode_frame(&body),
        Err(AfcError::MsgTooLarge { got: 10485761, max: 10485760 })
    );
}

#[test]
fn encode_frame_accepts_largest_body() {
    let body = vec![1u8; MAX_MSG_SIZE as usize];
    let out = encode_frame(&body).unwrap();
    assert_eq!(&out[4..8], &[0x00, 0x00, 0xa0, 0x00]);
    assert_eq!(decode_frame(&out).unwrap(), body);
}

#[test]
fn frame_round_trip() {
    for body in [b"".to_vec(), b"x".to_vec(), b"some ctrl bytes".to_vec(), vec![0xffu8; 300]] {
        let framed = encode_frame(&body).unwrap();
        assert_eq!(decode_frame(&framed).unwrap(), body);
    }
}

#[test]
fn decode_frame_ignores_following_envelope() {
    let mut b = encode_frame(b"one").unwrap();
    b.extend(encode_frame(b"two").unwrap());
    assert_eq!(decode_frame(&b).unwrap(), b"one".to_vec());
}

#[test]
fn bad_magic_is_rejected() {
    let h = *b"XYZ\0\x05\x00\x00\x00";
    assert_eq!(parse_header(&h), Err(AfcError::InvalidMagic(0x005A5958)));
    let mut b = h.to_vec();
    b.extend_from_slice(b"hello");
    assert_eq!(decode_frame(&b), Err(AfcError::InvalidMagic(0x005A5958)));
}

#[test]
fn oversize_length_is_rejected() {
    let h = *b"AFC\0\xff\xff\xff\xff";
    assert_eq!(
        parse_header(&h),
        Err(AfcError::MsgTooLarge { got: 0xFFFFFFFF, max: 10485760 })
    );
    assert_eq!(
        decode_frame(&h),
        Err(AfcError::MsgTooLarge { got: 0xFFFFFFFF, max: 10485760 })
    );
}

#[test]
fn length_just_over_cap_is_rejected() {
    let h = *b"AFC\0\x01\x00\xa0\x00";
    assert_eq!(
        parse_header(&h),
        Err(AfcError::MsgTooLarge { got: 10485761, max: 10485760 })
    );
}

#[test]
fn header_gives_length() {
    assert_eq!(parse_header(b"AFC\0\x10\x27\x00\x00"), Ok(10000));
    assert_eq!(parse_header(b"AFC\0\x00\x00\xa0\x00"), Ok(MAX_MSG_SIZE));
}

#[test]
fn truncated_envelopes_are_rejected() {
    assert_eq!(decode_frame(b"AFC"), Err(AfcError::Truncated { need: 8, got: 3 }));
    assert_eq!(
        decode_frame(b"AFC\0\x05\x00\x00\x00hel"),
        Err(AfcError::Truncated { need: 13, got: 11 })
    );
}

#[test]
fn write_accounting() {
    assert_eq!(account_write(10, 4), Ok(6));
    assert_eq!(account_write(10, 10), Ok(0));
    assert_eq!(account_write(10, 0), Err(WriteFault::WriteZero));
    assert_eq!(account_write(10, 11), Err(WriteFault::Overrun));
}
