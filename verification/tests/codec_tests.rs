use bytes::BytesMut;
use tunnel::codec::{RelayCodec, TcpCodec};

#[test]
fn encode_appends_item_bytes() {
    let mut codec = TcpCodec {};
    let mut dst = BytesMut::new();
    dst.extend_from_slice(b"ab");
    codec.encode(b"cde".to_vec(), &mut dst).unwrap();
    assert_eq!(&dst[..], b"abcde");
}

#[test]
fn decode_takes_everything_and_empties_buffer() {
    let mut codec = TcpCodec {};
    let mut src = BytesMut::new();
    src.extend_from_slice(b"hello");
    let frame = codec.decode(&mut src).unwrap();
    assert_eq!(frame, Some(b"hello".to_vec()));
    assert!(src.is_empty());
    assert_eq!(codec.decode(&mut src).unwrap(), None);
}

#[test]
fn decode_of_empty_buffer_gives_no_frame() {
    let mut codec = TcpCodec {};
    let mut src = BytesMut::new();
    assert_eq!(codec.decode(&mut src).unwrap(), None);
}

#[test]
fn decode_reads_back_what_encode_wrote() {
    let mut codec = TcpCodec {};
    let mut buf = BytesMut::new();
    codec.encode(vec![1, 2, 3], &mut buf).unwrap();
    codec.encode(vec![4], &mut buf).unwrap();
    assert_eq!(codec.decode(&mut buf).unwrap(), Some(vec![1, 2, 3, 4]));
}

#[test]
fn encode_of_empty_item_then_decode_gives_no_frame() {
    let mut codec = TcpCodec {};
    let mut buf = BytesMut::new();
    codec.encode(Vec::new(), &mut buf).unwrap();
    assert_eq!(codec.decode(&mut buf).unwrap(), None);
}

#[test]
fn relay_decode_keeps_buffered_bytes() {
    let mut codec = RelayCodec {};
    let mut src = BytesMut::new();
    codec.encode(b"xyz".to_vec(), &mut src).unwrap();
    assert_eq!(codec.decode(&mut src).unwrap(), Some(b"xyz".to_vec()));
    assert_eq!(&src[..], b"xyz");
    assert_eq!(codec.decode(&mut src).unwrap(), Some(b"xyz".to_vec()));
}
