use bytes::{BufMut, BytesMut};
use tokio_playground::lines_codec::{DecodeError, LinesCodec};

#[test]
fn decode_takes_first_line() {
    let mut codec = LinesCodec::new();
    let mut buf = BytesMut::from(&b"hello\nworld"[..]);
    assert_eq!(codec.decode(&mut buf), Some("hello".to_string()));
    assert_eq!(&buf[..], b"world");
    assert_eq!(codec.next_index(), 0);
}

#[test]
fn decode_without_newline_waits_and_remembers_scan() {
    let mut codec = LinesCodec::new();
    let mut buf = BytesMut::from(&b"abc"[..]);
    assert_eq!(codec.decode(&mut buf), None);
    assert_eq!(&buf[..], b"abc");
    assert_eq!(codec.next_index(), 3);
    buf.put_slice(b"de\nfg");
    assert_eq!(codec.decode(&mut buf), Some("abcde".to_string()));
    assert_eq!(&buf[..], b"fg");
    assert_eq!(codec.next_index(), 0);
}

#[test]
fn decode_empty_line() {
    let mut codec = LinesCodec::new();
    let mut buf = BytesMut::from(&b"\n\nx"[..]);
    assert_eq!(codec.decode(&mut buf), Some(String::new()));
    assert_eq!(codec.decode(&mut buf), Some(String::new()));
    assert_eq!(&buf[..], b"x");
}

#[test]
fn decode_empty_buffer() {
    let mut codec = LinesCodec::new();
    let mut buf = BytesMut::new();
    assert_eq!(codec.decode(&mut buf), None);
    assert_eq!(codec.next_index(), 0);
    assert!(buf.is_empty());
}

#[test]
fn decode_multibyte_text() {
    let mut codec = LinesCodec::new();
    let mut buf = BytesMut::from("héllo wörld\nrest".as_bytes());
    assert_eq!(codec.decode(&mut buf), Some("héllo wörld".to_string()));
    assert_eq!(&buf[..], b"rest");
}

#[test]
fn decode_lines_in_order() {
    let mut codec = LinesCodec::new();
    let mut buf = BytesMut::from(&b"one\ntwo\nthree"[..]);
    assert_eq!(codec.decode(&mut buf), Some("one".to_string()));
    assert_eq!(codec.decode(&mut buf), Some("two".to_string()));
    assert_eq!(codec.decode(&mut buf), None);
    assert_eq!(codec.next_index(), 5);
    assert_eq!(&buf[..], b"three");
}

#[test]
fn encode_appends_line_and_newline() {
    let mut codec = LinesCodec::new();
    let mut buf = BytesMut::from(&b"x"[..]);
    codec.encode("hi".to_string(), &mut buf);
    assert_eq!(&buf[..], b"xhi\n");
    codec.encode(String::new(), &mut buf);
    assert_eq!(&buf[..], b"xhi\n\n");
    assert_eq!(codec.next_index(), 0);
}

#[test]
fn encode_then_decode_roundtrip() {
    let mut codec = LinesCodec::new();
    let mut buf = BytesMut::new();
    codec.encode("grüße".to_string(), &mut buf);
    codec.encode("second".to_string(), &mut buf);
    assert_eq!(codec.decode(&mut buf), Some("grüße".to_string()));
    assert_eq!(codec.decode(&mut buf), Some("second".to_string()));
    assert!(buf.is_empty());
}

#[test]
fn try_encode_appends_line() {
    let mut codec = LinesCodec::new();
    let mut buf = BytesMut::new();
    assert_eq!(codec.try_encode("ok".to_string(), &mut buf), Ok(()));
    assert_eq!(&buf[..], b"ok\n");
}

#[test]
fn try_decode_reports_invalid_utf8_and_scan_past_end() {
    let mut codec = LinesCodec::new();
    let mut buf = BytesMut::from(&[0xffu8, 0xfe, b'\n'][..]);
    assert_eq!(codec.try_decode(&mut buf), Err(DecodeError::InvalidUtf8));
    assert_eq!(buf.len(), 3);
    let mut short = BytesMut::from(&b"abcd"[..]);
    assert_eq!(codec.try_decode(&mut short), Ok(None));
    let mut shorter = BytesMut::from(&b"ab"[..]);
    assert_eq!(codec.try_decode(&mut shorter), Err(DecodeError::ScanPastEnd));
}
