use bigfred_commons::io::IoFailure;
use bigfred_commons::io::IoKind;
use bigfred_commons::ipc::frame::FrameReader;
use bigfred_commons::ipc::frame::ReadStep;
use bigfred_commons::ipc::read_frame;
use bigfred_commons::ipc::read_frame_bytes;
use bigfred_commons::ipc::write_frame;
use bigfred_commons::ipc::write_frame_bytes;
use bigfred_commons::ipc::FrameError;
use bigfred_commons::ipc::DEFAULT_MAX_FRAME_BYTES;
use serde_json::Value;

fn message(v: u32, s: &str) -> Value {
    let mut fields = serde_json::Map::new();
    fields.insert("v".to_string(), Value::from(v));
    fields.insert("s".to_string(), Value::from(s));
    Value::Object(fields)
}

#[test]
fn round_trip_a_frame() {
    let msg = message(7, "hello");
    let mut buf = Vec::new();
    write_frame(&mut buf, &serde_json::to_vec(&msg).unwrap()).expect("write");
    let payload = read_frame(&mut buf.as_slice()).expect("read");
    let back: Value = serde_json::from_slice(&payload).expect("read");
    assert_eq!(back, msg);
}

#[test]
fn truncated_header_reports_eof() {
    let buf = [0u8; 2];
    let mut r = buf.as_slice();
    let err = read_frame(&mut r).unwrap_err();
    assert!(matches!(
        err,
        FrameError::UnexpectedEof { read: 2, needed: 4 }
    ));
}

#[test]
fn truncated_payload_reports_eof() {
    let mut buf = Vec::new();
    buf.extend_from_slice(&16u32.to_le_bytes());
    buf.extend_from_slice(b"only a few");
    let mut r = buf.as_slice();
    let err = read_frame(&mut r).unwrap_err();
    assert!(matches!(
        err,
        FrameError::UnexpectedEof {
            read: 10,
            needed: 16
        }
    ));
}

#[test]
fn oversized_payload_is_rejected_on_write() {
    let big = vec![0u8; DEFAULT_MAX_FRAME_BYTES + 1];
    let mut buf = Vec::new();
    let err = write_frame(&mut buf, &serde_json::to_vec(&big).unwrap()).unwrap_err();
    assert!(matches!(err, FrameError::TooLarge { max, .. } if max == DEFAULT_MAX_FRAME_BYTES));
    let err = write_frame(&mut buf, &big).unwrap_err();
    assert!(matches!(err, FrameError::TooLarge { max, .. } if max == DEFAULT_MAX_FRAME_BYTES));
    assert!(buf.is_empty());
}

#[test]
fn oversized_declared_length_is_rejected_on_read() {
    let mut buf = Vec::new();
    buf.extend_from_slice(&((DEFAULT_MAX_FRAME_BYTES as u32) + 1).to_le_bytes());
    let mut r = buf.as_slice();
    let err = read_frame(&mut r).unwrap_err();
    assert!(matches!(
        err,
        FrameError::TooLarge { len, max }
            if len == DEFAULT_MAX_FRAME_BYTES + 1 && max == DEFAULT_MAX_FRAME_BYTES
    ));
}

#[test]
fn empty_payload_round_trips_as_unit() {
    let mut buf = Vec::new();
    write_frame(&mut buf, &serde_json::to_vec(&()).unwrap()).expect("write unit");
    let payload = read_frame(&mut buf.as_slice()).expect("read unit");
    let back: () = serde_json::from_slice(&payload).expect("read unit");
    assert_eq!(back, ());
}

#[test]
fn custom_limit_is_honoured() {
    let mut buf = Vec::new();
    buf.extend_from_slice(&32u32.to_le_bytes());
    let mut r = buf.as_slice();
    let err = read_frame_bytes(&mut r, 16).unwrap_err();
    assert!(matches!(err, FrameError::TooLarge { len: 32, max: 16 }));
}

#[test]
fn frame_has_little_endian_length() {
    let mut buf = b"x".to_vec();
    write_frame_bytes(&mut buf, b"abc", 3).unwrap();
    assert_eq!(buf, b"x\x03\x00\x00\x00abc".to_vec());
    let mut buf = Vec::new();
    write_frame_bytes(&mut buf, &vec![9u8; 0x1_0203], 0x2_0000).unwrap();
    assert_eq!(&buf[..4], &[0x03, 0x02, 0x01, 0x00]);
    assert_eq!(buf.len(), 4 + 0x1_0203);
    assert_eq!(&buf[..4], &0x1_0203u32.to_le_bytes());
}

#[test]
fn frames_in_a_row_come_back_one_by_one() {
    let mut buf = Vec::new();
    write_frame_bytes(&mut buf, b"one", 10).unwrap();
    write_frame_bytes(&mut buf, b"", 10).unwrap();
    write_frame_bytes(&mut buf, b"three", 10).unwrap();
    let mut r = buf.as_slice();
    assert_eq!(read_frame_bytes(&mut r, 10).unwrap(), b"one".to_vec());
    assert_eq!(read_frame_bytes(&mut r, 10).unwrap(), b"".to_vec());
    assert_eq!(read_frame_bytes(&mut r, 10).unwrap(), b"three".to_vec());
    assert_eq!(
        read_frame_bytes(&mut r, 10).unwrap_err(),
        FrameError::UnexpectedEof { read: 0, needed: 4 }
    );
}

#[test]
fn failed_reads_use_up_what_they_read() {
    let mut r: &[u8] = b"\x20\x00\x00\x00rest";
    assert!(read_frame_bytes(&mut r, 16).is_err());
    assert_eq!(r, b"rest");
    let mut r: &[u8] = b"\x08\x00\x00\x00rest";
    assert!(read_frame_bytes(&mut r, 16).is_err());
    assert!(r.is_empty());
}

#[test]
fn reader_takes_pieces_of_any_size() {
    let mut buf = Vec::new();
    write_frame_bytes(&mut buf, b"payload", 100).unwrap();
    buf.extend_from_slice(b"next");
    for piece in 1..buf.len() {
        let mut reader = FrameReader::new(100);
        let mut at = 0;
        while let ReadStep::Want(n) = reader.step() {
            let take = n.min(piece);
            reader.feed(&buf[at..at + take]);
            at += take;
        }
        assert_eq!(reader.step(), ReadStep::Complete);
        assert_eq!(at, 11);
        assert_eq!(reader.finish().unwrap(), b"payload".to_vec());
    }
}

#[test]
fn reader_stops_at_an_oversized_header() {
    let mut reader = FrameReader::new(6);
    assert_eq!(reader.step(), ReadStep::Want(4));
    reader.feed(&[7, 0, 0]);
    assert_eq!(reader.step(), ReadStep::Want(1));
    reader.feed(&[0]);
    assert_eq!(reader.step(), ReadStep::Oversized(7));
    assert_eq!(
        reader.finish().unwrap_err(),
        FrameError::TooLarge { len: 7, max: 6 }
    );
}

#[test]
fn frame_errors_have_messages() {
    assert_eq!(
        FrameError::TooLarge { len: 32, max: 16 }.message(),
        "frame length 32 too large (max 16 bytes)"
    );
    assert_eq!(
        FrameError::UnexpectedEof { read: 2, needed: 4 }.message(),
        "connection closed: read 2 of 4 bytes"
    );
    assert_eq!(
        FrameError::Json("bad".to_string()).message(),
        "json codec error: bad"
    );
    let io = IoFailure {
        kind: IoKind::ConnectionReset,
        text: "reset".to_string(),
    };
    assert_eq!(FrameError::Io(io).message(), "io error: reset");
}
