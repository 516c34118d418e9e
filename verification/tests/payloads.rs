use russh_sftp::buf::{Reader, TryBuf};
use russh_sftp::error::Error;
use russh_sftp::protocol::by_handle::Write;
use russh_sftp::protocol::data::{Data, DataPayload};
use russh_sftp::protocol::status::{Status, StatusCode};
use russh_sftp::wire::{checked_u32_len, put_bytes, put_u32, put_u64};

#[test]
fn data_roundtrips_empty_small_and_large_payloads() {
    for (id, data) in [
        (1u32, Vec::new()),
        (42, b"file contents here".to_vec()),
        (999, vec![0xCD; 32 * 1024]),
    ] {
        let original = Data {
            id,
            data: DataPayload::from(data),
        };

        let mut serialized: Vec<u8> = Vec::new();
        original.serialize_into(&mut serialized).expect("serialize failed");
        let deserialized = Data::from_bytes(&mut Reader::new(&serialized)).expect("deserialize failed");

        assert_eq!(deserialized.id, original.id);
        assert_eq!(deserialized.data.as_slice(), original.data.as_slice());
    }
}

#[test]
fn data_from_bytes_parses_directly() {
    let mut bytes: Vec<u8> = Vec::new();
    put_u32(&mut bytes, 7);
    put_u32(&mut bytes, 5);
    bytes.extend_from_slice(b"hello");

    let parsed = Data::from_bytes(&mut Reader::new(&bytes)).expect("parse data");

    assert_eq!(parsed.id, 7);
    assert_eq!(parsed.data.as_slice(), b"hello");
}

#[test]
fn from_bytes_borrows_common_ok_strings() {
    let mut buf: Vec<u8> = Vec::new();
    put_u32(&mut buf, 7);
    put_u32(&mut buf, StatusCode::Success.code());
    put_u32(&mut buf, 2);
    buf.extend_from_slice(b"Ok");
    put_u32(&mut buf, 5);
    buf.extend_from_slice(b"en-US");

    let status = Status::from_bytes(&mut Reader::new(&buf)).expect("parse status");

    assert_eq!(status.error_message, "Ok");
    assert_eq!(status.language_tag, "en-US");
}

#[test]
fn from_bytes_owns_non_common_strings() {
    let mut buf: Vec<u8> = Vec::new();
    put_u32(&mut buf, 9);
    put_u32(&mut buf, StatusCode::Failure.code());
    put_u32(&mut buf, 6);
    buf.extend_from_slice(b"broken");
    put_u32(&mut buf, 2);
    buf.extend_from_slice(b"fr");

    let status = Status::from_bytes(&mut Reader::new(&buf)).expect("parse status");

    assert_eq!(status.id, 9);
    assert_eq!(status.status_code, StatusCode::Failure);
    assert_eq!(status.error_message, "broken");
    assert_eq!(status.language_tag, "fr");
}

#[test]
fn from_bytes_handles_invalid_utf8_lossily() {
    let mut buf: Vec<u8> = Vec::new();
    put_u32(&mut buf, 1);
    put_u32(&mut buf, StatusCode::Failure.code());
    put_u32(&mut buf, 2);
    buf.extend_from_slice(&[0xFF, 0xFE]);
    put_u32(&mut buf, 5);
    buf.extend_from_slice(b"en-US");

    let status = Status::from_bytes(&mut Reader::new(&buf)).expect("parse status");

    assert!(status.error_message.contains('\u{FFFD}'));
    assert_eq!(status.language_tag, "en-US");
}

#[test]
fn status_from_bytes_rejects_unknown_code() {
    let mut buf: Vec<u8> = Vec::new();
    put_u32(&mut buf, 1);
    put_u32(&mut buf, 99);
    put_u32(&mut buf, 0);
    put_u32(&mut buf, 0);
    assert!(matches!(Status::from_bytes(&mut Reader::new(&buf)), Err(Error::BadMessage(_))));
}

#[test]
fn write_from_bytes_roundtrips_empty_small_and_large_payloads() {
    for (id, handle, offset, data) in [
        (1u32, b"h".to_vec(), 0u64, Vec::new()),
        (42, b"test-handle".to_vec(), 1024, b"hello world".to_vec()),
        (999, b"big-file".to_vec(), u64::MAX, vec![0xAB; 32 * 1024]),
    ] {
        let original = Write {
            id,
            handle,
            offset,
            data,
        };

        let mut serialized: Vec<u8> = Vec::new();
        original.serialize_into(&mut serialized).expect("serialize failed");
        let deserialized = Write::from_bytes(&mut Reader::new(&serialized)).expect("deserialize failed");

        assert_eq!(deserialized.id, original.id);
        assert_eq!(deserialized.handle, original.handle);
        assert_eq!(deserialized.offset, original.offset);
        assert_eq!(deserialized.data, original.data);
    }
}

#[test]
fn write_from_bytes_rejects_truncated_payload() {
    let mut bytes: Vec<u8> = Vec::new();
    put_u32(&mut bytes, 11);
    put_u32(&mut bytes, 6);
    bytes.extend_from_slice(b"handle");
    put_u64(&mut bytes, 99);
    put_u32(&mut bytes, 4);
    bytes.extend_from_slice(b"dat");

    assert!(Write::from_bytes(&mut Reader::new(&bytes)).is_err());
}

fn id_and_bytes(id: u32, data: &[u8]) -> Vec<u8> {
    let mut out: Vec<u8> = Vec::new();
    put_u32(&mut out, id);
    put_bytes(&mut out, data).expect("serialize failed");
    out
}

fn read_id_and_bytes(bytes: &[u8]) -> (u32, Vec<u8>) {
    let mut input = Reader::new(bytes);
    let id = input.try_get_u32().expect("deserialize failed");
    let data = input.try_get_bytes().expect("deserialize failed");
    (id, data)
}

#[test]
fn bytes_serialize_produces_length_prefix() {
    let serialized = id_and_bytes(1, b"abc");

    // Expected format: u32 id (4 bytes) + u32 length (4 bytes) + data (3 bytes)
    assert_eq!(serialized.len(), 4 + 4 + 3);
    assert_eq!(&serialized[4..8], &[0, 0, 0, 3]);
    assert_eq!(&serialized[8..], b"abc");
}

#[test]
fn bytes_serialize_empty() {
    let serialized = id_and_bytes(42, b"");

    assert_eq!(serialized.len(), 4 + 4);
    assert_eq!(&serialized[4..8], &[0, 0, 0, 0]);
}

#[test]
fn bytes_serialize_roundtrip() {
    let serialized = id_and_bytes(123, &[0xDE, 0xAD, 0xBE, 0xEF]);
    assert_eq!(read_id_and_bytes(&serialized), (123, vec![0xDE, 0xAD, 0xBE, 0xEF]));
}

#[test]
fn bytes_deserialize_roundtrip() {
    let serialized = id_and_bytes(42, b"test data");
    assert_eq!(read_id_and_bytes(&serialized), (42, b"test data".to_vec()));
}

#[test]
fn bytes_deserialize_empty() {
    let serialized = id_and_bytes(1, b"");
    assert_eq!(read_id_and_bytes(&serialized).1.len(), 0);
}

#[test]
fn vec_bytes_roundtrip() {
    let serialized = id_and_bytes(99, &[1, 2, 3, 4, 5]);
    let (id, data) = read_id_and_bytes(&serialized);
    assert_eq!(id, 99);
    assert_eq!(data, vec![1, 2, 3, 4, 5]);
}

#[test]
fn vec_bytes_empty() {
    let serialized = id_and_bytes(0, b"");
    assert!(read_id_and_bytes(&serialized).1.is_empty());
}

#[test]
fn to_bytes_into_appends() {
    let mut buf: Vec<u8> = vec![0xFF, 0xFF];

    put_u32(&mut buf, 42);

    assert_eq!(buf.len(), 6);
    assert_eq!(&buf[..2], &[0xFF, 0xFF]);
    assert_eq!(&buf[2..], &[0, 0, 0, 42]);
}

#[test]
fn checked_u32_len_rejects_oversized_lengths() {
    let err = checked_u32_len(u32::MAX as usize + 1).expect_err("length should overflow u32");
    assert!(matches!(err, Error::BadMessage(_)));
    assert_eq!(err.message(), "Bad message: length exceeds u32::MAX");
}

#[test]
fn error_messages_name_their_kind() {
    assert_eq!(Error::UnexpectedEof.message(), "Unexpected EOF on stream");
    assert_eq!(Error::UnexpectedBehavior("x".to_owned()).message(), "Unexpected behavior: x");
    assert_eq!(Error::IO("pipe".to_owned()).message(), "I/O: pipe");
    assert_eq!(Error::BadMessage("boom".to_owned()).message(), "Bad message: boom");
}
