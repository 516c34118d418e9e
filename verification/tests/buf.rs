use russh_sftp::buf::{Reader, TryBuf};
use russh_sftp::error::Error;
use russh_sftp::wire::{put_bytes, put_u32};

#[test]
fn try_get_bytes_success() {
    // Length-prefixed bytes: 4-byte length (5) + 5 bytes of data
    let data = [0u8, 0, 0, 5, b'h', b'e', b'l', b'l', b'o'];
    let mut buf = Reader::new(&data);
    let result = buf.try_get_bytes().unwrap();
    assert_eq!(result.as_slice(), b"hello");
    assert_eq!(buf.remaining(), 0);
}

#[test]
fn try_get_bytes_empty() {
    let data = [0u8, 0, 0, 0];
    let mut buf = Reader::new(&data);
    let result = buf.try_get_bytes().unwrap();
    assert!(result.is_empty());
}

#[test]
fn try_get_bytes_insufficient_length() {
    // Claims 10 bytes but only has 3
    let data = [0u8, 0, 0, 10, b'a', b'b', b'c'];
    let mut buf = Reader::new(&data);
    let result = buf.try_get_bytes();
    assert!(result.is_err());
}

#[test]
fn try_get_bytes_no_length() {
    // Not enough bytes for length prefix
    let data = [0u8, 0];
    let mut buf = Reader::new(&data);
    let result = buf.try_get_bytes();
    assert!(matches!(result, Err(Error::BadMessage(_))));
}

#[test]
fn try_get_string_success() {
    let data = [0u8, 0, 0, 5, b'w', b'o', b'r', b'l', b'd'];
    let mut buf = Reader::new(&data);
    let result = buf.try_get_string().unwrap();
    assert_eq!(result, "world");
}

#[test]
fn try_get_string_empty() {
    let data = [0u8, 0, 0, 0];
    let mut buf = Reader::new(&data);
    let result = buf.try_get_string().unwrap();
    assert_eq!(result, "");
}

#[test]
fn try_get_string_invalid_utf8_uses_replacement() {
    // Invalid UTF-8 sequence: each invalid byte becomes U+FFFD
    let data = [0u8, 0, 0, 2, 0xFF, 0xFE];
    let mut buf = Reader::new(&data);
    let result = buf.try_get_string().unwrap();
    assert!(result.contains('\u{FFFD}'));
}

#[test]
fn try_get_bytes_works_with_bytes_mut() {
    // A buffer that was filled by appending reads the same way
    let mut owned: Vec<u8> = Vec::new();
    owned.extend_from_slice(&[0u8, 0, 0, 3, b'a', b'b', b'c']);
    let mut buf = Reader::new(&owned);
    let result = buf.try_get_bytes().unwrap();
    assert_eq!(result.as_slice(), b"abc");
}

#[test]
fn reader_reads_integers_big_endian() {
    let data = [1u8, 0, 0, 1, 2, 0, 0, 0, 0, 0, 0, 1, 3];
    let mut buf = Reader::new(&data);
    assert_eq!(buf.try_get_u8().unwrap(), 1);
    assert_eq!(buf.try_get_u32().unwrap(), 0x0000_0102);
    assert_eq!(buf.try_get_u64().unwrap(), 0x0000_0000_0000_0103);
    assert!(!buf.has_remaining());
    assert!(matches!(buf.try_get_u8(), Err(Error::BadMessage(_))));
}

#[test]
fn reader_short_integer_leaves_input_unread() {
    let data = [0u8, 1, 2];
    let mut buf = Reader::new(&data);
    assert!(matches!(buf.try_get_u32(), Err(Error::BadMessage(_))));
    assert_eq!(buf.remaining(), 3);
    assert_eq!(buf.chunk(), &[0u8, 1, 2]);
}

#[test]
fn put_bytes_then_try_get_bytes_gives_them_back() {
    let mut out: Vec<u8> = Vec::new();
    put_u32(&mut out, 7);
    put_bytes(&mut out, &[0xDE, 0xAD]).unwrap();
    let mut buf = Reader::new(&out);
    assert_eq!(buf.try_get_u32().unwrap(), 7);
    assert_eq!(buf.try_get_bytes().unwrap(), vec![0xDE, 0xAD]);
    assert_eq!(buf.remaining(), 0);
}

#[test]
fn short_read_error_names_requested_and_available() {
    let data = [0u8, 1];
    let mut buf = Reader::new(&data);
    match buf.try_get_u32() {
        Err(Error::BadMessage(m)) => assert_eq!(
            m,
            "Not enough bytes remaining in buffer to read value (requested 4 but only 2 available)"
        ),
        _ => panic!("expected a short read"),
    }
}
