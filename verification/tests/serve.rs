use russh_sftp::error::Error;
use russh_sftp::protocol::by_handle::{Read, Write};
use russh_sftp::protocol::framing::{advance_split_write, MAX_PACKET_SIZE};
use russh_sftp::protocol::packet::Packet;
use russh_sftp::protocol::status::{Status, StatusCode};
use russh_sftp::server::serve::{
    decode_request, keep_serving, reply_packet, reset_write_buf_if_oversized, write_buf_oversized,
};
use russh_sftp::utils::{
    check_incoming_length, payload_capacity, payload_progress, reusable_capacity_for,
    uses_reusable_buffer, MAX_REUSABLE_PACKET_SIZE,
};

fn body(packet: Packet) -> Vec<u8> {
    packet.try_into_bytes().expect("serialize")[4..].to_vec()
}

#[test]
fn server_passes_requests_to_the_handler() {
    let bytes = body(Packet::Write(Write {
        id: 8,
        handle: b"bytes-handle".to_vec(),
        offset: 0,
        data: b"bytes-data".to_vec(),
    }));
    match decode_request(&bytes) {
        Ok(Packet::Write(w)) => {
            assert_eq!(w.id, 8);
            assert_eq!(w.handle, b"bytes-handle".to_vec());
            assert_eq!(w.data, b"bytes-data".to_vec());
        }
        _ => panic!("expected the write request"),
    }
}

fn assert_bad_message_reply(r: Result<Packet, Packet>) {
    match r {
        Err(Packet::Status(s)) => {
            assert_eq!(s.id, 0);
            assert_eq!(s.status_code, StatusCode::BadMessage);
            assert_eq!(s.error_message, "Bad message");
            assert_eq!(s.language_tag, "en-US");
        }
        _ => panic!("expected a bad-message status"),
    }
}

#[test]
fn server_answers_replies_and_garbage_with_bad_message() {
    let status = body(Packet::Status(Status {
        id: 1,
        status_code: StatusCode::Success,
        error_message: "Ok".to_owned(),
        language_tag: "en".to_owned(),
    }));
    assert_bad_message_reply(decode_request(&status));
    assert_bad_message_reply(decode_request(&[]));
    assert_bad_message_reply(decode_request(&[5, 0, 0]));
    let read = body(Packet::Read(Read { id: 2, handle: b"h".to_vec(), offset: 3, len: 4 }));
    assert!(matches!(decode_request(&read), Ok(Packet::Read(r)) if r.len == 4));
}

#[test]
fn serve_loop_goes_on_only_after_success() {
    assert!(keep_serving(Ok(())));
    assert!(!keep_serving(Err(Error::UnexpectedEof)));
    assert!(!keep_serving(Err(Error::IO("broken pipe".to_owned()))));
}

#[test]
fn write_buffer_is_emptied_and_shrunk_when_oversized() {
    assert!(!write_buf_oversized(256 * 1024));
    assert!(write_buf_oversized(256 * 1024 + 1));
    let mut small: Vec<u8> = Vec::with_capacity(1024);
    small.extend_from_slice(b"abc");
    reset_write_buf_if_oversized(&mut small);
    assert!(small.is_empty());
    assert!(small.capacity() >= 1024);
    let mut big: Vec<u8> = vec![0; 512 * 1024];
    reset_write_buf_if_oversized(&mut big);
    assert!(big.is_empty());
    assert!(big.capacity() < 512 * 1024);
}

#[test]
fn reusable_capacity_is_next_power_of_two_capped() {
    assert_eq!(reusable_capacity_for(0), 0);
    assert_eq!(reusable_capacity_for(1), 1);
    assert_eq!(reusable_capacity_for(3), 4);
    assert_eq!(reusable_capacity_for(33 * 1024), 64 * 1024);
    assert_eq!(reusable_capacity_for(256 * 1024), 256 * 1024);
    assert_eq!(reusable_capacity_for(256 * 1024 + 1), MAX_REUSABLE_PACKET_SIZE);
    assert_eq!(reusable_capacity_for(usize::MAX), MAX_REUSABLE_PACKET_SIZE);
    assert_eq!(payload_capacity(5), 8);
    assert_eq!(payload_capacity(300 * 1024), 300 * 1024);
}

#[test]
fn incoming_length_over_maximum_is_refused() {
    let too_large = (MAX_PACKET_SIZE as u32).wrapping_add(1);
    let err = check_incoming_length(too_large).expect_err("packet should be rejected");
    assert!(matches!(err, Error::BadMessage(_)));
    assert_eq!(
        err.message(),
        "Bad message: packet length 268435457 exceeds maximum 268435456"
    );
    assert_eq!(check_incoming_length(MAX_PACKET_SIZE as u32).unwrap(), MAX_PACKET_SIZE);
}

#[test]
fn reusable_buffer_is_used_up_to_its_limit() {
    assert!(uses_reusable_buffer(4));
    assert!(uses_reusable_buffer(MAX_REUSABLE_PACKET_SIZE));
    assert!(!uses_reusable_buffer(MAX_REUSABLE_PACKET_SIZE + 1));
}

#[test]
fn stream_end_mid_packet_is_unexpected_eof() {
    assert_eq!(payload_progress(0, 3, 5).unwrap(), 3);
    assert!(matches!(payload_progress(3, 0, 5), Err(Error::UnexpectedEof)));
}

#[test]
fn refused_request_is_answered_with_its_id() {
    match reply_packet(17, Err(StatusCode::NoSuchFile)) {
        Packet::Status(s) => {
            assert_eq!(s.id, 17);
            assert_eq!(s.status_code, StatusCode::NoSuchFile);
            assert_eq!(s.error_message, "No such file");
            assert_eq!(s.language_tag, "en-US");
        }
        _ => panic!("expected a status"),
    }
    let ok = Packet::Status(Status {
        id: 17,
        status_code: StatusCode::Success,
        error_message: "Ok".to_owned(),
        language_tag: "en".to_owned(),
    });
    assert!(matches!(reply_packet(17, Ok(ok)), Packet::Status(s) if s.error_message == "Ok"));
}

#[test]
fn split_write_completes_header_before_payload() {
    assert_eq!(advance_split_write(13, 7, 0, 0, 0), None);
    assert_eq!(advance_split_write(13, 7, 0, 0, 5), Some((5, 0)));
    assert_eq!(advance_split_write(13, 7, 5, 0, 10), Some((13, 2)));
    assert_eq!(advance_split_write(13, 7, 13, 2, 5), Some((13, 7)));
    assert_eq!(advance_split_write(0, 7, 0, 0, 7), Some((0, 7)));
}
