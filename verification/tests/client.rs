use russh_sftp::client::dispatch::{decode_reply, is_shutdown_request, reader_continues, Reply};
use russh_sftp::client::file_state::{
    read_len, seek_target, write_len, FileOpError, FileState, ReadBegin, SeekFrom,
    MAX_READ_LENGTH,
};
use russh_sftp::error::Error;
use russh_sftp::protocol::by_handle::Close;
use russh_sftp::protocol::packet::Packet;
use russh_sftp::protocol::status::{Status, StatusCode};

fn expect_requests(begin: ReadBegin) -> Vec<(u64, u32)> {
    match begin {
        ReadBegin::Wait(reqs) => reqs,
        ReadBegin::Ready(_) => panic!("expected read requests"),
    }
}

#[test]
fn read_ahead_fills_the_window_with_consecutive_chunks() {
    let mut state = FileState::new();
    let reqs = expect_requests(state.poll_read_begin(100, Some(10)));
    assert_eq!(reqs.len(), 64);
    for (i, (offset, len)) in reqs.iter().enumerate() {
        assert_eq!(*offset, i as u64 * 10);
        assert_eq!(*len, 10);
    }
    assert_eq!(state.pending_reads(), 64);
    // The window is full: nothing more is requested.
    assert!(expect_requests(state.poll_read_begin(100, Some(10))).is_empty());
}

#[test]
fn read_hands_out_chunks_in_order_and_keeps_the_rest() {
    let mut state = FileState::new();
    let _ = state.poll_read_begin(4, Some(8));
    // The second chunk arrives first: it waits.
    assert!(state.poll_read_reply(4, 8, 8, Some(b"IJKLMNOP".to_vec())).is_none());
    // The first chunk arrives: four bytes go out, the rest waits at 4.
    assert_eq!(state.poll_read_reply(4, 0, 8, Some(b"ABCDEFGH".to_vec())), Some(b"ABCD".to_vec()));
    assert_eq!(state.position(), 4);
    match state.poll_read_begin(100, Some(8)) {
        ReadBegin::Ready(d) => assert_eq!(d, b"EFGH".to_vec()),
        ReadBegin::Wait(_) => panic!("expected data"),
    }
    match state.poll_read_begin(100, Some(8)) {
        ReadBegin::Ready(d) => assert_eq!(d, b"IJKLMNOP".to_vec()),
        ReadBegin::Wait(_) => panic!("expected data"),
    }
    assert_eq!(state.position(), 16);
}

#[test]
fn short_reply_marks_end_of_file() {
    let mut state = FileState::new();
    let _ = state.poll_read_begin(100, Some(8));
    let got = state.poll_read_reply(100, 0, 8, Some(b"abc".to_vec()));
    assert_eq!(got, Some(b"abc".to_vec()));
    assert!(state.poll_read_idle());
    // Data past the end is dropped.
    assert!(state.poll_read_reply(100, 8, 8, Some(b"zzzzzzzz".to_vec())).is_none());
    // No request is issued once the end is known.
    assert!(expect_requests(state.poll_read_begin(100, Some(8))).is_empty());
}

#[test]
fn eof_status_at_cursor_ends_the_read_when_nothing_is_pending() {
    let mut state = FileState::new();
    let reqs = expect_requests(state.poll_read_begin(10, Some(4)));
    let n = reqs.len();
    for (k, (offset, len)) in reqs.into_iter().enumerate() {
        let r = state.poll_read_reply(10, offset, len, None);
        if k + 1 < n {
            assert!(r.is_none());
        } else {
            assert_eq!(r, Some(Vec::new()));
        }
    }
    assert_eq!(state.pending_reads(), 0);
}

#[test]
fn empty_buffer_reads_nothing() {
    let mut state = FileState::new();
    match state.poll_read_begin(0, None) {
        ReadBegin::Ready(d) => assert!(d.is_empty()),
        ReadBegin::Wait(_) => panic!("no request for an empty buffer"),
    }
    assert_eq!(state.pending_reads(), 0);
}

#[test]
fn failed_read_frees_its_slot() {
    let mut state = FileState::new();
    let _ = state.poll_read_begin(1, Some(1));
    state.poll_read_failed();
    assert_eq!(state.pending_reads(), 63);
}

#[test]
fn seek_is_refused_while_reads_are_pending() {
    let mut state = FileState::new();
    let _ = state.poll_read_begin(1, None);
    let err = state.start_seek().unwrap_err();
    assert_eq!(err, FileOpError::ReadPending);
    assert_eq!(err.message(), "read operation is pending, poll it before start_seek");
}

#[test]
fn second_seek_is_refused_until_the_first_completes() {
    let mut state = FileState::new();
    assert_eq!(state.start_seek(), Ok(0));
    let err = state.start_seek().unwrap_err();
    assert_eq!(err, FileOpError::OtherPending);
    assert_eq!(
        err.message(),
        "other file operation is pending, call poll_complete before start_seek"
    );
    assert_eq!(state.complete_seek(100), 100);
    assert_eq!(state.position(), 100);
    assert_eq!(state.start_seek(), Ok(100));
}

#[test]
fn seek_restarts_read_ahead_at_the_new_cursor() {
    let mut state = FileState::new();
    let _ = state.start_seek();
    state.complete_seek(1000);
    let reqs = expect_requests(state.poll_read_begin(10, Some(100)));
    assert_eq!(reqs[0], (1000, 100));
}

#[test]
fn seek_target_follows_the_three_origins() {
    assert_eq!(seek_target(SeekFrom::Start(5), 100, None), Ok(5));
    assert_eq!(seek_target(SeekFrom::Current(-10), 100, None), Ok(90));
    assert_eq!(seek_target(SeekFrom::End(-1), 0, Some(50)), Ok(49));
    assert_eq!(seek_target(SeekFrom::End(0), 0, None), Err(FileOpError::SizeUnknown));
    assert_eq!(seek_target(SeekFrom::Current(-101), 100, None), Err(FileOpError::BeforeStart));
    assert_eq!(seek_target(SeekFrom::Start(u64::MAX), 0, None), Err(FileOpError::BeforeStart));
    assert_eq!(FileOpError::SizeUnknown.message(), "file size unknown");
    assert_eq!(FileOpError::BeforeStart.message(), "cannot move file pointer before the beginning");
}

#[test]
fn chunk_lengths_follow_server_limits() {
    assert_eq!(read_len(None), MAX_READ_LENGTH as u32);
    assert_eq!(read_len(Some(1 << 40)), u32::MAX);
    assert_eq!(read_len(Some(512)), 512);
    assert_eq!(write_len(10, None), 10);
    assert_eq!(write_len(1_000_000, None), 261120);
    assert_eq!(write_len(1000, Some(100)), 100);
}

#[test]
fn writes_advance_the_cursor_and_close_is_sent_once() {
    let mut state = FileState::new();
    state.complete_write(10);
    state.complete_write(5);
    assert_eq!(state.position(), 15);
    assert!(state.needs_close());
    assert!(state.begin_close());
    assert!(!state.begin_close());
    assert!(!state.needs_close());
}

#[test]
fn client_decodes_replies_and_refuses_requests() {
    let status = Packet::Status(Status {
        id: 3,
        status_code: StatusCode::Eof,
        error_message: String::new(),
        language_tag: String::new(),
    })
    .try_into_bytes()
    .unwrap();
    assert!(matches!(decode_reply(&status[4..]), Ok(Reply::Status(s)) if s.id == 3));

    let close = Packet::Close(Close { id: 4, handle: b"h".to_vec() }).try_into_bytes().unwrap();
    match decode_reply(&close[4..]) {
        Err(Error::UnexpectedBehavior(m)) => {
            assert_eq!(m, "A packet was received that could not be processed.")
        }
        _ => panic!("a request is not a reply"),
    }
    assert!(matches!(decode_reply(&[250]), Err(Error::BadMessage(_))));
    assert!(matches!(decode_reply(&[]), Err(Error::BadMessage(_))));
}

#[test]
fn client_loop_stops_only_at_end_of_stream() {
    assert!(reader_continues(&Ok(())));
    assert!(reader_continues(&Err(Error::BadMessage("x".to_owned()))));
    assert!(!reader_continues(&Err(Error::UnexpectedEof)));
    assert!(is_shutdown_request(&[]));
    assert!(!is_shutdown_request(&[0]));
}

#[test]
fn end_of_file_is_never_recorded_early() {
    let mut state = FileState::new();
    let _ = state.poll_read_begin(100, Some(8));
    // The end-of-file status for a later request arrives first: the end it
    // records lies past the file's true end (3), never before it.
    assert!(state.poll_read_reply(100, 8, 8, None).is_none());
    assert_eq!(state.poll_read_reply(100, 0, 8, Some(b"abc".to_vec())), Some(b"abc".to_vec()));
    assert_eq!(state.position(), 3);
    assert!(!state.poll_read_idle());
}
