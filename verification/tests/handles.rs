use russh_sftp::protocol::status::StatusCode;
use russh_sftp::server::handles::{ClosedEntry, HandleTarget, SessionHandles};
use russh_sftp::server::session::ok_status;

#[test]
fn handles_resolve_only_in_owner_and_kind() {
    let mut handles = SessionHandles::<&str, &str>::new();
    let other = SessionHandles::<&str, &str>::new();
    let file = handles.insert_file("file");
    let dir = handles.insert_dir("dir");

    assert!(handles.decode_file(file.as_str()).is_some());
    assert!(handles.decode_dir(dir.as_str()).is_some());
    assert!(handles.decode_dir(file.as_str()).is_none());
    assert!(handles.decode_file(dir.as_str()).is_none());
    assert!(other.decode_file(file.as_str()).is_none());
}

#[test]
fn rejects_stale_and_malformed_handles() {
    let mut handles = SessionHandles::<&str, &str>::new();
    let handle = handles.insert_file("file");
    let decoded = handles.decode_file(handle.as_str()).unwrap();

    assert_eq!(handles.remove_file(&decoded), Some("file"));
    assert!(handles.decode_file(handle.as_str()).is_none());
    assert!(handles.decode_file("").is_none());
    assert!(handles.decode_file("not-a-real-handle").is_none());
}

#[test]
fn handle_text_names_kind_and_index() {
    let mut handles = SessionHandles::<u8, u8>::new();
    let f0 = handles.insert_file(1);
    let d1 = handles.insert_dir(2);
    let f2 = handles.insert_file(3);
    assert_eq!(f0.as_str(), "russh-sftp:f:0");
    assert_eq!(d1.as_str(), "russh-sftp:d:1");
    assert_eq!(f2.clone().into_string(), "russh-sftp:f:2");
    assert_eq!(f2.into_bytes(), b"russh-sftp:f:2".to_vec());
}

#[test]
fn non_canonical_index_is_refused() {
    let mut handles = SessionHandles::<u8, u8>::new();
    let _ = handles.insert_file(1);
    assert!(handles.decode_file("russh-sftp:f:0").is_some());
    assert!(handles.decode_file("russh-sftp:f:00").is_none());
    assert!(handles.decode_file("russh-sftp:f:+0").is_none());
    assert!(handles.decode_file("russh-sftp:f:0:").is_none());
    assert!(handles.decode_file("russh-sftp:ff:0").is_none());
}

#[test]
fn get_mut_updates_the_entry_in_place() {
    let mut handles = SessionHandles::<u32, u32>::new();
    let file = handles.insert_file(10);
    let dir = handles.insert_dir(20);
    *handles.get_file_mut(&file).unwrap() += 1;
    *handles.get_dir_mut(&dir).unwrap() += 2;
    assert_eq!(handles.remove_file(&file), Some(11));
    assert_eq!(handles.remove_dir(&dir), Some(22));
    assert!(handles.get_file_mut(&file).is_none());
    assert_eq!(handles.remove_dir(&dir), None);
}

#[test]
fn read_decodes_wire_file_handle_to_typed_file_state() {
    let mut handles = SessionHandles::<String, String>::new();
    let reply = handles.open_file(1, "file.txt".to_owned());
    assert_eq!(reply.id, 1);
    let file = handles.resolve_file(&reply.handle).expect("read");
    assert_eq!(handles.get_file_mut(&file).map(|f| f.clone()), Some("file.txt".to_owned()));
}

#[test]
fn read_rejects_dir_handle_before_user_handler() {
    let mut handles = SessionHandles::<String, String>::new();
    let reply = handles.open_dir(1, "/tmp".to_owned());
    assert_eq!(handles.resolve_file(&reply.handle).unwrap_err(), StatusCode::Failure);
    assert!(handles.resolve_dir(&reply.handle).is_ok());
}

#[test]
fn readdir_rejects_file_handle_before_user_handler() {
    let mut handles = SessionHandles::<String, String>::new();
    let reply = handles.open_file(1, "file.txt".to_owned());
    assert_eq!(handles.resolve_dir(&reply.handle).unwrap_err(), StatusCode::Failure);
}

#[test]
fn rejects_handle_from_another_managed_session() {
    let mut owner = SessionHandles::<String, String>::new();
    let other = SessionHandles::<String, String>::new();
    let reply = owner.open_file(1, "file.txt".to_owned());
    assert_eq!(other.resolve_file(&reply.handle).unwrap_err(), StatusCode::Failure);
    assert!(matches!(other.resolve(&reply.handle), Err(StatusCode::Failure)));
}

#[test]
fn rejects_tampered_handle_before_user_handler() {
    let mut handles = SessionHandles::<String, String>::new();
    let mut tampered = handles.open_file(1, "file.txt".to_owned()).handle;
    tampered[3] ^= 0x80;
    assert_eq!(handles.resolve_file(&tampered).unwrap_err(), StatusCode::Failure);
}

#[test]
fn close_removes_file_handle_and_returns_owned_state_to_handler() {
    let mut handles = SessionHandles::<String, String>::new();
    let raw = handles.open_file(1, "file.txt".to_owned()).handle;
    match handles.close_entry(&raw) {
        Ok(ClosedEntry::File(f)) => assert_eq!(f, "file.txt"),
        _ => panic!("close"),
    }
    assert_eq!(handles.resolve_file(&raw).unwrap_err(), StatusCode::Failure);
    assert!(matches!(handles.close_entry(&raw), Err(StatusCode::Failure)));
}

#[test]
fn fstat_dispatches_file_and_dir_handles_to_typed_methods() {
    let mut handles = SessionHandles::<String, String>::new();
    let file = handles.open_file(1, "file.txt".to_owned()).handle;
    let dir = handles.open_dir(1, "/tmp".to_owned()).handle;
    assert!(matches!(handles.resolve(&file), Ok(HandleTarget::File(_))));
    assert!(matches!(handles.resolve(&dir), Ok(HandleTarget::Dir(_))));
    match handles.close_entry(&dir) {
        Ok(ClosedEntry::Dir(d)) => assert_eq!(d, "/tmp"),
        _ => panic!("close dir"),
    }
}

#[test]
fn ok_status_answers_success_in_english() {
    let status = ok_status(5);
    assert_eq!(status.id, 5);
    assert_eq!(status.status_code, StatusCode::Success);
    assert_eq!(status.error_message, "Ok");
    assert_eq!(status.language_tag, "en");
}
