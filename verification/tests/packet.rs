use russh_sftp::buf::Reader;
use russh_sftp::error::Error;
use russh_sftp::protocol::by_handle::{FSetStat, Handle, Read, Write};
use russh_sftp::protocol::data::{Data, DataPayload};
use russh_sftp::protocol::extended::Extended;
use russh_sftp::protocol::file_attrs::{File, FileAttributes};
use russh_sftp::protocol::framing::{
    checked_packet_length, serialize_packet_into, serialize_packet_into_buf,
    serialize_packet_split, serialize_read_packet, SerializedPacket, MAX_PACKET_SIZE,
};
use russh_sftp::protocol::name::{Attrs, Name};
use russh_sftp::protocol::packet::{Packet, SSH_FXP_DATA, SSH_FXP_HANDLE, SSH_FXP_NAME};
use russh_sftp::protocol::paths::{Open, OpenFlags, Rename};
use russh_sftp::protocol::status::{Status, StatusCode};
use russh_sftp::protocol::version::{Init, VERSION};
use russh_sftp::wire::{put_u32, put_u64, put_u8};

fn assert_packet_roundtrip(packet: Packet, check: impl FnOnce(Packet)) {
    let serialized = packet.try_into_bytes().expect("serialize failed");
    let mut bytes = Reader::new(&serialized[4..]);
    let parsed = Packet::try_from_buf(&mut bytes).expect("deserialize failed");
    check(parsed);
}

#[test]
fn packet_write_roundtrip() {
    let original = Write {
        id: 42,
        handle: b"test-handle".to_vec(),
        offset: 1024,
        data: b"hello world".to_vec(),
    };
    assert_packet_roundtrip(Packet::Write(original), |packet| {
        if let Packet::Write(write) = packet {
            assert_eq!(write.id, 42);
            assert_eq!(write.handle.as_slice(), b"test-handle");
            assert_eq!(write.offset, 1024);
            assert_eq!(write.data.as_slice(), b"hello world");
        } else {
            panic!("Expected Write packet");
        }
    });
}

#[test]
fn packet_data_roundtrip() {
    let original = Data {
        id: 99,
        data: DataPayload::from(vec![0xDE, 0xAD, 0xBE, 0xEF]),
    };
    assert_packet_roundtrip(Packet::Data(original), |packet| {
        if let Packet::Data(data) = packet {
            assert_eq!(data.id, 99);
            assert_eq!(data.data.as_slice(), &[0xDE, 0xAD, 0xBE, 0xEF]);
        } else {
            panic!("Expected Data packet");
        }
    });
}

#[test]
fn split_data_serialization_matches_contiguous() {
    let payload = vec![0xCAu8; 32 * 1024];

    let contiguous = Packet::Data(Data {
        id: 42,
        data: DataPayload::from(payload.clone()),
    })
    .try_into_bytes()
    .expect("contiguous serialize failed");

    let mut buf: Vec<u8> = Vec::new();
    let split = serialize_packet_split(
        Packet::Data(Data {
            id: 42,
            data: DataPayload::from(payload),
        }),
        &mut buf,
    )
    .expect("split serialize failed");

    let reassembled = match split {
        SerializedPacket::Contiguous(_) => panic!("expected split packet"),
        SerializedPacket::Split { header, data } => {
            let mut combined = Vec::with_capacity(header.len() + data.len());
            combined.extend_from_slice(&header);
            combined.extend_from_slice(data.as_slice());
            combined
        }
    };

    assert_eq!(reassembled, contiguous);
}

#[test]
fn packet_write_large_data() {
    let large_data = vec![0xABu8; 64 * 1024]; // 64KB
    let original = Write {
        id: 1,
        handle: b"big".to_vec(),
        offset: 0,
        data: large_data.clone(),
    };

    assert_packet_roundtrip(Packet::Write(original), |packet| {
        if let Packet::Write(write) = packet {
            assert_eq!(write.data.len(), 64 * 1024);
            assert_eq!(write.data.as_slice(), large_data.as_slice());
        } else {
            panic!("Expected Write packet");
        }
    });
}

#[test]
fn packet_handle_roundtrip() {
    let original = Handle {
        id: 7,
        handle: b"opaque-handle".to_vec(),
    };

    assert_packet_roundtrip(Packet::Handle(original), |packet| {
        if let Packet::Handle(handle) = packet {
            assert_eq!(handle.id, 7);
            assert_eq!(handle.handle.as_slice(), b"opaque-handle");
        } else {
            panic!("Expected Handle packet");
        }
    });
}

#[test]
fn packet_status_roundtrip() {
    let original = Status {
        id: 9,
        status_code: StatusCode::Failure,
        error_message: "failed".into(),
        language_tag: "en-US".into(),
    };

    assert_packet_roundtrip(Packet::Status(original), |packet| {
        if let Packet::Status(status) = packet {
            assert_eq!(status.id, 9);
            assert_eq!(status.status_code, StatusCode::Failure);
            assert_eq!(status.error_message, "failed");
            assert_eq!(status.language_tag, "en-US");
        } else {
            panic!("Expected Status packet");
        }
    });
}

fn attrs_with(
    size: Option<u64>,
    uid: Option<u32>,
    gid: Option<u32>,
    permissions: Option<u32>,
    atime: Option<u32>,
    mtime: Option<u32>,
) -> FileAttributes {
    let mut attrs = FileAttributes::empty();
    attrs.size = size;
    attrs.uid = uid;
    attrs.gid = gid;
    attrs.permissions = permissions;
    attrs.atime = atime;
    attrs.mtime = mtime;
    attrs
}

#[test]
fn packet_name_roundtrip() {
    let original = Name {
        id: 11,
        files: vec![
            File {
                filename: "a.txt".to_string(),
                longname: "-rw-r--r-- a.txt".to_string(),
                attrs: FileAttributes {
                    size: Some(1),
                    uid: Some(1000),
                    user: None,
                    gid: Some(1001),
                    group: None,
                    permissions: Some(0o100644),
                    atime: Some(10),
                    mtime: Some(20),
                },
            },
            File {
                filename: "dir".to_string(),
                longname: "drwxr-xr-x dir".to_string(),
                attrs: attrs_with(None, None, None, Some(0o040755), None, None),
            },
        ],
    };

    assert_packet_roundtrip(Packet::Name(original), |packet| {
        if let Packet::Name(name) = packet {
            assert_eq!(name.id, 11);
            assert_eq!(name.files.len(), 2);
            assert_eq!(name.files[0].filename, "a.txt");
            assert_eq!(name.files[0].attrs.size, Some(1));
            assert_eq!(name.files[1].filename, "dir");
            assert_eq!(name.files[1].attrs.permissions, Some(0o040755));
        } else {
            panic!("Expected Name packet");
        }
    });
}

#[test]
fn packet_open_roundtrip() {
    let original = Open {
        id: 12,
        filename: "/tmp/file".to_string(),
        pflags: OpenFlags::from_bits(OpenFlags::READ | OpenFlags::WRITE | OpenFlags::CREATE),
        attrs: attrs_with(Some(77), None, None, Some(0o100644), None, None),
    };

    assert_packet_roundtrip(Packet::Open(original), |packet| {
        if let Packet::Open(open) = packet {
            assert_eq!(open.id, 12);
            assert_eq!(open.filename, "/tmp/file");
            assert!(open.pflags.contains(OpenFlags::READ));
            assert!(open.pflags.contains(OpenFlags::WRITE));
            assert!(open.pflags.contains(OpenFlags::CREATE));
            assert_eq!(open.attrs.size, Some(77));
            assert_eq!(open.attrs.permissions, Some(0o100644));
        } else {
            panic!("Expected Open packet");
        }
    });
}

#[test]
fn packet_rename_roundtrip() {
    let original = Rename {
        id: 13,
        oldpath: "/old".to_string(),
        newpath: "/new".to_string(),
    };

    assert_packet_roundtrip(Packet::Rename(original), |packet| {
        if let Packet::Rename(rename) = packet {
            assert_eq!(rename.oldpath, "/old");
            assert_eq!(rename.newpath, "/new");
        } else {
            panic!("Expected Rename packet");
        }
    });
}

#[test]
fn packet_init_roundtrip() {
    let extensions = vec![
        ("limits@openssh.com".to_string(), "1".to_string()),
        ("statvfs@openssh.com".to_string(), "2".to_string()),
    ];

    assert_packet_roundtrip(
        Packet::Init(Init {
            version: VERSION,
            extensions: extensions.clone(),
        }),
        |packet| {
            if let Packet::Init(init) = packet {
                assert_eq!(init.version, VERSION);
                assert_eq!(init.extensions, extensions);
            } else {
                panic!("Expected Init packet");
            }
        },
    );
}

#[test]
fn packet_fsetstat_roundtrip() {
    let original = FSetStat {
        id: 21,
        handle: b"opaque-handle".to_vec(),
        attrs: attrs_with(Some(512), None, None, Some(0o100600), Some(10), Some(20)),
    };

    assert_packet_roundtrip(Packet::FSetStat(original), |packet| {
        if let Packet::FSetStat(fsetstat) = packet {
            assert_eq!(fsetstat.id, 21);
            assert_eq!(fsetstat.handle.as_slice(), b"opaque-handle");
            assert_eq!(fsetstat.attrs.size, Some(512));
            assert_eq!(fsetstat.attrs.permissions, Some(0o100600));
        } else {
            panic!("Expected FSetStat packet");
        }
    });
}

#[test]
fn packet_extended_roundtrip() {
    let original = Extended {
        id: 31,
        request: "limits@openssh.com".to_string(),
        data: vec![1, 2, 3, 4],
    };

    assert_packet_roundtrip(Packet::Extended(original), |packet| {
        if let Packet::Extended(extended) = packet {
            assert_eq!(extended.id, 31);
            assert_eq!(extended.request, "limits@openssh.com");
            assert_eq!(extended.data, vec![1, 2, 3, 4]);
        } else {
            panic!("Expected Extended packet");
        }
    });
}

#[test]
fn packet_attrs_roundtrip() {
    let original = Attrs {
        id: 41,
        attrs: attrs_with(None, Some(1000), Some(1001), Some(0o040755), None, None),
    };

    assert_packet_roundtrip(Packet::Attrs(original), |packet| {
        if let Packet::Attrs(attrs) = packet {
            assert_eq!(attrs.id, 41);
            assert_eq!(attrs.attrs.uid, Some(1000));
            assert_eq!(attrs.attrs.gid, Some(1001));
            assert_eq!(attrs.attrs.permissions, Some(0o040755));
        } else {
            panic!("Expected Attrs packet");
        }
    });
}

#[test]
fn packet_handle_preserves_binary_bytes() {
    let mut bytes: Vec<u8> = Vec::new();
    put_u8(&mut bytes, SSH_FXP_HANDLE);
    put_u32(&mut bytes, 1);
    put_u32(&mut bytes, 2);
    bytes.extend_from_slice(&[0xFF, 0xFE]);

    let packet = Packet::try_from_buf(&mut Reader::new(&bytes)).expect("deserialize binary handle");

    if let Packet::Handle(handle) = packet {
        assert_eq!(handle.handle.as_slice(), &[0xFF, 0xFE]);
    } else {
        panic!("Expected Handle packet");
    }
}

#[test]
fn packet_name_truncated_fails() {
    let mut bytes: Vec<u8> = Vec::new();
    put_u8(&mut bytes, SSH_FXP_NAME);
    put_u32(&mut bytes, 1);
    put_u32(&mut bytes, 1);
    put_u32(&mut bytes, 5);
    bytes.extend_from_slice(b"ab");

    let err = Packet::try_from_buf(&mut Reader::new(&bytes)).expect_err("truncated name should fail");
    assert!(matches!(
        err,
        Error::BadMessage(_) | Error::UnexpectedBehavior(_)
    ));
}

#[test]
fn packet_name_count_too_large_fails() {
    let mut bytes: Vec<u8> = Vec::new();
    put_u8(&mut bytes, SSH_FXP_NAME);
    put_u32(&mut bytes, 1);
    put_u32(&mut bytes, 2);
    put_u32(&mut bytes, 0);
    put_u32(&mut bytes, 0);
    put_u32(&mut bytes, 0);

    let err = Packet::try_from_buf(&mut Reader::new(&bytes)).expect_err("oversized name count should fail");

    assert!(matches!(err, Error::BadMessage(_)));
}

#[test]
fn serialize_packet_into_preserves_reusable_buffer_capacity() {
    let packet = Packet::Write(Write {
        id: 1,
        handle: b"handle".to_vec(),
        offset: 0,
        data: vec![0xAB; 32 * 1024],
    });
    let mut buf: Vec<u8> = Vec::with_capacity(64 * 1024);
    let initial_capacity = buf.capacity();

    let serialized = serialize_packet_into(packet, &mut buf).expect("serialize packet");

    assert!(!serialized.is_empty());
    assert_eq!(buf.capacity(), initial_capacity);
}

#[test]
fn serialize_packet_into_buf_reuses_existing_allocation() {
    let packet = Packet::Data(Data {
        id: 1,
        data: DataPayload::from(b"payload".to_vec()),
    });
    let mut buf: Vec<u8> = Vec::with_capacity(64 * 1024);
    let ptr = buf.as_ptr();

    serialize_packet_into_buf(packet, &mut buf).expect("serialize packet");

    assert_eq!(buf.as_ptr(), ptr);
    assert!(!buf.is_empty());
}

#[test]
fn serialize_packet_into_rejects_oversized_packets() {
    let err = checked_packet_length(MAX_PACKET_SIZE + 1)
        .expect_err("oversized packet should be rejected");

    assert!(matches!(err, Error::BadMessage(_)));
}

#[test]
fn serialize_packet_into_data_matches_existing_wire_shape() {
    let packet = Packet::Data(Data {
        id: 7,
        data: DataPayload::from(b"payload".to_vec()),
    });
    let data = Data {
        id: 7,
        data: DataPayload::from(b"payload".to_vec()),
    };
    let mut packet_buf: Vec<u8> = Vec::new();

    let packet_bytes = serialize_packet_into(packet, &mut packet_buf).expect("serialize packet");
    let mut payload_bytes: Vec<u8> = Vec::new();
    data.serialize_into(&mut payload_bytes).expect("serialize data payload");

    assert_eq!(
        packet_bytes[0..4],
        (payload_bytes.len() as u32 + 1).to_be_bytes()
    );
    assert_eq!(packet_bytes[4], SSH_FXP_DATA);
    assert_eq!(&packet_bytes[5..], &payload_bytes[..]);
}

#[test]
fn serialize_read_packet_matches_generic_wire_shape() {
    let handle = b"handle".to_vec();
    let packet = Packet::Read(Read {
        id: 9,
        handle: handle.clone(),
        offset: 1234,
        len: 5678,
    });
    let mut packet_buf: Vec<u8> = Vec::new();

    let generic = serialize_packet_into(packet, &mut packet_buf).expect("serialize packet");
    let specialized = serialize_read_packet(9, &handle, 1234, 5678).expect("serialize read packet");

    assert_eq!(specialized, generic);
}

#[test]
fn serialize_packet_into_data_handles_empty_payloads() {
    let packet = Packet::Data(Data {
        id: 9,
        data: DataPayload::from(Vec::new()),
    });
    let mut buf: Vec<u8> = Vec::new();

    let serialized = serialize_packet_into(packet, &mut buf).expect("serialize packet");

    assert_eq!(serialized[4], SSH_FXP_DATA);
    assert_eq!(&serialized[5..9], &9u32.to_be_bytes());
    assert_eq!(&serialized[9..13], &0u32.to_be_bytes());
    assert_eq!(serialized.len(), 13);
}

#[test]
fn read_packet_frame_has_exact_bytes() {
    let framed = serialize_read_packet(9, b"h", 1, 2).expect("serialize read packet");
    let mut expected: Vec<u8> = Vec::new();
    put_u32(&mut expected, 22);
    put_u8(&mut expected, 5);
    put_u32(&mut expected, 9);
    put_u32(&mut expected, 1);
    expected.push(b'h');
    put_u64(&mut expected, 1);
    put_u32(&mut expected, 2);
    assert_eq!(framed, expected);
}

#[test]
fn packet_from_wraps_each_kind() {
    let packet: Packet = Handle {
        id: 3,
        handle: b"h".to_vec(),
    }
    .into();
    assert!(matches!(packet, Packet::Handle(ref h) if h.id == 3));
    assert!(!packet.is_request());
    let packet: Packet = Rename {
        id: 4,
        oldpath: "/a".to_owned(),
        newpath: "/b".to_owned(),
    }
    .into();
    assert_eq!(packet.get_request_id(), 4);
    assert!(packet.is_request());
}

#[test]
fn name_count_error_names_count_and_limit() {
    let mut bytes: Vec<u8> = Vec::new();
    put_u32(&mut bytes, 1);
    put_u32(&mut bytes, 2);
    put_u32(&mut bytes, 0);
    put_u32(&mut bytes, 0);
    put_u32(&mut bytes, 0);
    match Name::from_bytes(&mut Reader::new(&bytes)) {
        Err(Error::BadMessage(m)) => {
            assert_eq!(m, "name count 2 exceeds maximum possible entries 1")
        }
        _ => panic!("expected a count error"),
    }
}
