//! `SSH_FXP_STATUS` and its codes.

use vstd::prelude::*;

use crate::buf::{Reader, TryBuf};
use crate::error::{is_bad_message, Error};
use crate::text::{decimal_bytes, push_str_bytes, string_from_utf8_lossy};
use crate::wire::{
    get_string_spec, get_u32_spec, lemma_get_put_string, lemma_get_put_u32, put_string,
    put_string_spec, put_u32, text_fits, u32_be,
};

verus! {

/// Error codes of `SSH_FXP_STATUS`.
#[derive(Debug, Clone, Copy, PartialEq, Eq, Structural)]
pub enum StatusCode {
    /// Successful completion of the operation.
    Success,
    /// End of file: no more data to read, or no more entries in the directory.
    Eof,
    /// A file that should exist does not.
    NoSuchFile,
    /// The user may not perform the operation.
    PermissionDenied,
    /// A catch-all error.
    Failure,
    /// A badly formatted packet or a protocol incompatibility.
    BadMessage,
    /// The client has no connection to the server (generated locally only).
    NoConnection,
    /// The connection to the server was lost (generated locally only).
    ConnectionLost,
    /// The operation is not supported.
    OpUnsupported,
}

/// The number that stands for each code on the wire.
pub open spec fn status_code_value(c: StatusCode) -> u32 {
    match c {
        StatusCode::Success => 0,
        StatusCode::Eof => 1,
        StatusCode::NoSuchFile => 2,
        StatusCode::PermissionDenied => 3,
        StatusCode::Failure => 4,
        StatusCode::BadMessage => 5,
        StatusCode::NoConnection => 6,
        StatusCode::ConnectionLost => 7,
        StatusCode::OpUnsupported => 8,
    }
}

/// The code that a number stands for, when it stands for one.
pub open spec fn status_code_from(v: u32) -> Option<StatusCode> {
    if v == 0 {
        Some(StatusCode::Success)
    } else if v == 1 {
        Some(StatusCode::Eof)
    } else if v == 2 {
        Some(StatusCode::NoSuchFile)
    } else if v == 3 {
        Some(StatusCode::PermissionDenied)
    } else if v == 4 {
        Some(StatusCode::Failure)
    } else if v == 5 {
        Some(StatusCode::BadMessage)
    } else if v == 6 {
        Some(StatusCode::NoConnection)
    } else if v == 7 {
        Some(StatusCode::ConnectionLost)
    } else if v == 8 {
        Some(StatusCode::OpUnsupported)
    } else {
        None
    }
}

/// The human-readable text of each code.
pub open spec fn status_code_text(c: StatusCode) -> Seq<char> {
    match c {
        StatusCode::Success => "Ok"@,
        StatusCode::Eof => "Eof"@,
        StatusCode::NoSuchFile => "No such file"@,
        StatusCode::PermissionDenied => "Permission denied"@,
        StatusCode::Failure => "Failure"@,
        StatusCode::BadMessage => "Bad message"@,
        StatusCode::NoConnection => "No connection"@,
        StatusCode::ConnectionLost => "Connection lost"@,
        StatusCode::OpUnsupported => "Operation unsupported"@,
    }
}

/// The numbers of the status codes, as SFTP v3 fixes them, both ways: 0 ok,
/// 1 end of file, 2 no such file, 3 permission denied, 4 failure, 5 bad
/// message, 6 no connection, 7 connection lost, 8 operation unsupported; no
/// other number is a code.
pub proof fn lemma_status_code_numbers(v: u32)
    ensures
        status_code_value(StatusCode::Success) == 0,
        status_code_value(StatusCode::Eof) == 1,
        status_code_value(StatusCode::NoSuchFile) == 2,
        status_code_value(StatusCode::PermissionDenied) == 3,
        status_code_value(StatusCode::Failure) == 4,
        status_code_value(StatusCode::BadMessage) == 5,
        status_code_value(StatusCode::NoConnection) == 6,
        status_code_value(StatusCode::ConnectionLost) == 7,
        status_code_value(StatusCode::OpUnsupported) == 8,
        v == 0 ==> status_code_from(v) == Some(StatusCode::Success),
        v == 1 ==> status_code_from(v) == Some(StatusCode::Eof),
        v == 2 ==> status_code_from(v) == Some(StatusCode::NoSuchFile),
        v == 3 ==> status_code_from(v) == Some(StatusCode::PermissionDenied),
        v == 4 ==> status_code_from(v) == Some(StatusCode::Failure),
        v == 5 ==> status_code_from(v) == Some(StatusCode::BadMessage),
        v == 6 ==> status_code_from(v) == Some(StatusCode::NoConnection),
        v == 7 ==> status_code_from(v) == Some(StatusCode::ConnectionLost),
        v == 8 ==> status_code_from(v) == Some(StatusCode::OpUnsupported),
        v > 8 ==> status_code_from(v) is None,
{
}

/// Every code reads back from its number.
pub proof fn lemma_status_code_roundtrip(c: StatusCode)
    ensures
        status_code_from(status_code_value(c)) == Some(c),
{
}

impl StatusCode {
    /// The number of the code on the wire.
    pub fn code(&self) -> (v: u32)
        ensures
            v == status_code_value(*self),
    {
        match self {
            StatusCode::Success => 0,
            StatusCode::Eof => 1,
            StatusCode::NoSuchFile => 2,
            StatusCode::PermissionDenied => 3,
            StatusCode::Failure => 4,
            StatusCode::BadMessage => 5,
            StatusCode::NoConnection => 6,
            StatusCode::ConnectionLost => 7,
            StatusCode::OpUnsupported => 8,
        }
    }

    /// The code a number stands for; any number above 8 is refused.
    pub fn try_from(value: u32) -> (r: Result<StatusCode, Error>)
        ensures
            match status_code_from(value) {
                Some(c) => r == Ok::<StatusCode, Error>(c),
                None => is_bad_message(r),
            },
    {
        match value {
            0 => Ok(StatusCode::Success),
            1 => Ok(StatusCode::Eof),
            2 => Ok(StatusCode::NoSuchFile),
            3 => Ok(StatusCode::PermissionDenied),
            4 => Ok(StatusCode::Failure),
            5 => Ok(StatusCode::BadMessage),
            6 => Ok(StatusCode::NoConnection),
            7 => Ok(StatusCode::ConnectionLost),
            8 => Ok(StatusCode::OpUnsupported),
            _ => {
                let mut msg: Vec<u8> = Vec::new();
                push_str_bytes(&mut msg, "unknown status code ");
                let digits = decimal_bytes(value as u64);
                crate::wire::put_slice(&mut msg, digits.as_slice());
                Err(Error::BadMessage(string_from_utf8_lossy(msg.as_slice())))
            },
        }
    }

    /// The human-readable text of the code.
    pub fn message(&self) -> (s: String)
        ensures
            s@ == status_code_text(*self),
    {
        match self {
            StatusCode::Success => "Ok".to_owned(),
            StatusCode::Eof => "Eof".to_owned(),
            StatusCode::NoSuchFile => "No such file".to_owned(),
            StatusCode::PermissionDenied => "Permission denied".to_owned(),
            StatusCode::Failure => "Failure".to_owned(),
            StatusCode::BadMessage => "Bad message".to_owned(),
            StatusCode::NoConnection => "No connection".to_owned(),
            StatusCode::ConnectionLost => "Connection lost".to_owned(),
            StatusCode::OpUnsupported => "Operation unsupported".to_owned(),
        }
    }
}

/// Implementation for `SSH_FXP_STATUS`
/// <https://datatracker.ietf.org/doc/html/draft-ietf-secsh-filexfer-02#section-7>
#[derive(Debug, Clone)]
pub struct Status {
    pub id: u32,
    pub status_code: StatusCode,
    pub error_message: String,
    pub language_tag: String,
}

impl View for Status {
    type V = (u32, StatusCode, Seq<char>, Seq<char>);

    open spec fn view(&self) -> (u32, StatusCode, Seq<char>, Seq<char>) {
        (self.id, self.status_code, self.error_message@, self.language_tag@)
    }
}

/// Layout `uint32 id, uint32 code, string message, string language tag`.
pub open spec fn parse_status(s: Seq<u8>) -> Option<((u32, StatusCode, Seq<char>, Seq<char>), Seq<u8>)> {
    match get_u32_spec(s) {
        None => None,
        Some((id, s1)) => match get_u32_spec(s1) {
            None => None,
            Some((v, s2)) => match status_code_from(v) {
                None => None,
                Some(code) => match get_string_spec(s2) {
                    None => None,
                    Some((msg, s3)) => match get_string_spec(s3) {
                        None => None,
                        Some((tag, s4)) => Some(((id, code, msg, tag), s4)),
                    },
                },
            },
        },
    }
}

pub open spec fn encode_status(v: (u32, StatusCode, Seq<char>, Seq<char>)) -> Seq<u8> {
    u32_be(v.0) + (u32_be(status_code_value(v.1)) + (put_string_spec(v.2) + put_string_spec(v.3)))
}

pub open spec fn status_fits(v: (u32, StatusCode, Seq<char>, Seq<char>)) -> bool {
    text_fits(v.2) && text_fits(v.3)
}

pub proof fn lemma_status(v: (u32, StatusCode, Seq<char>, Seq<char>), rest: Seq<u8>)
    requires
        status_fits(v),
    ensures
        parse_status(encode_status(v) + rest) == Some((v, rest)),
{
    let s3 = put_string_spec(v.3) + rest;
    let s2 = put_string_spec(v.2) + s3;
    let s1 = u32_be(status_code_value(v.1)) + s2;
    assert(encode_status(v) + rest =~= u32_be(v.0) + s1);
    lemma_get_put_u32(v.0, s1);
    lemma_get_put_u32(status_code_value(v.1), s2);
    lemma_status_code_roundtrip(v.1);
    lemma_get_put_string(v.2, s3);
    lemma_get_put_string(v.3, rest);
}

impl Status {
    /// Decodes the packet body that follows the type byte; an unknown status
    /// code is refused.
    pub fn from_bytes(input: &mut Reader) -> (r: Result<Status, Error>)
        ensures
            match parse_status(old(input)@) {
                Some((v, rest)) => r matches Ok(p) && p@ == v && final(input)@ == rest,
                None => is_bad_message(r),
            },
    {
        let id = input.try_get_u32()?;
        let status_code = StatusCode::try_from(input.try_get_u32()?)?;
        let error_message = input.try_get_string()?;
        let language_tag = input.try_get_string()?;
        Ok(Status { id, status_code, error_message, language_tag })
    }

    /// Appends the packet body; fails, writing nothing, when a text is too
    /// long for the wire format.
    pub fn serialize_into(&self, out: &mut Vec<u8>) -> (r: Result<(), Error>)
        ensures
            r is Ok <==> status_fits(self@),
            r is Ok ==> final(out)@ == old(out)@ + encode_status(self@),
            r is Err ==> final(out)@ == old(out)@ && is_bad_message(r),
    {
        if self.error_message.as_str().as_bytes().len() > u32::MAX as usize
            || self.language_tag.as_str().as_bytes().len() > u32::MAX as usize {
            return Err(Error::BadMessage("length exceeds u32::MAX".to_owned()));
        }
        put_u32(out, self.id);
        put_u32(out, self.status_code.code());
        let r1 = put_string(out, self.error_message.as_str());
        assert(r1 is Ok);
        let r2 = put_string(out, self.language_tag.as_str());
        assert(r2 is Ok);
        assert(out@ =~= old(out)@ + encode_status(self@));
        Ok(())
    }
}

} // verus!
