use vstd::prelude::*;
use vstd::string::StringExecFns;

verus! {

/// Errors raised while decoding, encoding or moving packets.
#[derive(Debug)]
pub enum Error {
    /// The peer sent (or the caller asked to send) a malformed packet.
    BadMessage(String),
    /// The stream ended in the middle of a packet.
    UnexpectedEof,
    /// The peer did something the protocol does not allow at this point.
    UnexpectedBehavior(String),
    /// The transport failed.
    IO(String),
}

/// The text that reports an error.
pub open spec fn error_text(e: Error) -> Seq<char> {
    match e {
        Error::BadMessage(m) => "Bad message: "@ + m@,
        Error::UnexpectedEof => "Unexpected EOF on stream"@,
        Error::UnexpectedBehavior(m) => "Unexpected behavior: "@ + m@,
        Error::IO(m) => "I/O: "@ + m@,
    }
}

impl Error {
    /// The text that reports the error.
    pub fn message(&self) -> (s: String)
        ensures
            s@ == error_text(*self),
    {
        match self {
            Error::BadMessage(m) => "Bad message: ".to_owned().concat(m.as_str()),
            Error::UnexpectedEof => "Unexpected EOF on stream".to_owned(),
            Error::UnexpectedBehavior(m) => "Unexpected behavior: ".to_owned().concat(m.as_str()),
            Error::IO(m) => "I/O: ".to_owned().concat(m.as_str()),
        }
    }
}

/// Does `r` fail with a `BadMessage` error?
pub open spec fn is_bad_message<T>(r: Result<T, Error>) -> bool {
    r matches Err(Error::BadMessage(_))
}

/// Does `r` fail with a `BadMessage` whose text is exactly `msg`?
pub open spec fn is_bad_message_text<T>(r: Result<T, Error>, msg: Seq<char>) -> bool {
    r matches Err(Error::BadMessage(m)) && m@ == msg
}

} // verus!
