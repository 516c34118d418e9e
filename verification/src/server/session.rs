//! Replies that a managed session makes on its own.

use vstd::prelude::*;

use crate::protocol::status::{Status, StatusCode};

verus! {

/// The success status that closing an entry answers by default.
pub fn ok_status(id: u32) -> (s: Status)
    ensures
        s@ == (id, StatusCode::Success, "Ok"@, "en"@),
{
    Status {
        id,
        status_code: StatusCode::Success,
        error_message: "Ok".to_owned(),
        language_tag: "en".to_owned(),
    }
}

} // verus!
