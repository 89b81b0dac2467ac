//! The closed set of transaction statuses, with its string and byte forms.

use vstd::prelude::*;
use crate::errors::ParseStatusError;
use crate::num::dec_chars;
use crate::num::u64_to_string;

verus! {

/// State of a transaction.
#[derive(Debug, Clone, Copy, PartialEq, Eq, Structural)]
pub enum Status {
    Success,
    Failure,
    Pending,
}

/// Canonical uppercase name of a status.
pub open spec fn status_name(s: Status) -> Seq<char> {
    match s {
        Status::Success => "SUCCESS"@,
        Status::Failure => "FAILURE"@,
        Status::Pending => "PENDING"@,
    }
}

/// The status named by a string, if any.
pub open spec fn status_from_chars(s: Seq<char>) -> Option<Status> {
    if s == "SUCCESS"@ {
        Some(Status::Success)
    } else if s == "FAILURE"@ {
        Some(Status::Failure)
    } else if s == "PENDING"@ {
        Some(Status::Pending)
    } else {
        None
    }
}

/// Byte code of a status in the binary format.
pub open spec fn status_code(s: Status) -> u8 {
    match s {
        Status::Success => 0,
        Status::Failure => 1,
        Status::Pending => 2,
    }
}

/// The status a byte code names, if any.
pub open spec fn status_from_code(b: u8) -> Option<Status> {
    if b == 0 {
        Some(Status::Success)
    } else if b == 1 {
        Some(Status::Failure)
    } else if b == 2 {
        Some(Status::Pending)
    } else {
        None
    }
}

/// A status's name names that status back.
pub proof fn lemma_status_name_roundtrip(s: Status)
    ensures
        status_from_chars(status_name(s)) == Some(s),
{
    reveal_strlit("SUCCESS");
    reveal_strlit("FAILURE");
    reveal_strlit("PENDING");
    assert(status_name(s).len() == 7);
    match s {
        Status::Success => {
        },
        Status::Failure => {
            assert("FAILURE"@[0] != "SUCCESS"@[0]);
        },
        Status::Pending => {
            assert("PENDING"@[0] != "SUCCESS"@[0]);
            assert("PENDING"@[0] != "FAILURE"@[0]);
        },
    }
}

/// Status names hold only uppercase ASCII letters.
pub proof fn lemma_status_name_chars(s: Status)
    ensures
        forall|i: int|
            0 <= i < status_name(s).len() ==> 'A' <= #[trigger] status_name(s)[i] <= 'Z',
{
    reveal_strlit("SUCCESS");
    reveal_strlit("FAILURE");
    reveal_strlit("PENDING");
}

impl Status {
    /// Canonical uppercase name.
    pub fn as_str(&self) -> (r: &'static str)
        ensures
            r@ == status_name(*self),
    {
        match self {
            Status::Success => "SUCCESS",
            Status::Failure => "FAILURE",
            Status::Pending => "PENDING",
        }
    }

    /// The status named by a string, or the error carrying the rejected text.
    pub fn try_from(value: &str) -> (r: Result<Status, ParseStatusError>)
        ensures
            match status_from_chars(value@) {
                Some(s) => r == Ok::<Status, ParseStatusError>(s),
                None => r matches Err(e) && e@ == value@,
            },
    {
        if crate::strutil::str_eq(value, "SUCCESS") {
            Ok(Status::Success)
        } else if crate::strutil::str_eq(value, "FAILURE") {
            Ok(Status::Failure)
        } else if crate::strutil::str_eq(value, "PENDING") {
            Ok(Status::Pending)
        } else {
            Err(ParseStatusError::InvalidStatus(String::from_str(value)))
        }
    }

    /// The status named by a byte code, or the error carrying the rejected
    /// code rendered in decimal.
    pub fn try_from_u8(value: u8) -> (r: Result<Status, ParseStatusError>)
        ensures
            match status_from_code(value) {
                Some(s) => r == Ok::<Status, ParseStatusError>(s),
                None => r matches Err(e) && e@ == dec_chars(value as nat),
            },
    {
        if value == 0 {
            Ok(Status::Success)
        } else if value == 1 {
            Ok(Status::Failure)
        } else if value == 2 {
            Ok(Status::Pending)
        } else {
            Err(ParseStatusError::InvalidStatus(u64_to_string(value as u64)))
        }
    }

    /// Byte code in the binary format.
    pub fn as_byte(&self) -> (r: u8)
        ensures
            r == status_code(*self),
    {
        match self {
            Status::Success => 0,
            Status::Failure => 1,
            Status::Pending => 2,
        }
    }
}

} // verus!
