//! The eight canonical field keys of a record and their fixed order.

use vstd::prelude::*;
use crate::errors::ParseKeyError;

verus! {

/// Key of one record field.
#[derive(Debug, Clone, Copy, PartialEq, Eq, Hash, Structural)]
pub enum RecordKey {
    TxId,
    TxType,
    FromUserId,
    ToUserId,
    Amount,
    Timestamp,
    Status,
    Description,
}

/// Canonical name of a key.
pub open spec fn key_name(k: RecordKey) -> Seq<char> {
    match k {
        RecordKey::TxId => "TX_ID"@,
        RecordKey::TxType => "TX_TYPE"@,
        RecordKey::FromUserId => "FROM_USER_ID"@,
        RecordKey::ToUserId => "TO_USER_ID"@,
        RecordKey::Amount => "AMOUNT"@,
        RecordKey::Timestamp => "TIMESTAMP"@,
        RecordKey::Status => "STATUS"@,
        RecordKey::Description => "DESCRIPTION"@,
    }
}

/// The key a string names, if any.
pub open spec fn key_from_chars(s: Seq<char>) -> Option<RecordKey> {
    if s == "TX_ID"@ {
        Some(RecordKey::TxId)
    } else if s == "TX_TYPE"@ {
        Some(RecordKey::TxType)
    } else if s == "FROM_USER_ID"@ {
        Some(RecordKey::FromUserId)
    } else if s == "TO_USER_ID"@ {
        Some(RecordKey::ToUserId)
    } else if s == "AMOUNT"@ {
        Some(RecordKey::Amount)
    } else if s == "TIMESTAMP"@ {
        Some(RecordKey::Timestamp)
    } else if s == "STATUS"@ {
        Some(RecordKey::Status)
    } else if s == "DESCRIPTION"@ {
        Some(RecordKey::Description)
    } else {
        None
    }
}

/// The canonical ordering of the eight keys, used for the CSV header and
/// columns and for the completeness check of the text format.
pub open spec fn key_order() -> Seq<RecordKey> {
    seq![
        RecordKey::TxId,
        RecordKey::TxType,
        RecordKey::FromUserId,
        RecordKey::ToUserId,
        RecordKey::Amount,
        RecordKey::Timestamp,
        RecordKey::Status,
        RecordKey::Description,
    ]
}

/// Reveal the eight key-name literals.
pub proof fn reveal_key_names()
    ensures
        "TX_ID"@.len() == 5,
        "TX_TYPE"@.len() == 7,
        "FROM_USER_ID"@.len() == 12,
        "TO_USER_ID"@.len() == 10,
        "AMOUNT"@.len() == 6,
        "TIMESTAMP"@.len() == 9,
        "STATUS"@.len() == 6,
        "DESCRIPTION"@.len() == 11,
{
    reveal_strlit("TX_ID");
    reveal_strlit("TX_TYPE");
    reveal_strlit("FROM_USER_ID");
    reveal_strlit("TO_USER_ID");
    reveal_strlit("AMOUNT");
    reveal_strlit("TIMESTAMP");
    reveal_strlit("STATUS");
    reveal_strlit("DESCRIPTION");
}

/// A key's name names that key back.
pub proof fn lemma_key_name_roundtrip(k: RecordKey)
    ensures
        key_from_chars(key_name(k)) == Some(k),
{
    reveal_strlit("TX_ID");
    reveal_strlit("TX_TYPE");
    reveal_strlit("FROM_USER_ID");
    reveal_strlit("TO_USER_ID");
    reveal_strlit("AMOUNT");
    reveal_strlit("TIMESTAMP");
    reveal_strlit("STATUS");
    reveal_strlit("DESCRIPTION");
    match k {
        RecordKey::TxId => {
            assert(key_from_chars("TX_ID"@) == Some(RecordKey::TxId));
        },
        RecordKey::TxType => {
            assert("TX_TYPE"@.len() != "TX_ID"@.len());
            assert(key_from_chars("TX_TYPE"@) == Some(RecordKey::TxType));
        },
        RecordKey::FromUserId => {
            assert("FROM_USER_ID"@.len() != "TX_ID"@.len());
            assert("FROM_USER_ID"@.len() != "TX_TYPE"@.len());
            assert(key_from_chars("FROM_USER_ID"@) == Some(RecordKey::FromUserId));
        },
        RecordKey::ToUserId => {
            assert("TO_USER_ID"@.len() != "TX_ID"@.len());
            assert("TO_USER_ID"@.len() != "TX_TYPE"@.len());
            assert("TO_USER_ID"@.len() != "FROM_USER_ID"@.len());
            assert(key_from_chars("TO_USER_ID"@) == Some(RecordKey::ToUserId));
        },
        RecordKey::Amount => {
            assert("AMOUNT"@.len() != "TX_ID"@.len());
            assert("AMOUNT"@.len() != "TX_TYPE"@.len());
            assert("AMOUNT"@.len() != "FROM_USER_ID"@.len());
            assert("AMOUNT"@.len() != "TO_USER_ID"@.len());
            assert(key_from_chars("AMOUNT"@) == Some(RecordKey::Amount));
        },
        RecordKey::Timestamp => {
            assert("TIMESTAMP"@.len() != "TX_ID"@.len());
            assert("TIMESTAMP"@.len() != "TX_TYPE"@.len());
            assert("TIMESTAMP"@.len() != "FROM_USER_ID"@.len());
            assert("TIMESTAMP"@.len() != "TO_USER_ID"@.len());
            assert("TIMESTAMP"@.len() != "AMOUNT"@.len());
            assert(key_from_chars("TIMESTAMP"@) == Some(RecordKey::Timestamp));
        },
        RecordKey::Status => {
            assert("STATUS"@[0] != "AMOUNT"@[0]);
            assert("STATUS"@.len() != "TX_ID"@.len());
            assert("STATUS"@.len() != "TX_TYPE"@.len());
            assert("STATUS"@.len() != "FROM_USER_ID"@.len());
            assert("STATUS"@.len() != "TO_USER_ID"@.len());
            assert("STATUS"@.len() != "TIMESTAMP"@.len());
            assert(key_from_chars("STATUS"@) == Some(RecordKey::Status));
        },
        RecordKey::Description => {
            assert("DESCRIPTION"@.len() != "TX_ID"@.len());
            assert("DESCRIPTION"@.len() != "TX_TYPE"@.len());
            assert("DESCRIPTION"@.len() != "FROM_USER_ID"@.len());
            assert("DESCRIPTION"@.len() != "TO_USER_ID"@.len());
            assert("DESCRIPTION"@.len() != "AMOUNT"@.len());
            assert("DESCRIPTION"@.len() != "TIMESTAMP"@.len());
            assert("DESCRIPTION"@.len() != "STATUS"@.len());
            assert(key_from_chars("DESCRIPTION"@) == Some(RecordKey::Description));
        },
    }
}

/// Key names hold only uppercase ASCII letters and underscores.
pub proof fn lemma_key_name_chars(k: RecordKey)
    ensures
        forall|i: int|
            0 <= i < key_name(k).len() ==> ('A' <= #[trigger] key_name(k)[i] <= 'Z' || key_name(
                k,
            )[i] == '_'),
{
    reveal_strlit("TX_ID");
    reveal_strlit("TX_TYPE");
    reveal_strlit("FROM_USER_ID");
    reveal_strlit("TO_USER_ID");
    reveal_strlit("AMOUNT");
    reveal_strlit("TIMESTAMP");
    reveal_strlit("STATUS");
    reveal_strlit("DESCRIPTION");
}

impl RecordKey {
    /// Canonical name.
    pub fn as_str(&self) -> (r: &'static str)
        ensures
            r@ == key_name(*self),
    {
        match self {
            RecordKey::TxId => "TX_ID",
            RecordKey::TxType => "TX_TYPE",
            RecordKey::FromUserId => "FROM_USER_ID",
            RecordKey::ToUserId => "TO_USER_ID",
            RecordKey::Amount => "AMOUNT",
            RecordKey::Timestamp => "TIMESTAMP",
            RecordKey::Status => "STATUS",
            RecordKey::Description => "DESCRIPTION",
        }
    }

    /// The key a string names, or the error carrying the rejected text.
    pub fn try_from(s: &str) -> (r: Result<RecordKey, ParseKeyError>)
        ensures
            match key_from_chars(s@) {
                Some(k) => r == Ok::<RecordKey, ParseKeyError>(k),
                None => r matches Err(e) && e@ == s@,
            },
    {
        if crate::strutil::str_eq(s, "TX_ID") {
            Ok(RecordKey::TxId)
        } else if crate::strutil::str_eq(s, "TX_TYPE") {
            Ok(RecordKey::TxType)
        } else if crate::strutil::str_eq(s, "FROM_USER_ID") {
            Ok(RecordKey::FromUserId)
        } else if crate::strutil::str_eq(s, "TO_USER_ID") {
            Ok(RecordKey::ToUserId)
        } else if crate::strutil::str_eq(s, "AMOUNT") {
            Ok(RecordKey::Amount)
        } else if crate::strutil::str_eq(s, "TIMESTAMP") {
            Ok(RecordKey::Timestamp)
        } else if crate::strutil::str_eq(s, "STATUS") {
            Ok(RecordKey::Status)
        } else if crate::strutil::str_eq(s, "DESCRIPTION") {
            Ok(RecordKey::Description)
        } else {
            Err(ParseKeyError::InvalidKey(String::from_str(s)))
        }
    }

    /// The key at position `i` of the canonical ordering.
    pub fn at(i: usize) -> (r: RecordKey)
        requires
            i < 8,
        ensures
            r == key_order()[i as int],
    {
        if i == 0 {
            RecordKey::TxId
        } else if i == 1 {
            RecordKey::TxType
        } else if i == 2 {
            RecordKey::FromUserId
        } else if i == 3 {
            RecordKey::ToUserId
        } else if i == 4 {
            RecordKey::Amount
        } else if i == 5 {
            RecordKey::Timestamp
        } else if i == 6 {
            RecordKey::Status
        } else {
            RecordKey::Description
        }
    }
}

} // verus!
