//! The closed set of transaction kinds, with its string and byte forms.

use vstd::prelude::*;
use crate::errors::ParseTxTypeError;
use crate::num::dec_chars;
use crate::num::u64_to_string;

verus! {

/// Kind of a transaction.
#[derive(Debug, Clone, Copy, PartialEq, Eq, Structural)]
pub enum TxType {
    Deposit,
    Transfer,
    Withdrawal,
}

/// Canonical uppercase name of a transaction kind.
pub open spec fn tx_type_name(t: TxType) -> Seq<char> {
    match t {
        TxType::Deposit => "DEPOSIT"@,
        TxType::Transfer => "TRANSFER"@,
        TxType::Withdrawal => "WITHDRAWAL"@,
    }
}

/// The kind named by a string, if any.
pub open spec fn tx_type_from_chars(s: Seq<char>) -> Option<TxType> {
    if s == "DEPOSIT"@ {
        Some(TxType::Deposit)
    } else if s == "TRANSFER"@ {
        Some(TxType::Transfer)
    } else if s == "WITHDRAWAL"@ {
        Some(TxType::Withdrawal)
    } else {
        None
    }
}

/// Byte code of a kind in the binary format.
pub open spec fn tx_type_code(t: TxType) -> u8 {
    match t {
        TxType::Deposit => 0,
        TxType::Transfer => 1,
        TxType::Withdrawal => 2,
    }
}

/// The kind a byte code names, if any.
pub open spec fn tx_type_from_code(b: u8) -> Option<TxType> {
    if b == 0 {
        Some(TxType::Deposit)
    } else if b == 1 {
        Some(TxType::Transfer)
    } else if b == 2 {
        Some(TxType::Withdrawal)
    } else {
        None
    }
}

/// A kind's name names that kind back.
pub proof fn lemma_tx_type_name_roundtrip(t: TxType)
    ensures
        tx_type_from_chars(tx_type_name(t)) == Some(t),
{
    reveal_strlit("DEPOSIT");
    reveal_strlit("TRANSFER");
    reveal_strlit("WITHDRAWAL");
    match t {
        TxType::Deposit => {
        },
        TxType::Transfer => {
            assert("TRANSFER"@.len() != "DEPOSIT"@.len());
        },
        TxType::Withdrawal => {
            assert("WITHDRAWAL"@.len() != "DEPOSIT"@.len());
            assert("WITHDRAWAL"@.len() != "TRANSFER"@.len());
        },
    }
}

/// Kind names hold only uppercase ASCII letters.
pub proof fn lemma_tx_type_name_chars(t: TxType)
    ensures
        forall|i: int|
            0 <= i < tx_type_name(t).len() ==> 'A' <= #[trigger] tx_type_name(t)[i] <= 'Z',
{
    reveal_strlit("DEPOSIT");
    reveal_strlit("TRANSFER");
    reveal_strlit("WITHDRAWAL");
}

impl TxType {
    /// Canonical uppercase name.
    pub fn as_str(&self) -> (r: &'static str)
        ensures
            r@ == tx_type_name(*self),
    {
        match self {
            TxType::Deposit => "DEPOSIT",
            TxType::Transfer => "TRANSFER",
            TxType::Withdrawal => "WITHDRAWAL",
        }
    }

    /// The kind named by a string, or the error carrying the rejected text.
    pub fn try_from(value: &str) -> (r: Result<TxType, ParseTxTypeError>)
        ensures
            match tx_type_from_chars(value@) {
                Some(t) => r == Ok::<TxType, ParseTxTypeError>(t),
                None => r matches Err(e) && e@ == value@,
            },
    {
        if crate::strutil::str_eq(value, "DEPOSIT") {
            Ok(TxType::Deposit)
        } else if crate::strutil::str_eq(value, "TRANSFER") {
            Ok(TxType::Transfer)
        } else if crate::strutil::str_eq(value, "WITHDRAWAL") {
            Ok(TxType::Withdrawal)
        } else {
            Err(ParseTxTypeError::InvalidTxType(String::from_str(value)))
        }
    }

    /// The kind named by a byte code, or the error carrying the rejected
    /// code rendered in decimal.
    pub fn try_from_u8(value: u8) -> (r: Result<TxType, ParseTxTypeError>)
        ensures
            match tx_type_from_code(value) {
                Some(t) => r == Ok::<TxType, ParseTxTypeError>(t),
                None => r matches Err(e) && e@ == dec_chars(value as nat),
            },
    {
        if value == 0 {
            Ok(TxType::Deposit)
        } else if value == 1 {
            Ok(TxType::Transfer)
        } else if value == 2 {
            Ok(TxType::Withdrawal)
        } else {
            Err(ParseTxTypeError::InvalidTxType(u64_to_string(value as u64)))
        }
    }

    /// Byte code in the binary format.
    pub fn as_byte(&self) -> (r: u8)
        ensures
            r == tx_type_code(*self),
    {
        match self {
            TxType::Deposit => 0,
            TxType::Transfer => 1,
            TxType::Withdrawal => 2,
        }
    }
}

} // verus!
