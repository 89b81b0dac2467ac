//! The transaction record: its eight fields, their validators, and the
//! bookkeeping for the text format's completeness check.

use vstd::prelude::*;
use crate::errors::ParseValueError;
use crate::errors::ValueErrV;
use crate::errors::spec_status_err_message;
use crate::errors::spec_tx_type_err_message;
use crate::keys::RecordKey;
use crate::num::spec_parse_u64;
use crate::num::parse_u64_str;
use crate::status::Status;
use crate::status::status_from_chars;
use crate::tx_type::TxType;
use crate::tx_type::tx_type_from_chars;

verus! {

/// Spec-level form of a record: the eight field values.
#[verifier::ext_equal]
pub struct RecordV {
    pub tx_id: u64,
    pub tx_type: TxType,
    pub from_user_id: u64,
    pub to_user_id: u64,
    pub amount: u64,
    pub timestamp: u64,
    pub status: Status,
    pub description: Seq<char>,
}

/// One transaction: identifier, kind, the two account identifiers (0 stands
/// for "none"), amount in the smallest currency unit, Unix epoch timestamp in
/// milliseconds, status, and a free-text description.
#[derive(Debug, Clone)]
pub struct Record {
    pub tx_id: u64,
    pub tx_type: TxType,
    pub from_user_id: u64,
    pub to_user_id: u64,
    pub amount: u64,
    pub timestamp: u64,
    pub status: Status,
    pub description: String,
}

impl View for Record {
    type V = RecordV;

    open spec fn view(&self) -> RecordV {
        RecordV {
            tx_id: self.tx_id,
            tx_type: self.tx_type,
            from_user_id: self.from_user_id,
            to_user_id: self.to_user_id,
            amount: self.amount,
            timestamp: self.timestamp,
            status: self.status,
            description: self.description@,
        }
    }
}

impl DeepView for Record {
    type V = RecordV;

    open spec fn deep_view(&self) -> RecordV {
        self.view()
    }
}

impl PartialEq for Record {
    /// Field-for-field equality.
    fn eq(&self, other: &Record) -> (r: bool) {
        self.tx_id == other.tx_id && self.tx_type == other.tx_type && self.from_user_id
            == other.from_user_id && self.to_user_id == other.to_user_id && self.amount
            == other.amount && self.timestamp == other.timestamp && self.status == other.status
            && self.description == other.description
    }
}

impl vstd::std_specs::cmp::PartialEqSpecImpl for Record {
    open spec fn obeys_eq_spec() -> bool {
        true
    }

    open spec fn eq_spec(&self, other: &Record) -> bool {
        self@ == other@
    }
}

/// The record all of whose fields hold the default value.
pub open spec fn default_record() -> RecordV {
    RecordV {
        tx_id: 0,
        tx_type: TxType::Deposit,
        from_user_id: 0,
        to_user_id: 0,
        amount: 0,
        timestamp: 0,
        status: Status::Success,
        description: Seq::<char>::empty(),
    }
}

impl Default for Record {
    /// The record with zeroed numbers, `Deposit`, `Success` and an empty
    /// description.
    fn default() -> (r: Record)
        ensures
            r@ == default_record(),
    {
        Record {
            tx_id: 0,
            tx_type: TxType::Deposit,
            from_user_id: 0,
            to_user_id: 0,
            amount: 0,
            timestamp: 0,
            status: Status::Success,
            description: String::new(),
        }
    }
}

/// Validation of one raw field value against the field named by `k`: numeric
/// fields must parse as `u64`, the two enumerations must name a member, and
/// the description must be wrapped in a pair of literal quotes, which are
/// stripped.  On failure the error carries the offending text and a reason.
pub open spec fn apply_field(r: RecordV, k: RecordKey, value: Seq<char>) -> Result<
    RecordV,
    ValueErrV,
> {
    match k {
        RecordKey::TxId => match spec_parse_u64(value) {
            Some(v) => Ok(RecordV { tx_id: v, ..r }),
            None => Err(ValueErrV { value, description: "TX_ID is not a number"@ }),
        },
        RecordKey::TxType => match tx_type_from_chars(value) {
            Some(t) => Ok(RecordV { tx_type: t, ..r }),
            None => Err(ValueErrV { value, description: spec_tx_type_err_message(value) }),
        },
        RecordKey::FromUserId => match spec_parse_u64(value) {
            Some(v) => Ok(RecordV { from_user_id: v, ..r }),
            None => Err(ValueErrV { value, description: "FROM_USER_ID is not a number"@ }),
        },
        RecordKey::ToUserId => match spec_parse_u64(value) {
            Some(v) => Ok(RecordV { to_user_id: v, ..r }),
            None => Err(ValueErrV { value, description: "TO_USER_ID is not a number"@ }),
        },
        RecordKey::Amount => match spec_parse_u64(value) {
            Some(v) => Ok(RecordV { amount: v, ..r }),
            None => Err(ValueErrV { value, description: "AMOUNT is not a number"@ }),
        },
        RecordKey::Timestamp => match spec_parse_u64(value) {
            Some(v) => Ok(RecordV { timestamp: v, ..r }),
            None => Err(ValueErrV { value, description: "TIMESTAMP is not a number"@ }),
        },
        RecordKey::Status => match status_from_chars(value) {
            Some(s) => Ok(RecordV { status: s, ..r }),
            None => Err(ValueErrV { value, description: spec_status_err_message(value) }),
        },
        RecordKey::Description => {
            if value.len() >= 2 && value[0] == '"' && value.last() == '"' {
                Ok(RecordV { description: value.subrange(1, value.len() - 1), ..r })
            } else {
                Err(
                    ValueErrV {
                        value,
                        description: "DESCRIPTION must start and end with symbol \""@,
                    },
                )
            }
        },
    }
}

impl Record {
    /// A record built from all eight field values.
    pub fn new(
        tx_id: u64,
        tx_type: TxType,
        from_user_id: u64,
        to_user_id: u64,
        amount: u64,
        timestamp: u64,
        status: Status,
        description: String,
    ) -> (r: Record)
        ensures
            r@ == (RecordV {
                tx_id,
                tx_type,
                from_user_id,
                to_user_id,
                amount,
                timestamp,
                status,
                description: description@,
            }),
    {
        Record { tx_id, tx_type, from_user_id, to_user_id, amount, timestamp, status, description }
    }

    /// Validate `value` as the transaction identifier and store it.
    pub fn validate_and_set_tx_id(&mut self, value: &str) -> (r: Result<(), ParseValueError>)
        ensures
            match apply_field(old(self)@, RecordKey::TxId, value@) {
                Ok(rv) => r is Ok && final(self)@ == rv,
                Err(ev) => r matches Err(e) && e@ == ev && final(self)@ == old(self)@,
            },
    {
        match parse_u64_str(value) {
            Some(v) => {
                self.tx_id = v;
                Ok(())
            },
            None => Err(
                ParseValueError::InvalidValue {
                    value: String::from_str(value),
                    description: String::from_str("TX_ID is not a number"),
                },
            ),
        }
    }

    /// Validate `value` as the transaction kind and store it.
    pub fn validate_and_set_tx_type(&mut self, value: &str) -> (r: Result<(), ParseValueError>)
        ensures
            match apply_field(old(self)@, RecordKey::TxType, value@) {
                Ok(rv) => r is Ok && final(self)@ == rv,
                Err(ev) => r matches Err(e) && e@ == ev && final(self)@ == old(self)@,
            },
    {
        match TxType::try_from(value) {
            Ok(t) => {
                self.tx_type = t;
                Ok(())
            },
            Err(e) => Err(ParseValueError::from_tx_type(e)),
        }
    }

    /// Validate `value` as the sender identifier and store it.
    pub fn validate_and_set_from_user_id(&mut self, value: &str) -> (r: Result<
        (),
        ParseValueError,
    >)
        ensures
            match apply_field(old(self)@, RecordKey::FromUserId, value@) {
                Ok(rv) => r is Ok && final(self)@ == rv,
                Err(ev) => r matches Err(e) && e@ == ev && final(self)@ == old(self)@,
            },
    {
        match parse_u64_str(value) {
            Some(v) => {
                self.from_user_id = v;
                Ok(())
            },
            None => Err(
                ParseValueError::InvalidValue {
                    value: String::from_str(value),
                    description: String::from_str("FROM_USER_ID is not a number"),
                },
            ),
        }
    }

    /// Validate `value` as the recipient identifier and store it.
    pub fn validate_and_set_to_user_id(&mut self, value: &str) -> (r: Result<(), ParseValueError>)
        ensures
            match apply_field(old(self)@, RecordKey::ToUserId, value@) {
                Ok(rv) => r is Ok && final(self)@ == rv,
                Err(ev) => r matches Err(e) && e@ == ev && final(self)@ == old(self)@,
            },
    {
        match parse_u64_str(value) {
            Some(v) => {
                self.to_user_id = v;
                Ok(())
            },
            None => Err(
                ParseValueError::InvalidValue {
                    value: String::from_str(value),
                    description: String::from_str("TO_USER_ID is not a number"),
                },
            ),
        }
    }

    /// Validate `value` as the amount and store it.
    pub fn validate_and_set_amount(&mut self, value: &str) -> (r: Result<(), ParseValueError>)
        ensures
            match apply_field(old(self)@, RecordKey::Amount, value@) {
                Ok(rv) => r is Ok && final(self)@ == rv,
                Err(ev) => r matches Err(e) && e@ == ev && final(self)@ == old(self)@,
            },
    {
        match parse_u64_str(value) {
            Some(v) => {
                self.amount = v;
                Ok(())
            },
            None => Err(
                ParseValueError::InvalidValue {
                    value: String::from_str(value),
                    description: String::from_str("AMOUNT is not a number"),
                },
            ),
        }
    }

    /// Validate `value` as the timestamp and store it.
    pub fn validate_and_set_timestamp(&mut self, value: &str) -> (r: Result<(), ParseValueError>)
        ensures
            match apply_field(old(self)@, RecordKey::Timestamp, value@) {
                Ok(rv) => r is Ok && final(self)@ == rv,
                Err(ev) => r matches Err(e) && e@ == ev && final(self)@ == old(self)@,
            },
    {
        match parse_u64_str(value) {
            Some(v) => {
                self.timestamp = v;
                Ok(())
            },
            None => Err(
                ParseValueError::InvalidValue {
                    value: String::from_str(value),
                    description: String::from_str("TIMESTAMP is not a number"),
                },
            ),
        }
    }

    /// Validate `value` as the status and store it.
    pub fn validate_and_set_status(&mut self, value: &str) -> (r: Result<(), ParseValueError>)
        ensures
            match apply_field(old(self)@, RecordKey::Status, value@) {
                Ok(rv) => r is Ok && final(self)@ == rv,
                Err(ev) => r matches Err(e) && e@ == ev && final(self)@ == old(self)@,
            },
    {
        match Status::try_from(value) {
            Ok(s) => {
                self.status = s;
                Ok(())
            },
            Err(e) => Err(ParseValueError::from_status(e)),
        }
    }

    /// Validate `value` as the quoted description and store the text between
    /// the quotes.
    pub fn validate_and_set_description(&mut self, value: &str) -> (r: Result<
        (),
        ParseValueError,
    >)
        ensures
            match apply_field(old(self)@, RecordKey::Description, value@) {
                Ok(rv) => r is Ok && final(self)@ == rv,
                Err(ev) => r matches Err(e) && e@ == ev && final(self)@ == old(self)@,
            },
    {
        let n = value.unicode_len();
        if n < 2 || value.get_char(0) != '"' || value.get_char(n - 1) != '"' {
            Err(
                ParseValueError::InvalidValue {
                    value: String::from_str(value),
                    description: String::from_str("DESCRIPTION must start and end with symbol \""),
                },
            )
        } else {
            let inner = value.substring_char(1, n - 1);
            self.description = String::from_str(inner);
            Ok(())
        }
    }

    /// Validate `value` as the field named by `key` and store it.
    pub fn validate_and_set_value_by_key(&mut self, key: RecordKey, value: &str) -> (r: Result<
        (),
        ParseValueError,
    >)
        ensures
            match apply_field(old(self)@, key, value@) {
                Ok(rv) => r is Ok && final(self)@ == rv,
                Err(ev) => r matches Err(e) && e@ == ev && final(self)@ == old(self)@,
            },
    {
        match key {
            RecordKey::TxId => self.validate_and_set_tx_id(value),
            RecordKey::TxType => self.validate_and_set_tx_type(value),
            RecordKey::FromUserId => self.validate_and_set_from_user_id(value),
            RecordKey::ToUserId => self.validate_and_set_to_user_id(value),
            RecordKey::Amount => self.validate_and_set_amount(value),
            RecordKey::Timestamp => self.validate_and_set_timestamp(value),
            RecordKey::Status => self.validate_and_set_status(value),
            RecordKey::Description => self.validate_and_set_description(value),
        }
    }
}

/// The serialized text of the field of `r` named by `k`: decimal digits for
/// the numeric fields, the canonical names for the enumerations, and the
/// quoted description.
pub open spec fn field_value_chars(r: RecordV, k: RecordKey) -> Seq<char> {
    match k {
        RecordKey::TxId => crate::num::dec_chars(r.tx_id as nat),
        RecordKey::TxType => crate::tx_type::tx_type_name(r.tx_type),
        RecordKey::FromUserId => crate::num::dec_chars(r.from_user_id as nat),
        RecordKey::ToUserId => crate::num::dec_chars(r.to_user_id as nat),
        RecordKey::Amount => crate::num::dec_chars(r.amount as nat),
        RecordKey::Timestamp => crate::num::dec_chars(r.timestamp as nat),
        RecordKey::Status => crate::status::status_name(r.status),
        RecordKey::Description => "\""@ + r.description + "\""@,
    }
}

/// `acc` with the field named by `k` replaced by that field of `r`.
pub open spec fn set_field(acc: RecordV, k: RecordKey, r: RecordV) -> RecordV {
    match k {
        RecordKey::TxId => RecordV { tx_id: r.tx_id, ..acc },
        RecordKey::TxType => RecordV { tx_type: r.tx_type, ..acc },
        RecordKey::FromUserId => RecordV { from_user_id: r.from_user_id, ..acc },
        RecordKey::ToUserId => RecordV { to_user_id: r.to_user_id, ..acc },
        RecordKey::Amount => RecordV { amount: r.amount, ..acc },
        RecordKey::Timestamp => RecordV { timestamp: r.timestamp, ..acc },
        RecordKey::Status => RecordV { status: r.status, ..acc },
        RecordKey::Description => RecordV { description: r.description, ..acc },
    }
}

/// Validating a field's own serialized text sets exactly that field.
pub proof fn lemma_apply_field_value(acc: RecordV, r: RecordV, k: RecordKey)
    ensures
        apply_field(acc, k, field_value_chars(r, k)) == Ok::<RecordV, ValueErrV>(set_field(acc, k, r)),
{
    match k {
        RecordKey::TxId => {
            crate::num::lemma_parse_dec_chars(r.tx_id);
        },
        RecordKey::TxType => {
            crate::tx_type::lemma_tx_type_name_roundtrip(r.tx_type);
        },
        RecordKey::FromUserId => {
            crate::num::lemma_parse_dec_chars(r.from_user_id);
        },
        RecordKey::ToUserId => {
            crate::num::lemma_parse_dec_chars(r.to_user_id);
        },
        RecordKey::Amount => {
            crate::num::lemma_parse_dec_chars(r.amount);
        },
        RecordKey::Timestamp => {
            crate::num::lemma_parse_dec_chars(r.timestamp);
        },
        RecordKey::Status => {
            crate::status::lemma_status_name_roundtrip(r.status);
        },
        RecordKey::Description => {
            reveal_strlit("\"");
            let v = field_value_chars(r, k);
            assert(v.len() == r.description.len() + 2);
            assert(v[0] == '"');
            assert(v.last() == '"');
            assert(v.subrange(1, v.len() - 1) =~= r.description);
        },
    }
}

/// True when the record's description holds no newline, so that the
/// line-oriented formats can carry it.
pub open spec fn desc_has_no_newline(r: RecordV) -> bool {
    forall|j: int| 0 <= j < r.description.len() ==> #[trigger] r.description[j] != '\n'
}

/// Serialized field values never hold a newline, as long as the description
/// itself holds none.
pub proof fn lemma_field_value_no_newline(r: RecordV, k: RecordKey)
    requires
        desc_has_no_newline(r),
    ensures
        forall|i: int|
            0 <= i < field_value_chars(r, k).len() ==> #[trigger] field_value_chars(r, k)[i]
                != '\n',
{
    let v = field_value_chars(r, k);
    match k {
        RecordKey::TxType => {
            crate::tx_type::lemma_tx_type_name_chars(r.tx_type);
            assert forall|i: int| 0 <= i < v.len() implies #[trigger] v[i] != '\n' by {
                assert('A' <= v[i] <= 'Z');
            }
        },
        RecordKey::Status => {
            crate::status::lemma_status_name_chars(r.status);
            assert forall|i: int| 0 <= i < v.len() implies #[trigger] v[i] != '\n' by {
                assert('A' <= v[i] <= 'Z');
            }
        },
        RecordKey::Description => {
            reveal_strlit("\"");
            assert forall|i: int| 0 <= i < v.len() implies #[trigger] v[i] != '\n' by {
                if 1 <= i < v.len() - 1 {
                    assert(v[i] == r.description[i - 1]);
                }
            }
        },
        _ => {
            lemma_dec_field_no_char(r, k);
        },
    }
}

proof fn lemma_dec_field_no_char(r: RecordV, k: RecordKey)
    requires
        k == RecordKey::TxId || k == RecordKey::FromUserId || k == RecordKey::ToUserId || k
            == RecordKey::Amount || k == RecordKey::Timestamp,
    ensures
        forall|i: int|
            0 <= i < field_value_chars(r, k).len() ==> crate::num::is_digit_char(
                #[trigger] field_value_chars(r, k)[i],
            ),
{
    let v = field_value_chars(r, k);
    match k {
        RecordKey::TxId => {
            crate::num::lemma_dec_chars_digits(r.tx_id as nat);
        },
        RecordKey::FromUserId => {
            crate::num::lemma_dec_chars_digits(r.from_user_id as nat);
        },
        RecordKey::ToUserId => {
            crate::num::lemma_dec_chars_digits(r.to_user_id as nat);
        },
        RecordKey::Amount => {
            crate::num::lemma_dec_chars_digits(r.amount as nat);
        },
        RecordKey::Timestamp => {
            crate::num::lemma_dec_chars_digits(r.timestamp as nat);
        },
        _ => {
        },
    }
}

/// Serialized field values other than the description never hold a comma.
pub proof fn lemma_field_value_no_comma(r: RecordV, k: RecordKey)
    requires
        k != RecordKey::Description,
    ensures
        forall|i: int|
            0 <= i < field_value_chars(r, k).len() ==> #[trigger] field_value_chars(r, k)[i]
                != ',',
{
    let v = field_value_chars(r, k);
    match k {
        RecordKey::TxType => {
            crate::tx_type::lemma_tx_type_name_chars(r.tx_type);
            assert forall|i: int| 0 <= i < v.len() implies #[trigger] v[i] != ',' by {
                assert('A' <= v[i] <= 'Z');
            }
        },
        RecordKey::Status => {
            crate::status::lemma_status_name_chars(r.status);
            assert forall|i: int| 0 <= i < v.len() implies #[trigger] v[i] != ',' by {
                assert('A' <= v[i] <= 'Z');
            }
        },
        RecordKey::Description => {
        },
        _ => {
            lemma_dec_field_no_char(r, k);
            assert forall|i: int| 0 <= i < v.len() implies #[trigger] v[i] != ',' by {
                assert(crate::num::is_digit_char(v[i]));
            }
        },
    }
}

/// `acc` with the fields named from position `i` of the canonical order on
/// replaced by those fields of `r`.
pub open spec fn fill_fields(acc: RecordV, r: RecordV, i: nat) -> RecordV
    decreases 8 - i,
{
    if i >= 8 {
        acc
    } else {
        fill_fields(set_field(acc, crate::keys::key_order()[i as int], r), r, i + 1)
    }
}

/// Filling all eight fields yields the source record.
pub proof fn lemma_fill_fields_all(acc: RecordV, r: RecordV)
    ensures
        fill_fields(acc, r, 0) == r,
{
    reveal_with_fuel(fill_fields, 9);
    assert(fill_fields(acc, r, 0) =~= r);
}

/// Which of the eight keys have been seen while reading one text record.
#[derive(Debug, Clone, Copy, PartialEq, Eq, Structural)]
pub struct KeyFlags {
    pub tx_id: bool,
    pub tx_type: bool,
    pub from_user_id: bool,
    pub to_user_id: bool,
    pub amount: bool,
    pub timestamp: bool,
    pub status: bool,
    pub description: bool,
}

/// No key seen yet.
pub open spec fn no_keys() -> KeyFlags {
    KeyFlags {
        tx_id: false,
        tx_type: false,
        from_user_id: false,
        to_user_id: false,
        amount: false,
        timestamp: false,
        status: false,
        description: false,
    }
}

/// The flags with the key `k` marked seen.
pub open spec fn with_key(f: KeyFlags, k: RecordKey) -> KeyFlags {
    match k {
        RecordKey::TxId => KeyFlags { tx_id: true, ..f },
        RecordKey::TxType => KeyFlags { tx_type: true, ..f },
        RecordKey::FromUserId => KeyFlags { from_user_id: true, ..f },
        RecordKey::ToUserId => KeyFlags { to_user_id: true, ..f },
        RecordKey::Amount => KeyFlags { amount: true, ..f },
        RecordKey::Timestamp => KeyFlags { timestamp: true, ..f },
        RecordKey::Status => KeyFlags { status: true, ..f },
        RecordKey::Description => KeyFlags { description: true, ..f },
    }
}

/// The first key in canonical order that has not been seen, if any.
pub open spec fn first_missing(f: KeyFlags) -> Option<RecordKey> {
    if !f.tx_id {
        Some(RecordKey::TxId)
    } else if !f.tx_type {
        Some(RecordKey::TxType)
    } else if !f.from_user_id {
        Some(RecordKey::FromUserId)
    } else if !f.to_user_id {
        Some(RecordKey::ToUserId)
    } else if !f.amount {
        Some(RecordKey::Amount)
    } else if !f.timestamp {
        Some(RecordKey::Timestamp)
    } else if !f.status {
        Some(RecordKey::Status)
    } else if !f.description {
        Some(RecordKey::Description)
    } else {
        None
    }
}

impl KeyFlags {
    /// The flags with no key seen.
    pub fn none() -> (r: KeyFlags)
        ensures
            r == no_keys(),
    {
        KeyFlags {
            tx_id: false,
            tx_type: false,
            from_user_id: false,
            to_user_id: false,
            amount: false,
            timestamp: false,
            status: false,
            description: false,
        }
    }

    /// Mark the key `k` seen.
    pub fn mark(&mut self, k: RecordKey)
        ensures
            *final(self) == with_key(*old(self), k),
    {
        match k {
            RecordKey::TxId => {
                self.tx_id = true;
            },
            RecordKey::TxType => {
                self.tx_type = true;
            },
            RecordKey::FromUserId => {
                self.from_user_id = true;
            },
            RecordKey::ToUserId => {
                self.to_user_id = true;
            },
            RecordKey::Amount => {
                self.amount = true;
            },
            RecordKey::Timestamp => {
                self.timestamp = true;
            },
            RecordKey::Status => {
                self.status = true;
            },
            RecordKey::Description => {
                self.description = true;
            },
        }
    }

    /// The first key in canonical order that has not been seen, if any.
    pub fn first_missing_key(&self) -> (r: Option<RecordKey>)
        ensures
            r == first_missing(*self),
    {
        if !self.tx_id {
            Some(RecordKey::TxId)
        } else if !self.tx_type {
            Some(RecordKey::TxType)
        } else if !self.from_user_id {
            Some(RecordKey::FromUserId)
        } else if !self.to_user_id {
            Some(RecordKey::ToUserId)
        } else if !self.amount {
            Some(RecordKey::Amount)
        } else if !self.timestamp {
            Some(RecordKey::Timestamp)
        } else if !self.status {
            Some(RecordKey::Status)
        } else if !self.description {
            Some(RecordKey::Description)
        } else {
            None
        }
    }
}

} // verus!
