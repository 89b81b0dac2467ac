//! Error taxonomy: per-field value errors, per-format record parse errors,
//! and the aggregate read/write errors.
//!
//! Each error type carries its payload as owned text and has a `message`
//! method rendering the diagnostic; the spec-level `*_message` functions pin
//! every rendered message down exactly.

use vstd::prelude::*;
use crate::num::dec_chars;
use crate::num::u64_to_string;

verus! {

/// Spec-level payload of a field-value error: the offending text and the
/// reason it was rejected.
pub struct ValueErrV {
    pub value: Seq<char>,
    pub description: Seq<char>,
}

/// Spec-level form of [`ParseRecordFromTxtError`].
pub enum TxtErrV {
    ColonNotFound(Seq<char>),
    InvalidKey(Seq<char>),
    MissingKey(Seq<char>),
    InvalidValue(ValueErrV),
    UnexpectedError(Seq<char>),
}

/// Spec-level form of [`ParseRecordFromCsvError`].
pub enum CsvErrV {
    InvalidCountOfColumns(usize),
    InvalidValue(ValueErrV),
    UnexpectedError(Seq<char>),
}

/// Spec-level form of [`ParseRecordFromBinError`].
pub enum BinErrV {
    InvalidMagicNumber,
    InvalidRecordSize(u32),
    InvalidValue(ValueErrV),
    UnexpectedError(Seq<char>),
}

/// Spec-level form of [`ReadError`].
pub enum ReadErrV {
    FromText(TxtErrV),
    FromCsv(CsvErrV),
    FromBin(BinErrV),
    Io(Seq<char>),
}

/// A transaction-kind string or byte that names no kind.
#[derive(Debug)]
pub enum ParseTxTypeError {
    InvalidTxType(String),
}

impl View for ParseTxTypeError {
    type V = Seq<char>;

    open spec fn view(&self) -> Seq<char> {
        match self {
            ParseTxTypeError::InvalidTxType(s) => s@,
        }
    }
}

/// Diagnostic for a bad transaction kind.
pub open spec fn spec_tx_type_err_message(v: Seq<char>) -> Seq<char> {
    "Invalid TX_TYPE: "@ + v
}

impl ParseTxTypeError {
    /// Rendered diagnostic.
    pub fn message(&self) -> (r: String)
        ensures
            r@ == spec_tx_type_err_message(self@),
    {
        let mut m = String::from_str("Invalid TX_TYPE: ");
        match self {
            ParseTxTypeError::InvalidTxType(s) => {
                m.append(s.as_str());
            },
        }
        m
    }
}

/// A status string or byte that names no status.
#[derive(Debug)]
pub enum ParseStatusError {
    InvalidStatus(String),
}

impl View for ParseStatusError {
    type V = Seq<char>;

    open spec fn view(&self) -> Seq<char> {
        match self {
            ParseStatusError::InvalidStatus(s) => s@,
        }
    }
}

/// Diagnostic for a bad status.
pub open spec fn spec_status_err_message(v: Seq<char>) -> Seq<char> {
    "Invalid STATUS: "@ + v
}

impl ParseStatusError {
    /// Rendered diagnostic.
    pub fn message(&self) -> (r: String)
        ensures
            r@ == spec_status_err_message(self@),
    {
        let mut m = String::from_str("Invalid STATUS: ");
        match self {
            ParseStatusError::InvalidStatus(s) => {
                m.append(s.as_str());
            },
        }
        m
    }
}

/// A field key that is not one of the eight canonical keys.
#[derive(Debug)]
pub enum ParseKeyError {
    InvalidKey(String),
}

impl View for ParseKeyError {
    type V = Seq<char>;

    open spec fn view(&self) -> Seq<char> {
        match self {
            ParseKeyError::InvalidKey(s) => s@,
        }
    }
}

/// Diagnostic for a bad key.
pub open spec fn spec_key_err_message(v: Seq<char>) -> Seq<char> {
    "Invalid key: "@ + v
}

impl ParseKeyError {
    /// Rendered diagnostic.
    pub fn message(&self) -> (r: String)
        ensures
            r@ == spec_key_err_message(self@),
    {
        let mut m = String::from_str("Invalid key: ");
        match self {
            ParseKeyError::InvalidKey(s) => {
                m.append(s.as_str());
            },
        }
        m
    }
}

/// A field value that does not belong to the field's domain.
#[derive(Debug)]
pub enum ParseValueError {
    InvalidValue { value: String, description: String },
}

impl View for ParseValueError {
    type V = ValueErrV;

    open spec fn view(&self) -> ValueErrV {
        match self {
            ParseValueError::InvalidValue { value, description } => ValueErrV {
                value: value@,
                description: description@,
            },
        }
    }
}

/// Diagnostic for a bad value.
pub open spec fn spec_value_err_message(v: ValueErrV) -> Seq<char> {
    "Invalid value: "@ + v.value + " ("@ + v.description + ")"@
}

impl ParseValueError {
    /// Rendered diagnostic.
    pub fn message(&self) -> (r: String)
        ensures
            r@ == spec_value_err_message(self@),
    {
        let mut m = String::from_str("Invalid value: ");
        match self {
            ParseValueError::InvalidValue { value, description } => {
                m.append(value.as_str());
                m.append(" (");
                m.append(description.as_str());
                m.append(")");
            },
        }
        m
    }

    /// The value error standing for a transaction-kind error: it carries the
    /// offending text and the kind error's own diagnostic.
    pub fn from_tx_type(e: ParseTxTypeError) -> (r: ParseValueError)
        ensures
            r@ == (ValueErrV { value: e@, description: spec_tx_type_err_message(e@) }),
    {
        let d = e.message();
        match e {
            ParseTxTypeError::InvalidTxType(value) => ParseValueError::InvalidValue {
                value,
                description: d,
            },
        }
    }

    /// The value error standing for a status error: it carries the offending
    /// text and the status error's own diagnostic.
    pub fn from_status(e: ParseStatusError) -> (r: ParseValueError)
        ensures
            r@ == (ValueErrV { value: e@, description: spec_status_err_message(e@) }),
    {
        let d = e.message();
        match e {
            ParseStatusError::InvalidStatus(value) => ParseValueError::InvalidValue {
                value,
                description: d,
            },
        }
    }
}

/// Failure while parsing the key/value text form of a record.
#[derive(Debug)]
pub enum ParseRecordFromTxtError {
    ColonNotFound(String),
    InvalidKey(ParseKeyError),
    MissingKey(String),
    InvalidValue(ParseValueError),
    UnexpectedError(String),
}

impl View for ParseRecordFromTxtError {
    type V = TxtErrV;

    open spec fn view(&self) -> TxtErrV {
        match self {
            ParseRecordFromTxtError::ColonNotFound(s) => TxtErrV::ColonNotFound(s@),
            ParseRecordFromTxtError::InvalidKey(e) => TxtErrV::InvalidKey(e@),
            ParseRecordFromTxtError::MissingKey(s) => TxtErrV::MissingKey(s@),
            ParseRecordFromTxtError::InvalidValue(e) => TxtErrV::InvalidValue(e@),
            ParseRecordFromTxtError::UnexpectedError(s) => TxtErrV::UnexpectedError(s@),
        }
    }
}

/// Diagnostic for a text-format record error.
pub open spec fn spec_txt_err_message(v: TxtErrV) -> Seq<char> {
    match v {
        TxtErrV::ColonNotFound(k) => "Colon after key="@ + k + " not found"@,
        TxtErrV::InvalidKey(k) => spec_key_err_message(k),
        TxtErrV::MissingKey(k) => "Missing key: "@ + k,
        TxtErrV::InvalidValue(e) => spec_value_err_message(e),
        TxtErrV::UnexpectedError(s) => "Unexpected error: "@ + s,
    }
}

impl ParseRecordFromTxtError {
    /// Rendered diagnostic.
    pub fn message(&self) -> (r: String)
        ensures
            r@ == spec_txt_err_message(self@),
    {
        match self {
            ParseRecordFromTxtError::ColonNotFound(k) => {
                let mut m = String::from_str("Colon after key=");
                m.append(k.as_str());
                m.append(" not found");
                m
            },
            ParseRecordFromTxtError::InvalidKey(e) => e.message(),
            ParseRecordFromTxtError::MissingKey(k) => {
                let mut m = String::from_str("Missing key: ");
                m.append(k.as_str());
                m
            },
            ParseRecordFromTxtError::InvalidValue(e) => e.message(),
            ParseRecordFromTxtError::UnexpectedError(s) => {
                let mut m = String::from_str("Unexpected error: ");
                m.append(s.as_str());
                m
            },
        }
    }
}

/// Failure while parsing the CSV form of a record.
#[derive(Debug)]
pub enum ParseRecordFromCsvError {
    InvalidCountOfColumns(usize),
    InvalidValue(ParseValueError),
    UnexpectedError(String),
}

impl View for ParseRecordFromCsvError {
    type V = CsvErrV;

    open spec fn view(&self) -> CsvErrV {
        match self {
            ParseRecordFromCsvError::InvalidCountOfColumns(n) => CsvErrV::InvalidCountOfColumns(*n),
            ParseRecordFromCsvError::InvalidValue(e) => CsvErrV::InvalidValue(e@),
            ParseRecordFromCsvError::UnexpectedError(s) => CsvErrV::UnexpectedError(s@),
        }
    }
}

/// Diagnostic for a CSV-format record error.
pub open spec fn spec_csv_err_message(v: CsvErrV) -> Seq<char> {
    match v {
        CsvErrV::InvalidCountOfColumns(n) => "Invalid count of columns: "@ + dec_chars(n as nat),
        CsvErrV::InvalidValue(e) => spec_value_err_message(e),
        CsvErrV::UnexpectedError(s) => "Unexpected error: "@ + s,
    }
}

impl ParseRecordFromCsvError {
    /// Rendered diagnostic.
    pub fn message(&self) -> (r: String)
        ensures
            r@ == spec_csv_err_message(self@),
    {
        match self {
            ParseRecordFromCsvError::InvalidCountOfColumns(n) => {
                let mut m = String::from_str("Invalid count of columns: ");
                let d = u64_to_string(*n as u64);
                m.append(d.as_str());
                m
            },
            ParseRecordFromCsvError::InvalidValue(e) => e.message(),
            ParseRecordFromCsvError::UnexpectedError(s) => {
                let mut m = String::from_str("Unexpected error: ");
                m.append(s.as_str());
                m
            },
        }
    }
}

/// Failure while parsing the binary frame form of a record.
#[derive(Debug)]
pub enum ParseRecordFromBinError {
    InvalidMagicNumber,
    InvalidRecordSize(u32),
    InvalidValue(ParseValueError),
    UnexpectedError(String),
}

impl View for ParseRecordFromBinError {
    type V = BinErrV;

    open spec fn view(&self) -> BinErrV {
        match self {
            ParseRecordFromBinError::InvalidMagicNumber => BinErrV::InvalidMagicNumber,
            ParseRecordFromBinError::InvalidRecordSize(n) => BinErrV::InvalidRecordSize(*n),
            ParseRecordFromBinError::InvalidValue(e) => BinErrV::InvalidValue(e@),
            ParseRecordFromBinError::UnexpectedError(s) => BinErrV::UnexpectedError(s@),
        }
    }
}

/// Diagnostic for a binary-format record error.
pub open spec fn spec_bin_err_message(v: BinErrV) -> Seq<char> {
    match v {
        BinErrV::InvalidMagicNumber => "Invalid magic number"@,
        BinErrV::InvalidRecordSize(n) => "Invalid record size: "@ + dec_chars(n as nat),
        BinErrV::InvalidValue(e) => spec_value_err_message(e),
        BinErrV::UnexpectedError(s) => "Unexpected error: "@ + s,
    }
}

impl ParseRecordFromBinError {
    /// Rendered diagnostic.
    pub fn message(&self) -> (r: String)
        ensures
            r@ == spec_bin_err_message(self@),
    {
        match self {
            ParseRecordFromBinError::InvalidMagicNumber => String::from_str("Invalid magic number"),
            ParseRecordFromBinError::InvalidRecordSize(n) => {
                let mut m = String::from_str("Invalid record size: ");
                let d = u64_to_string(*n as u64);
                m.append(d.as_str());
                m
            },
            ParseRecordFromBinError::InvalidValue(e) => e.message(),
            ParseRecordFromBinError::UnexpectedError(s) => {
                let mut m = String::from_str("Unexpected error: ");
                m.append(s.as_str());
                m
            },
        }
    }
}

/// Failure of a whole read operation, wrapping the format-specific error or a
/// raw input failure.
#[derive(Debug)]
pub enum ReadError {
    FromText(ParseRecordFromTxtError),
    FromCsv(ParseRecordFromCsvError),
    FromBin(ParseRecordFromBinError),
    Io(String),
}

impl View for ReadError {
    type V = ReadErrV;

    open spec fn view(&self) -> ReadErrV {
        match self {
            ReadError::FromText(e) => ReadErrV::FromText(e@),
            ReadError::FromCsv(e) => ReadErrV::FromCsv(e@),
            ReadError::FromBin(e) => ReadErrV::FromBin(e@),
            ReadError::Io(s) => ReadErrV::Io(s@),
        }
    }
}

/// Diagnostic for a read failure.
pub open spec fn spec_read_err_message(v: ReadErrV) -> Seq<char> {
    match v {
        ReadErrV::FromText(e) => "Text format parsing error: "@ + spec_txt_err_message(e),
        ReadErrV::FromCsv(e) => "CSV format parsing error: "@ + spec_csv_err_message(e),
        ReadErrV::FromBin(e) => "Binary format parsing error: "@ + spec_bin_err_message(e),
        ReadErrV::Io(s) => "Read data error: "@ + s,
    }
}

impl ReadError {
    /// Rendered diagnostic.
    pub fn message(&self) -> (r: String)
        ensures
            r@ == spec_read_err_message(self@),
    {
        match self {
            ReadError::FromText(e) => {
                let mut m = String::from_str("Text format parsing error: ");
                let im = e.message();
                m.append(im.as_str());
                m
            },
            ReadError::FromCsv(e) => {
                let mut m = String::from_str("CSV format parsing error: ");
                let im = e.message();
                m.append(im.as_str());
                m
            },
            ReadError::FromBin(e) => {
                let mut m = String::from_str("Binary format parsing error: ");
                let im = e.message();
                m.append(im.as_str());
                m
            },
            ReadError::Io(s) => {
                let mut m = String::from_str("Read data error: ");
                m.append(s.as_str());
                m
            },
        }
    }
}

/// Failure of a whole write operation.
#[derive(Debug)]
pub enum WriteError {
    WriteHeaderError(String),
    UnexpectedError(String),
    Io(String),
}

/// Spec-level form of [`WriteError`].
pub enum WriteErrV {
    WriteHeaderError(Seq<char>),
    UnexpectedError(Seq<char>),
    Io(Seq<char>),
}

impl View for WriteError {
    type V = WriteErrV;

    open spec fn view(&self) -> WriteErrV {
        match self {
            WriteError::WriteHeaderError(s) => WriteErrV::WriteHeaderError(s@),
            WriteError::UnexpectedError(s) => WriteErrV::UnexpectedError(s@),
            WriteError::Io(s) => WriteErrV::Io(s@),
        }
    }
}

/// Diagnostic for a write failure.
pub open spec fn spec_write_err_message(v: WriteErrV) -> Seq<char> {
    match v {
        WriteErrV::WriteHeaderError(s) => "Write header error: "@ + s,
        WriteErrV::UnexpectedError(s) => "Unexpected error: "@ + s,
        WriteErrV::Io(s) => "Read data error: "@ + s,
    }
}

impl WriteError {
    /// Rendered diagnostic.
    pub fn message(&self) -> (r: String)
        ensures
            r@ == spec_write_err_message(self@),
    {
        match self {
            WriteError::WriteHeaderError(s) => {
                let mut m = String::from_str("Write header error: ");
                m.append(s.as_str());
                m
            },
            WriteError::UnexpectedError(s) => {
                let mut m = String::from_str("Unexpected error: ");
                m.append(s.as_str());
                m
            },
            WriteError::Io(s) => {
                let mut m = String::from_str("Read data error: ");
                m.append(s.as_str());
                m
            },
        }
    }
}

} // verus!
