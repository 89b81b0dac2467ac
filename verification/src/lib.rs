//! A codec for fixed-shape financial transaction records.
//!
//! A [`record::Record`] holds one transaction; a [`YPBank`] holds an ordered
//! sequence of them.  The bank can be read from and written to three formats:
//! a human-readable key/value block format, a CSV table, and a
//! length-prefixed binary frame format.  Every parse and serialize routine
//! carries a contract that pins its result down exactly, and round-trip
//! theorems relate the writers to the readers.

use vstd::prelude::*;

pub mod bin_format;
pub mod compare;
pub mod csv_format;
pub mod errors;
pub mod keys;
pub mod num;
pub mod record;
pub mod status;
pub mod strutil;
pub mod text_format;
pub mod tx_type;

use crate::bin_format::bank_bin_bytes;
use crate::bin_format::bin_desc_fits;
use crate::bin_format::spec_read_bin;
use crate::csv_format::YPBankCsv;
use crate::csv_format::csv_header_chars;
use crate::csv_format::csv_text_chars;
use crate::csv_format::spec_read_csv;
use crate::errors::ReadError;
use crate::errors::ReadErrV;
use crate::errors::WriteError;
use crate::record::Record;
use crate::record::RecordV;
use crate::text_format::bank_text_chars;
use crate::text_format::spec_read_text;
use vstd::utf8::encode_utf8;

verus! {

/// An ordered set of transaction records, as read from or written to one
/// data source.
#[derive(Debug)]
pub struct YPBank {
    /// The records, in input order.
    pub records: Vec<Record>,
}

impl View for YPBank {
    type V = Seq<RecordV>;

    open spec fn view(&self) -> Seq<RecordV> {
        self.records.deep_view()
    }
}

impl YPBank {
    /// Read a record set from the bytes of the text format.
    pub fn read_from_text(input: &[u8]) -> (r: Result<YPBank, ReadError>)
        ensures
            match spec_read_text(input@) {
                Ok(rs) => r matches Ok(b) && b@ == rs,
                Err(e) => r matches Err(err) && err@ == ReadErrV::FromText(e),
            },
    {
        match crate::text_format::read_text_records(input) {
            Ok(records) => Ok(YPBank { records }),
            Err(e) => Err(ReadError::FromText(e)),
        }
    }

    /// Write the record set in the text format.
    pub fn write_to_text(&self) -> (r: Result<Vec<u8>, WriteError>)
        ensures
            r matches Ok(out) && out@ == encode_utf8(bank_text_chars(self@)),
    {
        Ok(crate::text_format::write_text_records(&self.records))
    }

    /// Read a record set from the bytes of the CSV format.
    pub fn read_from_csv(input: &[u8]) -> (r: Result<YPBank, ReadError>)
        ensures
            match spec_read_csv(input@) {
                Ok(rs) => r matches Ok(b) && b@ == rs,
                Err(e) => r matches Err(err) && err@ == e,
            },
    {
        match crate::csv_format::read_csv_records(input) {
            Ok(records) => Ok(YPBank { records }),
            Err(e) => Err(e),
        }
    }

    /// Write the record set in the CSV format.
    pub fn write_to_csv(&self) -> (r: Result<Vec<u8>, WriteError>)
        ensures
            r matches Ok(out) && out@ == encode_utf8(csv_text_chars(self@)),
    {
        Ok(crate::csv_format::write_csv_records(&self.records))
    }

    /// Read a record set from the bytes of the binary format.
    pub fn read_from_bin(input: &[u8]) -> (r: Result<YPBank, ReadError>)
        ensures
            match spec_read_bin(input@) {
                Ok(rs) => r matches Ok(b) && b@ == rs,
                Err(e) => r matches Err(err) && err@ == ReadErrV::FromBin(e),
            },
    {
        match crate::bin_format::read_bin_records(input) {
            Ok(records) => Ok(YPBank { records }),
            Err(e) => Err(ReadError::FromBin(e)),
        }
    }

    /// Write the record set in the binary format.
    pub fn write_to_bin(&self) -> (r: Result<Vec<u8>, WriteError>)
        requires
            forall|i: int| 0 <= i < self@.len() ==> bin_desc_fits(#[trigger] self@[i]),
        ensures
            r matches Ok(out) && out@ == bank_bin_bytes(self@),
    {
        Ok(crate::bin_format::write_bin_records(&self.records))
    }

    /// The canonical CSV header line (without its newline).
    pub fn prepare_header() -> (r: String)
        ensures
            r@ == csv_header_chars(),
    {
        YPBankCsv::prepare_header()
    }

    /// Accept exactly the canonical CSV header.
    pub fn validate_header(header: &str) -> (r: Result<(), ReadError>)
        ensures
            header@ == csv_header_chars() <==> r is Ok,
            r matches Err(e) ==> e@ == ReadErrV::FromCsv(
                crate::errors::CsvErrV::UnexpectedError("invalid header structure"@),
            ),
    {
        YPBankCsv::validate_header(header)
    }
}

} // verus!
