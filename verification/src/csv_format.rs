//! The CSV table format: a fixed header line, then one comma-separated line
//! per record with the eight fields in canonical order.

use vstd::prelude::*;
use vstd::slice::slice_subrange;
use vstd::slice::slice_to_vec;
use vstd::string::StrSliceExecFns;
use vstd::string::StringExecFns;
use vstd::utf8::valid_utf8;
use vstd::utf8::decode_utf8;
use vstd::utf8::encode_utf8;
use crate::errors::CsvErrV;
use crate::errors::ParseRecordFromCsvError;
use crate::errors::ReadError;
use crate::errors::ReadErrV;
use crate::errors::ValueErrV;
use crate::errors::WriteError;
use crate::keys::RecordKey;
use crate::keys::key_order;
use crate::num::u64_to_string;
use crate::record::Record;
use crate::record::RecordV;
use crate::record::apply_field;
use crate::record::default_record;
use crate::strutil::bytes_to_string;
use crate::strutil::find_index;
use crate::strutil::lemma_find_index;
use crate::strutil::str_eq;
use crate::strutil::str_find_char;
use crate::text_format::split_line;
use crate::text_format::lemma_split_line;

verus! {

/// The canonical CSV header: the eight key names joined by commas.
pub open spec fn csv_header_chars() -> Seq<char> {
    "TX_ID,TX_TYPE,FROM_USER_ID,TO_USER_ID,AMOUNT,TIMESTAMP,STATUS,DESCRIPTION"@
}

/// Split on commas into at most `n` parts; the last part keeps any further
/// commas.
pub open spec fn split_limited(s: Seq<char>, n: nat) -> Seq<Seq<char>>
    decreases n,
{
    if n <= 1 {
        seq![s]
    } else {
        match find_index(s, ',') {
            None => seq![s],
            Some(i) => seq![s.subrange(0, i)] + split_limited(
                s.subrange(i + 1, s.len() as int),
                (n - 1) as nat,
            ),
        }
    }
}

/// The eight fields of one CSV row applied to the record under construction,
/// from position `i` on, in canonical key order.
pub open spec fn apply_csv_fields(r: RecordV, fields: Seq<Seq<char>>, i: nat) -> Result<
    RecordV,
    ValueErrV,
>
    recommends
        fields.len() == 8,
        i <= 8,
    decreases 8 - i,
{
    if i >= 8 {
        Ok(r)
    } else {
        match apply_field(r, key_order()[i as int], fields[i as int]) {
            Ok(r2) => apply_csv_fields(r2, fields, i + 1),
            Err(e) => Err(e),
        }
    }
}

/// The CSV-format error standing for undecodable input.
pub open spec fn utf8_failure_csv() -> CsvErrV {
    CsvErrV::UnexpectedError("stream did not contain valid UTF-8"@)
}

/// One record of the CSV format, read from the head of `bytes`: one line,
/// split into exactly eight comma-separated fields, validated positionally.
pub open spec fn parse_csv_record_from(bytes: Seq<u8>) -> Result<(RecordV, Seq<u8>), CsvErrV> {
    if bytes.len() == 0 {
        Err(CsvErrV::UnexpectedError("EOF is reached"@))
    } else {
        let (line, rest, had_nl) = split_line(bytes);
        if !valid_utf8(line) {
            Err(utf8_failure_csv())
        } else {
            let chars = decode_utf8(line);
            let fields = split_limited(chars, 8);
            if fields.len() != 8 {
                Err(CsvErrV::InvalidCountOfColumns(fields.len() as usize))
            } else {
                match apply_csv_fields(default_record(), fields, 0) {
                    Ok(r) => Ok((r, rest)),
                    Err(e) => Err(CsvErrV::InvalidValue(e)),
                }
            }
        }
    }
}

/// The record lines of the CSV form, read until the input is exhausted.
pub open spec fn parse_csv_bank_from(bytes: Seq<u8>, acc: Seq<RecordV>) -> Result<
    Seq<RecordV>,
    CsvErrV,
>
    decreases bytes.len(),
    via parse_csv_bank_from_dec
{
    if bytes.len() == 0 {
        Ok(acc)
    } else {
        match parse_csv_record_from(bytes) {
            Err(e) => Err(e),
            Ok((r, rest)) => parse_csv_bank_from(rest, acc.push(r)),
        }
    }
}

#[via_fn]
proof fn parse_csv_bank_from_dec(bytes: Seq<u8>, acc: Seq<RecordV>) {
    lemma_split_line(bytes);
}

/// What reading the CSV format returns for any input: the first line must be
/// exactly the canonical header, then records follow.
pub open spec fn spec_read_csv(bytes: Seq<u8>) -> Result<Seq<RecordV>, ReadErrV> {
    let (header, rest, had_nl) = split_line(bytes);
    if !valid_utf8(header) {
        Err(ReadErrV::Io("stream did not contain valid UTF-8"@))
    } else if decode_utf8(header) != csv_header_chars() {
        Err(ReadErrV::FromCsv(CsvErrV::UnexpectedError("invalid header structure"@)))
    } else {
        match parse_csv_bank_from(rest, Seq::<RecordV>::empty()) {
            Ok(rs) => Ok(rs),
            Err(e) => Err(ReadErrV::FromCsv(e)),
        }
    }
}

/// The comma-joined field values of one CSV row, from position `i` of the
/// canonical key order on.
pub open spec fn csv_row_from(r: RecordV, i: nat) -> Seq<char>
    decreases 8 - i,
{
    if i >= 8 {
        Seq::<char>::empty()
    } else if i == 7 {
        crate::record::field_value_chars(r, RecordKey::Description)
    } else {
        crate::record::field_value_chars(r, key_order()[i as int]) + ","@ + csv_row_from(r, i + 1)
    }
}

/// One CSV row: the eight values in canonical order, comma-joined, the
/// description wrapped in quotes, ending in a newline.
pub open spec fn record_csv_chars(r: RecordV) -> Seq<char> {
    csv_row_from(r, 0) + "\n"@
}

/// The rows of a whole record set.
pub open spec fn bank_csv_chars(rs: Seq<RecordV>) -> Seq<char>
    decreases rs.len(),
{
    if rs.len() == 0 {
        Seq::<char>::empty()
    } else {
        record_csv_chars(rs[0]) + bank_csv_chars(rs.drop_first())
    }
}

/// Appending one record appends its row.
pub proof fn lemma_bank_csv_snoc(rs: Seq<RecordV>, r: RecordV)
    ensures
        bank_csv_chars(rs.push(r)) =~= bank_csv_chars(rs) + record_csv_chars(r),
    decreases rs.len(),
{
    if rs.len() == 0 {
        assert(rs.push(r)[0] == r);
        assert(rs.push(r).drop_first() =~= Seq::<RecordV>::empty());
        assert(bank_csv_chars(Seq::<RecordV>::empty()) == Seq::<char>::empty());
        assert(bank_csv_chars(rs.push(r)) =~= record_csv_chars(r));
    } else {
        assert(rs.push(r).drop_first() =~= rs.drop_first().push(r));
        lemma_bank_csv_snoc(rs.drop_first(), r);
        assert(rs.push(r)[0] == rs[0]);
        assert(bank_csv_chars(rs.push(r)) =~= record_csv_chars(rs[0]) + bank_csv_chars(
            rs.drop_first().push(r),
        ));
        assert(bank_csv_chars(rs) =~= record_csv_chars(rs[0]) + bank_csv_chars(rs.drop_first()));
    }
}

/// The full CSV text: the header line, then one row per record.
pub open spec fn csv_text_chars(rs: Seq<RecordV>) -> Seq<char> {
    csv_header_chars() + "\n"@ + bank_csv_chars(rs)
}

/// A row with its newline is the flat comma-joined form the writer builds.
#[verifier::spinoff_prover]
#[verifier::rlimit(50)]
proof fn lemma_csv_row_flat(r: RecordV)
    ensures
        record_csv_chars(r) == crate::record::field_value_chars(r, RecordKey::TxId) + ","@
            + crate::record::field_value_chars(r, RecordKey::TxType) + ","@
            + crate::record::field_value_chars(r, RecordKey::FromUserId) + ","@
            + crate::record::field_value_chars(r, RecordKey::ToUserId) + ","@
            + crate::record::field_value_chars(r, RecordKey::Amount) + ","@
            + crate::record::field_value_chars(r, RecordKey::Timestamp) + ","@
            + crate::record::field_value_chars(r, RecordKey::Status) + ","@ + "\""@ + r.description
            + "\""@ + "\n"@,
{
    reveal_strlit("\"");
    reveal_with_fuel(csv_row_from, 9);
    let c = ","@;
    let q = "\""@;
    let fv0 = crate::record::field_value_chars(r, RecordKey::TxId);
    let fv1 = crate::record::field_value_chars(r, RecordKey::TxType);
    let fv2 = crate::record::field_value_chars(r, RecordKey::FromUserId);
    let fv3 = crate::record::field_value_chars(r, RecordKey::ToUserId);
    let fv4 = crate::record::field_value_chars(r, RecordKey::Amount);
    let fv5 = crate::record::field_value_chars(r, RecordKey::Timestamp);
    let fv6 = crate::record::field_value_chars(r, RecordKey::Status);
    let w7 = csv_row_from(r, 7);
    let w6 = csv_row_from(r, 6);
    let w5 = csv_row_from(r, 5);
    let w4 = csv_row_from(r, 4);
    let w3 = csv_row_from(r, 3);
    let w2 = csv_row_from(r, 2);
    let w1 = csv_row_from(r, 1);
    let w0 = csv_row_from(r, 0);
    let p0 = fv0 + c;
    let p1 = p0 + fv1 + c;
    let p2 = p1 + fv2 + c;
    let p3 = p2 + fv3 + c;
    let p4 = p3 + fv4 + c;
    let p5 = p4 + fv5 + c;
    let p6 = p5 + fv6 + c;
    assert(w0 == p0 + w1);
    crate::strutil::seq_assoc(p0, fv1 + c, w2);
    crate::strutil::seq_assoc(p0, fv1, c);
    assert(p0 + w1 == p1 + w2);
    crate::strutil::seq_assoc(p1, fv2 + c, w3);
    crate::strutil::seq_assoc(p1, fv2, c);
    assert(p1 + w2 == p2 + w3);
    crate::strutil::seq_assoc(p2, fv3 + c, w4);
    crate::strutil::seq_assoc(p2, fv3, c);
    assert(p2 + w3 == p3 + w4);
    crate::strutil::seq_assoc(p3, fv4 + c, w5);
    crate::strutil::seq_assoc(p3, fv4, c);
    assert(p3 + w4 == p4 + w5);
    crate::strutil::seq_assoc(p4, fv5 + c, w6);
    crate::strutil::seq_assoc(p4, fv5, c);
    assert(p4 + w5 == p5 + w6);
    crate::strutil::seq_assoc(p5, fv6 + c, w7);
    crate::strutil::seq_assoc(p5, fv6, c);
    assert(p5 + w6 == p6 + w7);
    assert(w7 == q + r.description + q);
    crate::strutil::seq_assoc(p6, q + r.description, q);
    crate::strutil::seq_assoc(p6, q, r.description);
    assert(p6 + w7 == p6 + q + r.description + q);
    assert(w0 == p6 + q + r.description + q);
}

/// The field values of a row, from position `i` of the canonical order on.
pub open spec fn csv_fields_from(r: RecordV, i: nat) -> Seq<Seq<char>>
    decreases 8 - i,
{
    if i >= 8 {
        Seq::<Seq<char>>::empty()
    } else {
        seq![crate::record::field_value_chars(r, key_order()[i as int])] + csv_fields_from(
            r,
            i + 1,
        )
    }
}

/// Length and contents of `csv_fields_from`.
proof fn lemma_csv_fields_from_shape(r: RecordV, i: nat)
    requires
        i <= 8,
    ensures
        csv_fields_from(r, i).len() == 8 - i,
        forall|j: int|
            0 <= j < 8 - i ==> #[trigger] csv_fields_from(r, i)[j]
                == crate::record::field_value_chars(r, key_order()[i + j]),
    decreases 8 - i,
{
    if i < 8 {
        lemma_csv_fields_from_shape(r, i + 1);
        let fv = crate::record::field_value_chars(r, key_order()[i as int]);
        assert forall|j: int|
            0 <= j < 8 - i implies #[trigger] csv_fields_from(r, i)[j]
            == crate::record::field_value_chars(r, key_order()[i + j]) by {
            if j > 0 {
                assert(csv_fields_from(r, i)[j] == csv_fields_from(r, i + 1)[j - 1]);
            } else {
                assert(csv_fields_from(r, i)[0] == fv);
            }
        }
    }
}

/// Splitting a serialized row on commas yields the eight field values.
#[verifier::spinoff_prover]
#[verifier::rlimit(50)]
proof fn lemma_csv_row_split(r: RecordV, i: nat)
    requires
        i <= 7,
    ensures
        split_limited(csv_row_from(r, i), (8 - i) as nat) == csv_fields_from(r, i),
    decreases 8 - i,
{
    reveal_strlit(",");
    if i == 7 {
        assert(split_limited(csv_row_from(r, 7), 1) =~= seq![
            crate::record::field_value_chars(r, RecordKey::Description),
        ]);
        assert(csv_fields_from(r, 7) =~= seq![
            crate::record::field_value_chars(r, RecordKey::Description),
        ]) by {
            assert(key_order()[7] == RecordKey::Description);
            assert(csv_fields_from(r, 8) =~= Seq::<Seq<char>>::empty());
        }
    } else {
        let k = key_order()[i as int];
        assert(k != RecordKey::Description);
        let fv = crate::record::field_value_chars(r, k);
        let rest = csv_row_from(r, i + 1);
        crate::record::lemma_field_value_no_comma(r, k);
        assert(csv_row_from(r, i) =~= fv + (seq![','] + rest)) by {
            assert(","@ =~= seq![',']);
        }
        assert((seq![','] + rest)[0] == ',');
        crate::strutil::lemma_find_index_concat(fv, seq![','] + rest, ',');
        let row = csv_row_from(r, i);
        assert(find_index(row, ',') == Some(fv.len() as int));
        assert(row.subrange(0, fv.len() as int) =~= fv);
        assert(row.subrange(fv.len() as int + 1, row.len() as int) =~= rest);
        lemma_csv_row_split(r, i + 1);
        assert(split_limited(row, (8 - i) as nat) =~= csv_fields_from(r, i));
    }
}

/// Validating the eight serialized field values in order fills the fields.
proof fn lemma_apply_csv_fields_from(acc: RecordV, r: RecordV, fields: Seq<Seq<char>>, i: nat)
    requires
        i <= 8,
        fields.len() == 8,
        forall|j: int|
            0 <= j < 8 ==> #[trigger] fields[j] == crate::record::field_value_chars(
                r,
                key_order()[j],
            ),
    ensures
        apply_csv_fields(acc, fields, i) == Ok::<RecordV, ValueErrV>(
            crate::record::fill_fields(acc, r, i),
        ),
    decreases 8 - i,
{
    if i < 8 {
        let k = key_order()[i as int];
        crate::record::lemma_apply_field_value(acc, r, k);
        lemma_apply_csv_fields_from(crate::record::set_field(acc, k, r), r, fields, i + 1);
    }
}

/// No serialized row holds a newline, as long as the description holds none.
proof fn lemma_csv_row_no_newline(r: RecordV, i: nat)
    requires
        crate::record::desc_has_no_newline(r),
        i <= 7,
    ensures
        forall|j: int|
            0 <= j < csv_row_from(r, i).len() ==> #[trigger] csv_row_from(r, i)[j] != '\n',
    decreases 8 - i,
{
    reveal_strlit(",");
    let k = key_order()[i as int];
    crate::record::lemma_field_value_no_newline(r, k);
    let fv = crate::record::field_value_chars(r, k);
    if i == 7 {
        assert(key_order()[7] == RecordKey::Description);
    } else {
        lemma_csv_row_no_newline(r, i + 1);
        let rest = csv_row_from(r, i + 1);
        assert forall|j: int|
            0 <= j < csv_row_from(r, i).len() implies #[trigger] csv_row_from(r, i)[j]
            != '\n' by {
            let row = csv_row_from(r, i);
            if j < fv.len() {
                assert(row[j] == fv[j]);
            } else if j < fv.len() + 1 {
                assert(row[j] == ","@[j - fv.len()]);
            } else {
                assert(row[j] == rest[j - fv.len() - 1]);
            }
        }
    }
}

/// Reading a record's serialized row gives the record back and leaves the
/// following bytes untouched.
#[verifier::spinoff_prover]
#[verifier::rlimit(50)]
pub proof fn lemma_csv_record_roundtrip(r: RecordV, tail: Seq<u8>)
    requires
        crate::record::desc_has_no_newline(r),
    ensures
        parse_csv_record_from(encode_utf8(record_csv_chars(r)) + tail) == Ok::<
            (RecordV, Seq<u8>),
            CsvErrV,
        >((r, tail)),
{
    broadcast use vstd::utf8::group_utf8_lib;

    let row = csv_row_from(r, 0);
    let bytes = encode_utf8(record_csv_chars(r)) + tail;
    crate::strutil::lemma_encode_utf8_concat(row, "\n"@);
    crate::text_format::lemma_encode_newline();
    assert(bytes =~= encode_utf8(row) + seq![0x0au8] + tail);
    lemma_csv_row_no_newline(r, 0);
    assert(('\n' as u32) < 0x80);
    crate::strutil::lemma_encode_avoids_ascii_byte(row, '\n');
    assert(('\n' as u8) == 0x0au8);
    assert forall|j: int| 0 <= j < encode_utf8(row).len() implies encode_utf8(row)[j] != 0x0a by {
        assert(encode_utf8(row)[j] != '\n' as u8);
    }
    crate::text_format::lemma_split_line_concat(encode_utf8(row), tail);
    assert(bytes.len() > 0);
    assert(valid_utf8(encode_utf8(row)));
    assert(decode_utf8(encode_utf8(row)) == row);
    lemma_csv_row_split(r, 0);
    lemma_csv_fields_from_shape(r, 0);
    let fields = csv_fields_from(r, 0);
    assert(fields.len() == 8);
    assert forall|j: int| 0 <= j < 8 implies #[trigger] fields[j]
        == crate::record::field_value_chars(r, key_order()[j]) by {
        assert(fields[j] == crate::record::field_value_chars(r, key_order()[0 + j]));
    }
    lemma_apply_csv_fields_from(default_record(), r, fields, 0);
    crate::record::lemma_fill_fields_all(default_record(), r);
}

/// Reading the serialized rows of a record set appends those records.
#[verifier::spinoff_prover]
#[verifier::rlimit(50)]
proof fn lemma_csv_bank_roundtrip_from(rs: Seq<RecordV>, acc: Seq<RecordV>)
    requires
        forall|i: int|
            0 <= i < rs.len() ==> crate::record::desc_has_no_newline(#[trigger] rs[i]),
    ensures
        parse_csv_bank_from(encode_utf8(bank_csv_chars(rs)), acc) == Ok::<Seq<RecordV>, CsvErrV>(
            acc + rs,
        ),
    decreases rs.len(),
{
    broadcast use vstd::utf8::group_utf8_lib;

    if rs.len() == 0 {
        assert(bank_csv_chars(rs) =~= Seq::<char>::empty());
        assert(encode_utf8(Seq::<char>::empty()) =~= Seq::<u8>::empty());
        assert(acc + rs =~= acc);
    } else {
        let rest = rs.drop_first();
        let bytes = encode_utf8(bank_csv_chars(rs));
        crate::strutil::lemma_encode_utf8_concat(record_csv_chars(rs[0]), bank_csv_chars(rest));
        let tail = encode_utf8(bank_csv_chars(rest));
        assert(bytes =~= encode_utf8(record_csv_chars(rs[0])) + tail);
        lemma_csv_record_roundtrip(rs[0], tail);
        assert(bytes.len() > 0) by {
            reveal_strlit("\n");
            assert(record_csv_chars(rs[0]).len() > 0);
            if encode_utf8(record_csv_chars(rs[0])).len() == 0 {
                assert(decode_utf8(Seq::<u8>::empty()) =~= Seq::<char>::empty());
                assert(decode_utf8(encode_utf8(record_csv_chars(rs[0]))) == record_csv_chars(
                    rs[0],
                ));
            }
        }
        lemma_csv_bank_roundtrip_from(rest, acc.push(rs[0]));
        assert(acc.push(rs[0]) + rest =~= acc + rs);
    }
}

/// Input whose first line is not the canonical header always fails with the
/// header-structure error, before any record is looked at.
pub proof fn lemma_csv_header_checked_first(bytes: Seq<u8>)
    requires
        ({
            let (header, rest, had_nl) = split_line(bytes);
            valid_utf8(header) && decode_utf8(header) != csv_header_chars()
        }),
    ensures
        spec_read_csv(bytes) == Err::<Seq<RecordV>, ReadErrV>(
            ReadErrV::FromCsv(CsvErrV::UnexpectedError("invalid header structure"@)),
        ),
{
}

/// Round trip of the CSV format: writing any record set whose descriptions
/// hold no newline, then reading the bytes back, returns the same records.
#[verifier::spinoff_prover]
#[verifier::rlimit(50)]
pub proof fn lemma_csv_round_trip(rs: Seq<RecordV>)
    requires
        forall|i: int|
            0 <= i < rs.len() ==> crate::record::desc_has_no_newline(#[trigger] rs[i]),
    ensures
        spec_read_csv(encode_utf8(csv_text_chars(rs))) == Ok::<Seq<RecordV>, ReadErrV>(rs),
{
    broadcast use vstd::utf8::group_utf8_lib;

    let h = csv_header_chars();
    let bytes = encode_utf8(csv_text_chars(rs));
    crate::strutil::lemma_encode_utf8_concat(h + "\n"@, bank_csv_chars(rs));
    crate::strutil::lemma_encode_utf8_concat(h, "\n"@);
    crate::text_format::lemma_encode_newline();
    assert(csv_text_chars(rs) =~= (h + "\n"@) + bank_csv_chars(rs));
    let tail = encode_utf8(bank_csv_chars(rs));
    assert(bytes =~= encode_utf8(h) + seq![0x0au8] + tail);
    reveal_strlit("TX_ID,TX_TYPE,FROM_USER_ID,TO_USER_ID,AMOUNT,TIMESTAMP,STATUS,DESCRIPTION");
    assert forall|j: int| 0 <= j < h.len() implies h[j] != '\n' by {
        reveal_strlit("\n");
    }
    assert(('\n' as u32) < 0x80);
    crate::strutil::lemma_encode_avoids_ascii_byte(h, '\n');
    assert(('\n' as u8) == 0x0au8);
    assert forall|j: int| 0 <= j < encode_utf8(h).len() implies encode_utf8(h)[j] != 0x0a by {
        assert(encode_utf8(h)[j] != '\n' as u8);
    }
    crate::text_format::lemma_split_line_concat(encode_utf8(h), tail);
    assert(valid_utf8(encode_utf8(h)));
    assert(decode_utf8(encode_utf8(h)) == h);
    lemma_csv_bank_roundtrip_from(rs, Seq::<RecordV>::empty());
    assert(Seq::<RecordV>::empty() + rs =~= rs);
}

/// An empty record set serializes to the header line alone and reads back as
/// empty.
pub proof fn lemma_csv_empty()
    ensures
        csv_text_chars(Seq::<RecordV>::empty()) == csv_header_chars() + "\n"@,
        spec_read_csv(encode_utf8(csv_header_chars() + "\n"@)) == Ok::<Seq<RecordV>, ReadErrV>(
            Seq::<RecordV>::empty(),
        ),
{
    assert(bank_csv_chars(Seq::<RecordV>::empty()) =~= Seq::<char>::empty());
    assert(csv_text_chars(Seq::<RecordV>::empty()) =~= csv_header_chars() + "\n"@);
    lemma_csv_round_trip(Seq::<RecordV>::empty());
}

impl Record {
    /// The record's CSV row, as a string.
    pub fn to_csv_string(&self) -> (r: String)
        ensures
            r@ =~= record_csv_chars(self@),
    {
        let mut s = String::new();
        let v0 = u64_to_string(self.tx_id);
        s.append(v0.as_str());
        s.append(",");
        s.append(self.tx_type.as_str());
        s.append(",");
        let v1 = u64_to_string(self.from_user_id);
        s.append(v1.as_str());
        s.append(",");
        let v2 = u64_to_string(self.to_user_id);
        s.append(v2.as_str());
        s.append(",");
        let v3 = u64_to_string(self.amount);
        s.append(v3.as_str());
        s.append(",");
        let v4 = u64_to_string(self.timestamp);
        s.append(v4.as_str());
        s.append(",");
        s.append(self.status.as_str());
        s.append(",");
        s.append("\"");
        s.append(self.description.as_str());
        s.append("\"");
        s.append("\n");
        proof {
            lemma_csv_row_flat(self@);
        }
        s
    }

    /// The record's CSV row, as the bytes the format writes.
    pub fn to_csv(&self) -> (out: Vec<u8>)
        ensures
            out@ == encode_utf8(record_csv_chars(self@)),
    {
        let s = self.to_csv_string();
        s.as_str().as_bytes_vec()
    }

    /// Read one CSV record line from `input`, starting at `pos`.  On success
    /// the new position past the line is returned beside the record.
    pub fn from_csv(input: &[u8], pos: usize) -> (r: Result<
        (Record, usize),
        ParseRecordFromCsvError,
    >)
        requires
            pos <= input@.len(),
        ensures
            match parse_csv_record_from(input@.skip(pos as int)) {
                Ok((rv, rest)) => r matches Ok((rec, np)) && rec@ == rv && pos <= np
                    <= input@.len() && input@.skip(np as int) == rest,
                Err(e) => r matches Err(err) && err@ == e,
            },
    {
        let ghost remaining = input@.skip(pos as int);
        if pos >= input.len() {
            return Err(ParseRecordFromCsvError::UnexpectedError(String::from_str("EOF is reached")));
        }
        proof {
            lemma_find_index(remaining, 0x0au8);
        }
        let (line_end, next_p) = match crate::strutil::find_byte_from(input, pos, 0x0a) {
            Some(i) => (i, i + 1),
            None => (input.len(), input.len()),
        };
        let ghost line = remaining.subrange(0, line_end - pos);
        let ghost rest = input@.skip(next_p as int);
        proof {
            assert(line =~= input@.subrange(pos as int, line_end as int));
            let (sl, sr, snl) = split_line(remaining);
            assert(sl =~= line);
            assert(sr =~= rest);
        }
        let line_slice = slice_subrange(input, pos, line_end);
        let line_vec = slice_to_vec(line_slice);
        match bytes_to_string(line_vec) {
            None => Err(
                ParseRecordFromCsvError::UnexpectedError(
                    String::from_str("stream did not contain valid UTF-8"),
                ),
            ),
            Some(line_str) => {
                proof {
                    assert(line_str@ == decode_utf8(line));
                }
                match parse_csv_line(line_str.as_str()) {
                    Ok(rec) => Ok((rec, next_p)),
                    Err(e) => Err(e),
                }
            },
        }
    }
}

/// Split one CSV line into its (at most eight) fields and validate them
/// positionally into a fresh record.
fn parse_csv_line(line: &str) -> (r: Result<Record, ParseRecordFromCsvError>)
    ensures
        ({
            let fields = split_limited(line@, 8);
            if fields.len() != 8 {
                r matches Err(err) && err@ == CsvErrV::InvalidCountOfColumns(fields.len() as usize)
            } else {
                match apply_csv_fields(default_record(), fields, 0) {
                    Ok(rv) => r matches Ok(rec) && rec@ == rv,
                    Err(e) => r matches Err(err) && err@ == CsvErrV::InvalidValue(e),
                }
            }
        }),
{
    let mut fields: Vec<String> = Vec::new();
    let mut cur = String::from_str(line);
    let mut budget: usize = 8;
    let mut done = false;
    proof {
        assert(fields.deep_view() =~= Seq::<Seq<char>>::empty());
        assert(Seq::<Seq<char>>::empty() + split_limited(cur@, 8) =~= split_limited(line@, 8));
    }
    while budget > 1 && !done
        invariant
            1 <= budget <= 8,
            fields@.len() + budget == 8,
            split_limited(line@, 8) =~= fields.deep_view() + split_limited(cur@, budget as nat),
            done ==> find_index(cur@, ',') is None,
        decreases budget + (if done {
            0int
        } else {
            1int
        }),
    {
        proof {
            lemma_find_index(cur@, ',');
        }
        match str_find_char(cur.as_str(), ',') {
            None => {
                done = true;
            },
            Some(i) => {
                let n = cur.as_str().unicode_len();
                let head = String::from_str(cur.as_str().substring_char(0, i));
                let tail = String::from_str(cur.as_str().substring_char(i + 1, n));
                let ghost old_fields = fields.deep_view();
                let ghost old_cur = cur@;
                fields.push(head);
                cur = tail;
                budget = budget - 1;
                proof {
                    assert(fields.deep_view() =~= old_fields.push(old_cur.subrange(0, i as int)));
                    assert(split_limited(line@, 8) =~= fields.deep_view() + split_limited(
                        cur@,
                        budget as nat,
                    ));
                }
            },
        }
    }
    proof {
        if done {
            assert(split_limited(cur@, budget as nat) =~= seq![cur@]);
        } else {
            assert(budget == 1);
            assert(split_limited(cur@, budget as nat) =~= seq![cur@]);
        }
        assert(fields.deep_view() + seq![cur@] =~= fields.deep_view().push(cur@));
    }
    let ghost old_fields = fields.deep_view();
    fields.push(cur);
    proof {
        assert(fields.deep_view() =~= old_fields.push(cur@));
        assert(fields.deep_view() =~= split_limited(line@, 8));
    }
    if fields.len() != 8 {
        return Err(ParseRecordFromCsvError::InvalidCountOfColumns(fields.len()));
    }
    let mut rec = Record::default();
    let mut k: usize = 0;
    while k < 8
        invariant
            k <= 8,
            fields@.len() == 8,
            fields.deep_view() =~= split_limited(line@, 8),
            apply_csv_fields(default_record(), fields.deep_view(), 0) == apply_csv_fields(
                rec@,
                fields.deep_view(),
                k as nat,
            ),
        decreases 8 - k,
    {
        let key = RecordKey::at(k);
        proof {
            assert(fields.deep_view()[k as int] == fields@[k as int]@);
        }
        match rec.validate_and_set_value_by_key(key, fields[k].as_str()) {
            Ok(()) => {
                k += 1;
            },
            Err(e) => {
                return Err(ParseRecordFromCsvError::InvalidValue(e));
            },
        }
    }
    Ok(rec)
}

/// Read a whole record set in the CSV format: validate the header line, then
/// read records until the input is exhausted.
pub fn read_csv_records(input: &[u8]) -> (r: Result<Vec<Record>, ReadError>)
    ensures
        match spec_read_csv(input@) {
            Ok(rs) => r matches Ok(v) && v.deep_view() == rs,
            Err(e) => r matches Err(err) && err@ == e,
        },
{
    let ghost whole = input@;
    let n = input.len();
    proof {
        assert(input@.skip(0) =~= input@);
        lemma_find_index(input@.skip(0), 0x0au8);
        lemma_find_index(input@, 0x0au8);
    }
    let (line_end, next_p) = match crate::strutil::find_byte_from(input, 0, 0x0a) {
        Some(i) => (i, i + 1),
        None => (n, n),
    };
    let ghost header = whole.subrange(0, line_end as int);
    let ghost rest = whole.skip(next_p as int);
    proof {
        let (sl, sr, snl) = split_line(whole);
        assert(sl =~= header);
        assert(sr =~= rest);
    }
    let header_vec = slice_to_vec(slice_subrange(input, 0, line_end));
    match bytes_to_string(header_vec) {
        None => Err(ReadError::Io(String::from_str("stream did not contain valid UTF-8"))),
        Some(h) => {
            proof {
                assert(h@ == decode_utf8(header));
            }
            if !str_eq(
                h.as_str(),
                "TX_ID,TX_TYPE,FROM_USER_ID,TO_USER_ID,AMOUNT,TIMESTAMP,STATUS,DESCRIPTION",
            ) {
                return Err(
                    ReadError::FromCsv(
                        ParseRecordFromCsvError::UnexpectedError(
                            String::from_str("invalid header structure"),
                        ),
                    ),
                );
            }
            let mut recs: Vec<Record> = Vec::new();
            let mut p: usize = next_p;
            proof {
                assert(recs.deep_view() =~= Seq::<RecordV>::empty());
            }
            while p < input.len()
                invariant
                    p <= input@.len(),
                    ({
                        match parse_csv_bank_from(input@.skip(p as int), recs.deep_view()) {
                            Ok(rs) => spec_read_csv(input@) == Ok::<Seq<RecordV>, ReadErrV>(rs),
                            Err(e) => spec_read_csv(input@) == Err::<Seq<RecordV>, ReadErrV>(
                                ReadErrV::FromCsv(e),
                            ),
                        }
                    }),
                decreases input@.len() - p,
            {
                let ghost remaining = input@.skip(p as int);
                proof {
                    lemma_split_line(remaining);
                }
                match Record::from_csv(input, p) {
                    Ok((rec, np)) => {
                        let ghost old_recs = recs.deep_view();
                        recs.push(rec);
                        proof {
                            assert(recs.deep_view() =~= old_recs.push(rec@));
                        }
                        p = np;
                    },
                    Err(e) => {
                        return Err(ReadError::FromCsv(e));
                    },
                }
            }
            proof {
                assert(input@.skip(p as int).len() == 0);
            }
            Ok(recs)
        },
    }
}

/// Write a whole record set in the CSV format: the header line, then one row
/// per record.
pub fn write_csv_records(records: &Vec<Record>) -> (out: Vec<u8>)
    ensures
        out@ == encode_utf8(csv_text_chars(records.deep_view())),
{
    let mut s = String::from_str(
        "TX_ID,TX_TYPE,FROM_USER_ID,TO_USER_ID,AMOUNT,TIMESTAMP,STATUS,DESCRIPTION",
    );
    s.append("\n");
    let mut i: usize = 0;
    proof {
        assert(records.deep_view().take(0) =~= Seq::<RecordV>::empty());
        assert(s@ =~= csv_header_chars() + "\n"@ + bank_csv_chars(records.deep_view().take(0)));
    }
    while i < records.len()
        invariant
            i <= records@.len(),
            s@ =~= csv_header_chars() + "\n"@ + bank_csv_chars(records.deep_view().take(i as int)),
        decreases records@.len() - i,
    {
        let row = records[i].to_csv_string();
        s.append(row.as_str());
        proof {
            let rv = records.deep_view();
            assert(rv.take(i as int).push(records@[i as int]@) =~= rv.take(i + 1));
            lemma_bank_csv_snoc(rv.take(i as int), records@[i as int]@);
        }
        i += 1;
    }
    proof {
        assert(records.deep_view().take(records@.len() as int) =~= records.deep_view());
    }
    s.as_str().as_bytes_vec()
}

/// A record set held in CSV form.
#[derive(Debug)]
pub struct YPBankCsv {
    /// The records, in input order.
    pub records: Vec<Record>,
}

impl YPBankCsv {
    /// The canonical CSV header line (without its newline).
    pub fn prepare_header() -> (r: String)
        ensures
            r@ == csv_header_chars(),
    {
        String::from_str("TX_ID,TX_TYPE,FROM_USER_ID,TO_USER_ID,AMOUNT,TIMESTAMP,STATUS,DESCRIPTION")
    }

    /// Accept exactly the canonical header.
    pub fn validate_header(header: &str) -> (r: Result<(), ReadError>)
        ensures
            header@ == csv_header_chars() <==> r is Ok,
            r matches Err(e) ==> e@ == ReadErrV::FromCsv(
                CsvErrV::UnexpectedError("invalid header structure"@),
            ),
    {
        let expected = Self::prepare_header();
        if str_eq(header, expected.as_str()) {
            Ok(())
        } else {
            Err(
                ReadError::FromCsv(
                    ParseRecordFromCsvError::UnexpectedError(
                        String::from_str("invalid header structure"),
                    ),
                ),
            )
        }
    }

    /// Read a record set from the bytes of the CSV format.
    pub fn read_from(input: &[u8]) -> (r: Result<YPBankCsv, ReadError>)
        ensures
            match spec_read_csv(input@) {
                Ok(rs) => r matches Ok(b) && b.records.deep_view() == rs,
                Err(e) => r matches Err(err) && err@ == e,
            },
    {
        match read_csv_records(input) {
            Ok(records) => Ok(YPBankCsv { records }),
            Err(e) => Err(e),
        }
    }

    /// Write the record set in the CSV format.
    pub fn write_to(&self) -> (r: Result<Vec<u8>, WriteError>)
        ensures
            r matches Ok(out) && out@ == encode_utf8(csv_text_chars(self.records.deep_view())),
    {
        Ok(write_csv_records(&self.records))
    }
}

} // verus!
