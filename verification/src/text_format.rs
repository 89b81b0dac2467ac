//! The key/value text format: one `KEY: value` line per field, `#` comment
//! lines, and a blank line between records.

use vstd::prelude::*;
use vstd::slice::slice_subrange;
use vstd::slice::slice_to_vec;
use vstd::string::StrSliceExecFns;
use vstd::string::StringExecFns;
use vstd::utf8::valid_utf8;
use vstd::utf8::decode_utf8;
use vstd::utf8::encode_utf8;
use crate::errors::ParseRecordFromTxtError;
use crate::errors::TxtErrV;
use crate::keys::RecordKey;
use crate::keys::key_name;
use crate::keys::key_from_chars;
use crate::num::u64_to_string;
use crate::record::KeyFlags;
use crate::record::Record;
use crate::record::RecordV;
use crate::record::apply_field;
use crate::record::default_record;
use crate::record::first_missing;
use crate::record::no_keys;
use crate::record::with_key;
use crate::strutil::bytes_to_string;
use crate::strutil::find_index;
use crate::strutil::lemma_find_index;
use crate::strutil::str_find_char;

verus! {

/// Split off the first line: the bytes before the first newline, the bytes
/// after it, and whether a newline was present at all.
pub open spec fn split_line(bytes: Seq<u8>) -> (Seq<u8>, Seq<u8>, bool) {
    match find_index(bytes, 0x0a) {
        Some(i) => (bytes.subrange(0, i), bytes.subrange(i + 1, bytes.len() as int), true),
        None => (bytes, Seq::<u8>::empty(), false),
    }
}

/// Shape of `split_line`: the line is newline-free, and the input is the
/// line, the newline if one was found, and the remainder.
pub proof fn lemma_split_line(bytes: Seq<u8>)
    ensures
        ({
            let (line, rest, had_nl) = split_line(bytes);
            &&& forall|j: int| 0 <= j < line.len() ==> line[j] != 0x0a
            &&& had_nl ==> line.len() + 1 + rest.len() == bytes.len() && bytes =~= line + seq![
                0x0au8,
            ] + rest
            &&& !had_nl ==> line == bytes && rest.len() == 0
            &&& bytes.len() > 0 ==> rest.len() < bytes.len()
        }),
{
    lemma_find_index(bytes, 0x0au8);
    let (line, rest, had_nl) = split_line(bytes);
    if let Some(i) = find_index(bytes, 0x0au8) {
        assert(bytes =~= line + seq![0x0au8] + rest);
    }
}

/// Splitting text assembled from a newline-free line, a newline, and a tail
/// gives the pieces back.
pub proof fn lemma_split_line_concat(line: Seq<u8>, rest: Seq<u8>)
    requires
        forall|j: int| 0 <= j < line.len() ==> line[j] != 0x0a,
    ensures
        split_line(line + seq![0x0au8] + rest) == (line, rest, true),
{
    let all = line + seq![0x0au8] + rest;
    assert(all =~= line + (seq![0x0au8] + rest));
    assert((seq![0x0au8] + rest)[0] == 0x0au8);
    crate::strutil::lemma_find_index_concat(line, seq![0x0au8] + rest, 0x0au8);
    assert(all.subrange(0, line.len() as int) =~= line);
    assert(all.subrange(line.len() as int + 1, all.len() as int) =~= rest);
}

/// The text-format error standing for undecodable input.
pub open spec fn utf8_failure_txt() -> TxtErrV {
    TxtErrV::UnexpectedError("stream did not contain valid UTF-8"@)
}

/// One non-comment, non-blank line of a text record: `KEY: value`.  The text
/// before the first space must end with a colon, name a canonical key, and
/// the remainder must pass that key's validator.
pub open spec fn parse_txt_line(chars: Seq<char>, acc: RecordV, seen: KeyFlags) -> Result<
    (RecordV, KeyFlags),
    TxtErrV,
> {
    match find_index(chars, ' ') {
        None => Err(
            TxtErrV::UnexpectedError("Could not parse string by space delimiter: "@ + chars),
        ),
        Some(i) => {
            let keypart = chars.subrange(0, i);
            let value = chars.subrange(i + 1, chars.len() as int);
            if keypart.len() == 0 || keypart.last() != ':' {
                Err(TxtErrV::ColonNotFound(keypart))
            } else {
                let keyname = keypart.drop_last();
                match key_from_chars(keyname) {
                    None => Err(TxtErrV::InvalidKey(keyname)),
                    Some(k) => match apply_field(acc, k, value) {
                        Ok(r2) => Ok((r2, with_key(seen, k))),
                        Err(e) => Err(TxtErrV::InvalidValue(e)),
                    },
                }
            }
        },
    }
}

/// End of a record block: the first missing key in canonical order fails the
/// record, otherwise the accumulated record and the remaining input stand.
pub open spec fn finish_txt_record(acc: RecordV, seen: KeyFlags, rest: Seq<u8>) -> Result<
    (RecordV, Seq<u8>),
    TxtErrV,
> {
    match first_missing(seen) {
        Some(k) => Err(TxtErrV::MissingKey(key_name(k))),
        None => Ok((acc, rest)),
    }
}

/// One record of the text format, read from the head of `bytes`: lines are
/// consumed until a blank line or the end of input; comment lines are
/// skipped; every other line must be a valid `KEY: value` line.
pub open spec fn parse_txt_record_from(bytes: Seq<u8>, acc: RecordV, seen: KeyFlags) -> Result<
    (RecordV, Seq<u8>),
    TxtErrV,
>
    decreases bytes.len(),
    via parse_txt_record_from_dec
{
    if bytes.len() == 0 {
        finish_txt_record(acc, seen, bytes)
    } else {
        let (line, rest, had_nl) = split_line(bytes);
        if line.len() == 0 {
            finish_txt_record(acc, seen, rest)
        } else if !valid_utf8(line) {
            Err(utf8_failure_txt())
        } else {
            let chars = decode_utf8(line);
            if chars.len() > 0 && chars[0] == '#' {
                parse_txt_record_from(rest, acc, seen)
            } else {
                match parse_txt_line(chars, acc, seen) {
                    Ok((a2, s2)) => parse_txt_record_from(rest, a2, s2),
                    Err(e) => Err(e),
                }
            }
        }
    }
}

#[via_fn]
proof fn parse_txt_record_from_dec(bytes: Seq<u8>, acc: RecordV, seen: KeyFlags) {
    lemma_split_line(bytes);
}

/// A record parse leaves strictly less input behind than it was given.
pub proof fn lemma_parse_txt_record_consumes(bytes: Seq<u8>, acc: RecordV, seen: KeyFlags)
    ensures
        parse_txt_record_from(bytes, acc, seen) matches Ok((r, rest)) ==> rest.len() <= bytes.len()
            && (bytes.len() > 0 ==> rest.len() < bytes.len()),
    decreases bytes.len(),
{
    lemma_split_line(bytes);
    if bytes.len() > 0 {
        let (line, rest, had_nl) = split_line(bytes);
        if line.len() == 0 {
        } else if !valid_utf8(line) {
        } else {
            let chars = decode_utf8(line);
            if chars.len() > 0 && chars[0] == '#' {
                lemma_parse_txt_record_consumes(rest, acc, seen);
            } else {
                match parse_txt_line(chars, acc, seen) {
                    Ok((a2, s2)) => {
                        lemma_parse_txt_record_consumes(rest, a2, s2);
                    },
                    Err(e) => {
                    },
                }
            }
        }
    }
}

/// The whole text form: records separated by single blank lines, read until
/// the input is exhausted.
pub open spec fn parse_txt_bank_from(bytes: Seq<u8>, acc: Seq<RecordV>) -> Result<
    Seq<RecordV>,
    TxtErrV,
>
    decreases bytes.len(),
    via parse_txt_bank_from_dec
{
    if bytes.len() == 0 {
        Ok(acc)
    } else {
        match parse_txt_record_from(bytes, default_record(), no_keys()) {
            Err(e) => Err(e),
            Ok((r, rest)) => parse_txt_bank_from(rest, acc.push(r)),
        }
    }
}

#[via_fn]
proof fn parse_txt_bank_from_dec(bytes: Seq<u8>, acc: Seq<RecordV>) {
    lemma_parse_txt_record_consumes(bytes, default_record(), no_keys());
}

/// What reading the text format returns for any input.
pub open spec fn spec_read_text(bytes: Seq<u8>) -> Result<Seq<RecordV>, TxtErrV> {
    parse_txt_bank_from(bytes, Seq::<RecordV>::empty())
}

/// One `KEY: value` line of a record's text block, without its newline.
pub open spec fn txt_line_chars(r: RecordV, k: RecordKey) -> Seq<char> {
    key_name(k) + ": "@ + crate::record::field_value_chars(r, k)
}

/// The eight `KEY: value` lines of one record, in canonical order, each
/// ending in a newline; the description is wrapped in literal quotes.
pub open spec fn record_text_chars(r: RecordV) -> Seq<char> {
    txt_line_chars(r, RecordKey::TxId) + "\n"@ + txt_line_chars(r, RecordKey::TxType) + "\n"@
        + txt_line_chars(r, RecordKey::FromUserId) + "\n"@ + txt_line_chars(r, RecordKey::ToUserId)
        + "\n"@ + txt_line_chars(r, RecordKey::Amount) + "\n"@ + txt_line_chars(
        r,
        RecordKey::Timestamp,
    ) + "\n"@ + txt_line_chars(r, RecordKey::Status) + "\n"@ + txt_line_chars(
        r,
        RecordKey::Description,
    ) + "\n"@
}

/// The text of a whole record set: record blocks joined by one blank line,
/// with no leading or trailing separator.
pub open spec fn bank_text_chars(rs: Seq<RecordV>) -> Seq<char>
    decreases rs.len(),
{
    if rs.len() == 0 {
        Seq::<char>::empty()
    } else if rs.len() == 1 {
        record_text_chars(rs[0])
    } else {
        record_text_chars(rs[0]) + "\n"@ + bank_text_chars(rs.drop_first())
    }
}

/// Appending one record extends the text by a separator (when records came
/// before) and the record's block.
pub proof fn lemma_bank_text_snoc(rs: Seq<RecordV>, r: RecordV)
    ensures
        bank_text_chars(rs.push(r)) =~= if rs.len() == 0 {
            record_text_chars(r)
        } else {
            bank_text_chars(rs) + "\n"@ + record_text_chars(r)
        },
    decreases rs.len(),
{
    if rs.len() == 0 {
        assert(rs.push(r)[0] == r);
    } else {
        assert(rs.push(r).drop_first() =~= rs.drop_first().push(r));
        lemma_bank_text_snoc(rs.drop_first(), r);
        assert(rs.push(r)[0] == rs[0]);
    }
}

impl Record {
    /// The record's text block, as a string.
    pub fn to_text_string(&self) -> (r: String)
        ensures
            r@ =~= record_text_chars(self@),
    {
        let mut s = String::new();
        s.append(RecordKey::TxId.as_str());
        s.append(": ");
        let v0 = u64_to_string(self.tx_id);
        s.append(v0.as_str());
        s.append("\n");
        s.append(RecordKey::TxType.as_str());
        s.append(": ");
        s.append(self.tx_type.as_str());
        s.append("\n");
        s.append(RecordKey::FromUserId.as_str());
        s.append(": ");
        let v1 = u64_to_string(self.from_user_id);
        s.append(v1.as_str());
        s.append("\n");
        s.append(RecordKey::ToUserId.as_str());
        s.append(": ");
        let v2 = u64_to_string(self.to_user_id);
        s.append(v2.as_str());
        s.append("\n");
        s.append(RecordKey::Amount.as_str());
        s.append(": ");
        let v3 = u64_to_string(self.amount);
        s.append(v3.as_str());
        s.append("\n");
        s.append(RecordKey::Timestamp.as_str());
        s.append(": ");
        let v4 = u64_to_string(self.timestamp);
        s.append(v4.as_str());
        s.append("\n");
        s.append(RecordKey::Status.as_str());
        s.append(": ");
        s.append(self.status.as_str());
        s.append("\n");
        s.append(RecordKey::Description.as_str());
        s.append(": \"");
        s.append(self.description.as_str());
        s.append("\"\n");
        proof {
            reveal_strlit(": ");
            reveal_strlit(": \"");
            reveal_strlit("\"");
            reveal_strlit("\"\n");
            reveal_strlit("\n");
            assert(": \""@ =~= ": "@ + "\""@);
            assert("\"\n"@ =~= "\""@ + "\n"@);
        }
        s
    }

    /// The record's text block, as the bytes the format writes.
    pub fn to_text(&self) -> (out: Vec<u8>)
        ensures
            out@ == encode_utf8(record_text_chars(self@)),
    {
        let s = self.to_text_string();
        s.as_str().as_bytes_vec()
    }

    /// Read one record of the text format from `input`, starting at `pos`.
    /// On success the new position past the record (and past the blank line
    /// ending it, if one was present) is returned beside the record.
    pub fn from_text(input: &[u8], pos: usize) -> (r: Result<
        (Record, usize),
        ParseRecordFromTxtError,
    >)
        requires
            pos <= input@.len(),
        ensures
            match parse_txt_record_from(input@.skip(pos as int), default_record(), no_keys()) {
                Ok((rv, rest)) => r matches Ok((rec, np)) && rec@ == rv && pos <= np
                    <= input@.len() && input@.skip(np as int) == rest,
                Err(e) => r matches Err(err) && err@ == e,
            },
    {
        let mut rec = Record::default();
        let mut seen = KeyFlags::none();
        let mut p = pos;
        while p < input.len()
            invariant
                pos <= p <= input@.len(),
                parse_txt_record_from(input@.skip(pos as int), default_record(), no_keys())
                    == parse_txt_record_from(input@.skip(p as int), rec@, seen),
            decreases input@.len() - p,
        {
            let ghost remaining = input@.skip(p as int);
            proof {
                lemma_find_index(remaining, 0x0au8);
            }
            let (line_end, next_p) = match crate::strutil::find_byte_from(input, p, 0x0a) {
                Some(i) => (i, i + 1),
                None => (input.len(), input.len()),
            };
            let ghost line = remaining.subrange(0, line_end - p);
            let ghost rest = input@.skip(next_p as int);
            proof {
                assert(line =~= input@.subrange(p as int, line_end as int));
                let (sl, sr, snl) = split_line(remaining);
                assert(sl =~= line);
                if next_p > line_end {
                    assert(sr =~= rest);
                } else {
                    assert(sr =~= rest);
                }
            }
            if line_end == p {
                // Blank line: the record ends here.
                proof {
                    assert(line.len() == 0);
                }
                match seen.first_missing_key() {
                    Some(k) => {
                        return Err(
                            ParseRecordFromTxtError::MissingKey(String::from_str(k.as_str())),
                        );
                    },
                    None => {
                        return Ok((rec, next_p));
                    },
                }
            }
            let line_slice = slice_subrange(input, p, line_end);
            let line_vec = slice_to_vec(line_slice);
            match bytes_to_string(line_vec) {
                None => {
                    return Err(
                        ParseRecordFromTxtError::UnexpectedError(
                            String::from_str("stream did not contain valid UTF-8"),
                        ),
                    );
                },
                Some(line_str) => {
                    proof {
                        assert(line_str@ == decode_utf8(line));
                        crate::strutil::lemma_decode_nonempty(line);
                    }
                    if line_str.as_str().get_char(0) == '#' {
                        p = next_p;
                    } else {
                        match apply_txt_line(line_str.as_str(), &mut rec, &mut seen) {
                            Ok(()) => {
                                p = next_p;
                            },
                            Err(e) => {
                                return Err(e);
                            },
                        }
                    }
                },
            }
        }
        proof {
            assert(input@.skip(p as int).len() == 0);
        }
        match seen.first_missing_key() {
            Some(k) => Err(ParseRecordFromTxtError::MissingKey(String::from_str(k.as_str()))),
            None => Ok((rec, p)),
        }
    }
}

/// Apply one `KEY: value` line to the record being built.
fn apply_txt_line(line: &str, rec: &mut Record, seen: &mut KeyFlags) -> (r: Result<
    (),
    ParseRecordFromTxtError,
>)
    ensures
        match parse_txt_line(line@, old(rec)@, *old(seen)) {
            Ok((a2, s2)) => r is Ok && final(rec)@ == a2 && *final(seen) == s2,
            Err(e) => r matches Err(err) && err@ == e,
        },
{
    proof {
        lemma_find_index(line@, ' ');
    }
    match str_find_char(line, ' ') {
        None => {
            let mut m = String::from_str("Could not parse string by space delimiter: ");
            m.append(line);
            Err(ParseRecordFromTxtError::UnexpectedError(m))
        },
        Some(i) => {
            let n = line.unicode_len();
            let keypart = line.substring_char(0, i);
            let value = line.substring_char(i + 1, n);
            let kn = keypart.unicode_len();
            if kn == 0 || keypart.get_char(kn - 1) != ':' {
                Err(ParseRecordFromTxtError::ColonNotFound(String::from_str(keypart)))
            } else {
                let keyname = keypart.substring_char(0, kn - 1);
                proof {
                    assert(keyname@ =~= line@.subrange(0, i as int).drop_last());
                }
                match RecordKey::try_from(keyname) {
                    Err(e) => Err(ParseRecordFromTxtError::InvalidKey(e)),
                    Ok(k) => match rec.validate_and_set_value_by_key(k, value) {
                        Ok(()) => {
                            seen.mark(k);
                            Ok(())
                        },
                        Err(e) => Err(ParseRecordFromTxtError::InvalidValue(e)),
                    },
                }
            }
        },
    }
}

/// Read a whole record set in the text format.
pub fn read_text_records(input: &[u8]) -> (r: Result<Vec<Record>, ParseRecordFromTxtError>)
    ensures
        match spec_read_text(input@) {
            Ok(rs) => r matches Ok(v) && v.deep_view() == rs,
            Err(e) => r matches Err(err) && err@ == e,
        },
{
    let mut recs: Vec<Record> = Vec::new();
    let mut p: usize = 0;
    proof {
        assert(recs.deep_view() =~= Seq::<RecordV>::empty());
        assert(input@.skip(0) =~= input@);
    }
    while p < input.len()
        invariant
            p <= input@.len(),
            spec_read_text(input@) == parse_txt_bank_from(input@.skip(p as int), recs.deep_view()),
        decreases input@.len() - p,
    {
        let ghost remaining = input@.skip(p as int);
        proof {
            lemma_parse_txt_record_consumes(remaining, default_record(), no_keys());
        }
        match Record::from_text(input, p) {
            Ok((rec, np)) => {
                let ghost old_recs = recs.deep_view();
                recs.push(rec);
                proof {
                    assert(recs.deep_view() =~= old_recs.push(rec@));
                }
                p = np;
            },
            Err(e) => {
                return Err(e);
            },
        }
    }
    proof {
        assert(input@.skip(p as int).len() == 0);
    }
    Ok(recs)
}

/// Write a whole record set in the text format.
pub fn write_text_records(records: &Vec<Record>) -> (out: Vec<u8>)
    ensures
        out@ == encode_utf8(bank_text_chars(records.deep_view())),
{
    let mut s = String::new();
    let mut i: usize = 0;
    proof {
        assert(records.deep_view().take(0) =~= Seq::<RecordV>::empty());
    }
    while i < records.len()
        invariant
            i <= records@.len(),
            s@ =~= bank_text_chars(records.deep_view().take(i as int)),
        decreases records@.len() - i,
    {
        if i > 0 {
            s.append("\n");
        }
        let block = records[i].to_text_string();
        s.append(block.as_str());
        proof {
            let rv = records.deep_view();
            assert(rv.take(i as int).push(records@[i as int]@) =~= rv.take(i + 1));
            lemma_bank_text_snoc(rv.take(i as int), records@[i as int]@);
        }
        i += 1;
    }
    proof {
        assert(records.deep_view().take(records@.len() as int) =~= records.deep_view());
    }
    s.as_str().as_bytes_vec()
}

/// The newline character encodes to the single newline byte.
pub proof fn lemma_encode_newline()
    ensures
        encode_utf8("\n"@) =~= seq![0x0au8],
{
    reveal_strlit("\n");
    crate::strutil::lemma_ascii_encode("\n"@);
    assert(crate::strutil::ascii_of("\n"@) =~= seq![0x0au8]);
}

/// Reading one serialized `KEY: value` line with its newline sets exactly
/// that field and marks that key seen.
#[verifier::spinoff_prover]
#[verifier::rlimit(50)]
proof fn lemma_txt_line_step(r: RecordV, k: RecordKey, acc: RecordV, seen: KeyFlags, more: Seq<u8>)
    requires
        crate::record::desc_has_no_newline(r),
    ensures
        parse_txt_record_from(
            encode_utf8(txt_line_chars(r, k)) + seq![0x0au8] + more,
            acc,
            seen,
        ) == parse_txt_record_from(more, crate::record::set_field(acc, k, r), with_key(seen, k)),
{
    broadcast use vstd::utf8::group_utf8_lib;

    let fv = crate::record::field_value_chars(r, k);
    let line = txt_line_chars(r, k);
    let el = encode_utf8(line);
    let bytes = el + seq![0x0au8] + more;
    let kl = key_name(k).len() as int;
    crate::keys::reveal_key_names();
    crate::keys::lemma_key_name_chars(k);
    crate::record::lemma_field_value_no_newline(r, k);
    reveal_strlit(": ");
    assert(": "@[0] == ':' && ": "@[1] == ' ');
    assert forall|i: int| 0 <= i < line.len() implies line[i] != '\n' by {
        if i < kl {
            assert(line[i] == key_name(k)[i]);
        } else if i < kl + 2 {
            assert(line[i] == ": "@[i - kl]);
        } else {
            assert(line[i] == fv[i - kl - 2]);
        }
    }
    assert(('\n' as u32) < 0x80);
    crate::strutil::lemma_encode_avoids_ascii_byte(line, '\n');
    assert(('\n' as u8) == 0x0au8);
    assert forall|j: int| 0 <= j < el.len() implies el[j] != 0x0a by {
        assert(el[j] != '\n' as u8);
    }
    lemma_split_line_concat(el, more);
    assert(line.len() > 0);
    assert(el.len() > 0) by {
        if el.len() == 0 {
            assert(decode_utf8(el) =~= Seq::<char>::empty());
        }
    }
    assert(valid_utf8(el));
    let chars = decode_utf8(el);
    assert(chars == line);
    assert(line[0] == key_name(k)[0]);
    assert(line[0] != '#') by {
        assert('A' <= key_name(k)[0] <= 'Z' || key_name(k)[0] == '_');
    }
    // The line parses as the key `k` and the value `fv`.
    let a = key_name(k) + seq![':'];
    let b = seq![' '] + fv;
    assert(line =~= a + b);
    assert forall|j: int| 0 <= j < a.len() implies a[j] != ' ' by {
        if j < kl {
            assert(a[j] == key_name(k)[j]);
        } else {
            assert(a[j] == ':');
        }
    }
    assert(b[0] == ' ');
    crate::strutil::lemma_find_index_concat(a, b, ' ');
    assert(find_index(line, ' ') == Some(kl + 1));
    let keypart = line.subrange(0, kl + 1);
    assert(keypart =~= a);
    assert(keypart.last() == ':');
    assert(keypart.drop_last() =~= key_name(k));
    crate::keys::lemma_key_name_roundtrip(k);
    let value = line.subrange(kl + 2, line.len() as int);
    assert(value =~= fv);
    crate::record::lemma_apply_field_value(acc, r, k);
    assert(parse_txt_line(line, acc, seen) == Ok::<(RecordV, KeyFlags), crate::errors::TxtErrV>(
        (crate::record::set_field(acc, k, r), with_key(seen, k)),
    ));
}

/// One serialized line with its newline, followed by more text, encodes to
/// the line's bytes, the newline byte, and the rest.
proof fn lemma_encode_line_nl(l: Seq<char>, c: Seq<char>, tail: Seq<u8>)
    ensures
        encode_utf8(l + "\n"@ + c) + tail =~= encode_utf8(l) + seq![0x0au8] + (encode_utf8(c)
            + tail),
{
    crate::strutil::lemma_encode_utf8_concat(l + "\n"@, c);
    crate::strutil::lemma_encode_utf8_concat(l, "\n"@);
    lemma_encode_newline();
    assert(l + "\n"@ + c =~= (l + "\n"@) + c);
}

/// The lines of a record's block from position `i` of the canonical key
/// order on, each ending in a newline.
pub open spec fn txt_block_from(r: RecordV, i: nat) -> Seq<char>
    decreases 8 - i,
{
    if i >= 8 {
        Seq::<char>::empty()
    } else {
        txt_line_chars(r, crate::keys::key_order()[i as int]) + "\n"@ + txt_block_from(r, i + 1)
    }
}

/// A record's text block is its eight lines in canonical order.
proof fn lemma_record_text_is_block(r: RecordV)
    ensures
        record_text_chars(r) == txt_block_from(r, 0),
{
    reveal_with_fuel(txt_block_from, 9);
    let nl = "\n"@;
    let l0 = txt_line_chars(r, RecordKey::TxId);
    let l1 = txt_line_chars(r, RecordKey::TxType);
    let l2 = txt_line_chars(r, RecordKey::FromUserId);
    let l3 = txt_line_chars(r, RecordKey::ToUserId);
    let l4 = txt_line_chars(r, RecordKey::Amount);
    let l5 = txt_line_chars(r, RecordKey::Timestamp);
    let l6 = txt_line_chars(r, RecordKey::Status);
    let l7 = txt_line_chars(r, RecordKey::Description);
    let p0 = l0 + nl;
    let p1 = p0 + l1 + nl;
    let p2 = p1 + l2 + nl;
    let p3 = p2 + l3 + nl;
    let p4 = p3 + l4 + nl;
    let p5 = p4 + l5 + nl;
    let p6 = p5 + l6 + nl;
    let p7 = p6 + l7 + nl;
    let b8 = txt_block_from(r, 8);
    let b7 = txt_block_from(r, 7);
    let b6 = txt_block_from(r, 6);
    let b5 = txt_block_from(r, 5);
    let b4 = txt_block_from(r, 4);
    let b3 = txt_block_from(r, 3);
    let b2 = txt_block_from(r, 2);
    let b1 = txt_block_from(r, 1);
    let b0 = txt_block_from(r, 0);
    assert(record_text_chars(r) == p7);
    assert(b8 == Seq::<char>::empty());
    assert(p7 + b8 =~= p7);
    crate::strutil::seq_assoc(p6 + l7, nl, b8);
    crate::strutil::seq_assoc(p6, l7, nl + b8);
    crate::strutil::seq_assoc(l7, nl, b8);
    assert(p7 + b8 == p6 + b7);
    crate::strutil::seq_assoc(p5 + l6, nl, b7);
    crate::strutil::seq_assoc(p5, l6, nl + b7);
    crate::strutil::seq_assoc(l6, nl, b7);
    assert(p6 + b7 == p5 + b6);
    crate::strutil::seq_assoc(p4 + l5, nl, b6);
    crate::strutil::seq_assoc(p4, l5, nl + b6);
    crate::strutil::seq_assoc(l5, nl, b6);
    assert(p5 + b6 == p4 + b5);
    crate::strutil::seq_assoc(p3 + l4, nl, b5);
    crate::strutil::seq_assoc(p3, l4, nl + b5);
    crate::strutil::seq_assoc(l4, nl, b5);
    assert(p4 + b5 == p3 + b4);
    crate::strutil::seq_assoc(p2 + l3, nl, b4);
    crate::strutil::seq_assoc(p2, l3, nl + b4);
    crate::strutil::seq_assoc(l3, nl, b4);
    assert(p3 + b4 == p2 + b3);
    crate::strutil::seq_assoc(p1 + l2, nl, b3);
    crate::strutil::seq_assoc(p1, l2, nl + b3);
    crate::strutil::seq_assoc(l2, nl, b3);
    assert(p2 + b3 == p1 + b2);
    crate::strutil::seq_assoc(p0 + l1, nl, b2);
    crate::strutil::seq_assoc(p0, l1, nl + b2);
    crate::strutil::seq_assoc(l1, nl, b2);
    assert(p1 + b2 == p0 + b1);
    assert(p0 + b1 == b0);
}

/// `seen` with the keys from position `i` of the canonical order on marked.
pub open spec fn fill_keys(seen: KeyFlags, i: nat) -> KeyFlags
    decreases 8 - i,
{
    if i >= 8 {
        seen
    } else {
        fill_keys(with_key(seen, crate::keys::key_order()[i as int]), i + 1)
    }
}

/// Filling all eight keys leaves none missing.
proof fn lemma_fill_keys_all(seen: KeyFlags)
    ensures
        first_missing(fill_keys(seen, 0)) is None,
{
    reveal_with_fuel(fill_keys, 9);
    assert(fill_keys(seen, 0).tx_id);
}

/// Reading the serialized lines from position `i` on sets the named fields
/// and marks the named keys, then goes on with the rest of the input.
#[verifier::spinoff_prover]
#[verifier::rlimit(50)]
proof fn lemma_txt_block_steps(r: RecordV, i: nat, acc: RecordV, seen: KeyFlags, tail: Seq<u8>)
    requires
        crate::record::desc_has_no_newline(r),
        i <= 8,
    ensures
        parse_txt_record_from(encode_utf8(txt_block_from(r, i)) + tail, acc, seen)
            == parse_txt_record_from(tail, crate::record::fill_fields(acc, r, i), fill_keys(seen, i)),
    decreases 8 - i,
{
    if i >= 8 {
        assert(encode_utf8(Seq::<char>::empty()) =~= Seq::<u8>::empty());
        assert(Seq::<u8>::empty() + tail =~= tail);
    } else {
        let k = crate::keys::key_order()[i as int];
        let l = txt_line_chars(r, k);
        let c = txt_block_from(r, i + 1);
        lemma_encode_line_nl(l, c, tail);
        lemma_txt_line_step(r, k, acc, seen, encode_utf8(c) + tail);
        lemma_txt_block_steps(
            r,
            i + 1,
            crate::record::set_field(acc, k, r),
            with_key(seen, k),
            tail,
        );
    }
}

/// The lines of a record's block from position `i` of the canonical order
/// on, leaving out the line for the key `k`.
pub open spec fn txt_block_without(r: RecordV, k: RecordKey, i: nat) -> Seq<char>
    decreases 8 - i,
{
    if i >= 8 {
        Seq::<char>::empty()
    } else if crate::keys::key_order()[i as int] == k {
        txt_block_without(r, k, i + 1)
    } else {
        txt_line_chars(r, crate::keys::key_order()[i as int]) + "\n"@ + txt_block_without(
            r,
            k,
            i + 1,
        )
    }
}

/// `seen` with every key from position `i` of the canonical order on marked,
/// except `k`.
pub open spec fn fill_keys_without(seen: KeyFlags, k: RecordKey, i: nat) -> KeyFlags
    decreases 8 - i,
{
    if i >= 8 {
        seen
    } else if crate::keys::key_order()[i as int] == k {
        fill_keys_without(seen, k, i + 1)
    } else {
        fill_keys_without(with_key(seen, crate::keys::key_order()[i as int]), k, i + 1)
    }
}

/// `acc` with every field from position `i` on set from `r`, except `k`.
pub open spec fn fill_fields_without(acc: RecordV, r: RecordV, k: RecordKey, i: nat) -> RecordV
    decreases 8 - i,
{
    if i >= 8 {
        acc
    } else if crate::keys::key_order()[i as int] == k {
        fill_fields_without(acc, r, k, i + 1)
    } else {
        fill_fields_without(
            crate::record::set_field(acc, crate::keys::key_order()[i as int], r),
            r,
            k,
            i + 1,
        )
    }
}

/// Reading the serialized lines from position `i` on with the line for `k`
/// left out sets the other fields and marks the other keys.
#[verifier::spinoff_prover]
#[verifier::rlimit(50)]
proof fn lemma_txt_block_without_steps(
    r: RecordV,
    k: RecordKey,
    i: nat,
    acc: RecordV,
    seen: KeyFlags,
    tail: Seq<u8>,
)
    requires
        crate::record::desc_has_no_newline(r),
        i <= 8,
    ensures
        parse_txt_record_from(encode_utf8(txt_block_without(r, k, i)) + tail, acc, seen)
            == parse_txt_record_from(
            tail,
            fill_fields_without(acc, r, k, i),
            fill_keys_without(seen, k, i),
        ),
    decreases 8 - i,
{
    if i >= 8 {
        assert(encode_utf8(Seq::<char>::empty()) =~= Seq::<u8>::empty());
        assert(Seq::<u8>::empty() + tail =~= tail);
    } else if crate::keys::key_order()[i as int] == k {
        lemma_txt_block_without_steps(r, k, i + 1, acc, seen, tail);
    } else {
        let kk = crate::keys::key_order()[i as int];
        let l = txt_line_chars(r, kk);
        let c = txt_block_without(r, k, i + 1);
        lemma_encode_line_nl(l, c, tail);
        lemma_txt_line_step(r, kk, acc, seen, encode_utf8(c) + tail);
        lemma_txt_block_without_steps(
            r,
            k,
            i + 1,
            crate::record::set_field(acc, kk, r),
            with_key(seen, kk),
            tail,
        );
    }
}

/// A record block missing exactly the line for `k` fails with `MissingKey`
/// naming `k`.
#[verifier::spinoff_prover]
#[verifier::rlimit(50)]
pub proof fn lemma_txt_missing_key(r: RecordV, k: RecordKey)
    requires
        crate::record::desc_has_no_newline(r),
    ensures
        parse_txt_record_from(
            encode_utf8(txt_block_without(r, k, 0)),
            default_record(),
            no_keys(),
        ) == Err::<(RecordV, Seq<u8>), crate::errors::TxtErrV>(
            crate::errors::TxtErrV::MissingKey(key_name(k)),
        ),
{
    let bytes = encode_utf8(txt_block_without(r, k, 0));
    assert(bytes + Seq::<u8>::empty() =~= bytes);
    lemma_txt_block_without_steps(r, k, 0, default_record(), no_keys(), Seq::<u8>::empty());
    lemma_fill_keys_without_missing(k);
}

/// Marking every key but `k` leaves exactly `k` as the first missing key.
proof fn lemma_fill_keys_without_missing(k: RecordKey)
    ensures
        first_missing(fill_keys_without(no_keys(), k, 0)) == Some(k),
{
    match k {
        RecordKey::TxId => {
            let f0 = no_keys();
            let f1 = with_key(f0, RecordKey::TxType);
            let f2 = with_key(f1, RecordKey::FromUserId);
            let f3 = with_key(f2, RecordKey::ToUserId);
            let f4 = with_key(f3, RecordKey::Amount);
            let f5 = with_key(f4, RecordKey::Timestamp);
            let f6 = with_key(f5, RecordKey::Status);
            let f7 = with_key(f6, RecordKey::Description);
            assert(fill_keys_without(f0, k, 0) == fill_keys_without(f0, k, 1));
            assert(fill_keys_without(f0, k, 1) == fill_keys_without(f1, k, 2));
            assert(fill_keys_without(f1, k, 2) == fill_keys_without(f2, k, 3));
            assert(fill_keys_without(f2, k, 3) == fill_keys_without(f3, k, 4));
            assert(fill_keys_without(f3, k, 4) == fill_keys_without(f4, k, 5));
            assert(fill_keys_without(f4, k, 5) == fill_keys_without(f5, k, 6));
            assert(fill_keys_without(f5, k, 6) == fill_keys_without(f6, k, 7));
            assert(fill_keys_without(f6, k, 7) == fill_keys_without(f7, k, 8));
            assert(fill_keys_without(f7, k, 8) == f7);
            assert(first_missing(f7) == Some(RecordKey::TxId));
        },
        RecordKey::TxType => {
            let f0 = no_keys();
            let f1 = with_key(f0, RecordKey::TxId);
            let f2 = with_key(f1, RecordKey::FromUserId);
            let f3 = with_key(f2, RecordKey::ToUserId);
            let f4 = with_key(f3, RecordKey::Amount);
            let f5 = with_key(f4, RecordKey::Timestamp);
            let f6 = with_key(f5, RecordKey::Status);
            let f7 = with_key(f6, RecordKey::Description);
            assert(fill_keys_without(f0, k, 0) == fill_keys_without(f1, k, 1));
            assert(fill_keys_without(f1, k, 1) == fill_keys_without(f1, k, 2));
            assert(fill_keys_without(f1, k, 2) == fill_keys_without(f2, k, 3));
            assert(fill_keys_without(f2, k, 3) == fill_keys_without(f3, k, 4));
            assert(fill_keys_without(f3, k, 4) == fill_keys_without(f4, k, 5));
            assert(fill_keys_without(f4, k, 5) == fill_keys_without(f5, k, 6));
            assert(fill_keys_without(f5, k, 6) == fill_keys_without(f6, k, 7));
            assert(fill_keys_without(f6, k, 7) == fill_keys_without(f7, k, 8));
            assert(fill_keys_without(f7, k, 8) == f7);
            assert(first_missing(f7) == Some(RecordKey::TxType));
        },
        RecordKey::FromUserId => {
            let f0 = no_keys();
            let f1 = with_key(f0, RecordKey::TxId);
            let f2 = with_key(f1, RecordKey::TxType);
            let f3 = with_key(f2, RecordKey::ToUserId);
            let f4 = with_key(f3, RecordKey::Amount);
            let f5 = with_key(f4, RecordKey::Timestamp);
            let f6 = with_key(f5, RecordKey::Status);
            let f7 = with_key(f6, RecordKey::Description);
            assert(fill_keys_without(f0, k, 0) == fill_keys_without(f1, k, 1));
            assert(fill_keys_without(f1, k, 1) == fill_keys_without(f2, k, 2));
            assert(fill_keys_without(f2, k, 2) == fill_keys_without(f2, k, 3));
            assert(fill_keys_without(f2, k, 3) == fill_keys_without(f3, k, 4));
            assert(fill_keys_without(f3, k, 4) == fill_keys_without(f4, k, 5));
            assert(fill_keys_without(f4, k, 5) == fill_keys_without(f5, k, 6));
            assert(fill_keys_without(f5, k, 6) == fill_keys_without(f6, k, 7));
            assert(fill_keys_without(f6, k, 7) == fill_keys_without(f7, k, 8));
            assert(fill_keys_without(f7, k, 8) == f7);
            assert(first_missing(f7) == Some(RecordKey::FromUserId));
        },
        RecordKey::ToUserId => {
            let f0 = no_keys();
            let f1 = with_key(f0, RecordKey::TxId);
            let f2 = with_key(f1, RecordKey::TxType);
            let f3 = with_key(f2, RecordKey::FromUserId);
            let f4 = with_key(f3, RecordKey::Amount);
            let f5 = with_key(f4, RecordKey::Timestamp);
            let f6 = with_key(f5, RecordKey::Status);
            let f7 = with_key(f6, RecordKey::Description);
            assert(fill_keys_without(f0, k, 0) == fill_keys_without(f1, k, 1));
            assert(fill_keys_without(f1, k, 1) == fill_keys_without(f2, k, 2));
            assert(fill_keys_without(f2, k, 2) == fill_keys_without(f3, k, 3));
            assert(fill_keys_without(f3, k, 3) == fill_keys_without(f3, k, 4));
            assert(fill_keys_without(f3, k, 4) == fill_keys_without(f4, k, 5));
            assert(fill_keys_without(f4, k, 5) == fill_keys_without(f5, k, 6));
            assert(fill_keys_without(f5, k, 6) == fill_keys_without(f6, k, 7));
            assert(fill_keys_without(f6, k, 7) == fill_keys_without(f7, k, 8));
            assert(fill_keys_without(f7, k, 8) == f7);
            assert(first_missing(f7) == Some(RecordKey::ToUserId));
        },
        RecordKey::Amount => {
            let f0 = no_keys();
            let f1 = with_key(f0, RecordKey::TxId);
            let f2 = with_key(f1, RecordKey::TxType);
            let f3 = with_key(f2, RecordKey::FromUserId);
            let f4 = with_key(f3, RecordKey::ToUserId);
            let f5 = with_key(f4, RecordKey::Timestamp);
            let f6 = with_key(f5, RecordKey::Status);
            let f7 = with_key(f6, RecordKey::Description);
            assert(fill_keys_without(f0, k, 0) == fill_keys_without(f1, k, 1));
            assert(fill_keys_without(f1, k, 1) == fill_keys_without(f2, k, 2));
            assert(fill_keys_without(f2, k, 2) == fill_keys_without(f3, k, 3));
            assert(fill_keys_without(f3, k, 3) == fill_keys_without(f4, k, 4));
            assert(fill_keys_without(f4, k, 4) == fill_keys_without(f4, k, 5));
            assert(fill_keys_without(f4, k, 5) == fill_keys_without(f5, k, 6));
            assert(fill_keys_without(f5, k, 6) == fill_keys_without(f6, k, 7));
            assert(fill_keys_without(f6, k, 7) == fill_keys_without(f7, k, 8));
            assert(fill_keys_without(f7, k, 8) == f7);
            assert(first_missing(f7) == Some(RecordKey::Amount));
        },
        RecordKey::Timestamp => {
            let f0 = no_keys();
            let f1 = with_key(f0, RecordKey::TxId);
            let f2 = with_key(f1, RecordKey::TxType);
            let f3 = with_key(f2, RecordKey::FromUserId);
            let f4 = with_key(f3, RecordKey::ToUserId);
            let f5 = with_key(f4, RecordKey::Amount);
            let f6 = with_key(f5, RecordKey::Status);
            let f7 = with_key(f6, RecordKey::Description);
            assert(fill_keys_without(f0, k, 0) == fill_keys_without(f1, k, 1));
            assert(fill_keys_without(f1, k, 1) == fill_keys_without(f2, k, 2));
            assert(fill_keys_without(f2, k, 2) == fill_keys_without(f3, k, 3));
            assert(fill_keys_without(f3, k, 3) == fill_keys_without(f4, k, 4));
            assert(fill_keys_without(f4, k, 4) == fill_keys_without(f5, k, 5));
            assert(fill_keys_without(f5, k, 5) == fill_keys_without(f5, k, 6));
            assert(fill_keys_without(f5, k, 6) == fill_keys_without(f6, k, 7));
            assert(fill_keys_without(f6, k, 7) == fill_keys_without(f7, k, 8));
            assert(fill_keys_without(f7, k, 8) == f7);
            assert(first_missing(f7) == Some(RecordKey::Timestamp));
        },
        RecordKey::Status => {
            let f0 = no_keys();
            let f1 = with_key(f0, RecordKey::TxId);
            let f2 = with_key(f1, RecordKey::TxType);
            let f3 = with_key(f2, RecordKey::FromUserId);
            let f4 = with_key(f3, RecordKey::ToUserId);
            let f5 = with_key(f4, RecordKey::Amount);
            let f6 = with_key(f5, RecordKey::Timestamp);
            let f7 = with_key(f6, RecordKey::Description);
            assert(fill_keys_without(f0, k, 0) == fill_keys_without(f1, k, 1));
            assert(fill_keys_without(f1, k, 1) == fill_keys_without(f2, k, 2));
            assert(fill_keys_without(f2, k, 2) == fill_keys_without(f3, k, 3));
            assert(fill_keys_without(f3, k, 3) == fill_keys_without(f4, k, 4));
            assert(fill_keys_without(f4, k, 4) == fill_keys_without(f5, k, 5));
            assert(fill_keys_without(f5, k, 5) == fill_keys_without(f6, k, 6));
            assert(fill_keys_without(f6, k, 6) == fill_keys_without(f6, k, 7));
            assert(fill_keys_without(f6, k, 7) == fill_keys_without(f7, k, 8));
            assert(fill_keys_without(f7, k, 8) == f7);
            assert(first_missing(f7) == Some(RecordKey::Status));
        },
        RecordKey::Description => {
            let f0 = no_keys();
            let f1 = with_key(f0, RecordKey::TxId);
            let f2 = with_key(f1, RecordKey::TxType);
            let f3 = with_key(f2, RecordKey::FromUserId);
            let f4 = with_key(f3, RecordKey::ToUserId);
            let f5 = with_key(f4, RecordKey::Amount);
            let f6 = with_key(f5, RecordKey::Timestamp);
            let f7 = with_key(f6, RecordKey::Status);
            assert(fill_keys_without(f0, k, 0) == fill_keys_without(f1, k, 1));
            assert(fill_keys_without(f1, k, 1) == fill_keys_without(f2, k, 2));
            assert(fill_keys_without(f2, k, 2) == fill_keys_without(f3, k, 3));
            assert(fill_keys_without(f3, k, 3) == fill_keys_without(f4, k, 4));
            assert(fill_keys_without(f4, k, 4) == fill_keys_without(f5, k, 5));
            assert(fill_keys_without(f5, k, 5) == fill_keys_without(f6, k, 6));
            assert(fill_keys_without(f6, k, 6) == fill_keys_without(f7, k, 7));
            assert(fill_keys_without(f7, k, 7) == fill_keys_without(f7, k, 8));
            assert(fill_keys_without(f7, k, 8) == f7);
            assert(first_missing(f7) == Some(RecordKey::Description));
        },
    }
}

/// A line whose key text names no canonical key fails the record with
/// `InvalidKey` carrying that text.
#[verifier::spinoff_prover]
#[verifier::rlimit(50)]
pub proof fn lemma_txt_invalid_key(kc: Seq<char>, vc: Seq<char>, acc: RecordV, seen: KeyFlags)
    requires
        kc.len() > 0,
        kc[0] != '#',
        forall|i: int| 0 <= i < kc.len() ==> kc[i] != ' ' && #[trigger] kc[i] != '\n' && kc[i]
            != ':',
        forall|i: int| 0 <= i < vc.len() ==> #[trigger] vc[i] != '\n',
        key_from_chars(kc) is None,
    ensures
        parse_txt_record_from(encode_utf8(kc + ": "@ + vc), acc, seen) == Err::<
            (RecordV, Seq<u8>),
            crate::errors::TxtErrV,
        >(crate::errors::TxtErrV::InvalidKey(kc)),
{
    broadcast use vstd::utf8::group_utf8_lib;

    let line = kc + ": "@ + vc;
    let el = encode_utf8(line);
    reveal_strlit(": ");
    assert(": "@[0] == ':' && ": "@[1] == ' ');
    let kl = kc.len() as int;
    assert forall|i: int| 0 <= i < line.len() implies line[i] != '\n' by {
        if i < kl {
            assert(line[i] == kc[i]);
        } else if i < kl + 2 {
            assert(line[i] == ": "@[i - kl]);
        } else {
            assert(line[i] == vc[i - kl - 2]);
        }
    }
    assert(('\n' as u32) < 0x80);
    crate::strutil::lemma_encode_avoids_ascii_byte(line, '\n');
    assert(('\n' as u8) == 0x0au8);
    assert forall|j: int| 0 <= j < el.len() implies el[j] != 0x0a by {
        assert(el[j] != '\n' as u8);
    }
    crate::strutil::lemma_find_index_none(el, 0x0au8);
    assert(split_line(el) == (el, Seq::<u8>::empty(), false));
    assert(el.len() > 0) by {
        if el.len() == 0 {
            assert(decode_utf8(el) =~= Seq::<char>::empty());
        }
    }
    assert(line[0] == kc[0]);
    let a = kc + seq![':'];
    let b = seq![' '] + vc;
    assert(line =~= a + b);
    assert forall|j: int| 0 <= j < a.len() implies a[j] != ' ' by {
        if j < kl {
            assert(a[j] == kc[j]);
        } else {
            assert(a[j] == ':');
        }
    }
    assert(b[0] == ' ');
    crate::strutil::lemma_find_index_concat(a, b, ' ');
    assert(find_index(line, ' ') == Some(kl + 1));
    let keypart = line.subrange(0, kl + 1);
    assert(keypart =~= a);
    assert(keypart.last() == ':');
    assert(keypart.drop_last() =~= kc);
}

/// Reading a record's serialized block gives the record back; a blank line
/// (or the end of the input) ends the block.
#[verifier::spinoff_prover]
#[verifier::rlimit(50)]
pub proof fn lemma_txt_record_roundtrip(r: RecordV, tail: Seq<u8>)
    requires
        crate::record::desc_has_no_newline(r),
        tail.len() == 0 || tail[0] == 0x0a,
    ensures
        parse_txt_record_from(
            encode_utf8(record_text_chars(r)) + tail,
            default_record(),
            no_keys(),
        ) == Ok::<(RecordV, Seq<u8>), crate::errors::TxtErrV>(
            (
                r,
                if tail.len() == 0 {
                    tail
                } else {
                    tail.skip(1)
                },
            ),
        ),
{
    lemma_record_text_is_block(r);
    lemma_txt_block_steps(r, 0, default_record(), no_keys(), tail);
    crate::record::lemma_fill_fields_all(default_record(), r);
    lemma_fill_keys_all(no_keys());
    let a8 = crate::record::fill_fields(default_record(), r, 0);
    let s8 = fill_keys(no_keys(), 0);
    if tail.len() == 0 {
        assert(parse_txt_record_from(tail, a8, s8) == finish_txt_record(a8, s8, tail));
    } else {
        assert(tail =~= Seq::<u8>::empty() + seq![0x0au8] + tail.skip(1));
        lemma_split_line_concat(Seq::<u8>::empty(), tail.skip(1));
        assert(parse_txt_record_from(tail, a8, s8) == finish_txt_record(a8, s8, tail.skip(1)));
    }
}

/// Reading the serialized text of a record set appends those records.
#[verifier::spinoff_prover]
#[verifier::rlimit(50)]
proof fn lemma_txt_bank_roundtrip_from(rs: Seq<RecordV>, acc: Seq<RecordV>)
    requires
        forall|i: int|
            0 <= i < rs.len() ==> crate::record::desc_has_no_newline(#[trigger] rs[i]),
    ensures
        parse_txt_bank_from(encode_utf8(bank_text_chars(rs)), acc) == Ok::<
            Seq<RecordV>,
            crate::errors::TxtErrV,
        >(acc + rs),
    decreases rs.len(),
{
    broadcast use vstd::utf8::group_utf8_lib;

    if rs.len() == 0 {
        assert(bank_text_chars(rs) =~= Seq::<char>::empty());
        assert(encode_utf8(Seq::<char>::empty()) =~= Seq::<u8>::empty());
        assert(acc + rs =~= acc);
    } else {
        let block = record_text_chars(rs[0]);
        let eb = encode_utf8(block);
        assert(eb.len() > 0) by {
            crate::keys::reveal_key_names();
            assert(block.len() > 0);
            if eb.len() == 0 {
                assert(decode_utf8(eb) =~= Seq::<char>::empty());
                assert(decode_utf8(eb) == block);
            }
        }
        if rs.len() == 1 {
            let bytes = encode_utf8(bank_text_chars(rs));
            assert(bank_text_chars(rs) == block);
            lemma_txt_record_roundtrip(rs[0], Seq::<u8>::empty());
            assert(eb + Seq::<u8>::empty() =~= eb);
            assert(parse_txt_record_from(eb, default_record(), no_keys()) == Ok::<
                (RecordV, Seq<u8>),
                crate::errors::TxtErrV,
            >((rs[0], Seq::<u8>::empty())));
            assert(parse_txt_bank_from(bytes, acc) == parse_txt_bank_from(
                Seq::<u8>::empty(),
                acc.push(rs[0]),
            ));
            assert(acc.push(rs[0]) =~= acc + rs);
        } else {
            let rest = rs.drop_first();
            let tail = seq![0x0au8] + encode_utf8(bank_text_chars(rest));
            let bytes = encode_utf8(bank_text_chars(rs));
            assert(bank_text_chars(rs) == block + "\n"@ + bank_text_chars(rest));
            crate::strutil::lemma_encode_utf8_concat(block + "\n"@, bank_text_chars(rest));
            crate::strutil::lemma_encode_utf8_concat(block, "\n"@);
            lemma_encode_newline();
            assert(bank_text_chars(rs) =~= (block + "\n"@) + bank_text_chars(rest));
            assert(bytes =~= eb + tail);
            lemma_txt_record_roundtrip(rs[0], tail);
            assert(tail.skip(1) =~= encode_utf8(bank_text_chars(rest)));
            assert(parse_txt_bank_from(bytes, acc) == parse_txt_bank_from(
                encode_utf8(bank_text_chars(rest)),
                acc.push(rs[0]),
            ));
            lemma_txt_bank_roundtrip_from(rest, acc.push(rs[0]));
            assert(acc.push(rs[0]) + rest =~= acc + rs);
        }
    }
}

/// Round trip of the text format: writing any record set whose descriptions
/// hold no newline, then reading the bytes back, returns the same records.
pub proof fn lemma_text_round_trip(rs: Seq<RecordV>)
    requires
        forall|i: int|
            0 <= i < rs.len() ==> crate::record::desc_has_no_newline(#[trigger] rs[i]),
    ensures
        spec_read_text(encode_utf8(bank_text_chars(rs))) == Ok::<
            Seq<RecordV>,
            crate::errors::TxtErrV,
        >(rs),
{
    lemma_txt_bank_roundtrip_from(rs, Seq::<RecordV>::empty());
    assert(Seq::<RecordV>::empty() + rs =~= rs);
}

/// An empty record set serializes to empty text and reads back as empty.
pub proof fn lemma_text_empty()
    ensures
        bank_text_chars(Seq::<RecordV>::empty()) == Seq::<char>::empty(),
        encode_utf8(Seq::<char>::empty()) == Seq::<u8>::empty(),
        spec_read_text(Seq::<u8>::empty()) == Ok::<Seq<RecordV>, crate::errors::TxtErrV>(
            Seq::<RecordV>::empty(),
        ),
{
    assert(encode_utf8(Seq::<char>::empty()) =~= Seq::<u8>::empty());
}

/// A record set held in text form.
#[derive(Debug)]
pub struct YPBankText {
    /// The records, in input order.
    pub records: Vec<Record>,
}

impl YPBankText {
    /// Read a record set from the bytes of the text format.
    pub fn read_from(input: &[u8]) -> (r: Result<YPBankText, crate::errors::ReadError>)
        ensures
            match spec_read_text(input@) {
                Ok(rs) => r matches Ok(b) && b.records.deep_view() == rs,
                Err(e) => r matches Err(err) && err@ == crate::errors::ReadErrV::FromText(e),
            },
    {
        match read_text_records(input) {
            Ok(records) => Ok(YPBankText { records }),
            Err(e) => Err(crate::errors::ReadError::FromText(e)),
        }
    }

    /// Write the record set in the text format.
    pub fn write_to(&self) -> (r: Result<Vec<u8>, crate::errors::WriteError>)
        ensures
            r matches Ok(out) && out@ == encode_utf8(bank_text_chars(self.records.deep_view())),
    {
        Ok(write_text_records(&self.records))
    }
}

} // verus!
