//! The binary frame format: a magic prefix, a declared record size, the
//! fixed-width fields big-endian, and a length-prefixed quoted description.

use vstd::prelude::*;
use vstd::slice::slice_subrange;
use vstd::slice::slice_to_vec;
use vstd::string::StrSliceExecFns;
use vstd::utf8::valid_utf8;
use vstd::utf8::decode_utf8;
use vstd::utf8::encode_utf8;
use crate::errors::BinErrV;
use crate::errors::ParseRecordFromBinError;
use crate::errors::ParseValueError;
use crate::errors::ReadError;
use crate::errors::ReadErrV;
use crate::errors::ValueErrV;
use crate::errors::WriteError;
use crate::errors::spec_status_err_message;
use crate::errors::spec_tx_type_err_message;
use crate::keys::RecordKey;
use crate::num::be32_bytes;
use crate::num::be64_bytes;
use crate::num::dec_chars;
use crate::num::u32_of_be;
use crate::num::u64_of_be;
use crate::num::push_be32;
use crate::num::push_be64;
use crate::num::read_u32_be;
use crate::num::read_u64_be;
use crate::record::Record;
use crate::record::RecordV;
use crate::record::apply_field;
use crate::status::Status;
use crate::status::status_code;
use crate::status::status_from_code;
use crate::strutil::bytes_to_string;
use crate::strutil::lossy_chars;
use crate::strutil::lossy_string;
use crate::strutil::utf8_error_chars;
use crate::strutil::utf8_error_string;
use crate::tx_type::TxType;
use crate::tx_type::tx_type_code;
use crate::tx_type::tx_type_from_code;

verus! {

/// The four magic bytes opening every frame.
pub open spec fn magic_bytes() -> Seq<u8> {
    seq![0x59u8, 0x50u8, 0x42u8, 0x4eu8]
}

/// The smallest value the record-size field may carry: the total width of
/// the fixed fields that follow it.
pub const MIN_RECORD_SIZE: u32 = 46;

/// The binary-format error standing for truncated input.
pub open spec fn fill_failure_bin() -> BinErrV {
    BinErrV::UnexpectedError("failed to fill whole buffer"@)
}

/// One frame, read from the head of `bytes`: the magic must match, the
/// record size must reach the fixed minimum (it is not otherwise checked),
/// the byte codes must name a kind and a status, and the description bytes
/// must decode as quoted text.
pub open spec fn parse_bin_record_from(bytes: Seq<u8>) -> Result<(RecordV, Seq<u8>), BinErrV> {
    if bytes.len() < 4 {
        Err(fill_failure_bin())
    } else if bytes.subrange(0, 4) != magic_bytes() {
        Err(BinErrV::InvalidMagicNumber)
    } else if bytes.len() < 8 {
        Err(fill_failure_bin())
    } else {
        let rsize = u32_of_be(bytes.subrange(4, 8));
        if rsize < MIN_RECORD_SIZE {
            Err(BinErrV::InvalidRecordSize(rsize))
        } else if bytes.len() < 17 {
            Err(fill_failure_bin())
        } else {
            let ttb = bytes[16];
            match crate::tx_type::tx_type_from_code(ttb) {
                None => Err(
                    BinErrV::InvalidValue(
                        ValueErrV {
                            value: dec_chars(ttb as nat),
                            description: spec_tx_type_err_message(dec_chars(ttb as nat)),
                        },
                    ),
                ),
                Some(tt) => {
                    if bytes.len() < 50 {
                        Err(fill_failure_bin())
                    } else {
                        let stb = bytes[49];
                        match status_from_code(stb) {
                            None => Err(
                                BinErrV::InvalidValue(
                                    ValueErrV {
                                        value: dec_chars(stb as nat),
                                        description: spec_status_err_message(dec_chars(stb as nat)),
                                    },
                                ),
                            ),
                            Some(st) => {
                                if bytes.len() < 54 {
                                    Err(fill_failure_bin())
                                } else {
                                    let base = RecordV {
                                        tx_id: u64_of_be(bytes.subrange(8, 16)),
                                        tx_type: tt,
                                        from_user_id: u64_of_be(bytes.subrange(17, 25)),
                                        to_user_id: u64_of_be(bytes.subrange(25, 33)),
                                        amount: u64_of_be(bytes.subrange(33, 41)),
                                        timestamp: u64_of_be(bytes.subrange(41, 49)),
                                        status: st,
                                        description: Seq::<char>::empty(),
                                    };
                                    let dl = u32_of_be(bytes.subrange(50, 54)) as int;
                                    if dl == 0 {
                                        Ok((base, bytes.skip(54)))
                                    } else if bytes.len() < 54 + dl {
                                        Err(fill_failure_bin())
                                    } else {
                                        let buf = bytes.subrange(54, 54 + dl);
                                        if !valid_utf8(buf) {
                                            Err(
                                                BinErrV::InvalidValue(
                                                    ValueErrV {
                                                        value: lossy_chars(buf),
                                                        description: utf8_error_chars(buf),
                                                    },
                                                ),
                                            )
                                        } else {
                                            match apply_field(
                                                base,
                                                RecordKey::Description,
                                                decode_utf8(buf),
                                            ) {
                                                Ok(r) => Ok((r, bytes.skip(54 + dl))),
                                                Err(e) => Err(BinErrV::InvalidValue(e)),
                                            }
                                        }
                                    }
                                }
                            },
                        }
                    }
                },
            }
        }
    }
}

/// A frame parse leaves strictly less input behind than it was given.
pub proof fn lemma_parse_bin_record_consumes(bytes: Seq<u8>)
    ensures
        parse_bin_record_from(bytes) matches Ok((r, rest)) ==> rest.len() < bytes.len(),
{
}

/// The frames of the binary form, read until the input is exhausted.
pub open spec fn parse_bin_bank_from(bytes: Seq<u8>, acc: Seq<RecordV>) -> Result<
    Seq<RecordV>,
    BinErrV,
>
    decreases bytes.len(),
    via parse_bin_bank_from_dec
{
    if bytes.len() == 0 {
        Ok(acc)
    } else {
        match parse_bin_record_from(bytes) {
            Err(e) => Err(e),
            Ok((r, rest)) => parse_bin_bank_from(rest, acc.push(r)),
        }
    }
}

#[via_fn]
proof fn parse_bin_bank_from_dec(bytes: Seq<u8>, acc: Seq<RecordV>) {
    lemma_parse_bin_record_consumes(bytes);
}

/// What reading the binary format returns for any input.
pub open spec fn spec_read_bin(bytes: Seq<u8>) -> Result<Seq<RecordV>, BinErrV> {
    parse_bin_bank_from(bytes, Seq::<RecordV>::empty())
}

/// One frame as written: magic, record size, the fixed fields, and the
/// quoted description with its length prefix.
pub open spec fn record_bin_bytes(r: RecordV) -> Seq<u8> {
    let desc = encode_utf8(r.description);
    magic_bytes() + be32_bytes((48 + desc.len()) as u32) + be64_bytes(r.tx_id) + seq![
        tx_type_code(r.tx_type),
    ] + be64_bytes(r.from_user_id) + be64_bytes(r.to_user_id) + be64_bytes(r.amount) + be64_bytes(
        r.timestamp,
    ) + seq![status_code(r.status)] + be32_bytes((desc.len() + 2) as u32) + seq![0x22u8] + desc
        + seq![0x22u8]
}

/// The frames of a whole record set.
pub open spec fn bank_bin_bytes(rs: Seq<RecordV>) -> Seq<u8>
    decreases rs.len(),
{
    if rs.len() == 0 {
        Seq::<u8>::empty()
    } else {
        record_bin_bytes(rs[0]) + bank_bin_bytes(rs.drop_first())
    }
}

/// Appending one record appends its frame.
pub proof fn lemma_bank_bin_snoc(rs: Seq<RecordV>, r: RecordV)
    ensures
        bank_bin_bytes(rs.push(r)) =~= bank_bin_bytes(rs) + record_bin_bytes(r),
    decreases rs.len(),
{
    if rs.len() == 0 {
        assert(rs.push(r)[0] == r);
        assert(rs.push(r).drop_first() =~= Seq::<RecordV>::empty());
        assert(bank_bin_bytes(Seq::<RecordV>::empty()) == Seq::<u8>::empty());
        assert(bank_bin_bytes(rs.push(r)) =~= record_bin_bytes(r));
    } else {
        assert(rs.push(r).drop_first() =~= rs.drop_first().push(r));
        lemma_bank_bin_snoc(rs.drop_first(), r);
        assert(rs.push(r)[0] == rs[0]);
        assert(bank_bin_bytes(rs.push(r)) =~= record_bin_bytes(rs[0]) + bank_bin_bytes(
            rs.drop_first().push(r),
        ));
        assert(bank_bin_bytes(rs) =~= record_bin_bytes(rs[0]) + bank_bin_bytes(rs.drop_first()));
    }
}

/// True when a record's description is short enough for the binary format's
/// 32-bit length fields.
pub open spec fn bin_desc_fits(r: RecordV) -> bool {
    encode_utf8(r.description).len() + 48 <= u32::MAX
}

impl Record {
    /// The record's binary frame.
    pub fn to_bin(&self) -> (out: Vec<u8>)
        requires
            bin_desc_fits(self@),
        ensures
            out@ == record_bin_bytes(self@),
    {
        let mut out: Vec<u8> = Vec::new();
        out.push(0x59);
        out.push(0x50);
        out.push(0x42);
        out.push(0x4e);
        let bl = self.description.as_str().len();
        let desc_len: u32 = #[verifier::truncate] ((bl as u64 + 2) as u32);
        let record_size: u32 = MIN_RECORD_SIZE + desc_len;
        push_be32(&mut out, record_size);
        push_be64(&mut out, self.tx_id);
        out.push(self.tx_type.as_byte());
        push_be64(&mut out, self.from_user_id);
        push_be64(&mut out, self.to_user_id);
        push_be64(&mut out, self.amount);
        push_be64(&mut out, self.timestamp);
        out.push(self.status.as_byte());
        push_be32(&mut out, desc_len);
        out.push(0x22);
        let mut db = self.description.as_str().as_bytes_vec();
        out.append(&mut db);
        out.push(0x22);
        proof {
            assert(out@ =~= record_bin_bytes(self@));
        }
        out
    }

    /// Read one binary frame from `input`, starting at `pos`.  On success the
    /// new position past the frame is returned beside the record.
    #[verifier::rlimit(50)]
    pub fn from_bin(input: &[u8], pos: usize) -> (r: Result<
        (Record, usize),
        ParseRecordFromBinError,
    >)
        requires
            pos <= input@.len(),
        ensures
            match parse_bin_record_from(input@.skip(pos as int)) {
                Ok((rv, rest)) => r matches Ok((rec, np)) && rec@ == rv && pos <= np
                    <= input@.len() && input@.skip(np as int) == rest,
                Err(e) => r matches Err(err) && err@ == e,
            },
    {
        let ghost remaining = input@.skip(pos as int);
        let n = input.len();
        let avail = n - pos;
        if avail < 4 {
            return Err(fill_error());
        }
        if input[pos] != 0x59 || input[pos + 1] != 0x50 || input[pos + 2] != 0x42 || input[pos + 3]
            != 0x4e {
            proof {
                let m = remaining.subrange(0, 4);
                assert(m[0] == input@[pos as int]);
                assert(m[1] == input@[pos as int + 1]);
                assert(m[2] == input@[pos as int + 2]);
                assert(m[3] == input@[pos as int + 3]);
                assert(m != magic_bytes());
            }
            return Err(ParseRecordFromBinError::InvalidMagicNumber);
        }
        proof {
            assert(remaining.subrange(0, 4) =~= magic_bytes());
        }
        if avail < 8 {
            return Err(fill_error());
        }
        let rsize = read_u32_be(input, pos + 4);
        proof {
            assert(input@.subrange(pos as int + 4, pos as int + 8) =~= remaining.subrange(4, 8));
        }
        if rsize < MIN_RECORD_SIZE {
            return Err(ParseRecordFromBinError::InvalidRecordSize(rsize));
        }
        if avail < 17 {
            return Err(fill_error());
        }
        let tx_id = read_u64_be(input, pos + 8);
        proof {
            assert(input@.subrange(pos as int + 8, pos as int + 16) =~= remaining.subrange(8, 16));
        }
        let ttb = input[pos + 16];
        proof {
            assert(remaining[16] == input@[pos as int + 16]);
        }
        let tx_type = match TxType::try_from_u8(ttb) {
            Ok(t) => t,
            Err(e) => {
                return Err(ParseRecordFromBinError::InvalidValue(ParseValueError::from_tx_type(e)));
            },
        };
        if avail < 50 {
            return Err(fill_error());
        }
        let from_user_id = read_u64_be(input, pos + 17);
        let to_user_id = read_u64_be(input, pos + 25);
        let amount = read_u64_be(input, pos + 33);
        let timestamp = read_u64_be(input, pos + 41);
        let stb = input[pos + 49];
        proof {
            assert(input@.subrange(pos as int + 17, pos as int + 25) =~= remaining.subrange(
                17,
                25,
            ));
            assert(input@.subrange(pos as int + 25, pos as int + 33) =~= remaining.subrange(
                25,
                33,
            ));
            assert(input@.subrange(pos as int + 33, pos as int + 41) =~= remaining.subrange(
                33,
                41,
            ));
            assert(input@.subrange(pos as int + 41, pos as int + 49) =~= remaining.subrange(
                41,
                49,
            ));
            assert(remaining[49] == input@[pos as int + 49]);
        }
        let status = match Status::try_from_u8(stb) {
            Ok(s) => s,
            Err(e) => {
                return Err(ParseRecordFromBinError::InvalidValue(ParseValueError::from_status(e)));
            },
        };
        if avail < 54 {
            return Err(fill_error());
        }
        let dl = read_u32_be(input, pos + 50);
        proof {
            assert(input@.subrange(pos as int + 50, pos as int + 54) =~= remaining.subrange(
                50,
                54,
            ));
        }
        let mut rec = Record {
            tx_id,
            tx_type,
            from_user_id,
            to_user_id,
            amount,
            timestamp,
            status,
            description: String::new(),
        };
        if dl == 0 {
            proof {
                assert(input@.skip(pos as int + 54) =~= remaining.skip(54));
            }
            return Ok((rec, pos + 54));
        }
        if (avail as u64) < 54u64 + (dl as u64) {
            return Err(fill_error());
        }
        let dlu = dl as usize;
        let ghost buf = remaining.subrange(54, 54 + dl as int);
        let desc_slice = slice_subrange(input, pos + 54, pos + 54 + dlu);
        proof {
            assert(desc_slice@ =~= buf);
        }
        let desc_vec = slice_to_vec(desc_slice);
        match bytes_to_string(desc_vec) {
            None => {
                let value = lossy_string(desc_slice);
                let description = utf8_error_string(desc_slice);
                Err(
                    ParseRecordFromBinError::InvalidValue(
                        ParseValueError::InvalidValue { value, description },
                    ),
                )
            },
            Some(s) => {
                proof {
                    assert(s@ == decode_utf8(buf));
                }
                match rec.validate_and_set_description(s.as_str()) {
                    Ok(()) => {
                        proof {
                            assert(input@.skip(pos as int + 54 + dl as int) =~= remaining.skip(
                                54 + dl as int,
                            ));
                        }
                        Ok((rec, pos + 54 + dlu))
                    },
                    Err(e) => Err(ParseRecordFromBinError::InvalidValue(e)),
                }
            },
        }
    }
}

/// The truncated-input error.
fn fill_error() -> (r: ParseRecordFromBinError)
    ensures
        r@ == fill_failure_bin(),
{
    ParseRecordFromBinError::UnexpectedError(String::from_str("failed to fill whole buffer"))
}

/// Read a whole record set in the binary format.
pub fn read_bin_records(input: &[u8]) -> (r: Result<Vec<Record>, ParseRecordFromBinError>)
    ensures
        match spec_read_bin(input@) {
            Ok(rs) => r matches Ok(v) && v.deep_view() == rs,
            Err(e) => r matches Err(err) && err@ == e,
        },
{
    let mut recs: Vec<Record> = Vec::new();
    let mut p: usize = 0;
    proof {
        assert(recs.deep_view() =~= Seq::<RecordV>::empty());
        assert(input@.skip(0) =~= input@);
    }
    while p < input.len()
        invariant
            p <= input@.len(),
            spec_read_bin(input@) == parse_bin_bank_from(input@.skip(p as int), recs.deep_view()),
        decreases input@.len() - p,
    {
        match Record::from_bin(input, p) {
            Ok((rec, np)) => {
                let ghost old_recs = recs.deep_view();
                proof {
                    lemma_parse_bin_record_consumes(input@.skip(p as int));
                }
                recs.push(rec);
                proof {
                    assert(recs.deep_view() =~= old_recs.push(rec@));
                }
                p = np;
            },
            Err(e) => {
                return Err(e);
            },
        }
    }
    proof {
        assert(input@.skip(p as int).len() == 0);
    }
    Ok(recs)
}

/// Write a whole record set in the binary format.
pub fn write_bin_records(records: &Vec<Record>) -> (out: Vec<u8>)
    requires
        forall|i: int|
            0 <= i < records.deep_view().len() ==> bin_desc_fits(#[trigger] records.deep_view()[i]),
    ensures
        out@ == bank_bin_bytes(records.deep_view()),
{
    let mut out: Vec<u8> = Vec::new();
    let mut i: usize = 0;
    proof {
        assert(records.deep_view().take(0) =~= Seq::<RecordV>::empty());
    }
    while i < records.len()
        invariant
            i <= records@.len(),
            forall|j: int|
                0 <= j < records.deep_view().len() ==> bin_desc_fits(
                    #[trigger] records.deep_view()[j],
                ),
            out@ =~= bank_bin_bytes(records.deep_view().take(i as int)),
        decreases records@.len() - i,
    {
        proof {
            assert(records.deep_view()[i as int] == records@[i as int]@);
        }
        let mut frame = records[i].to_bin();
        out.append(&mut frame);
        proof {
            let rv = records.deep_view();
            assert(rv.take(i as int).push(records@[i as int]@) =~= rv.take(i + 1));
            lemma_bank_bin_snoc(rv.take(i as int), records@[i as int]@);
        }
        i += 1;
    }
    proof {
        assert(records.deep_view().take(records@.len() as int) =~= records.deep_view());
    }
    out
}

/// Reading a record's serialized frame gives the record back and leaves the
/// following bytes untouched.
#[verifier::rlimit(100)]
#[verifier::spinoff_prover]
pub proof fn lemma_bin_record_roundtrip(r: RecordV, tail: Seq<u8>)
    requires
        bin_desc_fits(r),
    ensures
        parse_bin_record_from(record_bin_bytes(r) + tail) == Ok::<(RecordV, Seq<u8>), BinErrV>(
            (r, tail),
        ),
{
    broadcast use vstd::utf8::group_utf8_lib;

    let desc = encode_utf8(r.description);
    let dlen = desc.len() as int;
    let frame = record_bin_bytes(r);
    let bytes = frame + tail;
    assert(frame.len() == 56 + dlen);
    assert(bytes.subrange(0, 4) =~= magic_bytes());
    assert(bytes.subrange(4, 8) =~= be32_bytes((48 + desc.len()) as u32));
    assert(bytes.subrange(8, 16) =~= be64_bytes(r.tx_id));
    assert(bytes[16] == tx_type_code(r.tx_type));
    assert(bytes.subrange(17, 25) =~= be64_bytes(r.from_user_id));
    assert(bytes.subrange(25, 33) =~= be64_bytes(r.to_user_id));
    assert(bytes.subrange(33, 41) =~= be64_bytes(r.amount));
    assert(bytes.subrange(41, 49) =~= be64_bytes(r.timestamp));
    assert(bytes[49] == status_code(r.status));
    assert(bytes.subrange(50, 54) =~= be32_bytes((desc.len() + 2) as u32));
    assert(bytes.subrange(54, 56 + dlen) =~= seq![0x22u8] + desc + seq![0x22u8]);
    assert(bytes.skip(56 + dlen) =~= tail);
    crate::num::lemma_be32_roundtrip((48 + desc.len()) as u32);
    crate::num::lemma_be32_roundtrip((desc.len() + 2) as u32);
    crate::num::lemma_be64_roundtrip(r.tx_id);
    crate::num::lemma_be64_roundtrip(r.from_user_id);
    crate::num::lemma_be64_roundtrip(r.to_user_id);
    crate::num::lemma_be64_roundtrip(r.amount);
    crate::num::lemma_be64_roundtrip(r.timestamp);
    assert(u32_of_be(bytes.subrange(4, 8)) == 48 + dlen);
    assert(tx_type_from_code(tx_type_code(r.tx_type)) == Some(r.tx_type));
    assert(status_from_code(status_code(r.status)) == Some(r.status));
    let dl = u32_of_be(bytes.subrange(50, 54)) as int;
    assert(dl == dlen + 2);
    let buf = bytes.subrange(54, 54 + dl);
    let quoted = seq!['"'] + r.description + seq!['"'];
    crate::strutil::lemma_encode_utf8_concat(seq!['"'] + r.description, seq!['"']);
    crate::strutil::lemma_encode_utf8_concat(seq!['"'], r.description);
    assert(encode_utf8(seq!['"']) =~= seq![0x22u8]) by {
        crate::strutil::lemma_ascii_encode(seq!['"']);
        assert(crate::strutil::ascii_of(seq!['"']) =~= seq![0x22u8]);
    }
    assert(encode_utf8(quoted) =~= seq![0x22u8] + desc + seq![0x22u8]) by {
        assert(quoted =~= (seq!['"'] + r.description) + seq!['"']);
    }
    assert(buf == encode_utf8(quoted));
    assert(valid_utf8(buf));
    assert(decode_utf8(buf) == quoted);
    assert(quoted.len() >= 2);
    assert(quoted[0] == '"');
    assert(quoted.last() == '"');
    assert(quoted.subrange(1, quoted.len() - 1) =~= r.description);
    let got = parse_bin_record_from(bytes);
    assert(got matches Ok((rv, rest)) && rv =~= r && rest =~= tail);
}

/// Reading the serialized frames of a record set appends those records.
#[verifier::spinoff_prover]
#[verifier::rlimit(50)]
proof fn lemma_bin_bank_roundtrip_from(rs: Seq<RecordV>, acc: Seq<RecordV>)
    requires
        forall|i: int| 0 <= i < rs.len() ==> bin_desc_fits(#[trigger] rs[i]),
    ensures
        parse_bin_bank_from(bank_bin_bytes(rs), acc) == Ok::<Seq<RecordV>, BinErrV>(acc + rs),
    decreases rs.len(),
{
    if rs.len() == 0 {
        assert(acc + rs =~= acc);
    } else {
        let rest = rs.drop_first();
        lemma_bin_record_roundtrip(rs[0], bank_bin_bytes(rest));
        assert(bank_bin_bytes(rs).len() > 0);
        lemma_bin_bank_roundtrip_from(rest, acc.push(rs[0]));
        assert(acc.push(rs[0]) + rest =~= acc + rs);
    }
}

/// Round trip of the binary format: writing any record set whose
/// descriptions fit the 32-bit length fields, then reading the bytes back,
/// returns the same records.
pub proof fn lemma_bin_round_trip(rs: Seq<RecordV>)
    requires
        forall|i: int| 0 <= i < rs.len() ==> bin_desc_fits(#[trigger] rs[i]),
    ensures
        spec_read_bin(bank_bin_bytes(rs)) == Ok::<Seq<RecordV>, BinErrV>(rs),
{
    lemma_bin_bank_roundtrip_from(rs, Seq::<RecordV>::empty());
    assert(Seq::<RecordV>::empty() + rs =~= rs);
}

/// An empty record set serializes to no bytes and reads back as empty.
pub proof fn lemma_bin_empty()
    ensures
        bank_bin_bytes(Seq::<RecordV>::empty()) == Seq::<u8>::empty(),
        spec_read_bin(Seq::<u8>::empty()) == Ok::<Seq<RecordV>, BinErrV>(Seq::<RecordV>::empty()),
{
}

/// Input whose first four bytes are not the magic always fails with
/// `InvalidMagicNumber`, whatever the remaining bytes hold.
pub proof fn lemma_bin_magic_checked_first(bytes: Seq<u8>)
    requires
        bytes.len() >= 4,
        bytes.subrange(0, 4) != magic_bytes(),
    ensures
        parse_bin_record_from(bytes) == Err::<(RecordV, Seq<u8>), BinErrV>(
            BinErrV::InvalidMagicNumber,
        ),
        spec_read_bin(bytes) == Err::<Seq<RecordV>, BinErrV>(BinErrV::InvalidMagicNumber),
{
}

/// A frame that declares a record size below the fixed minimum always fails
/// with `InvalidRecordSize` carrying that size.
pub proof fn lemma_bin_record_size_checked(bytes: Seq<u8>)
    requires
        bytes.len() >= 8,
        bytes.subrange(0, 4) == magic_bytes(),
        u32_of_be(bytes.subrange(4, 8)) < MIN_RECORD_SIZE,
    ensures
        parse_bin_record_from(bytes) == Err::<(RecordV, Seq<u8>), BinErrV>(
            BinErrV::InvalidRecordSize(u32_of_be(bytes.subrange(4, 8))),
        ),
{
}

/// A record set held in binary form.
#[derive(Debug)]
pub struct YPBankBin {
    /// The records, in input order.
    pub records: Vec<Record>,
}

impl YPBankBin {
    /// Read a record set from the bytes of the binary format.
    pub fn read_from(input: &[u8]) -> (r: Result<YPBankBin, ReadError>)
        ensures
            match spec_read_bin(input@) {
                Ok(rs) => r matches Ok(b) && b.records.deep_view() == rs,
                Err(e) => r matches Err(err) && err@ == ReadErrV::FromBin(e),
            },
    {
        match read_bin_records(input) {
            Ok(records) => Ok(YPBankBin { records }),
            Err(e) => Err(ReadError::FromBin(e)),
        }
    }

    /// Write the record set in the binary format.
    pub fn write_to(&self) -> (r: Result<Vec<u8>, WriteError>)
        requires
            forall|i: int|
                0 <= i < self.records.deep_view().len() ==> bin_desc_fits(
                    #[trigger] self.records.deep_view()[i],
                ),
        ensures
            r matches Ok(out) && out@ == bank_bin_bytes(self.records.deep_view()),
    {
        Ok(write_bin_records(&self.records))
    }
}

} // verus!
