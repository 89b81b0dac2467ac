use ypbank::YPBank;
use ypbank::compare::CompareOutcome;
use ypbank::compare::compare_records;
use ypbank::errors::ParseRecordFromBinError;
use ypbank::errors::ReadError;
use ypbank::errors::WriteError;
use ypbank::record::Record;
use ypbank::status::Status;
use ypbank::tx_type::TxType;

fn sample_records() -> Vec<Record> {
    vec![
        Record::new(
            1,
            TxType::Deposit,
            0,
            2,
            100,
            1623228800,
            Status::Success,
            "Terminal deposit".to_string(),
        ),
        Record::new(
            18446744073709551615,
            TxType::Withdrawal,
            3,
            0,
            0,
            0,
            Status::Pending,
            "commas, \"quotes\" and spaces: all kept".to_string(),
        ),
        Record::new(
            42,
            TxType::Transfer,
            7,
            8,
            9,
            10,
            Status::Failure,
            "".to_string(),
        ),
    ]
}

#[test]
fn round_trip_text() {
    let bank = YPBank {
        records: sample_records(),
    };
    let bytes = bank.write_to_text().unwrap();
    let back = YPBank::read_from_text(&bytes).unwrap();
    assert_eq!(back.records, bank.records);
}

#[test]
fn round_trip_csv() {
    let bank = YPBank {
        records: sample_records(),
    };
    let bytes = bank.write_to_csv().unwrap();
    let back = YPBank::read_from_csv(&bytes).unwrap();
    assert_eq!(back.records, bank.records);
}

#[test]
fn round_trip_bin() {
    let bank = YPBank {
        records: sample_records(),
    };
    let bytes = bank.write_to_bin().unwrap();
    let back = YPBank::read_from_bin(&bytes).unwrap();
    assert_eq!(back.records, bank.records);
}

#[test]
fn round_trip_bin_non_ascii_description() {
    let bank = YPBank {
        records: vec![Record::new(
            5,
            TxType::Deposit,
            0,
            6,
            7,
            8,
            Status::Success,
            "caf\u{e9} \u{2603} \u{1f600}".to_string(),
        )],
    };
    let bytes = bank.write_to_bin().unwrap();
    let back = YPBank::read_from_bin(&bytes).unwrap();
    assert_eq!(back.records, bank.records);
}

#[test]
fn empty_set_reads_back_empty() {
    let empty = YPBank { records: vec![] };
    assert_eq!(empty.write_to_text().unwrap(), b"".to_vec());
    assert_eq!(empty.write_to_bin().unwrap(), b"".to_vec());
    let header_only = empty.write_to_csv().unwrap();

    assert_eq!(YPBank::read_from_text(b"").unwrap().records.len(), 0);
    assert_eq!(YPBank::read_from_bin(b"").unwrap().records.len(), 0);
    assert_eq!(
        YPBank::read_from_csv(&header_only).unwrap().records.len(),
        0
    );
}

#[test]
fn csv_header_mismatch_reported_before_records() {
    // A bad header fails even though a perfectly valid record row follows.
    let data = "TX_ID,TX_TYPE,FROM_USER_ID,TO_USER_ID,TIMESTAMP,STATUS,DESCRIPTION\n1001,DEPOSIT,0,501,50000,1672531200000,SUCCESS,\"ok\"\n";
    let result = YPBank::read_from_csv(data.as_bytes()).unwrap_err();
    assert!(matches!(result, ReadError::FromCsv(_)));
    assert_eq!(
        result.message(),
        "CSV format parsing error: Unexpected error: invalid header structure"
    );

    let shifted = ",TX_ID,TX_TYPE,FROM_USER_ID,TO_USER_ID,AMOUNT,TIMESTAMP,STATUS,DESCRIPTION";
    let result = YPBank::read_from_csv(shifted.as_bytes()).unwrap_err();
    assert_eq!(
        result.message(),
        "CSV format parsing error: Unexpected error: invalid header structure"
    );
}

#[test]
fn bin_magic_checked_before_anything_else() {
    // Everything after the first four bytes is a perfectly valid frame body.
    let mut data: Vec<u8> = vec![0x58, 0x50, 0x42, 0x4e];
    let good = Record::new(
        1,
        TxType::Deposit,
        0,
        2,
        3,
        4,
        Status::Success,
        "x".to_string(),
    )
    .to_bin();
    data.extend(&good[4..]);
    let result = Record::from_bin(&data, 0).unwrap_err();
    assert!(matches!(result, ParseRecordFromBinError::InvalidMagicNumber));
}

#[test]
fn record_size_informational_beyond_minimum() {
    // A declared size of 46 is accepted even though the true body is larger.
    let mut frame = Record::new(
        9,
        TxType::Transfer,
        1,
        2,
        3,
        4,
        Status::Pending,
        "hello".to_string(),
    )
    .to_bin();
    frame[4] = 0x00;
    frame[5] = 0x00;
    frame[6] = 0x00;
    frame[7] = 46;
    let (rec, used) = Record::from_bin(&frame, 0).unwrap();
    assert_eq!(used, frame.len());
    assert_eq!(rec.description, "hello");
}

#[test]
fn numeric_fields_parse_like_u64() {
    let mut rec = Record::new(
        0,
        TxType::Deposit,
        0,
        0,
        0,
        0,
        Status::Success,
        "".to_string(),
    );
    assert!(rec.validate_and_set_tx_id("+123").is_ok());
    assert_eq!(rec.tx_id, 123);
    assert!(rec.validate_and_set_tx_id("18446744073709551615").is_ok());
    assert_eq!(rec.tx_id, 18446744073709551615);
    assert!(rec.validate_and_set_tx_id("18446744073709551616").is_err());
    assert!(rec.validate_and_set_tx_id("").is_err());
    assert!(rec.validate_and_set_tx_id("-1").is_err());
    assert!(rec.validate_and_set_tx_id("12a").is_err());
    // failed validation leaves the field untouched
    assert_eq!(rec.tx_id, 18446744073709551615);
}

#[test]
fn description_quotes_are_stripped() {
    let mut rec = Record::new(
        0,
        TxType::Deposit,
        0,
        0,
        0,
        0,
        Status::Success,
        "x".to_string(),
    );
    assert!(rec.validate_and_set_description("\"a \"inner\" b\"").is_ok());
    assert_eq!(rec.description, "a \"inner\" b");
    assert!(rec.validate_and_set_description("\"\"").is_ok());
    assert_eq!(rec.description, "");
    // A single quote character fails both checks.
    assert!(rec.validate_and_set_description("\"").is_err());
    assert!(rec.validate_and_set_description("plain").is_err());
}

#[test]
fn comparer_reports_first_difference_one_based() {
    let a = YPBank {
        records: sample_records(),
    };
    let mut changed = sample_records();
    changed[1].amount += 1;
    let b = YPBank { records: changed };
    assert_eq!(compare_records(&a, &b), CompareOutcome::DifferAt(2));
}

#[test]
fn comparer_reports_identical_sets() {
    let a = YPBank {
        records: sample_records(),
    };
    let b = YPBank {
        records: sample_records(),
    };
    assert_eq!(compare_records(&a, &b), CompareOutcome::Identical);
}

#[test]
fn comparer_reports_unequal_lengths_first() {
    let a = YPBank {
        records: sample_records(),
    };
    // Different contents AND different length: the length wins.
    let b = YPBank {
        records: vec![Record::new(
            999,
            TxType::Transfer,
            1,
            2,
            3,
            4,
            Status::Failure,
            "other".to_string(),
        )],
    };
    assert_eq!(
        compare_records(&a, &b),
        CompareOutcome::LengthMismatch { len1: 3, len2: 1 }
    );
}

#[test]
fn write_error_messages() {
    assert_eq!(
        WriteError::WriteHeaderError("x".to_string()).message(),
        "Write header error: x"
    );
    assert_eq!(
        WriteError::UnexpectedError("y".to_string()).message(),
        "Unexpected error: y"
    );
    assert_eq!(WriteError::Io("z".to_string()).message(), "Read data error: z");
}

#[test]
fn prepare_and_validate_header() {
    let header = YPBank::prepare_header();
    assert_eq!(
        header,
        "TX_ID,TX_TYPE,FROM_USER_ID,TO_USER_ID,AMOUNT,TIMESTAMP,STATUS,DESCRIPTION"
    );
    assert!(YPBank::validate_header(&header).is_ok());
    assert!(YPBank::validate_header("TX_ID").is_err());
}

#[test]
fn text_blank_line_only_yields_missing_key() {
    let result = YPBank::read_from_text(b"\n").unwrap_err();
    assert_eq!(
        result.message(),
        "Text format parsing error: Missing key: TX_ID"
    );
}

#[test]
fn text_duplicate_key_last_write_wins() {
    let data = vec![
        "TX_ID: 1",
        "TX_ID: 7",
        "TX_TYPE: DEPOSIT",
        "FROM_USER_ID: 0",
        "TO_USER_ID: 2",
        "AMOUNT: 100",
        "TIMESTAMP: 5",
        "STATUS: SUCCESS",
        "DESCRIPTION: \"d\"",
    ]
    .join("\n");
    let (rec, _) = Record::from_text(data.as_bytes(), 0).unwrap();
    assert_eq!(rec.tx_id, 7);
}

#[test]
fn csv_description_keeps_commas() {
    let line = "1,DEPOSIT,0,2,3,4,SUCCESS,\"a,b,c\"";
    let (rec, _) = Record::from_csv(line.as_bytes(), 0).unwrap();
    assert_eq!(rec.description, "a,b,c");
}
