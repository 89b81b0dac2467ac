use ypbank::errors::ParseKeyError;
use ypbank::errors::ParseRecordFromTxtError;
use ypbank::errors::ParseValueError;
use ypbank::record::Record;
use ypbank::status::Status;
use ypbank::tx_type::TxType;

#[test]
fn test_read_from_text_correct_record() {
    let data = vec![
        "TX_ID: 1",
        "TX_TYPE: DEPOSIT",
        "FROM_USER_ID: 0",
        "TO_USER_ID: 2",
        "AMOUNT: 100",
        "TIMESTAMP: 1623228800",
        "STATUS: SUCCESS",
        "DESCRIPTION: \"Terminal deposit\"",
    ]
    .join("\n");
    let result = Record::from_text(data.as_bytes(), 0);

    let (record, _) = result.unwrap();

    assert_eq!(
        record,
        Record::new(
            1,
            TxType::Deposit,
            0,
            2,
            100,
            1623228800,
            Status::Success,
            "Terminal deposit".to_string()
        )
    );
}

#[test]
fn test_read_from_text_correct_record_with_comments() {
    let data = vec![
        "# comment1",
        "TX_ID: 1",
        "TX_TYPE: DEPOSIT",
        "FROM_USER_ID: 1",
        "TO_USER_ID: 2",
        "# comment2",
        "AMOUNT: 100",
        "TIMESTAMP: 1623228800",
        "STATUS: SUCCESS",
        "DESCRIPTION: \"Terminal deposit\"",
    ]
    .join("\n");

    let result = Record::from_text(data.as_bytes(), 0);

    let (record, _) = result.unwrap();

    let out = record.to_text();
    assert_eq!(
        out,
        b"TX_ID: 1
TX_TYPE: DEPOSIT
FROM_USER_ID: 1
TO_USER_ID: 2
AMOUNT: 100
TIMESTAMP: 1623228800
STATUS: SUCCESS
DESCRIPTION: \"Terminal deposit\"
"
        .to_vec()
    );
}

#[test]
fn test_read_from_text_incorrect_symbol() {
    let data: Vec<u8> = vec![0xff, 0xff];

    let result = Record::from_text(&data, 0);

    let result = result.unwrap_err();
    assert!(matches!(result, ParseRecordFromTxtError::UnexpectedError(_)));
    assert_eq!(
        result.message(),
        "Unexpected error: stream did not contain valid UTF-8"
    );
}

#[test]
fn test_read_from_text_incorrect_line() {
    let data = vec![
        "TX_ID: 1",
        "TX_TYPE: DEPOSIT",
        "FROM_USER_ID: 1",
        "comment",
        "TO_USER_ID: 2",
        "AMOUNT: 100",
        "TIMESTAMP: 1623228800",
        "STATUS: SUCCESS",
        "DESCRIPTION: \"Terminal deposit\"",
    ]
    .join("\n");

    let result = Record::from_text(data.as_bytes(), 0);

    let result = result.unwrap_err();
    assert!(matches!(result, ParseRecordFromTxtError::UnexpectedError(_)));
    assert_eq!(
        result.message(),
        "Unexpected error: Could not parse string by space delimiter: comment"
    );
}

#[test]
fn test_read_from_text_no_colon_found() {
    let data = vec![
        "# comment",
        "TX_ID: 1",
        "TX_TYPE: DEPOSIT",
        "FROM_USER_ID: 1",
        "TO_USER_ID 2",
        "AMOUNT: 100",
        "TIMESTAMP: 1623228800",
        "STATUS: SUCCESS",
        "DESCRIPTION: \"Terminal deposit\"",
    ]
    .join("\n");

    let result = Record::from_text(data.as_bytes(), 0);

    let result = result.unwrap_err();
    assert!(matches!(result, ParseRecordFromTxtError::ColonNotFound(_)));
    assert_eq!(result.message(), "Colon after key=TO_USER_ID not found");
}

#[test]
fn test_read_from_text_incorrect_value() {
    let cases: Vec<(&str, &str, &str)> = vec![
        ("TX_ID", "ABC", "TX_ID is not a number"),
        ("FROM_USER_ID", "ABC", "FROM_USER_ID is not a number"),
        ("TO_USER_ID", "ABC", "TO_USER_ID is not a number"),
        ("AMOUNT", "ABC", "AMOUNT is not a number"),
        ("TIMESTAMP", "ABC", "TIMESTAMP is not a number"),
        ("TX_TYPE", "ABC", "Invalid TX_TYPE: ABC"),
        ("STATUS", "ABC", "Invalid STATUS: ABC"),
        (
            "DESCRIPTION",
            "ABC\"",
            "DESCRIPTION must start and end with symbol \"",
        ),
    ];
    for (key, value, description) in cases {
        let data = format!("{}: {}", key, value);

        let result = Record::from_text(data.as_bytes(), 0);

        let result = result.unwrap_err();
        assert!(matches!(
            result,
            ParseRecordFromTxtError::InvalidValue(ParseValueError::InvalidValue { .. })
        ));
        assert_eq!(
            result.message(),
            format!("Invalid value: {value} ({description})")
        );
    }
}

#[test]
fn test_read_from_text_unexpected_key() {
    let data = vec![
        "TX_ID: 1",
        "TX_TYPE: DEPOSIT",
        "FROM_USER_ID: 1",
        "TO_USER_ID: 2",
        "AMOUNT: 100",
        "TIMESTAMP: 1623228800",
        "STATUS: SUCCESS",
        "DESCRIPTION: \"Terminal deposit\"",
        "UNEXPECTED_KEY: 1",
    ]
    .join("\n");

    let result = Record::from_text(data.as_bytes(), 0);

    let result = result.unwrap_err();
    assert!(matches!(
        result,
        ParseRecordFromTxtError::InvalidKey(ParseKeyError::InvalidKey(_))
    ));
    assert_eq!(result.message(), "Invalid key: UNEXPECTED_KEY");
}

#[test]
fn test_read_from_text_missing_key() {
    let data = vec![
        "TX_ID: 1",
        "TX_TYPE: DEPOSIT",
        "FROM_USER_ID: 1",
        "TO_USER_ID: 2",
        "AMOUNT: 100",
        "TIMESTAMP: 1623228800",
        "STATUS: SUCCESS",
    ]
    .join("\n");

    let result = Record::from_text(data.as_bytes(), 0);

    let result = result.unwrap_err();
    assert!(matches!(result, ParseRecordFromTxtError::MissingKey(_)));
    assert_eq!(result.message(), "Missing key: DESCRIPTION");
}

#[test]
fn mod_test_write_to_text() {
    let record = Record::new(
        1001,
        TxType::Deposit,
        0,
        501,
        50000,
        1672531200000,
        Status::Success,
        "Initial account funding".to_string(),
    );

    let out = record.to_text();
    assert_eq!(
        out,
        b"TX_ID: 1001
TX_TYPE: DEPOSIT
FROM_USER_ID: 0
TO_USER_ID: 501
AMOUNT: 50000
TIMESTAMP: 1672531200000
STATUS: SUCCESS
DESCRIPTION: \"Initial account funding\"
"
        .to_vec()
    );
}
