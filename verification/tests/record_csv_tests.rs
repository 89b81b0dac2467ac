use ypbank::errors::ParseRecordFromCsvError;
use ypbank::errors::ParseValueError;
use ypbank::record::Record;
use ypbank::status::Status;
use ypbank::tx_type::TxType;

#[test]
fn test_read_from_csv_correct_record() {
    let cases: Vec<&str> = vec![
        "1001,DEPOSIT,0,501,50000,1672531200000,SUCCESS,\"Initial account funding\"",
        "1001,DEPOSIT,0,501,50000,1672531200000,SUCCESS,\"Initial account funding\"\n",
    ];
    for line in cases {
        let result = Record::from_csv(line.as_bytes(), 0);

        let (record, _) = result.unwrap();

        assert_eq!(
            record,
            Record::new(
                1001,
                TxType::Deposit,
                0,
                501,
                50000,
                1672531200000,
                Status::Success,
                "Initial account funding".to_string()
            )
        );
    }
}

#[test]
fn test_read_from_csv_eof() {
    let data: Vec<u8> = vec![];

    let result = Record::from_csv(&data, 0);

    let result = result.unwrap_err();
    assert!(matches!(result, ParseRecordFromCsvError::UnexpectedError(_)));
    assert_eq!(result.message(), "Unexpected error: EOF is reached");
}

#[test]
fn test_read_from_csv_incorrect_symbol() {
    let data: Vec<u8> = vec![0xff, 0xff];

    let result = Record::from_csv(&data, 0);

    let result = result.unwrap_err();
    assert!(matches!(result, ParseRecordFromCsvError::UnexpectedError(_)));
    assert_eq!(
        result.message(),
        "Unexpected error: stream did not contain valid UTF-8"
    );
}

#[test]
fn test_read_from_csv_incorrect_count_of_columns() {
    let cases: Vec<(&str, usize)> = vec![
        ("1001", 1),
        (
            "1001,DEPOSIT,0,501,50000,SUCCESS,\"Initial account funding\"",
            7,
        ),
    ];
    for (line, count) in cases {
        let result = Record::from_csv(line.as_bytes(), 0);

        let result = result.unwrap_err();
        assert!(matches!(
            result,
            ParseRecordFromCsvError::InvalidCountOfColumns(_)
        ));
        assert_eq!(
            result.message(),
            format!("Invalid count of columns: {}", count)
        );
    }
}

#[test]
fn test_read_from_csv_incorrect_value() {
    let cases: Vec<(&str, &str, &str)> = vec![
        (
            "ABC,DEPOSIT,0,501,50000,1672531200000,SUCCESS,\"Initial account funding\"",
            "ABC",
            "TX_ID is not a number",
        ),
        (
            "1001,DEPOSIT,ABC,501,50000,1672531200000,SUCCESS,\"Initial account funding\"",
            "ABC",
            "FROM_USER_ID is not a number",
        ),
        (
            "1001,DEPOSIT,0,ABC,50000,1672531200000,SUCCESS,\"Initial account funding\"",
            "ABC",
            "TO_USER_ID is not a number",
        ),
        (
            "1001,DEPOSIT,0,501,ABC,1672531200000,SUCCESS,\"Initial account funding\"",
            "ABC",
            "AMOUNT is not a number",
        ),
        (
            "1001,DEPOSIT,0,501,50000,ABC,SUCCESS,\"Initial account funding\"",
            "ABC",
            "TIMESTAMP is not a number",
        ),
        (
            "1001,ABC,0,501,50000,1672531200000,SUCCESS,\"Initial account funding\"",
            "ABC",
            "Invalid TX_TYPE: ABC",
        ),
        (
            "1001,DEPOSIT,0,501,50000,1672531200000,ABC,\"Initial account funding\"",
            "ABC",
            "Invalid STATUS: ABC",
        ),
        (
            "1001,DEPOSIT,0,501,50000,1672531200000,SUCCESS,ABC\"",
            "ABC\"",
            "DESCRIPTION must start and end with symbol \"",
        ),
    ];
    for (line, value, description) in cases {
        let result = Record::from_csv(line.as_bytes(), 0);

        let result = result.unwrap_err();
        assert!(matches!(
            result,
            ParseRecordFromCsvError::InvalidValue(ParseValueError::InvalidValue { .. })
        ));
        assert_eq!(
            result.message(),
            format!("Invalid value: {value} ({description})")
        );
    }
}

#[test]
fn mod_test_write_to_csv() {
    let record = Record::new(
        1001,
        TxType::Deposit,
        0,
        501,
        50000,
        1672531200000,
        Status::Success,
        "Initial account funding".to_string(),
    );

    let out = record.to_csv();
    assert_eq!(
        out,
        b"1001,DEPOSIT,0,501,50000,1672531200000,SUCCESS,\"Initial account funding\"\n".to_vec()
    );
}
