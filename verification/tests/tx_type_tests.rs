use ypbank::tx_type::TxType;

#[test]
fn tx_type_test_display() {
    assert_eq!(TxType::Deposit.as_str(), "DEPOSIT");
    assert_eq!(TxType::Transfer.as_str(), "TRANSFER");
    assert_eq!(TxType::Withdrawal.as_str(), "WITHDRAWAL");
}

#[test]
fn tx_type_test_try_from_string() {
    assert_eq!(TxType::try_from("DEPOSIT").unwrap(), TxType::Deposit);
    assert_eq!(TxType::try_from("TRANSFER").unwrap(), TxType::Transfer);
    assert_eq!(TxType::try_from("WITHDRAWAL").unwrap(), TxType::Withdrawal);

    assert!(TxType::try_from("").is_err_and(|e| e.message() == "Invalid TX_TYPE: "));
    assert!(TxType::try_from("INVALID").is_err_and(|e| e.message() == "Invalid TX_TYPE: INVALID"));
}

#[test]
fn tx_type_test_try_from_u8() {
    assert_eq!(TxType::try_from_u8(0).unwrap(), TxType::Deposit);
    assert_eq!(TxType::try_from_u8(1).unwrap(), TxType::Transfer);
    assert_eq!(TxType::try_from_u8(2).unwrap(), TxType::Withdrawal);

    assert!(TxType::try_from_u8(3).is_err_and(|e| e.message() == "Invalid TX_TYPE: 3"));
}

#[test]
fn tx_type_test_into_u8() {
    assert_eq!(TxType::Deposit.as_byte(), 0);
    assert_eq!(TxType::Transfer.as_byte(), 1);
    assert_eq!(TxType::Withdrawal.as_byte(), 2);
}
