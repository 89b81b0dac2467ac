use ypbank::status::Status;

#[test]
fn status_test_display() {
    assert_eq!(Status::Success.as_str(), "SUCCESS");
    assert_eq!(Status::Failure.as_str(), "FAILURE");
    assert_eq!(Status::Pending.as_str(), "PENDING");
}

#[test]
fn status_test_try_from_string() {
    assert_eq!(Status::try_from("SUCCESS").unwrap(), Status::Success);
    assert_eq!(Status::try_from("FAILURE").unwrap(), Status::Failure);
    assert_eq!(Status::try_from("PENDING").unwrap(), Status::Pending);
    assert!(Status::try_from("").is_err_and(|e| e.message() == "Invalid STATUS: "));
    assert!(Status::try_from("INVALID").is_err_and(|e| e.message() == "Invalid STATUS: INVALID"));
}

#[test]
fn status_test_try_from_u8() {
    assert_eq!(Status::try_from_u8(0).unwrap(), Status::Success);
    assert_eq!(Status::try_from_u8(1).unwrap(), Status::Failure);
    assert_eq!(Status::try_from_u8(2).unwrap(), Status::Pending);

    assert!(Status::try_from_u8(3).is_err_and(|e| e.message() == "Invalid STATUS: 3"));
}

#[test]
fn status_test_into_u8() {
    assert_eq!(Status::Success.as_byte(), 0);
    assert_eq!(Status::Failure.as_byte(), 1);
    assert_eq!(Status::Pending.as_byte(), 2);
}
