use todo_list::contract::ContractError;
use todo_list::response::decimal_string;

#[test]
fn numbers_are_written_in_decimal() {
    assert_eq!(decimal_string(0), "0");
    assert_eq!(decimal_string(7), "7");
    assert_eq!(decimal_string(10), "10");
    assert_eq!(decimal_string(109), "109");
    assert_eq!(decimal_string(9876543210), "9876543210");
    assert_eq!(decimal_string(u64::MAX), "18446744073709551615");
    for n in [1u64, 9, 11, 99, 100, 101, 4096, 1_000_000, u64::MAX - 1] {
        assert_eq!(decimal_string(n), n.to_string());
    }
}

#[test]
fn a_missing_task_has_a_fixed_message() {
    assert_eq!(ContractError::TaskNotFound {}.message(), "Task not found");
}

#[test]
fn an_encoder_failure_is_shown_behind_a_heading() {
    let size = ContractError::SerializationError { source: Box::new(bincode::ErrorKind::SizeLimit) };
    assert_eq!(size.message(), "Serialization error: SizeLimit");

    let custom = ContractError::SerializationError {
        source: Box::new(bincode::ErrorKind::Custom("boom".to_string())),
    };
    assert_eq!(custom.message(), "Serialization error: Custom(\"boom\")");
}
