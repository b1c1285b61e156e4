use caverr::file::error_cell::ErrorCell;
use caverr::file::tmp::{tmp_file_name, tmp_name_of};
use caverr::text::to_decimal;

#[test]
fn new_cell_is_empty_and_lets_the_job_end_well() {
    let cell: ErrorCell<String> = ErrorCell::new();
    assert!(!cell.is_set());
    assert_eq!(cell.settle(Ok(())), Ok(()));
}

#[test]
fn empty_cell_hands_on_the_failure_of_the_flush() {
    let cell: ErrorCell<String> = ErrorCell::new();
    assert_eq!(cell.settle(Err("flush".to_string())), Err("flush".to_string()));
}

#[test]
fn first_failure_wins() {
    let mut cell: ErrorCell<String> = ErrorCell::new();
    cell.set("first".to_string());
    assert!(cell.is_set());
    cell.set("second".to_string());
    cell.set("third".to_string());
    assert!(cell.is_set());
    assert_eq!(cell.settle(Ok(())), Err("first".to_string()));
}

#[test]
fn failure_of_a_block_comes_before_that_of_the_flush() {
    let mut cell: ErrorCell<u32> = ErrorCell::new();
    cell.set(2);
    assert_eq!(cell.settle(Err(9)), Err(2));
}

#[test]
fn numbers_in_decimal() {
    assert_eq!(to_decimal(0), "0");
    assert_eq!(to_decimal(7), "7");
    assert_eq!(to_decimal(10), "10");
    assert_eq!(to_decimal(1234567890), "1234567890");
    assert_eq!(to_decimal(u64::MAX), "18446744073709551615");
    assert_eq!(to_decimal(u64::MAX), u64::MAX.to_string());
}

#[test]
fn temporary_file_is_named_by_its_number() {
    assert_eq!(tmp_name_of(0), "0.tmp");
    assert_eq!(tmp_name_of(42), "42.tmp");
    assert_eq!(tmp_name_of(u64::MAX), "18446744073709551615.tmp");
}

#[test]
fn random_temporary_name_is_a_number_and_tmp() {
    let name = tmp_file_name();
    let digits = name.strip_suffix(".tmp").expect("the name ends in .tmp");
    let number: u64 = digits.parse().expect("a number");
    assert_eq!(name, tmp_name_of(number));
}
