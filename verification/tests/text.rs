use pickpocket::text::decimal;

#[test]
fn decimal_writes_numbers_without_leading_zeros() {
    assert_eq!(decimal(0), "0");
    assert_eq!(decimal(7), "7");
    assert_eq!(decimal(10), "10");
    assert_eq!(decimal(30), "30");
    assert_eq!(decimal(1500), "1500");
    assert_eq!(decimal(9876543210), "9876543210");
}

#[test]
fn decimal_writes_the_largest_number() {
    assert_eq!(decimal(usize::MAX), format!("{}", usize::MAX));
}
