use dinorun::render::{decimal, labelled};

#[test]
fn decimal_writes_single_digits() {
    let digits = ["0", "1", "2", "3", "4", "5", "6", "7", "8", "9"];
    for n in 0..10u64 {
        assert_eq!(decimal(n), digits[n as usize]);
    }
}

#[test]
fn decimal_writes_longer_numbers() {
    assert_eq!(decimal(10), "10");
    assert_eq!(decimal(42), "42");
    assert_eq!(decimal(100), "100");
    assert_eq!(decimal(1_073_741_823), "1073741823");
    assert_eq!(decimal(u64::MAX), "18446744073709551615");
}

#[test]
fn decimal_agrees_with_the_standard_rendering() {
    for n in 0..5_000u64 {
        assert_eq!(decimal(n * 37), format!("{}", n * 37));
    }
}

#[test]
fn labelled_joins_label_number_and_closing() {
    assert_eq!(labelled("Score: ", 12, ""), "Score: 12");
    assert_eq!(labelled("You earned ", 0, " points"), "You earned 0 points");
    assert_eq!(labelled("", 305, ""), "305");
}
