use record_sql::text::{decimal_text, join_text, same_text};

#[test]
fn decimal_of_single_digits() {
    assert_eq!(decimal_text(0), "0");
    assert_eq!(decimal_text(1), "1");
    assert_eq!(decimal_text(9), "9");
}

#[test]
fn decimal_of_longer_numbers() {
    assert_eq!(decimal_text(10), "10");
    assert_eq!(decimal_text(11), "11");
    assert_eq!(decimal_text(100), "100");
    assert_eq!(decimal_text(109), "109");
    assert_eq!(decimal_text(9876543210), "9876543210");
}

#[test]
fn decimal_of_the_largest_number() {
    assert_eq!(decimal_text(usize::MAX), format!("{}", usize::MAX));
}

#[test]
fn decimal_agrees_with_the_standard_rendering() {
    let mut n: usize = 0;
    while n < 2500 {
        assert_eq!(decimal_text(n), format!("{}", n));
        n += 7;
    }
}

#[test]
fn join_of_nothing_is_empty() {
    let parts: Vec<String> = Vec::new();
    assert_eq!(join_text(&parts, ", "), "");
}

#[test]
fn join_of_one_part_has_no_separator() {
    let parts = vec!["id".to_string()];
    assert_eq!(join_text(&parts, ", "), "id");
}

#[test]
fn join_puts_the_separator_between_neighbours() {
    let parts = vec!["a".to_string(), "b".to_string(), "c".to_string()];
    assert_eq!(join_text(&parts, " AND "), "a AND b AND c");
}

#[test]
fn join_keeps_empty_parts() {
    let parts = vec!["".to_string(), "x".to_string(), "".to_string()];
    assert_eq!(join_text(&parts, "-"), "-x-");
}

#[test]
fn same_text_compares_characters() {
    assert!(same_text("i32", "i32"));
    assert!(!same_text("i32", "i64"));
    assert!(!same_text("i32", "i3"));
    assert!(same_text("", ""));
    assert!(!same_text("String", "string"));
}
