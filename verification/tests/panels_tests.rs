use peruse_tui::panels::{every_value_once, name_width, range_line, trim_number, BAR_WIDTH, MIN_NAME_WIDTH};

#[test]
fn a_column_of_keys_says_that_each_value_occurs_once() {
    assert!(every_value_once(&vec![1, 1, 1]));
    assert!(every_value_once(&vec![0, 1]));
    assert!(!every_value_once(&vec![1, 2, 1]));
    assert!(!every_value_once(&vec![]));
}

#[test]
fn the_name_keeps_what_the_bar_and_the_count_leave() {
    assert_eq!(BAR_WIDTH, 10);
    assert_eq!(name_width(40, 3), 40 - 10 - 3 - 2);
    assert_eq!(name_width(15, 3), MIN_NAME_WIDTH);
    assert_eq!(name_width(0, 0), MIN_NAME_WIDTH);
}

#[test]
fn a_number_loses_the_zeros_of_its_decimals() {
    assert_eq!(trim_number("1.500000"), "1.5");
    assert_eq!(trim_number("2.000000"), "2");
    assert_eq!(trim_number("-0.250000"), "-0.25");
    assert_eq!(trim_number("100"), "1");
    assert_eq!(trim_number(""), "");
}

#[test]
fn the_range_line_puts_the_ends_at_the_sides() {
    assert_eq!(range_line("0", "99", 8), "0     99");
    assert_eq!(range_line("1.5", "2", 4), "1.52");
    assert_eq!(range_line("lowest", "highest", 8), "lowesth…");
    assert_eq!(range_line("a", "b", 0), "");
}
