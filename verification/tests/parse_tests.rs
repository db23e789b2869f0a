use todo_store::parse::{parse_choice, parse_id, MenuChoice};

#[test]
fn choice_maps_menu_digits() {
    assert_eq!(parse_choice("1"), MenuChoice::ListTasks);
    assert_eq!(parse_choice("2"), MenuChoice::AddTask);
    assert_eq!(parse_choice("3"), MenuChoice::CompleteTask);
    assert_eq!(parse_choice("4"), MenuChoice::DeleteTask);
    assert_eq!(parse_choice("5"), MenuChoice::ExitApp);
}

#[test]
fn choice_rejects_everything_else() {
    assert_eq!(parse_choice(""), MenuChoice::InvalidChoice);
    assert_eq!(parse_choice("0"), MenuChoice::InvalidChoice);
    assert_eq!(parse_choice("6"), MenuChoice::InvalidChoice);
    assert_eq!(parse_choice("10"), MenuChoice::InvalidChoice);
    assert_eq!(parse_choice("list"), MenuChoice::InvalidChoice);
    assert_eq!(parse_choice(" 1"), MenuChoice::InvalidChoice);
}

#[test]
fn id_parses_plain_decimals() {
    assert_eq!(parse_id("0"), Some(0));
    assert_eq!(parse_id("1"), Some(1));
    assert_eq!(parse_id("42"), Some(42));
    assert_eq!(parse_id("007"), Some(7));
    assert_eq!(parse_id("123456789"), Some(123456789));
}

#[test]
fn id_parses_signed_decimals() {
    assert_eq!(parse_id("+7"), Some(7));
    assert_eq!(parse_id("-5"), Some(-5));
    assert_eq!(parse_id("-0"), Some(0));
}

#[test]
fn id_rejects_non_numbers() {
    assert_eq!(parse_id("abc"), None);
    assert_eq!(parse_id(""), None);
    assert_eq!(parse_id("+"), None);
    assert_eq!(parse_id("-"), None);
    assert_eq!(parse_id("1 2"), None);
    assert_eq!(parse_id("12a"), None);
    assert_eq!(parse_id("a12"), None);
    assert_eq!(parse_id("1.5"), None);
    assert_eq!(parse_id("--1"), None);
    assert_eq!(parse_id("+-1"), None);
}

#[test]
fn id_respects_the_64_bit_bounds() {
    assert_eq!(parse_id("9223372036854775807"), Some(i64::MAX));
    assert_eq!(parse_id("9223372036854775808"), None);
    assert_eq!(parse_id("-9223372036854775808"), Some(i64::MIN));
    assert_eq!(parse_id("-9223372036854775809"), None);
    assert_eq!(parse_id("99999999999999999999999999"), None);
}
