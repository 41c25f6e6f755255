use presence_bot::utils::command_parser::{
    checked_time_length, convert_text_to_time_length, parse_u64_text,
};

#[test]
fn time_length_units() {
    assert_eq!(convert_text_to_time_length("1w"), 604800);
    assert_eq!(convert_text_to_time_length("1d"), 86400);
    assert_eq!(convert_text_to_time_length("1h"), 3600);
    assert_eq!(convert_text_to_time_length("1m"), 60);
    assert_eq!(convert_text_to_time_length("1s"), 1);
}

#[test]
fn time_length_sums_parts() {
    assert_eq!(convert_text_to_time_length("1h30m"), 5400);
    assert_eq!(convert_text_to_time_length("2d3h4m5s"), 2 * 86400 + 3 * 3600 + 4 * 60 + 5);
    assert_eq!(convert_text_to_time_length("30m1h"), 5400);
}

#[test]
fn time_length_concat_law_example() {
    let a = convert_text_to_time_length("1h");
    let b = convert_text_to_time_length("30m");
    assert_eq!(convert_text_to_time_length("1h30m"), a + b);
}

#[test]
fn time_length_empty_and_trailing_digits() {
    assert_eq!(convert_text_to_time_length(""), 0);
    assert_eq!(convert_text_to_time_length("10"), 0);
    assert_eq!(convert_text_to_time_length("1h30"), 3600);
    assert_eq!(convert_text_to_time_length("1h½"), 3600);
}

#[test]
fn time_length_refusals() {
    assert_eq!(checked_time_length("1x"), None);
    assert_eq!(checked_time_length("h"), None);
    assert_eq!(checked_time_length("1h "), None);
    assert_eq!(checked_time_length("½h"), None);
    assert_eq!(checked_time_length("-1h"), None);
}

#[test]
fn time_length_overflow() {
    assert_eq!(checked_time_length("18446744073709551615s"), Some(u64::MAX));
    assert_eq!(checked_time_length("18446744073709551616s"), None);
    assert_eq!(checked_time_length("18446744073709551615m"), None);
    assert_eq!(checked_time_length("18446744073709551615s1s"), None);
}

#[test]
fn parse_u64_like_std() {
    for text in ["0", "42", "+5", "+", "", "-1", "12a", "18446744073709551615", "18446744073709551616", " 1", "007"] {
        assert_eq!(parse_u64_text(text), text.parse::<u64>().ok(), "{}", text);
    }
}
