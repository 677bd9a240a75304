use simai_parser::scan::{
    scan_char, scan_float, scan_multispace0, scan_not_line_ending, scan_tag,
    scan_take_till_equals, scan_u64, scan_u8, text_eq,
};
use simai_parser::ParseError;

#[test]
fn chars_and_tags() {
    assert_eq!(scan_char("ab", 'a'), Ok(("b", 'a')));
    assert_eq!(scan_char("ab", 'b'), Err(ParseError::Error));
    assert_eq!(scan_char("", 'a'), Err(ParseError::Error));
    assert_eq!(scan_tag("title=x", "title"), Ok(("=x", "title")));
    assert_eq!(scan_tag("tit", "title"), Err(ParseError::Error));
    assert!(text_eq("abc", "abc"));
    assert!(!text_eq("abcd", "abc"));
    assert!(!text_eq("ab", "abc"));
}

#[test]
fn spaces_and_lines() {
    assert_eq!(scan_multispace0(" \t\r\nx "), Ok(("x ", " \t\r\n")));
    assert_eq!(scan_multispace0("x"), Ok(("x", "")));
    assert_eq!(scan_not_line_ending("ab\r\nc"), Ok(("\r\nc", "ab")));
    assert_eq!(scan_not_line_ending("ab\nc"), Ok(("\nc", "ab")));
    assert_eq!(scan_not_line_ending("abc"), Ok(("", "abc")));
    assert_eq!(scan_not_line_ending("a\rbc"), Err(ParseError::Error));
    assert_eq!(scan_take_till_equals("name=v"), Ok(("=v", "name")));
    assert_eq!(scan_take_till_equals("=v"), Err(ParseError::Error));
    assert_eq!(scan_take_till_equals("name"), Ok(("", "name")));
    assert_eq!(scan_take_till_equals(""), Err(ParseError::Error));
}

#[test]
fn numbers() {
    assert_eq!(scan_u8("255x"), Ok(("x", 255)));
    assert_eq!(scan_u8("256"), Err(ParseError::Error));
    assert_eq!(scan_u8("x"), Err(ParseError::Error));
    assert_eq!(scan_u64("18446744073709551615"), Ok(("", u64::MAX)));
    assert_eq!(scan_u64("18446744073709551616"), Err(ParseError::Error));
    assert_eq!(scan_float("-1.5e3x"), Ok(("x", "-1.5e3")));
    assert_eq!(scan_float(".5]"), Ok(("]", ".5")));
    assert_eq!(scan_float("1.#"), Ok(("#", "1.")));
    assert_eq!(scan_float("InFinity!"), Ok(("!", "InFinity")));
    assert_eq!(scan_float("nan"), Ok(("", "nan")));
    assert_eq!(scan_float("1e"), Err(ParseError::Failure));
    assert_eq!(scan_float("1e+x"), Err(ParseError::Failure));
    assert_eq!(scan_float("x"), Err(ParseError::Error));
    assert_eq!(scan_float("-"), Err(ParseError::Error));
}
