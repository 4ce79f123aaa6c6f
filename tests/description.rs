use document_upload::description::{Description, FormatError};

fn parse(s: &str) -> Result<(String, String), FormatError> {
    Description::parse(s).map(|d| (d.name, d.category))
}

#[test]
fn parses_two_labelled_lines() {
    assert_eq!(
        parse("Name: Report\nCategory: Finance"),
        Ok(("Report".to_string(), "Finance".to_string()))
    );
}

#[test]
fn strips_surrounding_whitespace() {
    assert_eq!(
        parse("X:   a b \t\nY:\u{3000}b\u{a0} "),
        Ok(("a b".to_string(), "b".to_string()))
    );
}

#[test]
fn keeps_text_after_the_first_colon() {
    assert_eq!(
        parse("Name: a:b\nCategory: c: d"),
        Ok(("a:b".to_string(), "c: d".to_string()))
    );
}

#[test]
fn accepts_crlf_and_more_lines() {
    assert_eq!(
        parse("Name: Report\r\nCategory: Finance\r\nextra line\n"),
        Ok(("Report".to_string(), "Finance".to_string()))
    );
}

#[test]
fn accepts_empty_values() {
    assert_eq!(parse("Name:\nCategory:  "), Ok((String::new(), String::new())));
}

#[test]
fn empty_text_has_no_name_line() {
    assert_eq!(parse(""), Err(FormatError::MissingNameLine));
}

#[test]
fn name_line_without_colon() {
    assert_eq!(parse("Name Report\nCategory: Finance"), Err(FormatError::MalformedNameLine));
}

#[test]
fn single_line_has_no_category_line() {
    assert_eq!(parse("Name: Report"), Err(FormatError::MissingCategoryLine));
    assert_eq!(parse("Name: Report\n"), Err(FormatError::MissingCategoryLine));
}

#[test]
fn category_line_without_colon() {
    assert_eq!(parse("Name: Report\nCategory Finance"), Err(FormatError::MalformedCategoryLine));
    assert_eq!(parse("Name: Report\n\nCategory: Finance"), Err(FormatError::MalformedCategoryLine));
}

#[test]
fn parsing_twice_gives_the_same_result() {
    let s = "Name:  Report \nCategory: Finance";
    assert_eq!(parse(s), parse(s));
    assert_eq!(parse("nope"), parse("nope"));
}

#[test]
fn from_str_matches_parse() {
    let d: Description = "Name: R\nCategory: F".parse().unwrap();
    assert_eq!(d.name, "R");
    assert_eq!(d.category, "F");
}

fn from_str(s: &str) -> Result<(String, String), FormatError> {
    s.parse::<Description>().map(|d| (d.name, d.category))
}

#[test]
fn from_str_keeps_later_colons_and_trims() {
    assert_eq!(
        from_str("Name:  a:b \nCategory:\tc: d  "),
        Ok(("a:b".to_string(), "c: d".to_string()))
    );
}

#[test]
fn from_str_ignores_lines_after_the_second() {
    assert_eq!(from_str("X: a\nY: b\nZ: c"), from_str("X: a\nY: b\nno colon here"));
    assert_eq!(from_str("X: a\nY: b"), Ok(("a".to_string(), "b".to_string())));
}

#[test]
fn from_str_accepts_empty_values() {
    assert_eq!(from_str("Name:\nCategory:   "), Ok((String::new(), String::new())));
}

#[test]
fn from_str_rejects_malformed_text() {
    assert_eq!(from_str(""), Err(FormatError::MissingNameLine));
    assert_eq!(from_str("Name: Report\n"), Err(FormatError::MissingCategoryLine));
    assert_eq!(from_str("Name Report\nCategory: Finance"), Err(FormatError::MalformedNameLine));
    assert_eq!(from_str("Name: Report\nCategory Finance"), Err(FormatError::MalformedCategoryLine));
}
