use markdown_core::element::Element;
use markdown_core::parse::{parse_bool, parse_i64, str_eq};
use markdown_core::props::{ComponentCreationError, MdComponentProps};

fn props_with(attrs: Vec<(&str, &str)>) -> MdComponentProps {
    let attributes: Vec<(String, String)> = attrs
        .into_iter()
        .map(|(k, v)| (k.to_string(), v.to_string()))
        .collect();
    MdComponentProps::new(attributes, None)
}

#[test]
fn required_int_present_parses() {
    let p = props_with(vec![("initial", "5")]);
    assert_eq!(p.get_required_i64("initial"), Ok(5));
}

#[test]
fn required_int_malformed_is_parse_error() {
    let p = props_with(vec![("initial", "a")]);
    assert_eq!(
        p.get_required_i64("initial"),
        Err(ComponentCreationError::AttributeParseError(
            "initial".to_string(),
            "a".to_string()
        ))
    );
}

#[test]
fn required_int_missing_is_missing_attribute() {
    let p = props_with(vec![]);
    assert_eq!(
        p.get_required_i64("initial"),
        Err(ComponentCreationError::MissingAttribute("initial".to_string()))
    );
}

#[test]
fn optional_int_absent_is_ok_none() {
    let p = props_with(vec![("other", "1")]);
    assert_eq!(p.get_optional_i64("initial"), Ok(None));
}

#[test]
fn optional_int_present_parses() {
    let p = props_with(vec![("initial", "-12")]);
    assert_eq!(p.get_optional_i64("initial"), Ok(Some(-12)));
}

#[test]
fn optional_int_malformed_is_parse_error() {
    let p = props_with(vec![("initial", "1.5")]);
    assert_eq!(
        p.get_optional_i64("initial"),
        Err(ComponentCreationError::AttributeParseError(
            "initial".to_string(),
            "1.5".to_string()
        ))
    );
}

#[test]
fn first_occurrence_of_duplicate_attribute_wins() {
    let p = props_with(vec![("a", "1"), ("a", "2")]);
    assert_eq!(p.get_required_i64("a"), Ok(1));
}

#[test]
fn parse_i64_exact_values() {
    assert_eq!(parse_i64("0"), Some(0));
    assert_eq!(parse_i64("+42"), Some(42));
    assert_eq!(parse_i64("-7"), Some(-7));
    assert_eq!(parse_i64("9223372036854775807"), Some(i64::MAX));
    assert_eq!(parse_i64("-9223372036854775808"), Some(i64::MIN));
}

#[test]
fn parse_i64_rejects_malformed_and_out_of_range() {
    assert_eq!(parse_i64(""), None);
    assert_eq!(parse_i64("-"), None);
    assert_eq!(parse_i64("+"), None);
    assert_eq!(parse_i64("5x"), None);
    assert_eq!(parse_i64(" 5"), None);
    assert_eq!(parse_i64("9223372036854775808"), None);
    assert_eq!(parse_i64("-9223372036854775809"), None);
}

#[test]
fn parse_bool_exact() {
    assert_eq!(parse_bool("true"), Some(true));
    assert_eq!(parse_bool("false"), Some(false));
    assert_eq!(parse_bool("True"), None);
    assert_eq!(parse_bool(""), None);
}

#[test]
fn required_bool_and_string() {
    let p = props_with(vec![("on", "true"), ("label", "hi there")]);
    assert_eq!(p.get_required_bool("on"), Ok(true));
    assert_eq!(p.get_required_string("label"), Ok("hi there".to_string()));
    assert_eq!(p.get_optional_bool("off"), Ok(None));
    assert_eq!(p.get_optional_string("off"), None);
    assert_eq!(
        p.get_required_string("missing"),
        Err(ComponentCreationError::MissingAttribute("missing".to_string()))
    );
}

#[test]
fn str_eq_compares_by_characters() {
    assert!(str_eq("abc", "abc"));
    assert!(!str_eq("abc", "abd"));
    assert!(!str_eq("abc", "ab"));
}

#[test]
fn props_children_pass_through() {
    let p = MdComponentProps::new(Vec::new(), Some(Element::Text("kid".to_string())));
    assert_eq!(p.children, Some(Element::Text("kid".to_string())));
}
