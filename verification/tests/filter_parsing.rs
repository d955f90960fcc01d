//! Filter and path parsing against the grammar.

use cream::{parse_attr_path, parse_filter, parse_value_path};
use cream::{AttrPath, AttrPathRef, CompValue, CompareOp, Filter, ValuePath};

fn path(urn: Option<&str>, name: &str, sub: Option<&str>) -> AttrPath {
    AttrPath {
        urn: urn.map(|s| s.to_string()),
        name: name.to_string(),
        sub_attr: sub.map(|s| s.to_string()),
    }
}

fn user_emails() -> AttrPathRef<'static> {
    AttrPathRef { urn: None, name: "emails", sub_attr: None }
}

fn user_email_value() -> AttrPathRef<'static> {
    AttrPathRef { urn: None, name: "emails", sub_attr: Some("value") }
}

fn user_email_type() -> AttrPathRef<'static> {
    AttrPathRef { urn: None, name: "emails", sub_attr: Some("type") }
}

fn user_name_formatted() -> AttrPathRef<'static> {
    AttrPathRef { urn: None, name: "name", sub_attr: Some("formatted") }
}

fn user_ext_employee_number() -> AttrPathRef<'static> {
    AttrPathRef {
        urn: Some("urn:ietf:params:scim:schemas:extension:enterprise:2.0:User"),
        name: "employeeNumber",
        sub_attr: None,
    }
}

fn user_ext_manager_display_name() -> AttrPathRef<'static> {
    AttrPathRef {
        urn: Some("urn:ietf:params:scim:schemas:extension:enterprise:2.0:User"),
        name: "manager",
        sub_attr: Some("displayName"),
    }
}

#[test]
fn test_attr_path_parsing() {
    fn validate(input: &str, expected: AttrPathRef) {
        let path = parse_attr_path(input).unwrap();
        assert_eq!(path.as_ref(), expected);
    }

    validate("emails", user_emails());
    validate("name.formatted", user_name_formatted());
    validate(
        "urn:ietf:params:scim:schemas:extension:enterprise:2.0:User:employeeNumber",
        user_ext_employee_number(),
    );
    validate(
        "urn:ietf:params:scim:schemas:extension:enterprise:2.0:User:employeeNumber",
        user_ext_employee_number(),
    );
    validate(
        "urn:ietf:params:scim:schemas:extension:enterprise:2.0:User:manager.displayName",
        user_ext_manager_display_name(),
    );
}

#[test]
fn test_filter_parsing() {
    fn validate(input: &str, expected: Filter) {
        let filter = parse_filter(input).unwrap();
        assert_eq!(filter, expected);
    }

    validate(
        "name.formatted eq \"John Smith\"",
        Filter::Compare(
            path(None, "name", Some("formatted")),
            CompareOp::Equal,
            CompValue::Str("John Smith".to_string()),
        ),
    );
    validate(
        "name.formatted pr",
        Filter::Present(path(None, "name", Some("formatted"))),
    );
    validate(
        "emails[type eq \"work\"]",
        Filter::Has(
            path(None, "emails", None),
            Box::new(Filter::Compare(
                path(None, "emails", Some("type")),
                CompareOp::Equal,
                CompValue::Str("work".to_string()),
            )),
        ),
    );
    validate(
        "urn:ietf:params:scim:schemas:extension:enterprise:2.0:User:manager.displayName sw \"J\" and emails[type eq \"work\"]",
        Filter::And(vec![
            Filter::Compare(
                path(
                    Some("urn:ietf:params:scim:schemas:extension:enterprise:2.0:User"),
                    "manager",
                    Some("displayName"),
                ),
                CompareOp::StartsWith,
                CompValue::Str("J".to_string()),
            ),
            Filter::Has(
                path(None, "emails", None),
                Box::new(Filter::Compare(
                    path(None, "emails", Some("type")),
                    CompareOp::Equal,
                    CompValue::Str("work".to_string()),
                )),
            ),
        ]),
    );
}

#[test]
fn test_value_path_parsing() {
    fn validate(input: &str, expected: ValuePath) {
        let path = parse_value_path(input).unwrap();
        assert_eq!(path, expected);
    }

    validate(
        "emails[type eq \"work\"]",
        ValuePath::Filtered(
            path(None, "emails", None),
            Filter::Compare(
                path(None, "emails", Some("type")),
                CompareOp::Equal,
                CompValue::Str("work".to_string()),
            ),
        ),
    );
    validate(
        "emails[type eq \"work\"].value",
        ValuePath::Filtered(
            path(None, "emails", Some("value")),
            Filter::Compare(
                path(None, "emails", Some("type")),
                CompareOp::Equal,
                CompValue::Str("work".to_string()),
            ),
        ),
    );
    let _ = (user_email_value(), user_email_type());
}

#[test]
fn parses_booleans_null_and_numbers() {
    assert_eq!(
        parse_filter("active eq true").unwrap(),
        Filter::Compare(path(None, "active", None), CompareOp::Equal, CompValue::Bool(true)),
    );
    assert_eq!(
        parse_filter("active eq false").unwrap(),
        Filter::Compare(path(None, "active", None), CompareOp::Equal, CompValue::Bool(false)),
    );
    assert_eq!(
        parse_filter("manager eq null").unwrap(),
        Filter::Compare(path(None, "manager", None), CompareOp::Equal, CompValue::Null),
    );
    assert_eq!(
        parse_filter("age gt 12.5").unwrap(),
        Filter::Compare(
            path(None, "age", None),
            CompareOp::GreaterThan,
            CompValue::Num("12.5".to_string()),
        ),
    );
    assert_eq!(
        parse_filter("age le 0").unwrap(),
        Filter::Compare(
            path(None, "age", None),
            CompareOp::LessThanOrEqual,
            CompValue::Num("0".to_string()),
        ),
    );
}

#[test]
fn keywords_are_case_insensitive() {
    assert_eq!(
        parse_filter("userName EQ \"a\" AND active PR").unwrap(),
        Filter::And(vec![
            Filter::Compare(
                path(None, "userName", None),
                CompareOp::Equal,
                CompValue::Str("a".to_string()),
            ),
            Filter::Present(path(None, "active", None)),
        ]),
    );
    assert_eq!(
        parse_filter("NOT (active pr)").unwrap(),
        Filter::Not(Box::new(Filter::Present(path(None, "active", None)))),
    );
}

#[test]
fn groups_and_precedence() {
    assert_eq!(
        parse_filter("a pr or b pr and c pr").unwrap(),
        Filter::Or(vec![
            Filter::Present(path(None, "a", None)),
            Filter::And(vec![
                Filter::Present(path(None, "b", None)),
                Filter::Present(path(None, "c", None)),
            ]),
        ]),
    );
    assert_eq!(
        parse_filter("(a pr or b pr) and c pr").unwrap(),
        Filter::And(vec![
            Filter::Or(vec![
                Filter::Present(path(None, "a", None)),
                Filter::Present(path(None, "b", None)),
            ]),
            Filter::Present(path(None, "c", None)),
        ]),
    );
}

#[test]
fn string_escapes_are_decoded() {
    assert_eq!(
        parse_filter("x eq \"a\\\"b\\\\c\\u0041\\n\"").unwrap(),
        Filter::Compare(
            path(None, "x", None),
            CompareOp::Equal,
            CompValue::Str("a\"b\\cA\n".to_string()),
        ),
    );
}

#[test]
fn rejects_bad_filters_with_invalid_filter_errors() {
    let e = parse_filter("userName eq").unwrap_err();
    assert_eq!(e.status, 400);
    assert_eq!(e.scim_type, Some(cream::ErrorType::InvalidFilter));
    assert_eq!(e.detail, "Invalid filter: userName eq");

    let e = parse_filter("userName eq \"a\" garbage").unwrap_err();
    assert_eq!(e.status, 400);
    assert_eq!(e.detail, "Invalid filter: unexpected  garbage");

    let e = parse_filter("age gt 01").unwrap_err();
    assert_eq!(e.status, 400);

    let e = parse_filter("age gt 1.").unwrap_err();
    assert_eq!(e.status, 400);
}

#[test]
fn rejects_bad_paths_with_invalid_path_errors() {
    let e = parse_attr_path("1abc").unwrap_err();
    assert_eq!(e.status, 400);
    assert_eq!(e.scim_type, Some(cream::ErrorType::InvalidPath));
    assert_eq!(e.detail, "Invalid attribute path: 1abc");

    let e = parse_value_path("emails[").unwrap_err();
    assert_eq!(e.status, 400);
    assert_eq!(e.scim_type, Some(cream::ErrorType::InvalidPath));
    assert_eq!(e.detail, "Invalid path: unexpected [");
}

#[test]
fn compare_op_from_str_is_case_insensitive() {
    assert_eq!(CompareOp::from_str("Eq").unwrap(), CompareOp::Equal);
    assert_eq!(CompareOp::from_str("NE").unwrap(), CompareOp::NotEqual);
    assert_eq!(CompareOp::from_str("co").unwrap(), CompareOp::Contains);
    assert_eq!(CompareOp::from_str("sw").unwrap(), CompareOp::StartsWith);
    assert_eq!(CompareOp::from_str("ew").unwrap(), CompareOp::EndsWith);
    assert_eq!(CompareOp::from_str("gT").unwrap(), CompareOp::GreaterThan);
    assert_eq!(CompareOp::from_str("ge").unwrap(), CompareOp::GreaterThanOrEqual);
    assert_eq!(CompareOp::from_str("lt").unwrap(), CompareOp::LessThan);
    assert_eq!(CompareOp::from_str("le").unwrap(), CompareOp::LessThanOrEqual);
    assert_eq!(
        CompareOp::from_str("xx").unwrap_err(),
        "xx is not a valid operator".to_string(),
    );
}
