//! Attribute selection, casing normalization, and the document types.

use cream::select::list_optional_attributes;
use cream::normalize::{fix_attribute_casing, visit_filter};
use cream::{
    Attribute, AttrPath, CompValue, CompareOp, Error, Filter, ListResponse, Meta, Mutability,
    Reference, ResourceType, Returned, Schema, Type, Uniqueness, parse_filter,
};

fn path(urn: Option<&str>, name: &str, sub: Option<&str>) -> AttrPath {
    AttrPath {
        urn: urn.map(|s| s.to_string()),
        name: name.to_string(),
        sub_attr: sub.map(|s| s.to_string()),
    }
}

fn schema() -> Schema {
    Schema {
        id: "urn:example:schemas:Thing".to_string(),
        name: "Thing".to_string(),
        description: String::new(),
        attributes: vec![
            Attribute::new("alpha".to_string(), Type::String),
            Attribute::new("beta".to_string(), Type::String).returned_on_request(),
            Attribute::new("gamma".to_string(), Type::String).always_returned(),
            Attribute::new("delta".to_string(), Type::String).never_returned(),
            Attribute::new("epsilon".to_string(), Type::Complex).sub_attributes(vec![
                Attribute::new("inner".to_string(), Type::String),
                Attribute::new("secret".to_string(), Type::String).never_returned(),
            ]),
        ],
        meta: Meta::new("Schema"),
    }
}

#[test]
fn selection_honors_returned_classes() {
    let s = schema();
    // no include, no exclude: default attributes only
    let got = list_optional_attributes(&s, &vec![], &vec![], true);
    assert_eq!(
        got,
        vec![
            path(None, "alpha", None),
            path(None, "epsilon", None),
            path(None, "epsilon", Some("inner")),
        ],
    );
    // excluding a default drops it; including a request one adds it
    let inc = vec![path(None, "beta", None)];
    let exc = vec![path(None, "alpha", None)];
    let got = list_optional_attributes(&s, &inc, &exc, true);
    assert_eq!(
        got,
        vec![
            path(None, "beta", None),
            path(None, "epsilon", None),
            path(None, "epsilon", Some("inner")),
        ],
    );
}

#[test]
fn selection_qualifies_extension_paths() {
    let s = schema();
    let got = list_optional_attributes(&s, &vec![], &vec![], false);
    assert_eq!(
        got,
        vec![
            path(Some("urn:example:schemas:Thing"), "alpha", None),
            path(Some("urn:example:schemas:Thing"), "epsilon", None),
            path(Some("urn:example:schemas:Thing"), "epsilon", Some("inner")),
        ],
    );
}

#[test]
fn casing_is_fixed_against_the_schema() {
    let s = schema();
    let mut p = path(Some("URN:EXAMPLE:SCHEMAS:THING"), "ALPHA", None);
    fix_attribute_casing(&s, &mut p, None, true);
    assert_eq!(p, path(None, "alpha", None));

    let mut p = path(None, "EPSILON", Some("INNER"));
    fix_attribute_casing(&s, &mut p, None, false);
    assert_eq!(
        p,
        path(Some("urn:example:schemas:Thing"), "epsilon", Some("inner")),
    );

    // an unknown attribute is left alone
    let mut p = path(None, "UNKNOWN", None);
    fix_attribute_casing(&s, &mut p, None, true);
    assert_eq!(p, path(None, "UNKNOWN", None));
}

#[test]
fn normalizing_twice_equals_normalizing_once() {
    let s = schema();
    let exts: Vec<&Schema> = Vec::new();
    let corpus = vec![
        "ALPHA eq \"x\"",
        "EPSILON[INNER eq \"v\"] and BETA pr",
        "not (ALPHA pr) or URN:EXAMPLE:SCHEMAS:THING:ALPHA pr",
    ];
    for input in corpus {
        let parsed = parse_filter(input).unwrap();
        let once = visit_filter(&s, &exts, None, parsed);
        let parsed_again = parse_filter(input).unwrap();
        let twice = visit_filter(
            &s,
            &exts,
            None,
            visit_filter(&s, &exts, None, parsed_again),
        );
        assert_eq!(once, twice);
    }
}

#[test]
fn value_filters_normalize_sub_attributes() {
    let s = schema();
    let exts: Vec<&Schema> = Vec::new();
    let parsed = parse_filter("epsilon[INNER eq \"v\"]").unwrap();
    let got = visit_filter(&s, &exts, None, parsed);
    assert_eq!(
        got,
        Filter::Has(
            path(None, "epsilon", None),
            Box::new(Filter::Compare(
                path(None, "epsilon", Some("inner")),
                CompareOp::Equal,
                CompValue::Str("v".to_string()),
            )),
        ),
    );
}

#[test]
fn attribute_builders_set_their_flags() {
    let a = Attribute::new("x".to_string(), Type::String);
    assert_eq!(a.multi_valued, false);
    assert_eq!(a.required, false);
    assert_eq!(a.case_exact, false);
    assert_eq!(a.mutability, Mutability::ReadWrite);
    assert_eq!(a.returned, Returned::Default);
    assert_eq!(a.uniqueness, Uniqueness::NotUnique);

    assert!(Attribute::new("x".to_string(), Type::String).multi_valued().multi_valued);
    assert!(Attribute::new("x".to_string(), Type::String).required().required);
    assert!(Attribute::new("x".to_string(), Type::String).case_exact().case_exact);
    assert_eq!(
        Attribute::new("x".to_string(), Type::String).immutable().mutability,
        Mutability::Immutable,
    );
    assert_eq!(
        Attribute::new("x".to_string(), Type::String).read_only().mutability,
        Mutability::ReadOnly,
    );
    assert_eq!(
        Attribute::new("x".to_string(), Type::String).write_only().mutability,
        Mutability::WriteOnly,
    );
    assert_eq!(
        Attribute::new("x".to_string(), Type::String).always_returned().returned,
        Returned::Always,
    );
    assert_eq!(
        Attribute::new("x".to_string(), Type::String).never_returned().returned,
        Returned::Never,
    );
    assert_eq!(
        Attribute::new("x".to_string(), Type::String).returned_on_request().returned,
        Returned::Request,
    );
    assert_eq!(
        Attribute::new("x".to_string(), Type::String).unique().uniqueness,
        Uniqueness::Server,
    );
    assert_eq!(
        Attribute::new("x".to_string(), Type::String).globally_unique().uniqueness,
        Uniqueness::Global,
    );
    let a = Attribute::new("x".to_string(), Type::Reference)
        .reference_types(vec!["User".to_string()]);
    assert_eq!(a.reference_types, Some(vec!["User".to_string()]));
    let a = Attribute::new("x".to_string(), Type::Complex)
        .sub_attributes(vec![Attribute::new("y".to_string(), Type::String)]);
    assert_eq!(a.sub_attributes.as_ref().unwrap().len(), 1);
}

#[test]
fn references_resolve_against_the_base_url() {
    let r = Reference::new_relative("/Users/5");
    assert_eq!(r.resolve("https://example.com/scim"), "https://example.com/scim/Users/5");
    let r = Reference::new_absolute("https://elsewhere.example.com/x");
    assert_eq!(r.resolve("https://example.com/scim"), "https://elsewhere.example.com/x");
}

#[test]
fn locate_sets_relative_locations() {
    let mut s = schema();
    s.locate();
    let loc = s.meta.location.unwrap();
    assert_eq!(
        loc.resolve("https://example.com/scim"),
        "https://example.com/scim/Schemas/urn:example:schemas:Thing",
    );

    let mut rt = ResourceType {
        id: None,
        name: "Thing".to_string(),
        description: None,
        endpoint: "/Things".to_string(),
        schema: "urn:example:schemas:Thing".to_string(),
        schema_extensions: Vec::new(),
        meta: Meta::new("ResourceType"),
    };
    rt.locate();
    let loc = rt.meta.location.unwrap();
    assert_eq!(
        loc.resolve("https://example.com/scim"),
        "https://example.com/scim/ResourceTypes/Thing",
    );
}

#[test]
fn error_constructors_and_message() {
    let e = Error::not_found();
    assert_eq!((e.status, e.scim_type, e.detail.as_str()), (404, None, "Not Found"));
    let e = Error::invalid_filter();
    assert_eq!(e.status, 400);
    assert_eq!(e.detail, "Invalid Filter");
    let e = Error::invalid_path();
    assert_eq!(e.status, 400);
    assert_eq!(e.detail, "Invalid Path");
    let e = Error::expected("resource");
    assert_eq!(e.status, 400);
    assert_eq!(e.detail, "Expected resource");
    let e = Error::uniqueness("userName");
    assert_eq!(e.status, 409);
    assert_eq!(e.detail, "Attribute `userName` must be unique");
    assert_eq!(e.message(), "409 [uniqueness]: Attribute `userName` must be unique");
    assert_eq!(Error::not_found().message(), "404: Not Found");
}

#[test]
fn list_response_default_is_an_empty_first_page() {
    let lr: ListResponse<u32> = ListResponse::default();
    assert_eq!(lr.total_results, 0);
    assert_eq!(lr.start_index, 1);
    assert_eq!(lr.items_per_page, 100);
    assert!(lr.resources.is_empty());
}

#[test]
fn resource_type_extraction() {
    let parsed = parse_filter("meta.resourceType eq \"User\" and userName pr").unwrap();
    let (residual, name) = parsed.take_resource_type_filter().unwrap();
    assert_eq!(name, "User");
    assert_eq!(residual, Some(Filter::Present(path(None, "userName", None))));

    let parsed = parse_filter("meta.resourceType eq \"User\"").unwrap();
    let (residual, name) = parsed.take_resource_type_filter().unwrap();
    assert_eq!(name, "User");
    assert_eq!(residual, None);

    let parsed = parse_filter("userName pr").unwrap();
    assert!(parsed.take_resource_type_filter().is_err());
}

#[test]
fn iter_cnf_flattens_conjunctions() {
    let parsed = parse_filter("a pr and (b pr and c pr) and d pr").unwrap();
    // the parser keeps the parenthesized conjunction nested; iter_cnf
    // flattens it
    let clauses = parsed.iter_cnf();
    let names: Vec<String> = clauses
        .iter()
        .map(|f| match f {
            Filter::Present(p) => p.name.clone(),
            _ => panic!("expected a presence clause"),
        })
        .collect();
    assert_eq!(names, vec!["a", "b", "c", "d"]);

    let parsed = parse_filter("a pr or b pr").unwrap();
    let clauses = parsed.iter_cnf();
    assert_eq!(clauses.len(), 1);
}
