//! End-to-end dispatch: requests resolved to manager calls and manager
//! results wrapped into response envelopes.

use cream::{
    Attribute, AttrPath, CompValue, CompareOp, Cont, Cream, CreamBuilder, Error, Filter,
    JsonValue, ListResourceResult, ManagerOp, ManagerOutcome, Meta, Method, Request, Response,
    ResponseBody, ResourceType, Schema, SortOrder, Step, Type, UpdateOp, begin, resume,
};
use cream::config::{
    ServiceProviderConfig, ServiceProviderConfigBulk, ServiceProviderConfigChangePassword,
    ServiceProviderConfigEtag, ServiceProviderConfigFilter, ServiceProviderConfigPatch,
    ServiceProviderConfigSort,
};
use cream::ValuePath;

const USER_URN: &str = "urn:ietf:params:scim:schemas:core:2.0:User";
const GROUP_URN: &str = "urn:ietf:params:scim:schemas:core:2.0:Group";

fn user_schema() -> Schema {
    Schema {
        id: USER_URN.to_string(),
        name: "User".to_string(),
        description: "User Account".to_string(),
        attributes: vec![
            Attribute::new("userName".to_string(), Type::String).required().unique(),
            Attribute::new("displayName".to_string(), Type::String),
            Attribute::new("active".to_string(), Type::Boolean),
            Attribute::new("name".to_string(), Type::Complex).sub_attributes(vec![
                Attribute::new("formatted".to_string(), Type::String),
                Attribute::new("familyName".to_string(), Type::String),
            ]),
            Attribute::new("emails".to_string(), Type::Complex).multi_valued().sub_attributes(
                vec![
                    Attribute::new("value".to_string(), Type::String),
                    Attribute::new("type".to_string(), Type::String),
                ],
            ),
            Attribute::new("password".to_string(), Type::String).write_only().never_returned(),
        ],
        meta: Meta::new("Schema"),
    }
}

fn group_schema() -> Schema {
    Schema {
        id: GROUP_URN.to_string(),
        name: "Group".to_string(),
        description: "Group".to_string(),
        attributes: vec![
            Attribute::new("displayName".to_string(), Type::String).required(),
            Attribute::new("members".to_string(), Type::Complex).multi_valued().sub_attributes(
                vec![Attribute::new("value".to_string(), Type::String)],
            ),
        ],
        meta: Meta::new("Schema"),
    }
}

fn resource_type(name: &str, endpoint: &str, schema: &str) -> ResourceType {
    ResourceType {
        id: None,
        name: name.to_string(),
        description: None,
        endpoint: endpoint.to_string(),
        schema: schema.to_string(),
        schema_extensions: Vec::new(),
        meta: Meta::new("ResourceType"),
    }
}

fn config() -> ServiceProviderConfig {
    ServiceProviderConfig {
        documentation_uri: None,
        patch: ServiceProviderConfigPatch { supported: true },
        bulk: ServiceProviderConfigBulk {
            supported: false,
            max_operations: 0,
            max_payload_size: 0,
        },
        filter: ServiceProviderConfigFilter { supported: true, max_results: 200 },
        change_password: ServiceProviderConfigChangePassword { supported: false },
        sort: ServiceProviderConfigSort { supported: true },
        etag: ServiceProviderConfigEtag { supported: false },
        authentication_schemes: Vec::new(),
        meta: Meta::new("ServiceProviderConfig"),
    }
}

fn build_cream() -> Cream {
    CreamBuilder::new("https://example.com/scim", config())
        .resource_type(
            resource_type("User", "/Users", USER_URN),
            vec![user_schema()],
            50,
        )
        .resource_type(
            resource_type("Group", "/Groups", GROUP_URN),
            vec![group_schema()],
            50,
        )
        .build()
        .unwrap()
}

fn get(path: &str, query: Vec<(&str, &str)>) -> Request {
    Request {
        method: Method::Get,
        path: path.to_string(),
        query: query.into_iter().map(|(k, v)| (k.to_string(), v.to_string())).collect(),
        body: None,
    }
}

fn path(urn: Option<&str>, name: &str, sub: Option<&str>) -> AttrPath {
    AttrPath {
        urn: urn.map(|s| s.to_string()),
        name: name.to_string(),
        sub_attr: sub.map(|s| s.to_string()),
    }
}

fn obj(entries: Vec<(&str, JsonValue)>) -> JsonValue {
    JsonValue::Object(entries.into_iter().map(|(k, v)| (k.to_string(), v)).collect())
}

#[test]
fn list_users_with_filter() {
    let cream = build_cream();
    let req = get("/Users", vec![("filter", "userName eq \"alice\"")]);
    let step = begin(&cream, req);
    let (call, cont) = match step {
        Step::Call(c, k) => (c, k),
        Step::Done(r) => panic!("expected a call, got status {}", r.status),
    };
    assert_eq!(call.resource_type, "User");
    let args = match call.op {
        ManagerOp::List(a) => a,
        _ => panic!("expected a list"),
    };
    assert_eq!(
        args.filter,
        Some(Filter::Compare(
            path(None, "userName", None),
            CompareOp::Equal,
            CompValue::Str("alice".to_string()),
        )),
    );
    assert_eq!(args.start_index, 0);
    assert_eq!(args.count, 50);
    assert_eq!(args.sort_by, None);
    assert_eq!(args.sort_order, SortOrder::Ascending);
    // default-returned attributes, in declaration order; `password` is
    // returned never and stays out
    assert_eq!(
        args.optional_attributes,
        vec![
            path(None, "userName", None),
            path(None, "displayName", None),
            path(None, "active", None),
            path(None, "name", None),
            path(None, "name", Some("formatted")),
            path(None, "name", Some("familyName")),
            path(None, "emails", None),
            path(None, "emails", Some("value")),
            path(None, "emails", Some("type")),
        ],
    );
    assert_eq!(cont, Cont::FinishList { wire_start: 1 });

    let alice = obj(vec![("userName", JsonValue::Str("alice".to_string()))]);
    let outcome = ManagerOutcome::Listed(ListResourceResult {
        resources: vec![alice],
        items_per_page: 50,
        total_count: 1,
    });
    let step = resume(&cream, cont, Ok(outcome));
    let resp = match step {
        Step::Done(r) => r,
        _ => panic!("expected a response"),
    };
    assert_eq!(resp.status, 200);
    match resp.body {
        ResponseBody::Listing(lr) => {
            assert_eq!(lr.total_results, 1);
            assert_eq!(lr.start_index, 1);
            assert_eq!(lr.items_per_page, 50);
            assert_eq!(lr.resources.len(), 1);
        },
        _ => panic!("expected a listing"),
    }
}

#[test]
fn listing_keeps_the_managers_total_count_when_a_page_truncates() {
    let cream = build_cream();
    let req = get("/Users", vec![("startIndex", "3"), ("count", "2")]);
    let (call, cont) = match begin(&cream, req) {
        Step::Call(c, k) => (c, k),
        _ => panic!("expected a call"),
    };
    match call.op {
        ManagerOp::List(a) => {
            assert_eq!(a.start_index, 2);
            assert_eq!(a.count, 2);
        },
        _ => panic!("expected a list"),
    }
    // the manager reports five matches but this page holds none; the
    // envelope must carry the total, not the page length
    let outcome = ManagerOutcome::Listed(ListResourceResult {
        resources: vec![],
        items_per_page: 2,
        total_count: 5,
    });
    match resume(&cream, cont, Ok(outcome)) {
        Step::Done(r) => {
            assert_eq!(r.status, 200);
            match r.body {
                ResponseBody::Listing(lr) => {
                    assert_eq!(lr.total_results, 5);
                    assert_eq!(lr.start_index, 3);
                    assert_eq!(lr.items_per_page, 2);
                    assert_eq!(lr.resources.len(), 0);
                },
                _ => panic!("expected a listing"),
            }
        },
        _ => panic!("expected a response"),
    }
}

#[test]
fn search_root_routes_on_resource_type() {
    let cream = build_cream();
    let req = Request {
        method: Method::Post,
        path: "/.search".to_string(),
        query: Vec::new(),
        body: Some(obj(vec![(
            "filter",
            JsonValue::Str("meta.resourceType eq \"Group\"".to_string()),
        )])),
    };
    let step = begin(&cream, req);
    let (call, cont) = match step {
        Step::Call(c, k) => (c, k),
        Step::Done(r) => panic!("expected a call, got status {}", r.status),
    };
    assert_eq!(call.resource_type, "Group");
    let args = match call.op {
        ManagerOp::List(a) => a,
        _ => panic!("expected a list"),
    };
    assert_eq!(args.filter, None);
    assert_eq!(cont, Cont::FinishList { wire_start: 1 });
}

#[test]
fn search_root_keeps_residual_clause() {
    let cream = build_cream();
    let req = Request {
        method: Method::Post,
        path: "/.search".to_string(),
        query: Vec::new(),
        body: Some(obj(vec![(
            "filter",
            JsonValue::Str(
                "meta.resourceType eq \"User\" and userName pr".to_string(),
            ),
        )])),
    };
    let step = begin(&cream, req);
    let (call, _) = match step {
        Step::Call(c, k) => (c, k),
        Step::Done(r) => panic!("expected a call, got status {}", r.status),
    };
    assert_eq!(call.resource_type, "User");
    let args = match call.op {
        ManagerOp::List(a) => a,
        _ => panic!("expected a list"),
    };
    assert_eq!(args.filter, Some(Filter::Present(path(None, "userName", None))));
}

#[test]
fn patch_translates_to_update_items() {
    let cream = build_cream();
    let req = Request {
        method: Method::Patch,
        path: "/Users/42".to_string(),
        query: Vec::new(),
        body: Some(obj(vec![(
            "Operations",
            JsonValue::Array(vec![obj(vec![
                ("op", JsonValue::Str("replace".to_string())),
                ("path", JsonValue::Str("name.familyName".to_string())),
                ("value", JsonValue::Str("Smith".to_string())),
            ])]),
        )])),
    };
    let step = begin(&cream, req);
    let (call, cont) = match step {
        Step::Call(c, k) => (c, k),
        Step::Done(r) => panic!("expected a call, got status {}", r.status),
    };
    assert_eq!(call.resource_type, "User");
    let args = match call.op {
        ManagerOp::Update(a) => a,
        _ => panic!("expected an update"),
    };
    assert_eq!(args.id, "42");
    assert_eq!(args.items.len(), 1);
    assert_eq!(
        args.items[0].path,
        Some(ValuePath::Attr(path(None, "name", Some("familyName")))),
    );
    assert_eq!(args.items[0].op, UpdateOp::Replace(JsonValue::Str("Smith".to_string())));
    match cont {
        Cont::AfterUpdate { resource_type, id, .. } => {
            assert_eq!(resource_type, "User");
            assert_eq!(id, "42");
        },
        _ => panic!("expected an update continuation"),
    }
}

#[test]
fn get_not_found_renders_scim_error() {
    let cream = build_cream();
    let req = get("/Users/99", vec![]);
    let step = begin(&cream, req);
    let (call, cont) = match step {
        Step::Call(c, k) => (c, k),
        Step::Done(r) => panic!("expected a call, got status {}", r.status),
    };
    match call.op {
        ManagerOp::Get(a) => assert_eq!(a.id, "99"),
        _ => panic!("expected a get"),
    }
    let step = resume(&cream, cont, Err(Error::not_found()));
    let resp = match step {
        Step::Done(r) => r,
        _ => panic!("expected a response"),
    };
    assert_eq!(resp.status, 404);
    let err = match resp.body {
        ResponseBody::ErrorDoc(e) => e,
        _ => panic!("expected an error document"),
    };
    let expected = obj(vec![
        (
            "schemas",
            JsonValue::Array(vec![JsonValue::Str(
                "urn:ietf:params:scim:api:messages:2.0:Error".to_string(),
            )]),
        ),
        ("status", JsonValue::Str("404".to_string())),
        ("detail", JsonValue::Str("Not Found".to_string())),
    ]);
    assert_eq!(err.to_json(), expected);
}

#[test]
fn unknown_paths_and_wrong_methods() {
    let cream = build_cream();
    let step = begin(&cream, get("/Unknown", vec![]));
    match step {
        Step::Done(Response { status, .. }) => assert_eq!(status, 404),
        _ => panic!("expected a response"),
    }
    let req = Request {
        method: Method::Delete,
        path: "/Schemas/foo".to_string(),
        query: Vec::new(),
        body: None,
    };
    match begin(&cream, req) {
        Step::Done(r) => {
            assert_eq!(r.status, 405);
            match r.body {
                ResponseBody::ErrorDoc(e) => assert_eq!(e.detail, "Method Not Allowed"),
                _ => panic!("expected an error document"),
            }
        },
        _ => panic!("expected a response"),
    }
}

#[test]
fn schema_listing_locates_entries() {
    let cream = build_cream();
    let step = begin(&cream, get("/Schemas", vec![]));
    let resp = match step {
        Step::Done(r) => r,
        _ => panic!("expected a response"),
    };
    assert_eq!(resp.status, 200);
    let lr = match resp.body {
        ResponseBody::SchemaListing(lr) => lr,
        _ => panic!("expected a schema listing"),
    };
    assert_eq!(lr.total_results, 2);
    assert_eq!(lr.start_index, 1);
    assert_eq!(lr.items_per_page, 3);
    let loc = lr.resources[0].meta.location.as_ref().unwrap();
    assert_eq!(
        loc.resolve("https://example.com/scim"),
        format!("https://example.com/scim/Schemas/{}", USER_URN),
    );
}

#[test]
fn delete_flow_finishes_with_no_content() {
    let cream = build_cream();
    let req = Request {
        method: Method::Delete,
        path: "/Users/7".to_string(),
        query: Vec::new(),
        body: None,
    };
    let (call, cont) = match begin(&cream, req) {
        Step::Call(c, k) => (c, k),
        _ => panic!("expected a call"),
    };
    match call.op {
        ManagerOp::Delete(id) => assert_eq!(id, "7"),
        _ => panic!("expected a delete"),
    }
    match resume(&cream, cont, Ok(ManagerOutcome::Done)) {
        Step::Done(r) => {
            assert_eq!(r.status, 204);
            assert_eq!(r.body, ResponseBody::Empty);
        },
        _ => panic!("expected a response"),
    }
}

#[test]
fn create_flow_fetches_and_answers_created() {
    let cream = build_cream();
    let req = Request {
        method: Method::Post,
        path: "/Users".to_string(),
        query: Vec::new(),
        body: Some(obj(vec![("userName", JsonValue::Str("bob".to_string()))])),
    };
    let (call, cont) = match begin(&cream, req) {
        Step::Call(c, k) => (c, k),
        _ => panic!("expected a call"),
    };
    match call.op {
        ManagerOp::Create(_) => {},
        _ => panic!("expected a create"),
    }
    let (call2, cont2) = match resume(&cream, cont, Ok(ManagerOutcome::Created("5".to_string()))) {
        Step::Call(c, k) => (c, k),
        _ => panic!("expected a follow-up call"),
    };
    match call2.op {
        ManagerOp::Get(a) => assert_eq!(a.id, "5"),
        _ => panic!("expected a get"),
    }
    let body = obj(vec![("userName", JsonValue::Str("bob".to_string()))]);
    match resume(&cream, cont2, Ok(ManagerOutcome::Resource(body))) {
        Step::Done(r) => assert_eq!(r.status, 201),
        _ => panic!("expected a response"),
    }
}

#[test]
fn filter_casing_is_normalized() {
    let cream = build_cream();
    let req = get("/Users", vec![("filter", "USERNAME eq \"alice\"")]);
    let (call, _) = match begin(&cream, req) {
        Step::Call(c, k) => (c, k),
        _ => panic!("expected a call"),
    };
    let args = match call.op {
        ManagerOp::List(a) => a,
        _ => panic!("expected a list"),
    };
    assert_eq!(
        args.filter,
        Some(Filter::Compare(
            path(None, "userName", None),
            CompareOp::Equal,
            CompValue::Str("alice".to_string()),
        )),
    );
}

#[test]
fn builder_refuses_missing_schema() {
    let err = CreamBuilder::new("https://example.com/scim", config())
        .resource_type(resource_type("User", "/Users", USER_URN), vec![], 50)
        .build()
        .unwrap_err();
    assert_eq!(err.status, 500);
    assert_eq!(err.detail, "Resource type references an unregistered schema");
}
