//! PATCH translation into flat update items.

use cream::{
    Attribute, AttrPath, Cont, Cream, CreamBuilder, JsonValue, ManagerOp, Meta, Method, Request,
    ResourceType, Schema, SchemaExtension, Step, Type, UpdateOp, ValuePath, begin,
};
use cream::config::{
    ServiceProviderConfig, ServiceProviderConfigBulk, ServiceProviderConfigChangePassword,
    ServiceProviderConfigEtag, ServiceProviderConfigFilter, ServiceProviderConfigPatch,
    ServiceProviderConfigSort,
};

const USER_URN: &str = "urn:ietf:params:scim:schemas:core:2.0:User";
const ENTERPRISE_URN: &str = "urn:ietf:params:scim:schemas:extension:enterprise:2.0:User";

fn config() -> ServiceProviderConfig {
    ServiceProviderConfig {
        documentation_uri: None,
        patch: ServiceProviderConfigPatch { supported: true },
        bulk: ServiceProviderConfigBulk {
            supported: false,
            max_operations: 0,
            max_payload_size: 0,
        },
        filter: ServiceProviderConfigFilter { supported: true, max_results: 200 },
        change_password: ServiceProviderConfigChangePassword { supported: false },
        sort: ServiceProviderConfigSort { supported: true },
        etag: ServiceProviderConfigEtag { supported: false },
        authentication_schemes: Vec::new(),
        meta: Meta::new("ServiceProviderConfig"),
    }
}

fn schema(id: &str, name: &str, attrs: Vec<Attribute>) -> Schema {
    Schema {
        id: id.to_string(),
        name: name.to_string(),
        description: String::new(),
        attributes: attrs,
        meta: Meta::new("Schema"),
    }
}

fn build_cream() -> Cream {
    let user = schema(
        USER_URN,
        "User",
        vec![
            Attribute::new("userName".to_string(), Type::String),
            Attribute::new("displayName".to_string(), Type::String),
            Attribute::new("active".to_string(), Type::Boolean),
            Attribute::new("emails".to_string(), Type::Complex).multi_valued(),
        ],
    );
    let enterprise = schema(
        ENTERPRISE_URN,
        "EnterpriseUser",
        vec![Attribute::new("employeeNumber".to_string(), Type::String)],
    );
    let rt = ResourceType {
        id: None,
        name: "User".to_string(),
        description: None,
        endpoint: "/Users".to_string(),
        schema: USER_URN.to_string(),
        schema_extensions: vec![SchemaExtension {
            schema: ENTERPRISE_URN.to_string(),
            required: false,
        }],
        meta: Meta::new("ResourceType"),
    };
    CreamBuilder::new("https://example.com/scim", config())
        .resource_type(rt, vec![user, enterprise], 50)
        .build()
        .unwrap()
}

fn obj(entries: Vec<(&str, JsonValue)>) -> JsonValue {
    JsonValue::Object(entries.into_iter().map(|(k, v)| (k.to_string(), v)).collect())
}

fn patch(ops: Vec<JsonValue>) -> Request {
    Request {
        method: Method::Patch,
        path: "/Users/42".to_string(),
        query: Vec::new(),
        body: Some(obj(vec![("Operations", JsonValue::Array(ops))])),
    }
}

fn update_items(cream: &Cream, req: Request) -> Vec<cream::UpdateResourceItem> {
    match begin(cream, req) {
        Step::Call(call, cont) => {
            match cont {
                Cont::AfterUpdate { .. } => {},
                _ => panic!("expected an update continuation"),
            }
            match call.op {
                ManagerOp::Update(a) => a.items,
                _ => panic!("expected an update"),
            }
        },
        Step::Done(r) => panic!("expected a call, got status {}", r.status),
    }
}

fn path(urn: Option<&str>, name: &str, sub: Option<&str>) -> AttrPath {
    AttrPath {
        urn: urn.map(|s| s.to_string()),
        name: name.to_string(),
        sub_attr: sub.map(|s| s.to_string()),
    }
}

#[test]
fn pathless_replace_splits_field_wise() {
    let cream = build_cream();
    let req = patch(vec![obj(vec![
        ("op", JsonValue::Str("replace".to_string())),
        (
            "value",
            obj(vec![
                ("displayName", JsonValue::Str("X".to_string())),
                ("active", JsonValue::Bool(false)),
            ]),
        ),
    ])]);
    let items = update_items(&cream, req);
    assert_eq!(items.len(), 2);
    assert_eq!(items[0].path, Some(ValuePath::Attr(path(None, "displayName", None))));
    assert_eq!(items[0].op, UpdateOp::Replace(JsonValue::Str("X".to_string())));
    assert_eq!(items[1].path, Some(ValuePath::Attr(path(None, "active", None))));
    assert_eq!(items[1].op, UpdateOp::Replace(JsonValue::Bool(false)));
}

#[test]
fn add_with_path_stays_one_item() {
    let cream = build_cream();
    let value = JsonValue::Array(vec![obj(vec![
        ("value", JsonValue::Str("a@b.c".to_string())),
        ("type", JsonValue::Str("work".to_string())),
    ])]);
    let expected = JsonValue::Array(vec![obj(vec![
        ("value", JsonValue::Str("a@b.c".to_string())),
        ("type", JsonValue::Str("work".to_string())),
    ])]);
    let req = patch(vec![obj(vec![
        ("op", JsonValue::Str("add".to_string())),
        ("path", JsonValue::Str("emails".to_string())),
        ("value", value),
    ])]);
    let items = update_items(&cream, req);
    assert_eq!(items.len(), 1);
    assert_eq!(items[0].path, Some(ValuePath::Attr(path(None, "emails", None))));
    assert_eq!(items[0].op, UpdateOp::Add(expected));
}

#[test]
fn pathless_replace_descends_into_extension_urn() {
    let cream = build_cream();
    let req = patch(vec![obj(vec![
        ("op", JsonValue::Str("replace".to_string())),
        (
            "value",
            obj(vec![
                ("displayName", JsonValue::Str("X".to_string())),
                (
                    ENTERPRISE_URN,
                    obj(vec![("employeeNumber", JsonValue::Str("7".to_string()))]),
                ),
            ]),
        ),
    ])]);
    let items = update_items(&cream, req);
    assert_eq!(items.len(), 2);
    assert_eq!(items[0].path, Some(ValuePath::Attr(path(None, "displayName", None))));
    assert_eq!(
        items[1].path,
        Some(ValuePath::Attr(path(Some(ENTERPRISE_URN), "employeeNumber", None))),
    );
    assert_eq!(items[1].op, UpdateOp::Replace(JsonValue::Str("7".to_string())));
}

#[test]
fn pathless_remove_stays_one_item() {
    let cream = build_cream();
    let req = patch(vec![obj(vec![("op", JsonValue::Str("remove".to_string()))])]);
    let items = update_items(&cream, req);
    assert_eq!(items.len(), 1);
    assert_eq!(items[0].path, None);
    assert_eq!(items[0].op, UpdateOp::Remove);
}

#[test]
fn bad_op_keyword_is_refused() {
    let cream = build_cream();
    let req = patch(vec![obj(vec![("op", JsonValue::Str("merge".to_string()))])]);
    match begin(&cream, req) {
        Step::Done(r) => {
            assert_eq!(r.status, 400);
            match r.body {
                cream::ResponseBody::ErrorDoc(e) => {
                    assert_eq!(e.scim_type, Some(cream::ErrorType::InvalidValue));
                    assert_eq!(e.detail, "Expected Patch Operation");
                },
                _ => panic!("expected an error document"),
            }
        },
        _ => panic!("expected a response"),
    }
}

#[test]
fn bad_patch_path_is_refused() {
    let cream = build_cream();
    let req = patch(vec![obj(vec![
        ("op", JsonValue::Str("replace".to_string())),
        ("path", JsonValue::Str("1bad".to_string())),
        ("value", JsonValue::Str("x".to_string())),
    ])]);
    match begin(&cream, req) {
        Step::Done(r) => {
            assert_eq!(r.status, 400);
            match r.body {
                cream::ResponseBody::ErrorDoc(e) => {
                    assert_eq!(e.scim_type, Some(cream::ErrorType::InvalidPath));
                },
                _ => panic!("expected an error document"),
            }
        },
        _ => panic!("expected a response"),
    }
}
