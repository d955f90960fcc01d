//! The SCIM error model: an HTTP status, an optional SCIM error type and
//! a human-readable detail message.

use vstd::prelude::*;

verus! {

/// SCIM error type, as enumerated by RFC 7644 §3.12.
#[derive(Debug, Clone, Copy, PartialEq, Eq, Structural)]
pub enum ErrorType {
    /// The filter is invalid or not supported.
    InvalidFilter,
    /// Too many results would be returned.
    TooMany,
    /// Conflict in attribute uniqueness.
    Uniqueness,
    /// The attribute cannot be modified.
    Mutability,
    /// Syntax error when parsing the request.
    InvalidSyntax,
    /// The attribute path is invalid or not supported.
    InvalidPath,
    /// Attribute filter did not match any values.
    NoTarget,
    /// The attribute value is invalid.
    InvalidValue,
    /// The SCIM protocol version is not supported.
    InvalidVers,
    /// The attribute is sensitive and cannot be read.
    Sensitive,
}

/// SCIM error response: HTTP status, optional SCIM error type, detail.
#[derive(Debug, PartialEq, Eq)]
pub struct Error {
    /// HTTP status code to be returned.
    pub status: u16,
    /// SCIM error type.
    pub scim_type: Option<ErrorType>,
    /// Human-readable error message.
    pub detail: String,
}

impl Error {
    /// Create a new error response.
    pub fn new(status: u16, scim_type: Option<ErrorType>, detail: String) -> (r: Error)
        ensures
            r.status == status,
            r.scim_type == scim_type,
            r.detail@ == detail@,
    {
        Error { status, scim_type, detail }
    }

    /// Create a new 404 error response.
    pub fn not_found() -> (r: Error)
        ensures
            r.status == 404,
            r.scim_type is None,
            r.detail@ == "Not Found"@,
    {
        Error { status: 404, scim_type: None, detail: String::from_str("Not Found") }
    }

    /// Create an error response indicating that a filter is invalid or
    /// not supported.
    pub fn invalid_filter() -> (r: Error)
        ensures
            r.status == 400,
            r.scim_type == Some(ErrorType::InvalidFilter),
            r.detail@ == "Invalid Filter"@,
    {
        Error {
            status: 400,
            scim_type: Some(ErrorType::InvalidFilter),
            detail: String::from_str("Invalid Filter"),
        }
    }

    /// Create an error response indicating that an attribute path is
    /// invalid or not supported.
    pub fn invalid_path() -> (r: Error)
        ensures
            r.status == 400,
            r.scim_type == Some(ErrorType::InvalidPath),
            r.detail@ == "Invalid Path"@,
    {
        Error {
            status: 400,
            scim_type: Some(ErrorType::InvalidPath),
            detail: String::from_str("Invalid Path"),
        }
    }

    /// Create an error response indicating that a different type of value
    /// was expected.
    pub fn expected(what: &str) -> (r: Error)
        ensures
            r.status == 400,
            r.scim_type == Some(ErrorType::InvalidValue),
            r.detail@ == "Expected "@ + what@,
    {
        let mut detail = String::from_str("Expected ");
        detail.append(what);
        Error { status: 400, scim_type: Some(ErrorType::InvalidValue), detail }
    }

    /// Create an error response indicating a violated uniqueness
    /// constraint on the named attribute.
    pub fn uniqueness(attribute: &str) -> (r: Error)
        ensures
            r.status == 409,
            r.scim_type == Some(ErrorType::Uniqueness),
            r.detail@ == "Attribute `"@ + attribute@ + "` must be unique"@,
    {
        let mut detail = String::from_str("Attribute `");
        detail.append(attribute);
        detail.append("` must be unique");
        Error { status: 409, scim_type: Some(ErrorType::Uniqueness), detail }
    }

    /// The canonical text of this error: the status, the error type when
    /// there is one, and the detail.
    pub fn message(&self) -> (r: String)
        ensures
            r@ == u16_to_seq(self.status) + match self.scim_type {
                Some(t) => " ["@ + error_type_name(t) + "]: "@,
                None => ": "@,
            } + self.detail@,
    {
        let mut r = crate::json::u16_to_string(self.status);
        match self.scim_type {
            Some(t) => {
                r.append(" [");
                r.append(error_type_str(t));
                r.append("]: ");
            },
            None => {
                r.append(": ");
            },
        }
        r.append(self.detail.as_str());
        r
    }
}

/// The camel-case wire name of each SCIM error type.
pub open spec fn error_type_name(t: ErrorType) -> Seq<char> {
    match t {
        ErrorType::InvalidFilter => "invalidFilter"@,
        ErrorType::TooMany => "tooMany"@,
        ErrorType::Uniqueness => "uniqueness"@,
        ErrorType::Mutability => "mutability"@,
        ErrorType::InvalidSyntax => "invalidSyntax"@,
        ErrorType::InvalidPath => "invalidPath"@,
        ErrorType::NoTarget => "noTarget"@,
        ErrorType::InvalidValue => "invalidValue"@,
        ErrorType::InvalidVers => "invalidVers"@,
        ErrorType::Sensitive => "sensitive"@,
    }
}

/// The camel-case wire name of each SCIM error type.
pub fn error_type_str(t: ErrorType) -> (r: &'static str)
    ensures
        r@ == error_type_name(t),
{
    match t {
        ErrorType::InvalidFilter => "invalidFilter",
        ErrorType::TooMany => "tooMany",
        ErrorType::Uniqueness => "uniqueness",
        ErrorType::Mutability => "mutability",
        ErrorType::InvalidSyntax => "invalidSyntax",
        ErrorType::InvalidPath => "invalidPath",
        ErrorType::NoTarget => "noTarget",
        ErrorType::InvalidValue => "invalidValue",
        ErrorType::InvalidVers => "invalidVers",
        ErrorType::Sensitive => "sensitive",
    }
}

/// Decimal digits of `v`, most significant first.
pub open spec fn u16_to_seq(v: u16) -> Seq<char> {
    crate::json::nat_digits(v as nat)
}

} // verus!

verus! {

/// Model of an error response.
pub struct SpecError {
    pub status: int,
    pub scim_type: Option<ErrorType>,
    pub detail: Seq<char>,
}

impl View for Error {
    type V = SpecError;

    open spec fn view(&self) -> SpecError {
        SpecError { status: self.status as int, scim_type: self.scim_type, detail: self.detail@ }
    }
}

} // verus!

verus! {

/// The wire document of an error: the error schema URN, the status as a
/// string, the SCIM error type when there is one, and the detail.
pub open spec fn sp_error_json(e: SpecError) -> crate::json::SpecJson {
    crate::json::SpecJson::Object(
        seq![
            (
                "schemas"@,
                crate::json::SpecJson::Array(
                    seq![
                        crate::json::SpecJson::Str("urn:ietf:params:scim:api:messages:2.0:Error"@),
                    ],
                ),
            ),
            ("status"@, crate::json::SpecJson::Str(crate::json::nat_digits(e.status as nat))),
        ] + (match e.scim_type {
            Some(t) => seq![("scimType"@, crate::json::SpecJson::Str(error_type_name(t)))],
            None => Seq::empty(),
        }) + seq![("detail"@, crate::json::SpecJson::Str(e.detail))],
    )
}

impl Error {
    /// Renders this error as its wire document.
    pub fn to_json(&self) -> (r: crate::json::JsonValue)
        ensures
            r@ == sp_error_json(self@),
    {
        let mut urns: Vec<crate::json::JsonValue> = Vec::new();
        urns.push(
            crate::json::JsonValue::Str(
                String::from_str("urn:ietf:params:scim:api:messages:2.0:Error"),
            ),
        );
        let ghost gurns = urns@;
        proof {
            crate::json::lemma_view_json_seq(gurns);
            assert(gurns.len() == 1);
            assert(crate::json::view_json_seq(gurns).len() == 1);
            assert(crate::json::view_json_seq(gurns)[0] == gurns[0]@);
            assert(gurns[0]@ == crate::json::SpecJson::Str(
                "urn:ietf:params:scim:api:messages:2.0:Error"@,
            ));
            assert(crate::json::view_json_seq(gurns) =~~= seq![
                crate::json::SpecJson::Str("urn:ietf:params:scim:api:messages:2.0:Error"@),
            ]);
        }
        let mut es: Vec<(String, crate::json::JsonValue)> = Vec::new();
        es.push((String::from_str("schemas"), crate::json::JsonValue::Array(urns)));
        es.push(
            (
                String::from_str("status"),
                crate::json::JsonValue::Str(crate::json::u16_to_string(self.status)),
            ),
        );
        match self.scim_type {
            Some(t) => {
                es.push(
                    (
                        String::from_str("scimType"),
                        crate::json::JsonValue::Str(String::from_str(error_type_str(t))),
                    ),
                );
            },
            None => {},
        }
        es.push((String::from_str("detail"), crate::json::JsonValue::Str(self.detail.clone())));
        let ghost ges = es@;
        proof {
            crate::json::lemma_view_json_entries(ges);
        }
        let r = crate::json::JsonValue::Object(es);
        proof {
            let ghost target = sp_error_json(self@)->Object_0;
            assert(crate::json::view_json_entries(ges)[0] == (ges[0].0@, ges[0].1@));
            assert(ges[0].0@ == "schemas"@);
            assert(ges[0].1@ == crate::json::SpecJson::Array(
                seq![
                    crate::json::SpecJson::Str("urn:ietf:params:scim:api:messages:2.0:Error"@),
                ],
            ));
            assert(ges[1].0@ == "status"@);
            assert(ges[1].1@ == crate::json::SpecJson::Str(
                crate::json::nat_digits(self.status as nat),
            ));
            match self.scim_type {
                Some(t) => {
                    assert(ges.len() == 4);
                    assert(ges[2].0@ == "scimType"@);
                    assert(ges[2].1@ == crate::json::SpecJson::Str(error_type_name(t)));
                    assert(ges[3].0@ == "detail"@);
                    assert(ges[3].1@ == crate::json::SpecJson::Str(self.detail@));
                    assert(target.len() == 4);
                    assert(target[0] == ("schemas"@, ges[0].1@));
                    assert(target[1] == ("status"@, ges[1].1@));
                    assert(target[2] == ("scimType"@, ges[2].1@));
                    assert(target[3] == ("detail"@, ges[3].1@));
                    assert(crate::json::view_json_entries(ges) =~~= target);
                },
                None => {
                    assert(ges.len() == 3);
                    assert(ges[2].0@ == "detail"@);
                    assert(ges[2].1@ == crate::json::SpecJson::Str(self.detail@));
                    assert(target.len() == 3);
                    assert(target[0] == ("schemas"@, ges[0].1@));
                    assert(target[1] == ("status"@, ges[1].1@));
                    assert(target[2] == ("detail"@, ges[2].1@));
                    assert(crate::json::view_json_entries(ges) =~~= target);
                },
            }
        }
        r
    }
}

} // verus!
