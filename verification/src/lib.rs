//! A verified core for a SCIM v2 (RFC 7643/7644) protocol engine.
//!
//! The crate parses SCIM filter and path expressions into typed syntax
//! trees, normalizes attribute casing against registered schemas, computes
//! the optional-attribute selection for a request, translates PATCH
//! documents into flat update items, and resolves HTTP-shaped requests to
//! resource-manager operations and response envelopes.  Transport, JSON
//! encoding and storage stay outside; the engine works on plain values.

pub mod args;
pub mod config;
pub mod error;
pub mod filter;
pub mod grammar;
pub mod json;
pub mod list;
pub mod manager;
pub mod meta;
pub mod normalize;
mod parse;
pub mod print;
pub mod reference;
pub mod resource_type;
pub mod router;
pub mod schema;
pub mod select;
pub mod state;
mod text;
pub mod update;

pub use error::{Error, ErrorType};
pub use filter::{AttrPath, AttrPathRef, CompValue, CompareOp, Filter, ValuePath};
pub use filter::{parse_attr_path, parse_filter, parse_value_path};
pub use json::JsonValue;
pub use list::ListResponse;
pub use manager::{
    GetResourceArgs, ListResourceArgs, ListResourceResult, SortOrder, UpdateOp,
    UpdateResourceArgs, UpdateResourceItem,
};
pub use meta::{Meta, meta_created, meta_last_modified, meta_resource_type, meta_version};
pub use reference::Reference;
pub use resource_type::{ResourceType, ResourceTypeName, SchemaExtension};
pub use router::{
    Cont, ManagerCall, ManagerOp, ManagerOutcome, Method, Request, Response, ResponseBody, Route,
    Step, begin, resolve, resume,
};
pub use schema::{Attribute, Mutability, Returned, Schema, Type, Uniqueness};
pub use state::{Cream, CreamBuilder, ResourceTypeState};
pub use text::eq_ignore_ascii_case;
pub use update::{PatchOperation, PatchOperationType};
