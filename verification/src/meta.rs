//! Server-maintained metadata attached to every resource document, and
//! the well-known `meta` attribute paths.

use vstd::prelude::*;

use crate::filter::AttrPathRef;
use crate::reference::{Reference, SpecReference};

verus! {

/// Model of resource metadata.
pub struct SpecMeta {
    pub resource_type: Seq<char>,
    pub created: Option<Seq<char>>,
    pub last_modified: Option<Seq<char>>,
    pub location: Option<SpecReference>,
    pub version: Option<Seq<char>>,
}

/// Metadata about a resource.  Timestamps are carried as their RFC 3339
/// text.
#[derive(Debug, Clone, PartialEq, Eq)]
pub struct Meta {
    /// The type of resource.
    pub resource_type: String,
    /// When the resource was created.
    pub created: Option<String>,
    /// When the resource was last modified.
    pub last_modified: Option<String>,
    /// The URL of the resource.
    pub location: Option<Reference>,
    /// The current version of the resource.
    pub version: Option<String>,
}

impl View for Meta {
    type V = SpecMeta;

    open spec fn view(&self) -> SpecMeta {
        SpecMeta {
            resource_type: self.resource_type@,
            created: match &self.created {
                Some(s) => Some(s@),
                None => None,
            },
            last_modified: match &self.last_modified {
                Some(s) => Some(s@),
                None => None,
            },
            location: match &self.location {
                Some(l) => Some(l@),
                None => None,
            },
            version: match &self.version {
                Some(s) => Some(s@),
                None => None,
            },
        }
    }
}

impl Meta {
    /// Fresh metadata naming only the resource type.
    pub fn new(resource_type: &str) -> (r: Meta)
        ensures
            r@ == (SpecMeta {
                resource_type: resource_type@,
                created: None,
                last_modified: None,
                location: None,
                version: None,
            }),
    {
        Meta {
            resource_type: String::from_str(resource_type),
            created: None,
            last_modified: None,
            location: None,
            version: None,
        }
    }
}

/// Common `meta.resourceType` attribute path.
pub fn meta_resource_type() -> (r: AttrPathRef<'static>)
    ensures
        r@ == crate::filter::sp_meta_resource_type_path(),
{
    AttrPathRef { urn: None, name: "meta", sub_attr: Some("resourceType") }
}

/// Common `meta.created` attribute path.
pub fn meta_created() -> (r: AttrPathRef<'static>)
    ensures
        r@.urn is None && r@.name == "meta"@ && r@.sub_attr == Some("created"@),
{
    AttrPathRef { urn: None, name: "meta", sub_attr: Some("created") }
}

/// Common `meta.lastModified` attribute path.
pub fn meta_last_modified() -> (r: AttrPathRef<'static>)
    ensures
        r@.urn is None && r@.name == "meta"@ && r@.sub_attr == Some("lastModified"@),
{
    AttrPathRef { urn: None, name: "meta", sub_attr: Some("lastModified") }
}

/// Common `meta.version` attribute path.
pub fn meta_version() -> (r: AttrPathRef<'static>)
    ensures
        r@.urn is None && r@.name == "meta"@ && r@.sub_attr == Some("version"@),
{
    AttrPathRef { urn: None, name: "meta", sub_attr: Some("version") }
}

} // verus!

verus! {

/// Copies an optional string.
pub fn copy_opt_string(o: &Option<String>) -> (r: Option<String>)
    ensures
        match (o, &r) {
            (Some(a), Some(b)) => a@ == b@,
            (None, None) => true,
            _ => false,
        },
{
    match o {
        Some(s) => Some(s.clone()),
        None => None,
    }
}

/// Copies a reference.
pub fn copy_reference(o: &Reference) -> (r: Reference)
    ensures
        r@ == o@,
{
    match &o.0 {
        crate::reference::ReferenceInner::Absolute(s) => Reference(
            crate::reference::ReferenceInner::Absolute(s.clone()),
        ),
        crate::reference::ReferenceInner::Relative(s) => Reference(
            crate::reference::ReferenceInner::Relative(s.clone()),
        ),
    }
}

/// Copies resource metadata.
pub fn copy_meta(m: &Meta) -> (r: Meta)
    ensures
        r@ == m@,
{
    Meta {
        resource_type: m.resource_type.clone(),
        created: copy_opt_string(&m.created),
        last_modified: copy_opt_string(&m.last_modified),
        location: match &m.location {
            Some(l) => Some(copy_reference(l)),
            None => None,
        },
        version: copy_opt_string(&m.version),
    }
}

} // verus!
