//! Resource types: named categories of resources exposed at an
//! endpoint, backed by a core schema and optional extension schemas.

use vstd::prelude::*;

use crate::meta::{Meta, SpecMeta};
use crate::reference::Reference;

verus! {

/// Model of a schema extension entry.
pub struct SpecSchemaExtension {
    pub schema: Seq<char>,
    pub required: bool,
}

/// An extension schema for a resource type.
#[derive(Debug, Clone, PartialEq, Eq)]
pub struct SchemaExtension {
    /// The schema ID.
    pub schema: String,
    /// Whether attributes from this schema are required when creating a
    /// resource of this type.
    pub required: bool,
}

impl View for SchemaExtension {
    type V = SpecSchemaExtension;

    open spec fn view(&self) -> SpecSchemaExtension {
        SpecSchemaExtension { schema: self.schema@, required: self.required }
    }
}

/// Models of a sequence of schema extensions, element-wise.
pub open spec fn view_extensions(vs: Seq<SchemaExtension>) -> Seq<SpecSchemaExtension>
    decreases vs,
{
    if vs.len() == 0 {
        Seq::empty()
    } else {
        view_extensions(vs.drop_last()).push(vs.last()@)
    }
}

/// The model of a sequence of schema extensions has the same length and
/// holds the models of its entries, in order.
pub proof fn lemma_view_extensions(vs: Seq<SchemaExtension>)
    ensures
        view_extensions(vs).len() == vs.len(),
        forall|i: int| 0 <= i < vs.len() ==> view_extensions(vs)[i] == #[trigger] vs[i]@,
    decreases vs,
{
    if vs.len() > 0 {
        lemma_view_extensions(vs.drop_last());
        assert(view_extensions(vs) == view_extensions(vs.drop_last()).push(vs.last()@));
        assert forall|i: int| 0 <= i < vs.len() implies view_extensions(vs)[i]
            == #[trigger] vs[i]@ by {
            if i < vs.len() - 1 {
                assert(vs.drop_last()[i] == vs[i]);
            } else {
                assert(vs.last() == vs[i]);
            }
        }
    }
}

/// Model of a resource type.
pub struct SpecResourceType {
    pub id: Option<Seq<char>>,
    pub name: Seq<char>,
    pub description: Option<Seq<char>>,
    pub endpoint: Seq<char>,
    pub schema: Seq<char>,
    pub schema_extensions: Seq<SpecSchemaExtension>,
    pub meta: SpecMeta,
}

/// A resource type.
#[derive(Debug, Clone, PartialEq, Eq)]
pub struct ResourceType {
    /// Optional ID for the resource type.
    pub id: Option<String>,
    /// Name of this resource type.
    pub name: String,
    /// Description of this resource type.
    pub description: Option<String>,
    /// The path of endpoints relating to this resource type, relative to
    /// the SCIM base URL.
    pub endpoint: String,
    /// The core schema ID for this resource type.
    pub schema: String,
    /// A list of extension schemas for this resource type.
    pub schema_extensions: Vec<SchemaExtension>,
    /// Metadata about this resource type.
    pub meta: Meta,
}

impl View for ResourceType {
    type V = SpecResourceType;

    open spec fn view(&self) -> SpecResourceType {
        SpecResourceType {
            id: match &self.id {
                Some(s) => Some(s@),
                None => None,
            },
            name: self.name@,
            description: match &self.description {
                Some(s) => Some(s@),
                None => None,
            },
            endpoint: self.endpoint@,
            schema: self.schema@,
            schema_extensions: view_extensions(self.schema_extensions@),
            meta: self.meta@,
        }
    }
}

impl ResourceType {
    /// Adds the location metadata to this resource type:
    /// `/ResourceTypes/<name>`.
    pub fn locate(&mut self)
        ensures
            final(self).id == old(self).id,
            final(self).name == old(self).name,
            final(self).description == old(self).description,
            final(self).endpoint == old(self).endpoint,
            final(self).schema == old(self).schema,
            final(self).schema_extensions == old(self).schema_extensions,
            final(self).meta.resource_type == old(self).meta.resource_type,
            final(self).meta.created == old(self).meta.created,
            final(self).meta.last_modified == old(self).meta.last_modified,
            final(self).meta.version == old(self).meta.version,
            final(self)@.meta.location == Some(
                crate::reference::SpecReference::Relative("/ResourceTypes/"@ + old(self).name@),
            ),
    {
        let mut path = String::from_str("/ResourceTypes/");
        path.append(self.name.as_str());
        self.meta.location = Some(Reference::new_relative(path.as_str()));
    }
}

/// The name of the resource type an endpoint is bound to.
#[derive(Debug, Clone, PartialEq, Eq)]
pub struct ResourceTypeName(pub String);

} // verus!

verus! {

/// Copies a resource-type document.
pub fn copy_resource_type(rt: &ResourceType) -> (r: ResourceType)
    ensures
        r@ == rt@,
{
    let mut exts: Vec<SchemaExtension> = Vec::new();
    let mut i: usize = 0;
    while i < rt.schema_extensions.len()
        invariant
            i <= rt.schema_extensions@.len(),
            exts@.len() == i,
            forall|k: int| 0 <= k < i ==> (#[trigger] exts@[k])@ == rt.schema_extensions@[k]@,
        decreases rt.schema_extensions@.len() - i,
    {
        let e = SchemaExtension {
            schema: rt.schema_extensions[i].schema.clone(),
            required: rt.schema_extensions[i].required,
        };
        exts.push(e);
        i = i + 1;
    }
    proof {
        lemma_view_extensions(exts@);
        lemma_view_extensions(rt.schema_extensions@);
        assert forall|k: int|
            0 <= k < exts@.len() implies view_extensions(exts@)[k] == view_extensions(
            rt.schema_extensions@,
        )[k] by {
            assert(exts@[k]@ == rt.schema_extensions@[k]@);
        }
        assert(view_extensions(exts@) =~= view_extensions(rt.schema_extensions@));
    }
    ResourceType {
        id: crate::meta::copy_opt_string(&rt.id),
        name: rt.name.clone(),
        description: crate::meta::copy_opt_string(&rt.description),
        endpoint: rt.endpoint.clone(),
        schema: rt.schema.clone(),
        schema_extensions: exts,
        meta: crate::meta::copy_meta(&rt.meta),
    }
}

} // verus!
