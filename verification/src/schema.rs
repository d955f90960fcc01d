//! SCIM schemas: URN-identified, ordered collections of attribute
//! definitions, immutable once registered.

use vstd::prelude::*;

use crate::meta::{Meta, SpecMeta};
use crate::reference::Reference;

verus! {

/// The data type of an attribute.
#[derive(Debug, Clone, Copy, PartialEq, Eq, Structural)]
pub enum Type {
    /// A string.
    String,
    /// A boolean.
    Boolean,
    /// A decimal number.
    Decimal,
    /// An integer.
    Integer,
    /// A date and time.
    DateTime,
    /// Binary data (encoded in base64).
    Binary,
    /// A reference to another resource or external URL.
    Reference,
    /// A complex type with sub-attributes.
    Complex,
}

impl Default for Type {
    /// The default data type is `string`.
    fn default() -> (r: Type)
        ensures
            r == Type::String,
    {
        Type::String
    }
}

/// The mutability of an attribute.
#[derive(Debug, Clone, Copy, PartialEq, Eq, Structural)]
pub enum Mutability {
    /// Clients can only read this attribute.
    ReadOnly,
    /// Clients can read and write this attribute (default).
    ReadWrite,
    /// Clients can set this value on creation, but not update it.
    Immutable,
    /// Clients can write this attribute, but not read it.
    WriteOnly,
}

impl Default for Mutability {
    /// The default mutability is `readWrite`.
    fn default() -> (r: Mutability)
        ensures
            r == Mutability::ReadWrite,
    {
        Mutability::ReadWrite
    }
}

/// When an attribute is returned.
#[derive(Debug, Clone, Copy, PartialEq, Eq, Structural)]
pub enum Returned {
    /// The attribute is always returned.
    Always,
    /// The attribute is never returned.
    Never,
    /// The attribute is returned by default (default).
    Default,
    /// The attribute is returned on request.
    Request,
}

impl Default for Returned {
    /// The default returned class is `default`.
    fn default() -> (r: Returned)
        ensures
            r == Returned::Default,
    {
        Returned::Default
    }
}

/// The uniqueness of an attribute.
#[derive(Debug, Clone, Copy, PartialEq, Eq, Structural)]
pub enum Uniqueness {
    /// The attribute is not unique (default).
    NotUnique,
    /// The attribute is unique on this server.
    Server,
    /// The attribute is globally unique.
    Global,
}

impl Default for Uniqueness {
    /// The default uniqueness is `none`.
    fn default() -> (r: Uniqueness)
        ensures
            r == Uniqueness::NotUnique,
    {
        Uniqueness::NotUnique
    }
}

/// Model of an attribute definition.
pub struct SpecAttribute {
    pub name: Seq<char>,
    pub type_: Type,
    pub multi_valued: bool,
    pub description: Seq<char>,
    pub required: bool,
    pub canonical_values: Option<Seq<Seq<char>>>,
    pub case_exact: bool,
    pub mutability: Mutability,
    pub returned: Returned,
    pub uniqueness: Uniqueness,
    pub reference_types: Option<Seq<Seq<char>>>,
    pub sub_attributes: Option<Seq<SpecAttribute>>,
}

/// A single attribute of a SCIM schema.
#[derive(Debug, PartialEq, Eq)]
pub struct Attribute {
    /// The name of the attribute.
    pub name: String,
    /// The data type of the attribute.
    pub type_: Type,
    /// Whether the attribute is multi-valued.
    pub multi_valued: bool,
    /// A human-readable description of the attribute.
    pub description: String,
    /// Whether the attribute is required.
    pub required: bool,
    /// A list of canonical values for the attribute.
    pub canonical_values: Option<Vec<String>>,
    /// Whether the attribute is case-sensitive.
    pub case_exact: bool,
    /// The mutability of the attribute.
    pub mutability: Mutability,
    /// When the attribute is returned.
    pub returned: Returned,
    /// The uniqueness of the attribute.
    pub uniqueness: Uniqueness,
    /// If this attribute is a reference, the types of resources it
    /// references.
    pub reference_types: Option<Vec<String>>,
    /// If this attribute is a complex type, the sub-attributes that form
    /// it.
    pub sub_attributes: Option<Vec<Attribute>>,
}

/// Models of a sequence of strings, element-wise.
pub open spec fn view_strings(vs: Seq<String>) -> Seq<Seq<char>>
    decreases vs,
{
    if vs.len() == 0 {
        Seq::empty()
    } else {
        view_strings(vs.drop_last()).push(vs.last()@)
    }
}

/// Models of a sequence of attributes, element-wise.
pub open spec fn view_attrs(vs: Seq<Attribute>) -> Seq<SpecAttribute>
    decreases vs,
{
    if vs.len() == 0 {
        Seq::empty()
    } else {
        view_attrs(vs.drop_last()).push(vs.last()@)
    }
}

/// The model of a sequence of attributes has the same length and holds
/// the models of its elements, in order.
pub proof fn lemma_view_attrs(vs: Seq<Attribute>)
    ensures
        view_attrs(vs).len() == vs.len(),
        forall|i: int| 0 <= i < vs.len() ==> view_attrs(vs)[i] == #[trigger] vs[i]@,
    decreases vs,
{
    if vs.len() > 0 {
        lemma_view_attrs(vs.drop_last());
        assert(view_attrs(vs) == view_attrs(vs.drop_last()).push(vs.last()@));
        assert forall|i: int| 0 <= i < vs.len() implies view_attrs(vs)[i] == #[trigger] vs[i]@ by {
            if i < vs.len() - 1 {
                assert(vs.drop_last()[i] == vs[i]);
            } else {
                assert(vs.last() == vs[i]);
            }
        }
    }
}

impl View for Attribute {
    type V = SpecAttribute;

    open spec fn view(&self) -> SpecAttribute
        decreases self,
    {
        SpecAttribute {
            name: self.name@,
            type_: self.type_,
            multi_valued: self.multi_valued,
            description: self.description@,
            required: self.required,
            canonical_values: match &self.canonical_values {
                Some(vs) => Some(view_strings(vs@)),
                None => None,
            },
            case_exact: self.case_exact,
            mutability: self.mutability,
            returned: self.returned,
            uniqueness: self.uniqueness,
            reference_types: match &self.reference_types {
                Some(vs) => Some(view_strings(vs@)),
                None => None,
            },
            sub_attributes: match &self.sub_attributes {
                Some(vs) => Some(view_attrs(vs@)),
                None => None,
            },
        }
    }
}

impl Attribute {
    /// Construct a new attribute with the given name and type; every
    /// other property takes its default.
    pub fn new(name: String, type_: Type) -> (r: Attribute)
        ensures
            r@ == (SpecAttribute {
                name: name@,
                type_: type_,
                multi_valued: false,
                description: Seq::empty(),
                required: false,
                canonical_values: None,
                case_exact: false,
                mutability: Mutability::ReadWrite,
                returned: Returned::Default,
                uniqueness: Uniqueness::NotUnique,
                reference_types: None,
                sub_attributes: None,
            }),
    {
        Attribute {
            name,
            type_,
            multi_valued: false,
            description: String::new(),
            required: false,
            canonical_values: None,
            case_exact: false,
            mutability: Mutability::ReadWrite,
            returned: Returned::Default,
            uniqueness: Uniqueness::NotUnique,
            reference_types: None,
            sub_attributes: None,
        }
    }

    /// Set the attribute as multi-valued.
    pub fn multi_valued(self) -> (r: Attribute)
        ensures
            r@ == (SpecAttribute { multi_valued: true, ..self@ }),
    {
        Attribute { multi_valued: true, ..self }
    }

    /// Set the attribute as required.
    pub fn required(self) -> (r: Attribute)
        ensures
            r@ == (SpecAttribute { required: true, ..self@ }),
    {
        Attribute { required: true, ..self }
    }

    /// Set the attribute as case-sensitive.
    pub fn case_exact(self) -> (r: Attribute)
        ensures
            r@ == (SpecAttribute { case_exact: true, ..self@ }),
    {
        Attribute { case_exact: true, ..self }
    }

    /// Set the sub-attributes of this attribute.
    pub fn sub_attributes(self, sub_attributes: Vec<Attribute>) -> (r: Attribute)
        ensures
            r@ == (SpecAttribute { sub_attributes: Some(view_attrs(sub_attributes@)), ..self@ }),
    {
        Attribute { sub_attributes: Some(sub_attributes), ..self }
    }

    /// Set this attribute as immutable.
    pub fn immutable(self) -> (r: Attribute)
        ensures
            r@ == (SpecAttribute { mutability: Mutability::Immutable, ..self@ }),
    {
        Attribute { mutability: Mutability::Immutable, ..self }
    }

    /// Set this attribute as read-only.
    pub fn read_only(self) -> (r: Attribute)
        ensures
            r@ == (SpecAttribute { mutability: Mutability::ReadOnly, ..self@ }),
    {
        Attribute { mutability: Mutability::ReadOnly, ..self }
    }

    /// Set this attribute as write-only.
    pub fn write_only(self) -> (r: Attribute)
        ensures
            r@ == (SpecAttribute { mutability: Mutability::WriteOnly, ..self@ }),
    {
        Attribute { mutability: Mutability::WriteOnly, ..self }
    }

    /// Set this attribute as always returned.
    pub fn always_returned(self) -> (r: Attribute)
        ensures
            r@ == (SpecAttribute { returned: Returned::Always, ..self@ }),
    {
        Attribute { returned: Returned::Always, ..self }
    }

    /// Set this attribute as never returned.
    pub fn never_returned(self) -> (r: Attribute)
        ensures
            r@ == (SpecAttribute { returned: Returned::Never, ..self@ }),
    {
        Attribute { returned: Returned::Never, ..self }
    }

    /// Set this attribute as returned on request.
    pub fn returned_on_request(self) -> (r: Attribute)
        ensures
            r@ == (SpecAttribute { returned: Returned::Request, ..self@ }),
    {
        Attribute { returned: Returned::Request, ..self }
    }

    /// Set this attribute as unique on this server.
    pub fn unique(self) -> (r: Attribute)
        ensures
            r@ == (SpecAttribute { uniqueness: Uniqueness::Server, ..self@ }),
    {
        Attribute { uniqueness: Uniqueness::Server, ..self }
    }

    /// Set this attribute as globally unique.
    pub fn globally_unique(self) -> (r: Attribute)
        ensures
            r@ == (SpecAttribute { uniqueness: Uniqueness::Global, ..self@ }),
    {
        Attribute { uniqueness: Uniqueness::Global, ..self }
    }

    /// Set the types of resources this attribute can reference.
    pub fn reference_types(self, reference_types: Vec<String>) -> (r: Attribute)
        ensures
            r@ == (SpecAttribute {
                reference_types: Some(view_strings(reference_types@)),
                ..self@
            }),
    {
        Attribute { reference_types: Some(reference_types), ..self }
    }
}

/// Model of a schema.
pub struct SpecSchema {
    pub id: Seq<char>,
    pub name: Seq<char>,
    pub description: Seq<char>,
    pub attributes: Seq<SpecAttribute>,
    pub meta: SpecMeta,
}

/// A SCIM schema: a URN-identified, ordered list of attribute
/// definitions.
#[derive(Debug, PartialEq, Eq)]
pub struct Schema {
    /// The unique identifier (URN) of the schema.
    pub id: String,
    /// The name of the schema.
    pub name: String,
    /// A human-readable description of the schema.
    pub description: String,
    /// The attributes that form the schema.
    pub attributes: Vec<Attribute>,
    /// Metadata about the schema.
    pub meta: Meta,
}

impl View for Schema {
    type V = SpecSchema;

    open spec fn view(&self) -> SpecSchema {
        SpecSchema {
            id: self.id@,
            name: self.name@,
            description: self.description@,
            attributes: view_attrs(self.attributes@),
            meta: self.meta@,
        }
    }
}

impl Schema {
    /// Adds the location metadata to this schema: `/Schemas/<id>`.
    pub fn locate(&mut self)
        ensures
            final(self).id == old(self).id,
            final(self).name == old(self).name,
            final(self).description == old(self).description,
            final(self).attributes == old(self).attributes,
            final(self).meta.resource_type == old(self).meta.resource_type,
            final(self).meta.created == old(self).meta.created,
            final(self).meta.last_modified == old(self).meta.last_modified,
            final(self).meta.version == old(self).meta.version,
            final(self)@.meta.location == Some(
                crate::reference::SpecReference::Relative("/Schemas/"@ + old(self).id@),
            ),
    {
        let mut path = String::from_str("/Schemas/");
        path.append(self.id.as_str());
        self.meta.location = Some(Reference::new_relative(path.as_str()));
    }
}

} // verus!

verus! {

/// Structural size of an attribute, a termination measure for functions
/// that walk attributes through their sub-attribute vectors.
pub open spec fn attribute_size(a: Attribute) -> nat
    decreases a,
{
    match a.sub_attributes {
        Some(subs) => 1 + attributes_size(subs@),
        None => 1,
    }
}

/// Structural size of a sequence of attributes.
pub open spec fn attributes_size(vs: Seq<Attribute>) -> nat
    decreases vs,
{
    if vs.len() == 0 {
        0
    } else {
        attributes_size(vs.drop_last()) + attribute_size(vs.last()) + 1
    }
}

/// Copies an optional list of strings.
fn copy_opt_strings(vs: &Option<Vec<String>>) -> (r: Option<Vec<String>>)
    ensures
        match (vs, &r) {
            (Some(a), Some(b)) => view_strings(b@) == view_strings(a@),
            (None, None) => true,
            _ => false,
        },
{
    match vs {
        Some(a) => {
            let mut b: Vec<String> = Vec::new();
            let mut i: usize = 0;
            while i < a.len()
                invariant
                    i <= a@.len(),
                    b@.len() == i,
                    forall|k: int| 0 <= k < i ==> (#[trigger] b@[k])@ == a@[k]@,
                decreases a@.len() - i,
            {
                b.push(a[i].clone());
                i = i + 1;
            }
            proof {
                lemma_view_strings_elems(a@);
                lemma_view_strings_elems(b@);
                assert forall|k: int| 0 <= k < a@.len() implies view_strings(b@)[k]
                    == view_strings(a@)[k] by {
                    assert(b@[k]@ == a@[k]@);
                }
                assert(view_strings(b@) =~= view_strings(a@));
            }
            Some(b)
        },
        None => None,
    }
}

/// The model of a sequence of strings has the same length and holds the
/// models of its elements, in order.
pub proof fn lemma_view_strings_elems(vs: Seq<String>)
    ensures
        view_strings(vs).len() == vs.len(),
        forall|i: int| 0 <= i < vs.len() ==> view_strings(vs)[i] == #[trigger] vs[i]@,
    decreases vs,
{
    if vs.len() > 0 {
        lemma_view_strings_elems(vs.drop_last());
        assert(view_strings(vs) == view_strings(vs.drop_last()).push(vs.last()@));
        assert forall|i: int| 0 <= i < vs.len() implies view_strings(vs)[i]
            == #[trigger] vs[i]@ by {
            if i < vs.len() - 1 {
                assert(vs.drop_last()[i] == vs[i]);
            } else {
                assert(vs.last() == vs[i]);
            }
        }
    }
}

/// Copies one attribute definition.
pub fn copy_attribute(a: &Attribute) -> (r: Attribute)
    ensures
        r@ == a@,
    decreases attribute_size(*a),
{
    Attribute {
        name: a.name.clone(),
        type_: a.type_,
        multi_valued: a.multi_valued,
        description: a.description.clone(),
        required: a.required,
        canonical_values: copy_opt_strings(&a.canonical_values),
        case_exact: a.case_exact,
        mutability: a.mutability,
        returned: a.returned,
        uniqueness: a.uniqueness,
        reference_types: copy_opt_strings(&a.reference_types),
        sub_attributes: match &a.sub_attributes {
            Some(subs) => Some(copy_attributes(subs)),
            None => None,
        },
    }
}

/// Copies a list of attribute definitions.
pub fn copy_attributes(vs: &Vec<Attribute>) -> (r: Vec<Attribute>)
    ensures
        view_attrs(r@) == view_attrs(vs@),
    decreases attributes_size(vs@),
{
    let mut r: Vec<Attribute> = Vec::new();
    let mut i: usize = 0;
    while i < vs.len()
        invariant
            i <= vs@.len(),
            r@.len() == i,
            forall|k: int| 0 <= k < i ==> (#[trigger] r@[k])@ == vs@[k]@,
        decreases vs@.len() - i,
    {
        proof {
            lemma_attributes_size_elem(vs@, i as int);
        }
        let a = copy_attribute(&vs[i]);
        r.push(a);
        i = i + 1;
    }
    proof {
        lemma_view_attrs(vs@);
        lemma_view_attrs(r@);
        assert forall|k: int| 0 <= k < vs@.len() implies view_attrs(r@)[k] == view_attrs(
            vs@,
        )[k] by {
            assert(r@[k]@ == vs@[k]@);
        }
        assert(view_attrs(r@) =~= view_attrs(vs@));
    }
    r
}

/// Each element's size is bounded by the whole vector's size measure.
proof fn lemma_attributes_size_elem(vs: Seq<Attribute>, i: int)
    requires
        0 <= i < vs.len(),
    ensures
        attribute_size(vs[i]) < attributes_size(vs),
    decreases vs,
{
    if i == vs.len() - 1 {
        assert(vs.last() == vs[i]);
    } else {
        lemma_attributes_size_elem(vs.drop_last(), i);
        assert(vs.drop_last()[i] == vs[i]);
    }
}

/// Copies a schema document.
pub fn copy_schema(s: &Schema) -> (r: Schema)
    ensures
        r@ == s@,
{
    Schema {
        id: s.id.clone(),
        name: s.name.clone(),
        description: s.description.clone(),
        attributes: copy_attributes(&s.attributes),
        meta: crate::meta::copy_meta(&s.meta),
    }
}

} // verus!
