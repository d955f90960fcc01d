//! The attribute normalizer: rewrites attribute names and URNs in
//! filters and paths to the casing a resource type's schemas declare.
//!
//! An explicit URN picks the core schema or a matching extension schema;
//! without one the core schema applies.  Names are matched
//! ASCII-case-insensitively and replaced by the declared spelling;
//! unknown attributes are left alone, and the downstream manager is free
//! to reject them.

use vstd::prelude::*;

use crate::filter::{
    AttrPath, Filter, SpecAttrPath, SpecFilter, ValuePath, SpecValuePath, view_filters,
    lemma_view_filters, filter_size, filters_size,
};
use crate::schema::{Attribute, Schema, SpecAttribute, SpecSchema, view_attrs, lemma_view_attrs};
use crate::text::{seq_ieq, eq_ignore_ascii_case};

verus! {

/// Models of a sequence of borrowed schemas, element-wise.
pub open spec fn view_schemas(vs: Seq<&Schema>) -> Seq<SpecSchema>
    decreases vs,
{
    if vs.len() == 0 {
        Seq::empty()
    } else {
        view_schemas(vs.drop_last()).push(vs.last()@)
    }
}

/// The model of a sequence of borrowed schemas has the same length and
/// holds the models of its elements, in order.
pub proof fn lemma_view_schemas(vs: Seq<&Schema>)
    ensures
        view_schemas(vs).len() == vs.len(),
        forall|i: int| 0 <= i < vs.len() ==> view_schemas(vs)[i] == #[trigger] vs[i]@,
    decreases vs,
{
    if vs.len() > 0 {
        lemma_view_schemas(vs.drop_last());
        assert(view_schemas(vs) == view_schemas(vs.drop_last()).push(vs.last()@));
        assert forall|i: int| 0 <= i < vs.len() implies view_schemas(vs)[i] == #[trigger] vs[i]@ by {
            if i < vs.len() - 1 {
                assert(vs.drop_last()[i] == vs[i]);
            } else {
                assert(vs.last() == vs[i]);
            }
        }
    }
}

/// The first attribute whose declared name matches `name`,
/// ASCII-case-insensitively.
pub open spec fn sp_find_attr(attrs: Seq<SpecAttribute>, name: Seq<char>) -> Option<SpecAttribute>
    decreases attrs,
{
    if attrs.len() == 0 {
        None
    } else if seq_ieq(attrs.first().name, name) {
        Some(attrs.first())
    } else {
        sp_find_attr(attrs.drop_first(), name)
    }
}

/// The declared casing of `name` under `schema`: looked up among the
/// schema's attributes, or — under a parent attribute — among that
/// attribute's sub-attributes; an unknown name is left alone.
pub open spec fn sp_fix_name(
    schema: SpecSchema,
    name: Seq<char>,
    parent_name: Option<Seq<char>>,
) -> Seq<char> {
    match parent_name {
        Some(pn) => match sp_find_attr(schema.attributes, pn) {
            Some(pa) => match pa.sub_attributes {
                Some(subs) => match sp_find_attr(subs, name) {
                    Some(sa) => sa.name,
                    None => name,
                },
                None => name,
            },
            None => name,
        },
        None => match sp_find_attr(schema.attributes, name) {
            Some(a) => a.name,
            None => name,
        },
    }
}

/// Canonical form of a path under one schema: the URN cleared (core) or
/// set to the schema's declared URN (extension), and both names put in
/// declared casing.
pub open spec fn sp_fix_path(
    schema: SpecSchema,
    p: SpecAttrPath,
    parent_name: Option<Seq<char>>,
    is_core: bool,
) -> SpecAttrPath {
    let name2 = sp_fix_name(schema, p.name, parent_name);
    SpecAttrPath {
        urn: if is_core {
            None
        } else {
            Some(schema.id)
        },
        name: name2,
        sub_attr: match p.sub_attr {
            Some(s) => Some(sp_fix_name(schema, s, Some(name2))),
            None => None,
        },
    }
}

/// The first schema whose URN matches `urn`, ASCII-case-insensitively.
pub open spec fn sp_find_schema(schemas: Seq<SpecSchema>, urn: Seq<char>) -> Option<SpecSchema>
    decreases schemas,
{
    if schemas.len() == 0 {
        None
    } else if seq_ieq(schemas.first().id, urn) {
        Some(schemas.first())
    } else {
        sp_find_schema(schemas.drop_first(), urn)
    }
}

/// Canonical form of one attribute path: the effective URN (the path's
/// own, or the parent's) picks the core schema, an extension schema, or
/// — unknown — leaves the path alone.
pub open spec fn sp_visit_path(
    core: SpecSchema,
    exts: Seq<SpecSchema>,
    parent: Option<SpecAttrPath>,
    p: SpecAttrPath,
) -> SpecAttrPath {
    let parent_name = match parent {
        Some(pp) => Some(pp.name),
        None => None,
    };
    let urn_eff = match p.urn {
        Some(u) => Some(u),
        None => match parent {
            Some(pp) => pp.urn,
            None => None,
        },
    };
    match urn_eff {
        Some(u) => if seq_ieq(u, core.id) {
            sp_fix_path(core, p, parent_name, true)
        } else {
            match sp_find_schema(exts, u) {
                Some(ext) => sp_fix_path(ext, p, parent_name, false),
                None => p,
            }
        },
        None => sp_fix_path(core, p, parent_name, true),
    }
}

/// Canonical form of a filter: every attribute path rewritten; inside a
/// value filter the paths are rewritten in the scope of the parent
/// attribute the parser recorded on them.
pub open spec fn sp_visit_filter(
    core: SpecSchema,
    exts: Seq<SpecSchema>,
    parent: Option<SpecAttrPath>,
    f: SpecFilter,
) -> SpecFilter
    decreases f,
{
    match f {
        SpecFilter::Present(p) => SpecFilter::Present(sp_visit_path(core, exts, parent, p)),
        SpecFilter::Compare(p, op, v) => SpecFilter::Compare(
            sp_visit_path(core, exts, parent, p),
            op,
            v,
        ),
        SpecFilter::Has(p, inner) => SpecFilter::Has(
            sp_visit_path(core, exts, Some(p), p),
            Box::new(sp_visit_filter(core, exts, Some(p), *inner)),
        ),
        SpecFilter::And(fs) => SpecFilter::And(sp_visit_filters(core, exts, parent, fs)),
        SpecFilter::Or(fs) => SpecFilter::Or(sp_visit_filters(core, exts, parent, fs)),
        SpecFilter::Not(inner) => SpecFilter::Not(
            Box::new(sp_visit_filter(core, exts, parent, *inner)),
        ),
    }
}

/// Canonical form of each filter in a sequence.
pub open spec fn sp_visit_filters(
    core: SpecSchema,
    exts: Seq<SpecSchema>,
    parent: Option<SpecAttrPath>,
    fs: Seq<SpecFilter>,
) -> Seq<SpecFilter>
    decreases fs,
{
    if fs.len() == 0 {
        Seq::empty()
    } else {
        sp_visit_filters(core, exts, parent, fs.drop_last()).push(
            sp_visit_filter(core, exts, parent, fs.last()),
        )
    }
}

/// Canonical form of a value path.
pub open spec fn sp_visit_value_path(
    core: SpecSchema,
    exts: Seq<SpecSchema>,
    vp: SpecValuePath,
) -> SpecValuePath {
    match vp {
        SpecValuePath::Attr(p) => SpecValuePath::Attr(sp_visit_path(core, exts, None, p)),
        SpecValuePath::Filtered(p, f) => SpecValuePath::Filtered(
            sp_visit_path(core, exts, None, p),
            sp_visit_filter(core, exts, None, f),
        ),
    }
}

/// Looks the first ASCII-case-insensitive match for `name` up among
/// `attrs`.
fn find_attr<'a>(attrs: &'a Vec<Attribute>, name: &str) -> (r: Option<&'a Attribute>)
    ensures
        match r {
            Some(a) => sp_find_attr(view_attrs(attrs@), name@) == Some(a@),
            None => sp_find_attr(view_attrs(attrs@), name@) is None,
        },
{
    proof {
        lemma_view_attrs(attrs@);
        assert(view_attrs(attrs@).skip(0) =~= view_attrs(attrs@));
    }
    let mut i: usize = 0;
    while i < attrs.len()
        invariant
            i <= attrs@.len(),
            view_attrs(attrs@).len() == attrs@.len(),
            forall|k: int| 0 <= k < attrs@.len() ==> view_attrs(attrs@)[k] == #[trigger] attrs@[k]@,
            sp_find_attr(view_attrs(attrs@), name@) == sp_find_attr(
                view_attrs(attrs@).skip(i as int),
                name@,
            ),
        decreases attrs@.len() - i,
    {
        proof {
            assert(view_attrs(attrs@)[i as int] == attrs@[i as int]@);
            assert(view_attrs(attrs@).skip(i as int).first() == view_attrs(attrs@)[i as int]);
            assert(view_attrs(attrs@).skip(i as int).drop_first() =~= view_attrs(attrs@).skip(
                i as int + 1,
            ));
        }
        if eq_ignore_ascii_case(attrs[i].name.as_str(), name) {
            return Some(&attrs[i]);
        }
        i = i + 1;
    }
    proof {
        assert(view_attrs(attrs@).skip(i as int).len() == 0);
    }
    None
}

/// The declared casing of `name` under `schema`, possibly in the scope
/// of a parent attribute.
fn fix_name(schema: &Schema, name: &str, parent_name: Option<&str>) -> (r: String)
    ensures
        match parent_name {
            Some(pn) => r@ == sp_fix_name(schema@, name@, Some(pn@)),
            None => r@ == sp_fix_name(schema@, name@, None),
        },
{
    match parent_name {
        Some(pn) => {
            match find_attr(&schema.attributes, pn) {
                Some(pa) => {
                    match &pa.sub_attributes {
                        Some(subs) => {
                            match find_attr(subs, name) {
                                Some(sa) => sa.name.clone(),
                                None => String::from_str(name),
                            }
                        },
                        None => String::from_str(name),
                    }
                },
                None => String::from_str(name),
            }
        },
        None => {
            match find_attr(&schema.attributes, name) {
                Some(a) => a.name.clone(),
                None => String::from_str(name),
            }
        },
    }
}

/// Rewrites one attribute path to the casing `schema` declares; the URN
/// is cleared for the core schema and set to the schema's URN otherwise.
pub fn fix_attribute_casing(
    schema: &Schema,
    attr: &mut AttrPath,
    parent_name: Option<&str>,
    is_core: bool,
)
    ensures
        final(attr)@ == sp_fix_path(
            schema@,
            old(attr)@,
            match parent_name {
                Some(pn) => Some(pn@),
                None => None,
            },
            is_core,
        ),
{
    if is_core {
        attr.urn = None;
    } else {
        attr.urn = Some(schema.id.clone());
    }
    let name2 = match parent_name {
        Some(pn) => fix_name(schema, attr.name.as_str(), Some(pn)),
        None => fix_name(schema, attr.name.as_str(), None),
    };
    attr.name = name2;
    let fixed_sub = match &attr.sub_attr {
        Some(s) => Some(fix_name(schema, s.as_str(), Some(attr.name.as_str()))),
        None => None,
    };
    attr.sub_attr = fixed_sub;
}

/// Rewrites one attribute path to canonical form against the core
/// schema and the extension schemas, in the scope of an optional parent
/// attribute.
pub fn visit_attr_path(
    core: &Schema,
    exts: &Vec<&Schema>,
    parent: Option<&AttrPath>,
    attr: &mut AttrPath,
)
    ensures
        final(attr)@ == sp_visit_path(
            core@,
            view_schemas(exts@),
            match parent {
                Some(pp) => Some(pp@),
                None => None,
            },
            old(attr)@,
        ),
{
    proof {
        lemma_view_schemas(exts@);
        assert(view_schemas(exts@).skip(0) =~= view_schemas(exts@));
    }
    let parent_name: Option<&str> = match parent {
        Some(pp) => Some(pp.name.as_str()),
        None => None,
    };
    let has_urn: Option<String> = match &attr.urn {
        Some(u) => Some(u.clone()),
        None => match parent {
            Some(pp) => match &pp.urn {
                Some(u) => Some(u.clone()),
                None => None,
            },
            None => None,
        },
    };
    match has_urn {
        Some(u) => {
            if eq_ignore_ascii_case(u.as_str(), core.id.as_str()) {
                match parent_name {
                    Some(pn) => fix_attribute_casing(core, attr, Some(pn), true),
                    None => fix_attribute_casing(core, attr, None, true),
                }
            } else {
                let mut i: usize = 0;
                while i < exts.len()
                    invariant
                        i <= exts@.len(),
                        view_schemas(exts@).len() == exts@.len(),
                        forall|k: int|
                            0 <= k < exts@.len() ==> view_schemas(exts@)[k]
                                == #[trigger] exts@[k]@,
                        sp_find_schema(view_schemas(exts@), u@) == sp_find_schema(
                            view_schemas(exts@).skip(i as int),
                            u@,
                        ),
                        *attr == *old(attr),
                        match old(attr)@.urn {
                            Some(w) => u@ == w,
                            None => match parent {
                                Some(pp) => pp@.urn == Some(u@),
                                None => false,
                            },
                        },
                        !seq_ieq(u@, core@.id),
                        match (parent_name, parent) {
                            (Some(pn), Some(pp)) => pn@ == pp@.name,
                            (None, None) => true,
                            _ => false,
                        },
                    decreases exts@.len() - i,
                {
                    proof {
                        assert(view_schemas(exts@)[i as int] == exts@[i as int]@);
                        assert(view_schemas(exts@).skip(i as int).first() == view_schemas(exts@)[
                            i as int
                        ]);
                        assert(view_schemas(exts@).skip(i as int).drop_first() =~= view_schemas(
                            exts@,
                        ).skip(i as int + 1));
                    }
                    if eq_ignore_ascii_case(u.as_str(), exts[i].id.as_str()) {
                        proof {
                            assert(sp_find_schema(view_schemas(exts@).skip(i as int), u@) == Some(
                                view_schemas(exts@)[i as int],
                            ));
                            assert(sp_find_schema(view_schemas(exts@), u@) == Some(
                                exts@[i as int]@,
                            ));
                        }
                        match parent_name {
                            Some(pn) => fix_attribute_casing(exts[i], attr, Some(pn), false),
                            None => fix_attribute_casing(exts[i], attr, None, false),
                        }
                        return ;
                    }
                    i = i + 1;
                }
                proof {
                    assert(view_schemas(exts@).skip(i as int).len() == 0);
                }
            }
        },
        None => {
            match parent_name {
                Some(pn) => fix_attribute_casing(core, attr, Some(pn), true),
                None => fix_attribute_casing(core, attr, None, true),
            }
        },
    }
}

/// Copies an attribute path.
fn copy_attr_path(p: &AttrPath) -> (r: AttrPath)
    ensures
        r@ == p@,
{
    AttrPath {
        urn: match &p.urn {
            Some(u) => Some(u.clone()),
            None => None,
        },
        name: p.name.clone(),
        sub_attr: match &p.sub_attr {
            Some(s) => Some(s.clone()),
            None => None,
        },
    }
}

/// Rewrites every attribute path of a filter to canonical form.
pub fn visit_filter(core: &Schema, exts: &Vec<&Schema>, parent: Option<&AttrPath>, f: Filter) -> (r:
    Filter)
    ensures
        r@ == sp_visit_filter(
            core@,
            view_schemas(exts@),
            match parent {
                Some(pp) => Some(pp@),
                None => None,
            },
            f@,
        ),
    decreases filter_size(f),
{
    match f {
        Filter::Present(mut p) => {
            visit_attr_path(core, exts, parent, &mut p);
            Filter::Present(p)
        },
        Filter::Compare(mut p, op, v) => {
            visit_attr_path(core, exts, parent, &mut p);
            Filter::Compare(p, op, v)
        },
        Filter::Has(p, inner) => {
            let scope = copy_attr_path(&p);
            let new_inner = visit_filter(core, exts, Some(&scope), *inner);
            let mut p2 = p;
            visit_attr_path(core, exts, Some(&scope), &mut p2);
            Filter::Has(p2, Box::new(new_inner))
        },
        Filter::And(fs) => {
            let r = visit_filters(core, exts, parent, fs);
            proof {
                lemma_visit_seqs(
                    core@,
                    view_schemas(exts@),
                    match parent {
                        Some(pp) => Some(pp@),
                        None => None,
                    },
                    fs@,
                    r@,
                );
            }
            Filter::And(r)
        },
        Filter::Or(fs) => {
            let r = visit_filters(core, exts, parent, fs);
            proof {
                lemma_visit_seqs(
                    core@,
                    view_schemas(exts@),
                    match parent {
                        Some(pp) => Some(pp@),
                        None => None,
                    },
                    fs@,
                    r@,
                );
            }
            Filter::Or(r)
        },
        Filter::Not(inner) => Filter::Not(Box::new(visit_filter(core, exts, parent, *inner))),
    }
}

/// Rewrites every filter of a vector with [`visit_filter`].
fn visit_filters(core: &Schema, exts: &Vec<&Schema>, parent: Option<&AttrPath>, mut fs: Vec<
    Filter,
>) -> (r: Vec<Filter>)
    ensures
        r@.len() == fs@.len(),
        forall|k: int|
            0 <= k < fs@.len() ==> (#[trigger] r@[k])@ == sp_visit_filter(
                core@,
                view_schemas(exts@),
                match parent {
                    Some(pp) => Some(pp@),
                    None => None,
                },
                fs@[k]@,
            ),
    decreases filters_size(fs@),
{
    let ghost fs0 = fs@;
    if fs.len() == 0 {
        fs
    } else {
        let last = fs.pop().unwrap();
        proof {
            assert(fs0.drop_last() == fs@);
            assert(fs0.last() == last);
        }
        let mut rest = visit_filters(core, exts, parent, fs);
        let pl = visit_filter(core, exts, parent, last);
        rest.push(pl);
        proof {
            assert forall|k: int|
                0 <= k < fs0.len() implies (#[trigger] rest@[k])@ == sp_visit_filter(
                core@,
                view_schemas(exts@),
                match parent {
                    Some(pp) => Some(pp@),
                    None => None,
                },
                fs0[k]@,
            ) by {
                if k < fs0.len() - 1 {
                    assert(fs0.drop_last()[k] == fs0[k]);
                } else {
                    assert(fs0.last() == fs0[k]);
                }
            }
        }
        rest
    }
}

/// Element-wise canonicalization of a vector of filters models the
/// canonicalization of the modelled sequence.
proof fn lemma_visit_seqs(
    core: SpecSchema,
    exts: Seq<SpecSchema>,
    parent: Option<SpecAttrPath>,
    fs: Seq<Filter>,
    r: Seq<Filter>,
)
    requires
        r.len() == fs.len(),
        forall|k: int|
            0 <= k < fs.len() ==> (#[trigger] r[k])@ == sp_visit_filter(
                core,
                exts,
                parent,
                fs[k]@,
            ),
    ensures
        view_filters(r) == sp_visit_filters(core, exts, parent, view_filters(fs)),
{
    lemma_view_filters(fs);
    lemma_view_filters(r);
    lemma_sp_visit_filters(core, exts, parent, view_filters(fs));
    assert forall|k: int| 0 <= k < fs.len() implies view_filters(r)[k] == sp_visit_filters(
        core,
        exts,
        parent,
        view_filters(fs),
    )[k] by {
        assert(view_filters(r)[k] == r[k]@);
        assert(view_filters(fs)[k] == fs[k]@);
    }
    assert(view_filters(r) =~= sp_visit_filters(core, exts, parent, view_filters(fs)));
}

/// The canonicalization of a sequence of filter models has the same
/// length and holds the canonicalizations of its elements, in order.
pub proof fn lemma_sp_visit_filters(
    core: SpecSchema,
    exts: Seq<SpecSchema>,
    parent: Option<SpecAttrPath>,
    fs: Seq<SpecFilter>,
)
    ensures
        sp_visit_filters(core, exts, parent, fs).len() == fs.len(),
        forall|k: int|
            0 <= k < fs.len() ==> sp_visit_filters(core, exts, parent, fs)[k] == sp_visit_filter(
                core,
                exts,
                parent,
                #[trigger] fs[k],
            ),
    decreases fs,
{
    if fs.len() > 0 {
        lemma_sp_visit_filters(core, exts, parent, fs.drop_last());
        assert(sp_visit_filters(core, exts, parent, fs) == sp_visit_filters(
            core,
            exts,
            parent,
            fs.drop_last(),
        ).push(sp_visit_filter(core, exts, parent, fs.last())));
        assert forall|k: int|
            0 <= k < fs.len() implies sp_visit_filters(core, exts, parent, fs)[k]
            == sp_visit_filter(core, exts, parent, #[trigger] fs[k]) by {
            if k < fs.len() - 1 {
                assert(fs.drop_last()[k] == fs[k]);
            } else {
                assert(fs.last() == fs[k]);
            }
        }
    }
}

/// Rewrites every attribute path of a value path to canonical form.
pub fn visit_value_path(core: &Schema, exts: &Vec<&Schema>, vp: ValuePath) -> (r: ValuePath)
    ensures
        r@ == sp_visit_value_path(core@, view_schemas(exts@), vp@),
{
    match vp {
        ValuePath::Attr(mut p) => {
            visit_attr_path(core, exts, None, &mut p);
            ValuePath::Attr(p)
        },
        ValuePath::Filtered(mut p, f) => {
            let new_f = visit_filter(core, exts, None, f);
            visit_attr_path(core, exts, None, &mut p);
            ValuePath::Filtered(p, new_f)
        },
    }
}

} // verus!

verus! {

/// ASCII-case-insensitive equality of two optional names.
pub open spec fn sp_opt_ieq(a: Option<Seq<char>>, b: Option<Seq<char>>) -> bool {
    match (a, b) {
        (Some(x), Some(y)) => seq_ieq(x, y),
        (None, None) => true,
        _ => false,
    }
}

/// Case-insensitive equality is symmetric and transitive.
proof fn lemma_ieq_equiv(a: Seq<char>, b: Seq<char>, c: Seq<char>)
    ensures
        seq_ieq(a, b) ==> seq_ieq(b, a),
        seq_ieq(a, b) && seq_ieq(b, c) ==> seq_ieq(a, c),
{
}

/// Case-insensitively equal keys find the same attribute.
proof fn lemma_find_attr_key_ieq(attrs: Seq<SpecAttribute>, a: Seq<char>, b: Seq<char>)
    requires
        seq_ieq(a, b),
    ensures
        sp_find_attr(attrs, a) == sp_find_attr(attrs, b),
    decreases attrs,
{
    if attrs.len() > 0 {
        assert(seq_ieq(attrs.first().name, a) <==> seq_ieq(attrs.first().name, b)) by {
            if seq_ieq(attrs.first().name, a) {
                lemma_ieq_equiv(attrs.first().name, a, b);
            }
            if seq_ieq(attrs.first().name, b) {
                lemma_ieq_equiv(a, b, Seq::empty());
                assert(seq_ieq(b, a));
                lemma_ieq_equiv(attrs.first().name, b, a);
            }
        }
        lemma_find_attr_key_ieq(attrs.drop_first(), a, b);
    }
}

/// A found attribute's declared name matches the key.
proof fn lemma_find_attr_found(attrs: Seq<SpecAttribute>, key: Seq<char>)
    ensures
        sp_find_attr(attrs, key) matches Some(a) ==> seq_ieq(a.name, key),
    decreases attrs,
{
    if attrs.len() > 0 {
        lemma_find_attr_found(attrs.drop_first(), key);
    }
}

/// Case-insensitively equal URNs find the same schema.
proof fn lemma_find_schema_key_ieq(schemas: Seq<SpecSchema>, a: Seq<char>, b: Seq<char>)
    requires
        seq_ieq(a, b),
    ensures
        sp_find_schema(schemas, a) == sp_find_schema(schemas, b),
    decreases schemas,
{
    if schemas.len() > 0 {
        assert(seq_ieq(schemas.first().id, a) <==> seq_ieq(schemas.first().id, b)) by {
            if seq_ieq(schemas.first().id, a) {
                lemma_ieq_equiv(schemas.first().id, a, b);
            }
            if seq_ieq(schemas.first().id, b) {
                lemma_ieq_equiv(a, b, Seq::empty());
                assert(seq_ieq(b, a));
                lemma_ieq_equiv(schemas.first().id, b, a);
            }
        }
        lemma_find_schema_key_ieq(schemas.drop_first(), a, b);
    }
}

/// A found schema's URN matches the key.
proof fn lemma_find_schema_found(schemas: Seq<SpecSchema>, key: Seq<char>)
    ensures
        sp_find_schema(schemas, key) matches Some(s) ==> seq_ieq(s.id, key),
    decreases schemas,
{
    if schemas.len() > 0 {
        lemma_find_schema_found(schemas.drop_first(), key);
    }
}

/// Fixing a name keeps its case-insensitive identity.
proof fn lemma_fix_name_ieq(schema: SpecSchema, name: Seq<char>, pn: Option<Seq<char>>)
    ensures
        seq_ieq(sp_fix_name(schema, name, pn), name),
{
    match pn {
        Some(p) => {
            match sp_find_attr(schema.attributes, p) {
                Some(pa) => {
                    match pa.sub_attributes {
                        Some(subs) => {
                            lemma_find_attr_found(subs, name);
                        },
                        None => {},
                    }
                },
                None => {},
            }
        },
        None => {
            lemma_find_attr_found(schema.attributes, name);
        },
    }
}

/// Fixing an already fixed name changes nothing, also under a parent
/// name that is only case-insensitively the same.
proof fn lemma_fix_name_stable(
    schema: SpecSchema,
    name: Seq<char>,
    pn: Option<Seq<char>>,
    pn2: Option<Seq<char>>,
)
    requires
        sp_opt_ieq(pn2, pn),
    ensures
        sp_fix_name(schema, sp_fix_name(schema, name, pn), pn2) == sp_fix_name(schema, name, pn),
{
    let n1 = sp_fix_name(schema, name, pn);
    lemma_fix_name_ieq(schema, name, pn);
    match (pn, pn2) {
        (Some(p), Some(p2)) => {
            lemma_find_attr_key_ieq(schema.attributes, p2, p);
            match sp_find_attr(schema.attributes, p) {
                Some(pa) => {
                    match pa.sub_attributes {
                        Some(subs) => {
                            match sp_find_attr(subs, name) {
                                Some(sa) => {
                                    lemma_find_attr_found(subs, name);
                                    lemma_find_attr_key_ieq(subs, n1, name);
                                },
                                None => {
                                    lemma_find_attr_key_ieq(subs, n1, name);
                                },
                            }
                        },
                        None => {},
                    }
                },
                None => {},
            }
        },
        (None, None) => {
            match sp_find_attr(schema.attributes, name) {
                Some(a) => {
                    lemma_find_attr_found(schema.attributes, name);
                    lemma_find_attr_key_ieq(schema.attributes, n1, name);
                },
                None => {
                    lemma_find_attr_key_ieq(schema.attributes, n1, name);
                },
            }
        },
        _ => {},
    }
}

/// Whether a path is well-scoped under an optional parent: inside a
/// value filter it either carries no URN of its own or repeats the
/// parent's, as the parser's rewrite guarantees.
pub open spec fn sp_path_scoped(p: SpecAttrPath, parent: Option<SpecAttrPath>) -> bool {
    match parent {
        Some(pp) => p.urn is None || p.urn == pp.urn,
        None => true,
    }
}

/// Whether every path of a filter is well-scoped: paths inside a value
/// filter carry no URN of their own or repeat the parent path's URN.
/// The parser's value-filter rewrite produces exactly this shape.
pub open spec fn sp_filter_scoped(f: SpecFilter, parent: Option<SpecAttrPath>) -> bool
    decreases f,
{
    match f {
        SpecFilter::Present(p) => sp_path_scoped(p, parent),
        SpecFilter::Compare(p, _, _) => sp_path_scoped(p, parent),
        SpecFilter::Has(p, inner) => sp_filter_scoped(*inner, Some(p)),
        SpecFilter::And(fs) => sp_filters_scoped(fs, parent),
        SpecFilter::Or(fs) => sp_filters_scoped(fs, parent),
        SpecFilter::Not(inner) => sp_filter_scoped(*inner, parent),
    }
}

/// Whether every filter of a sequence is well-scoped.
pub open spec fn sp_filters_scoped(fs: Seq<SpecFilter>, parent: Option<SpecAttrPath>) -> bool
    decreases fs,
{
    if fs.len() == 0 {
        true
    } else {
        sp_filters_scoped(fs.drop_last(), parent) && sp_filter_scoped(fs.last(), parent)
    }
}

/// The parent context a second normalization pass sees: the parent
/// itself normalized in its own scope.
pub open spec fn sp_parent2(
    core: SpecSchema,
    exts: Seq<SpecSchema>,
    parent: Option<SpecAttrPath>,
) -> Option<SpecAttrPath> {
    match parent {
        Some(pp) => Some(sp_visit_path(core, exts, Some(pp), pp)),
        None => None,
    }
}

/// Normalizing a well-scoped path twice gives what one pass gives, and
/// the result is still well-scoped.
proof fn lemma_visit_path_stable(
    core: SpecSchema,
    exts: Seq<SpecSchema>,
    parent: Option<SpecAttrPath>,
    q: SpecAttrPath,
)
    requires
        sp_path_scoped(q, parent),
    ensures
        sp_visit_path(
            core,
            exts,
            sp_parent2(core, exts, parent),
            sp_visit_path(core, exts, parent, q),
        ) == sp_visit_path(core, exts, parent, q),
        sp_path_scoped(sp_visit_path(core, exts, parent, q), sp_parent2(core, exts, parent)),
{
    let q1 = sp_visit_path(core, exts, parent, q);
    let p2 = sp_parent2(core, exts, parent);
    let pn = match parent {
        Some(pp) => Some(pp.name),
        None => None,
    };
    let pn2 = match p2 {
        Some(pp) => Some(pp.name),
        None => None,
    };
    let urn_eff = match q.urn {
        Some(u) => Some(u),
        None => match parent {
            Some(pp) => pp.urn,
            None => None,
        },
    };
    assert(sp_opt_ieq(pn2, pn)) by {
        match parent {
            Some(pp) => {
                let pp_eff = pp.urn;
                match pp_eff {
                    Some(u) => {
                        if seq_ieq(u, core.id) {
                            lemma_fix_name_ieq(core, pp.name, Some(pp.name));
                        } else {
                            match sp_find_schema(exts, u) {
                                Some(ext) => {
                                    lemma_fix_name_ieq(ext, pp.name, Some(pp.name));
                                },
                                None => {},
                            }
                        }
                    },
                    None => {
                        lemma_fix_name_ieq(core, pp.name, Some(pp.name));
                    },
                }
            },
            None => {},
        }
    }
    match urn_eff {
        None => {
            // Core branch; the normalized parent, if any, has no URN
            // either, so the second pass stays in the core branch.
            lemma_fix_name_stable(core, q.name, pn, pn2);
            match q.sub_attr {
                Some(s) => {
                    lemma_fix_name_stable(
                        core,
                        s,
                        Some(sp_fix_name(core, q.name, pn)),
                        Some(sp_fix_name(core, q.name, pn)),
                    );
                },
                None => {},
            }
        },
        Some(u) => {
            if seq_ieq(u, core.id) {
                // Core branch by matching URN: the first pass clears the
                // URN on both the path and the parent.
                lemma_fix_name_stable(core, q.name, pn, pn2);
                match q.sub_attr {
                    Some(s) => {
                        lemma_fix_name_stable(
                            core,
                            s,
                            Some(sp_fix_name(core, q.name, pn)),
                            Some(sp_fix_name(core, q.name, pn)),
                        );
                    },
                    None => {},
                }
            } else {
                match sp_find_schema(exts, u) {
                    Some(ext) => {
                        // Extension branch: the first pass pins the URN
                        // to the extension's declared one, which finds
                        // the same extension again.
                        lemma_find_schema_found(exts, u);
                        assert(seq_ieq(ext.id, u));
                        assert(!seq_ieq(ext.id, core.id)) by {
                            if seq_ieq(ext.id, core.id) {
                                lemma_ieq_equiv(u, ext.id, core.id);
                                lemma_ieq_equiv(ext.id, u, Seq::empty());
                                assert(seq_ieq(u, ext.id));
                                lemma_ieq_equiv(u, ext.id, core.id);
                            }
                        }
                        lemma_find_schema_key_ieq(exts, ext.id, u);
                        lemma_fix_name_stable(ext, q.name, pn, pn2);
                        match q.sub_attr {
                            Some(s) => {
                                lemma_fix_name_stable(
                                    ext,
                                    s,
                                    Some(sp_fix_name(ext, q.name, pn)),
                                    Some(sp_fix_name(ext, q.name, pn)),
                                );
                            },
                            None => {},
                        }
                    },
                    None => {
                        // Unknown URN: the path is left alone, and so is
                        // the parent, so the second pass sees the same
                        // unknown URN.
                    },
                }
            }
        },
    }
}

/// Normalizing a well-scoped filter twice gives what one pass gives.
proof fn lemma_visit_filter_stable(
    core: SpecSchema,
    exts: Seq<SpecSchema>,
    parent: Option<SpecAttrPath>,
    f: SpecFilter,
)
    requires
        sp_filter_scoped(f, parent),
    ensures
        sp_visit_filter(
            core,
            exts,
            sp_parent2(core, exts, parent),
            sp_visit_filter(core, exts, parent, f),
        ) == sp_visit_filter(core, exts, parent, f),
    decreases f,
{
    match f {
        SpecFilter::Present(p) => {
            lemma_visit_path_stable(core, exts, parent, p);
        },
        SpecFilter::Compare(p, _, _) => {
            lemma_visit_path_stable(core, exts, parent, p);
        },
        SpecFilter::Has(p, inner) => {
            lemma_visit_path_stable(core, exts, Some(p), p);
            lemma_visit_filter_stable(core, exts, Some(p), *inner);
        },
        SpecFilter::And(fs) => {
            lemma_visit_filters_stable(core, exts, parent, fs);
        },
        SpecFilter::Or(fs) => {
            lemma_visit_filters_stable(core, exts, parent, fs);
        },
        SpecFilter::Not(inner) => {
            lemma_visit_filter_stable(core, exts, parent, *inner);
        },
    }
}

/// Normalizing a sequence of well-scoped filters twice gives what one
/// pass gives.
proof fn lemma_visit_filters_stable(
    core: SpecSchema,
    exts: Seq<SpecSchema>,
    parent: Option<SpecAttrPath>,
    fs: Seq<SpecFilter>,
)
    requires
        sp_filters_scoped(fs, parent),
    ensures
        sp_visit_filters(
            core,
            exts,
            sp_parent2(core, exts, parent),
            sp_visit_filters(core, exts, parent, fs),
        ) == sp_visit_filters(core, exts, parent, fs),
    decreases fs,
{
    if fs.len() > 0 {
        lemma_visit_filters_stable(core, exts, parent, fs.drop_last());
        lemma_visit_filter_stable(core, exts, parent, fs.last());
        let one = sp_visit_filters(core, exts, parent, fs);
        assert(one.drop_last() =~= sp_visit_filters(core, exts, parent, fs.drop_last()));
        assert(one.last() == sp_visit_filter(core, exts, parent, fs.last()));
    }
}

/// Law: the normalizer is idempotent.  Applying it twice to a
/// well-scoped filter — one whose value-filter bodies repeat the parent
/// path's URN or carry none, as every parsed filter does — yields the
/// same syntax tree as applying it once.
pub proof fn lemma_normalize_idempotent(core: SpecSchema, exts: Seq<SpecSchema>, f: SpecFilter)
    requires
        sp_filter_scoped(f, None),
    ensures
        sp_visit_filter(core, exts, None, sp_visit_filter(core, exts, None, f)) == sp_visit_filter(
            core,
            exts,
            None,
            f,
        ),
{
    lemma_visit_filter_stable(core, exts, None, f);
}

} // verus!

verus! {

/// A clause list is well-scoped exactly when each clause is.
proof fn lemma_filters_scoped_iff(fs: Seq<SpecFilter>, parent: Option<SpecAttrPath>)
    ensures
        sp_filters_scoped(fs, parent) <==> (forall|k: int|
            0 <= k < fs.len() ==> sp_filter_scoped(#[trigger] fs[k], parent)),
    decreases fs,
{
    if fs.len() > 0 {
        lemma_filters_scoped_iff(fs.drop_last(), parent);
        assert forall|k: int| 0 <= k < fs.len() - 1 implies fs.drop_last()[k] == fs[k] by {}
        assert(fs.last() == fs[fs.len() - 1]);
        if forall|k: int| 0 <= k < fs.len() ==> sp_filter_scoped(#[trigger] fs[k], parent) {
            assert forall|k: int| 0 <= k < fs.drop_last().len() implies sp_filter_scoped(
                #[trigger] fs.drop_last()[k],
                parent,
            ) by {
                assert(fs.drop_last()[k] == fs[k]);
            }
        }
    }
}

/// The parser's value-filter rewrite leaves every path carrying the
/// parent's URN, so the rewritten filter is well-scoped under any path
/// with that URN.
proof fn lemma_prefix_filter_scoped(parent: SpecAttrPath, f: SpecFilter, pp: SpecAttrPath)
    requires
        pp.urn == parent.urn,
    ensures
        sp_filter_scoped(crate::grammar::sp_prefix_filter(parent, f), Some(pp)),
    decreases f,
{
    match f {
        SpecFilter::Present(_) => {},
        SpecFilter::Compare(_, _, _) => {},
        SpecFilter::Has(p, inner) => {
            lemma_prefix_filter_scoped(parent, *inner, crate::grammar::sp_prefix_path(parent, p));
        },
        SpecFilter::And(fs) => {
            lemma_prefix_filters_scoped(parent, fs, pp);
        },
        SpecFilter::Or(fs) => {
            lemma_prefix_filters_scoped(parent, fs, pp);
        },
        SpecFilter::Not(inner) => {
            lemma_prefix_filter_scoped(parent, *inner, pp);
        },
    }
}

/// As [`lemma_prefix_filter_scoped`], over a clause list.
proof fn lemma_prefix_filters_scoped(parent: SpecAttrPath, fs: Seq<SpecFilter>, pp: SpecAttrPath)
    requires
        pp.urn == parent.urn,
    ensures
        sp_filters_scoped(crate::grammar::sp_prefix_filters(parent, fs), Some(pp)),
    decreases fs,
{
    if fs.len() > 0 {
        lemma_prefix_filters_scoped(parent, fs.drop_last(), pp);
        lemma_prefix_filter_scoped(parent, fs.last(), pp);
        assert(crate::grammar::sp_prefix_filters(parent, fs) == crate::grammar::sp_prefix_filters(parent, fs.drop_last()).push(
            crate::grammar::sp_prefix_filter(parent, fs.last()),
        ));
        assert(crate::grammar::sp_prefix_filters(parent, fs).drop_last() =~= crate::grammar::sp_prefix_filters(
            parent,
            fs.drop_last(),
        ));
        assert(crate::grammar::sp_prefix_filters(parent, fs).last() == crate::grammar::sp_prefix_filter(parent, fs.last()));
    }
}

/// An attribute expression parses to a well-scoped filter.
proof fn lemma_attr_filter_scoped(s: Seq<char>, i: int)
    ensures
        crate::grammar::sp_attr_filter(s, i) matches Some((_, f)) ==> sp_filter_scoped(f, None),
{
}

/// A disjunction parses to a well-scoped filter.
pub proof fn lemma_or_scoped(s: Seq<char>, i: int)
    ensures
        crate::grammar::sp_or(s, i) matches Some((_, f)) ==> sp_filter_scoped(f, None),
    decreases s.len() - i, 4int,
{
    match crate::grammar::sp_and(s, i) {
        Some((p1, f1)) => {
            lemma_and_scoped(s, i);
            if i < p1 <= s.len() {
                lemma_or_tail_scoped(s, p1);
                let (pe, more) = crate::grammar::sp_or_tail(s, p1);
                if more.len() > 0 {
                    lemma_filters_scoped_iff(more, None);
                    lemma_filters_scoped_iff(seq![f1] + more, None);
                    assert forall|k: int| 0 <= k < (seq![f1] + more).len() implies sp_filter_scoped(
                        #[trigger] (seq![f1] + more)[k],
                        None,
                    ) by {
                        if k == 0 {
                            assert((seq![f1] + more)[0] == f1);
                        } else {
                            assert((seq![f1] + more)[k] == more[k - 1]);
                        }
                    }
                }
            }
        },
        None => {},
    }
}

/// The further disjunction clauses parse well-scoped.
proof fn lemma_or_tail_scoped(s: Seq<char>, i: int)
    ensures
        forall|k: int|
            0 <= k < crate::grammar::sp_or_tail(s, i).1.len() ==> sp_filter_scoped(
                #[trigger] crate::grammar::sp_or_tail(s, i).1[k],
                None,
            ),
    decreases s.len() - i, 5int,
{
    match crate::grammar::sp_space1(s, i) {
        Some(j1) => {
            if i < j1 && j1 + 2 <= s.len() && crate::text::lower_code(s[j1]) == 'o' as int
                && crate::text::lower_code(s[j1 + 1]) == 'r' as int {
                match crate::grammar::sp_space1(s, j1 + 2) {
                    Some(j2) => {
                        if i < j2 <= s.len() {
                            lemma_and_scoped(s, j2);
                            match crate::grammar::sp_and(s, j2) {
                                Some((p2, f2)) => {
                                    if i < p2 <= s.len() {
                                        lemma_or_tail_scoped(s, p2);
                                        let (pe, rest) = crate::grammar::sp_or_tail(s, p2);
                                        assert forall|k: int|
                                            0 <= k < (seq![f2] + rest).len() implies sp_filter_scoped(
                                            #[trigger] (seq![f2] + rest)[k],
                                            None,
                                        ) by {
                                            if k == 0 {
                                                assert((seq![f2] + rest)[0] == f2);
                                            } else {
                                                assert((seq![f2] + rest)[k] == rest[k - 1]);
                                            }
                                        }
                                    }
                                },
                                None => {},
                            }
                        }
                    },
                    None => {},
                }
            }
        },
        None => {},
    }
}

/// A conjunction parses to a well-scoped filter.
proof fn lemma_and_scoped(s: Seq<char>, i: int)
    ensures
        crate::grammar::sp_and(s, i) matches Some((_, f)) ==> sp_filter_scoped(f, None),
    decreases s.len() - i, 2int,
{
    match crate::grammar::sp_group(s, i) {
        Some((p1, f1)) => {
            lemma_group_scoped(s, i);
            if i < p1 <= s.len() {
                lemma_and_tail_scoped(s, p1);
                let (pe, more) = crate::grammar::sp_and_tail(s, p1);
                if more.len() > 0 {
                    lemma_filters_scoped_iff(seq![f1] + more, None);
                    assert forall|k: int| 0 <= k < (seq![f1] + more).len() implies sp_filter_scoped(
                        #[trigger] (seq![f1] + more)[k],
                        None,
                    ) by {
                        if k == 0 {
                            assert((seq![f1] + more)[0] == f1);
                        } else {
                            assert((seq![f1] + more)[k] == more[k - 1]);
                        }
                    }
                }
            }
        },
        None => {},
    }
}

/// The further conjunction clauses parse well-scoped.
proof fn lemma_and_tail_scoped(s: Seq<char>, i: int)
    ensures
        forall|k: int|
            0 <= k < crate::grammar::sp_and_tail(s, i).1.len() ==> sp_filter_scoped(
                #[trigger] crate::grammar::sp_and_tail(s, i).1[k],
                None,
            ),
    decreases s.len() - i, 3int,
{
    match crate::grammar::sp_space1(s, i) {
        Some(j1) => {
            if i < j1 && j1 + 3 <= s.len() && crate::text::lower_code(s[j1]) == 'a' as int
                && crate::text::lower_code(s[j1 + 1]) == 'n' as int && crate::text::lower_code(
                s[j1 + 2],
            ) == 'd' as int {
                match crate::grammar::sp_space1(s, j1 + 3) {
                    Some(j2) => {
                        if i < j2 <= s.len() {
                            lemma_group_scoped(s, j2);
                            match crate::grammar::sp_group(s, j2) {
                                Some((p2, f2)) => {
                                    if i < p2 <= s.len() {
                                        lemma_and_tail_scoped(s, p2);
                                        let (pe, rest) = crate::grammar::sp_and_tail(s, p2);
                                        assert forall|k: int|
                                            0 <= k < (seq![f2] + rest).len() implies sp_filter_scoped(
                                            #[trigger] (seq![f2] + rest)[k],
                                            None,
                                        ) by {
                                            if k == 0 {
                                                assert((seq![f2] + rest)[0] == f2);
                                            } else {
                                                assert((seq![f2] + rest)[k] == rest[k - 1]);
                                            }
                                        }
                                    }
                                },
                                None => {},
                            }
                        }
                    },
                    None => {},
                }
            }
        },
        None => {},
    }
}

/// A group parses to a well-scoped filter.
proof fn lemma_group_scoped(s: Seq<char>, i: int)
    ensures
        crate::grammar::sp_group(s, i) matches Some((_, f)) ==> sp_filter_scoped(f, None),
    decreases s.len() - i, 1int,
{
    let has_not = 0 <= i && i + 3 <= s.len() && crate::text::lower_code(s[i]) == 'n' as int
        && crate::text::lower_code(s[i + 1]) == 'o' as int && crate::text::lower_code(s[i + 2])
        == 't' as int;
    let j = if has_not {
        i + 3
    } else {
        i
    };
    let j2 = crate::grammar::sp_skip_sp(s, j);
    if i <= j2 && j2 < s.len() && s[j2] == '(' {
        lemma_or_scoped(s, j2 + 1);
    }
    lemma_attr_filter_scoped(s, i);
    lemma_has_scoped(s, i);
}

/// A value filter parses to a well-scoped filter.
proof fn lemma_has_scoped(s: Seq<char>, i: int)
    ensures
        crate::grammar::sp_has(s, i) matches Some((_, f)) ==> sp_filter_scoped(f, None),
    decreases s.len() - i, 0int,
{
    match crate::grammar::sp_attr_path(s, i) {
        Some((p1, ap)) => {
            if i < p1 && p1 < s.len() && s[p1] == '[' {
                match crate::grammar::sp_or(s, p1 + 1) {
                    Some((p2, f)) => {
                        lemma_prefix_filter_scoped(ap, f, ap);
                    },
                    None => {},
                }
            }
        },
        None => {},
    }
}

/// Law: every filter the parser yields is well-scoped, so the
/// normalizer is idempotent on all parsed filters.
pub proof fn lemma_parsed_filters_are_scoped(s: Seq<char>)
    ensures
        crate::grammar::sp_parse_filter(s) matches Some(f) ==> sp_filter_scoped(f, None),
{
    lemma_or_scoped(s, 0);
}

} // verus!
