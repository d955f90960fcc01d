//! The selection resolver: which optional attributes a response must
//! carry, computed from the request's include and exclude lists and
//! each attribute's `returned` class.

use vstd::prelude::*;

use crate::filter::{AttrPath, SpecAttrPath};
use crate::schema::{Attribute, Schema, SpecAttribute, SpecSchema, view_attrs, lemma_view_attrs};
use crate::text::push_char;

verus! {

/// Models of a sequence of attribute paths, element-wise.
pub open spec fn view_paths(vs: Seq<AttrPath>) -> Seq<SpecAttrPath>
    decreases vs,
{
    if vs.len() == 0 {
        Seq::empty()
    } else {
        view_paths(vs.drop_last()).push(vs.last()@)
    }
}

/// The model of a sequence of attribute paths has the same length and
/// holds the models of its elements, in order.
pub proof fn lemma_view_paths(vs: Seq<AttrPath>)
    ensures
        view_paths(vs).len() == vs.len(),
        forall|i: int| 0 <= i < vs.len() ==> view_paths(vs)[i] == #[trigger] vs[i]@,
    decreases vs,
{
    if vs.len() > 0 {
        lemma_view_paths(vs.drop_last());
        assert(view_paths(vs) == view_paths(vs.drop_last()).push(vs.last()@));
        assert forall|i: int| 0 <= i < vs.len() implies view_paths(vs)[i] == #[trigger] vs[i]@ by {
            if i < vs.len() - 1 {
                assert(vs.drop_last()[i] == vs[i]);
            } else {
                assert(vs.last() == vs[i]);
            }
        }
    }
}

/// Whether `p` occurs among `ps`.
pub open spec fn sp_contains_path(ps: Seq<SpecAttrPath>, p: SpecAttrPath) -> bool {
    exists|i: int| 0 <= i < ps.len() && ps[i] == p
}

/// Whether `p` occurs among `ps`.
pub fn contains_path(ps: &Vec<AttrPath>, p: &AttrPath) -> (r: bool)
    ensures
        r == sp_contains_path(view_paths(ps@), p@),
{
    proof {
        lemma_view_paths(ps@);
    }
    let mut i: usize = 0;
    while i < ps.len()
        invariant
            i <= ps@.len(),
            view_paths(ps@).len() == ps@.len(),
            forall|k: int| 0 <= k < ps@.len() ==> view_paths(ps@)[k] == #[trigger] ps@[k]@,
            forall|k: int| 0 <= k < i ==> view_paths(ps@)[k] != p@,
        decreases ps@.len() - i,
    {
        if ps[i].same_as(p) {
            proof {
                assert(view_paths(ps@)[i as int] == p@);
            }
            return true;
        }
        i = i + 1;
    }
    false
}

/// The path of a top-level attribute: bare for the core schema, under
/// the schema's URN for an extension.
pub open spec fn sp_top_path(schema: SpecSchema, a: SpecAttribute, is_core: bool) -> SpecAttrPath {
    SpecAttrPath {
        urn: if is_core {
            None
        } else {
            Some(schema.id)
        },
        name: a.name,
        sub_attr: None,
    }
}

/// The path of a sub-attribute under its parent's path.
pub open spec fn sp_sub_path(parent: SpecAttrPath, sa: SpecAttribute) -> SpecAttrPath {
    SpecAttrPath { urn: parent.urn, name: parent.name, sub_attr: Some(sa.name) }
}

/// Whether an attribute with this `returned` class and path is emitted:
/// `default` unless excluded, `request` only when asked for, `always`
/// and `never` have no say here.
pub open spec fn sp_emit(
    a: SpecAttribute,
    path: SpecAttrPath,
    included: Seq<SpecAttrPath>,
    excluded: Seq<SpecAttrPath>,
) -> bool {
    match a.returned {
        crate::schema::Returned::Default => !sp_contains_path(excluded, path),
        crate::schema::Returned::Request => sp_contains_path(included, path),
        _ => false,
    }
}

/// Optional paths contributed by the sub-attributes of one attribute.
pub open spec fn sp_select_subs(
    subs: Seq<SpecAttribute>,
    parent: SpecAttrPath,
    included: Seq<SpecAttrPath>,
    excluded: Seq<SpecAttrPath>,
) -> Seq<SpecAttrPath>
    decreases subs,
{
    if subs.len() == 0 {
        Seq::empty()
    } else {
        sp_select_subs(subs.drop_last(), parent, included, excluded) + (if sp_emit(
            subs.last(),
            sp_sub_path(parent, subs.last()),
            included,
            excluded,
        ) {
            seq![sp_sub_path(parent, subs.last())]
        } else {
            Seq::empty()
        })
    }
}

/// Optional paths contributed by one attribute: its own path when
/// emitted, then those of its sub-attributes.
pub open spec fn sp_select_one(
    schema: SpecSchema,
    a: SpecAttribute,
    is_core: bool,
    included: Seq<SpecAttrPath>,
    excluded: Seq<SpecAttrPath>,
) -> Seq<SpecAttrPath> {
    let path = sp_top_path(schema, a, is_core);
    (if sp_emit(a, path, included, excluded) {
        seq![path]
    } else {
        Seq::empty()
    }) + (match a.sub_attributes {
        Some(ss) => sp_select_subs(ss, path, included, excluded),
        None => Seq::empty(),
    })
}

/// Optional paths contributed by a list of attributes, in declaration
/// order.
pub open spec fn sp_select_attrs(
    schema: SpecSchema,
    attrs: Seq<SpecAttribute>,
    is_core: bool,
    included: Seq<SpecAttrPath>,
    excluded: Seq<SpecAttrPath>,
) -> Seq<SpecAttrPath>
    decreases attrs,
{
    if attrs.len() == 0 {
        Seq::empty()
    } else {
        sp_select_attrs(schema, attrs.drop_last(), is_core, included, excluded) + sp_select_one(
            schema,
            attrs.last(),
            is_core,
            included,
            excluded,
        )
    }
}

/// The optional attributes of one schema for a request: deterministic
/// in the schema and the two lists.
pub open spec fn sp_optional_attributes(
    schema: SpecSchema,
    included: Seq<SpecAttrPath>,
    excluded: Seq<SpecAttrPath>,
    is_core: bool,
) -> Seq<SpecAttrPath> {
    sp_select_attrs(schema, schema.attributes, is_core, included, excluded)
}

/// Copies a path with a fresh sub-attribute name.
fn make_sub_path(parent: &AttrPath, name: &String) -> (r: AttrPath)
    ensures
        r@ == (SpecAttrPath { urn: parent@.urn, name: parent@.name, sub_attr: Some(name@) }),
{
    AttrPath {
        urn: match &parent.urn {
            Some(u) => Some(u.clone()),
            None => None,
        },
        name: parent.name.clone(),
        sub_attr: Some(name.clone()),
    }
}

/// Computes the optional attributes of one schema under the request's
/// included and excluded lists: for each attribute (and sub-attribute) in
/// declaration order, a `default` one is listed unless excluded, a
/// `request` one only when included, and `always` and `never` ones
/// never.
pub fn list_optional_attributes(
    schema: &Schema,
    included: &Vec<AttrPath>,
    excluded: &Vec<AttrPath>,
    is_core: bool,
) -> (r: Vec<AttrPath>)
    ensures
        view_paths(r@) == sp_optional_attributes(
            schema@,
            view_paths(included@),
            view_paths(excluded@),
            is_core,
        ),
{
    let ghost sattrs = view_attrs(schema.attributes@);
    let ghost sinc = view_paths(included@);
    let ghost sexc = view_paths(excluded@);
    proof {
        lemma_view_attrs(schema.attributes@);
        assert(sattrs.take(0) =~= Seq::<SpecAttribute>::empty());
    }
    let mut r: Vec<AttrPath> = Vec::new();
    let mut i: usize = 0;
    while i < schema.attributes.len()
        invariant
            i <= schema.attributes@.len(),
            sattrs == view_attrs(schema.attributes@),
            sinc == view_paths(included@),
            sexc == view_paths(excluded@),
            sattrs.len() == schema.attributes@.len(),
            forall|k: int|
                0 <= k < schema.attributes@.len() ==> sattrs[k]
                    == #[trigger] schema.attributes@[k]@,
            view_paths(r@) == sp_select_attrs(schema@, sattrs.take(i as int), is_core, sinc, sexc),
        decreases schema.attributes@.len() - i,
    {
        let attr = &schema.attributes[i];
        let ghost sa = sattrs[i as int];
        proof {
            assert(sattrs[i as int] == schema.attributes@[i as int]@);
        }
        let ghost path_spec = sp_top_path(schema@, sa, is_core);
        let ghost r_start = r@;
        let path = AttrPath {
            urn: if is_core {
                None
            } else {
                Some(schema.id.clone())
            },
            name: attr.name.clone(),
            sub_attr: None,
        };
        proof {
            assert(path@ == path_spec);
        }
        let own_emitted: bool = match attr.returned {
            crate::schema::Returned::Default => !contains_path(excluded, &path),
            crate::schema::Returned::Request => contains_path(included, &path),
            _ => false,
        };
        let ghost own_seq = if sp_emit(sa, path_spec, sinc, sexc) {
            seq![path_spec]
        } else {
            Seq::<SpecAttrPath>::empty()
        };
        if own_emitted {
            let own_path = make_sub_path_base(&path);
            r.push(own_path);
            proof {
                assert(r@.drop_last() == r_start);
                assert(view_paths(r@) == view_paths(r_start).push(path_spec));
                assert(view_paths(r@) =~= view_paths(r_start) + own_seq);
            }
        } else {
            proof {
                assert(view_paths(r@) =~= view_paths(r_start) + own_seq);
            }
        }
        let ghost r_mid = r@;
        match &attr.sub_attributes {
            Some(subs) => {
                let ghost ssubs = view_attrs(subs@);
                proof {
                    lemma_view_attrs(subs@);
                    assert(ssubs.take(0) =~= Seq::<SpecAttribute>::empty());
                    assert(view_paths(r@) =~= view_paths(r@) + sp_select_subs(
                        ssubs.take(0),
                        path_spec,
                        sinc,
                        sexc,
                    ));
                }
                let mut j: usize = 0;
                while j < subs.len()
                    invariant
                        j <= subs@.len(),
                        ssubs == view_attrs(subs@),
                        sinc == view_paths(included@),
                        sexc == view_paths(excluded@),
                        ssubs.len() == subs@.len(),
                        forall|k: int| 0 <= k < subs@.len() ==> ssubs[k] == #[trigger] subs@[k]@,
                        path@ == path_spec,
                        view_paths(r@) == view_paths(r_mid) + sp_select_subs(
                            ssubs.take(j as int),
                            path_spec,
                            sinc,
                            sexc,
                        ),
                    decreases subs@.len() - j,
                {
                    let sub = &subs[j];
                    let ghost ssa = ssubs[j as int];
                    proof {
                        assert(ssubs[j as int] == subs@[j as int]@);
                    }
                    let ghost sub_path_spec = sp_sub_path(path_spec, ssa);
                    let ghost r_before = r@;
                    let sub_path = make_sub_path(&path, &sub.name);
                    proof {
                        assert(sub_path@ == sub_path_spec);
                    }
                    let sub_emitted: bool = match sub.returned {
                        crate::schema::Returned::Default => !contains_path(excluded, &sub_path),
                        crate::schema::Returned::Request => contains_path(included, &sub_path),
                        _ => false,
                    };
                    if sub_emitted {
                        r.push(sub_path);
                        proof {
                            assert(r@.drop_last() == r_before);
                            assert(view_paths(r@) == view_paths(r_before).push(sub_path_spec));
                        }
                    }
                    j = j + 1;
                    proof {
                        assert(ssubs.take(j as int).drop_last() =~= ssubs.take(j as int - 1));
                        assert(ssubs.take(j as int).last() == ssa);
                        if sub_emitted {
                            assert(view_paths(r@) =~= view_paths(r_mid) + sp_select_subs(
                                ssubs.take(j as int),
                                path_spec,
                                sinc,
                                sexc,
                            ));
                        } else {
                            assert(view_paths(r@) =~= view_paths(r_mid) + sp_select_subs(
                                ssubs.take(j as int),
                                path_spec,
                                sinc,
                                sexc,
                            ));
                        }
                    }
                }
                proof {
                    assert(ssubs.take(subs@.len() as int) =~= ssubs);
                    assert(sa.sub_attributes == Some(ssubs));
                }
            },
            None => {
                proof {
                    assert(sa.sub_attributes is None);
                }
            },
        }
        i = i + 1;
        proof {
            assert(sattrs.take(i as int).drop_last() =~= sattrs.take(i as int - 1));
            assert(sattrs.take(i as int).last() == sa);
            assert(view_paths(r@) =~= sp_select_attrs(
                schema@,
                sattrs.take(i as int),
                is_core,
                sinc,
                sexc,
            ));
        }
    }
    proof {
        assert(sattrs.take(schema.attributes@.len() as int) =~= sattrs);
    }
    r
}

/// Copies a bare path.
fn make_sub_path_base(p: &AttrPath) -> (r: AttrPath)
    ensures
        r@ == p@,
{
    AttrPath {
        urn: match &p.urn {
            Some(u) => Some(u.clone()),
            None => None,
        },
        name: p.name.clone(),
        sub_attr: match &p.sub_attr {
            Some(s) => Some(s.clone()),
            None => None,
        },
    }
}

} // verus!

verus! {

/// A path occurs in a concatenation exactly when it occurs in one of
/// the parts.
proof fn lemma_contains_concat(a: Seq<SpecAttrPath>, b: Seq<SpecAttrPath>, p: SpecAttrPath)
    ensures
        sp_contains_path(a + b, p) <==> (sp_contains_path(a, p) || sp_contains_path(b, p)),
{
    if sp_contains_path(a, p) {
        let i = choose|i: int| 0 <= i < a.len() && a[i] == p;
        assert((a + b)[i] == p);
    }
    if sp_contains_path(b, p) {
        let i = choose|i: int| 0 <= i < b.len() && b[i] == p;
        assert((a + b)[a.len() + i] == p);
    }
    if sp_contains_path(a + b, p) {
        let i = choose|i: int| 0 <= i < (a + b).len() && (a + b)[i] == p;
        if i < a.len() {
            assert(a[i] == p);
        } else {
            assert(b[i - a.len()] == p);
        }
    }
}

/// What justifies a path's presence under one attribute: it is that
/// attribute's own path, or one of its sub-attributes' paths, and the
/// `returned` class together with the two lists calls for it.
pub open spec fn sp_justified_by(
    schema: SpecSchema,
    a: SpecAttribute,
    is_core: bool,
    included: Seq<SpecAttrPath>,
    excluded: Seq<SpecAttrPath>,
    p: SpecAttrPath,
) -> bool {
    ||| (p == sp_top_path(schema, a, is_core) && sp_emit(a, p, included, excluded))
    ||| (a.sub_attributes matches Some(ss) && exists|l: int|
        0 <= l < ss.len() && p == sp_sub_path(sp_top_path(schema, a, is_core), #[trigger] ss[l])
            && sp_emit(ss[l], p, included, excluded))
}

/// What justifies a path's presence in the selection: some declared
/// attribute of the schema justifies it.
pub open spec fn sp_justified(
    schema: SpecSchema,
    is_core: bool,
    included: Seq<SpecAttrPath>,
    excluded: Seq<SpecAttrPath>,
    p: SpecAttrPath,
) -> bool {
    exists|k: int|
        0 <= k < schema.attributes.len() && sp_justified_by(
            schema,
            #[trigger] schema.attributes[k],
            is_core,
            included,
            excluded,
            p,
        )
}

/// The sub-attribute part of the selection lists exactly the justified
/// sub-paths.
proof fn lemma_select_subs_rules(
    subs: Seq<SpecAttribute>,
    parent: SpecAttrPath,
    included: Seq<SpecAttrPath>,
    excluded: Seq<SpecAttrPath>,
)
    ensures
        forall|j: int|
            0 <= j < sp_select_subs(subs, parent, included, excluded).len() ==> exists|l: int|
                0 <= l < subs.len() && #[trigger] sp_select_subs(subs, parent, included, excluded)[j]
                    == sp_sub_path(parent, #[trigger] subs[l]) && sp_emit(
                    subs[l],
                    sp_sub_path(parent, subs[l]),
                    included,
                    excluded,
                ),
        forall|l: int|
            0 <= l < subs.len() && sp_emit(
                #[trigger] subs[l],
                sp_sub_path(parent, subs[l]),
                included,
                excluded,
            ) ==> sp_contains_path(
                sp_select_subs(subs, parent, included, excluded),
                sp_sub_path(parent, subs[l]),
            ),
    decreases subs,
{
    if subs.len() > 0 {
        lemma_select_subs_rules(subs.drop_last(), parent, included, excluded);
        let rec = sp_select_subs(subs.drop_last(), parent, included, excluded);
        let tail = if sp_emit(subs.last(), sp_sub_path(parent, subs.last()), included, excluded) {
            seq![sp_sub_path(parent, subs.last())]
        } else {
            Seq::<SpecAttrPath>::empty()
        };
        let whole = sp_select_subs(subs, parent, included, excluded);
        assert(whole == rec + tail);
        assert forall|j: int| 0 <= j < whole.len() implies exists|l: int|
            0 <= l < subs.len() && #[trigger] whole[j] == sp_sub_path(parent, #[trigger] subs[l])
                && sp_emit(subs[l], sp_sub_path(parent, subs[l]), included, excluded) by {
            if j < rec.len() {
                let l = choose|l: int|
                    0 <= l < subs.drop_last().len() && rec[j] == sp_sub_path(
                        parent,
                        #[trigger] subs.drop_last()[l],
                    ) && sp_emit(
                        subs.drop_last()[l],
                        sp_sub_path(parent, subs.drop_last()[l]),
                        included,
                        excluded,
                    );
                assert(subs.drop_last()[l] == subs[l]);
                assert(whole[j] == rec[j]);
            } else {
                let l = subs.len() - 1;
                assert(whole[j] == tail[j - rec.len()]);
                assert(subs.last() == subs[l]);
            }
        }
        assert forall|l: int|
            0 <= l < subs.len() && sp_emit(
                #[trigger] subs[l],
                sp_sub_path(parent, subs[l]),
                included,
                excluded,
            ) implies sp_contains_path(whole, sp_sub_path(parent, subs[l])) by {
            lemma_contains_concat(rec, tail, sp_sub_path(parent, subs[l]));
            if l < subs.len() - 1 {
                assert(subs.drop_last()[l] == subs[l]);
                assert(sp_contains_path(rec, sp_sub_path(parent, subs.drop_last()[l])));
            } else {
                assert(subs.last() == subs[l]);
                assert(tail[0] == sp_sub_path(parent, subs[l]));
            }
        }
    }
}

/// The selection over a list of attributes lists exactly the justified
/// paths.
proof fn lemma_select_attrs_rules(
    schema: SpecSchema,
    attrs: Seq<SpecAttribute>,
    is_core: bool,
    included: Seq<SpecAttrPath>,
    excluded: Seq<SpecAttrPath>,
)
    ensures
        forall|j: int|
            0 <= j < sp_select_attrs(schema, attrs, is_core, included, excluded).len() ==> exists|
                k: int,
            |
                0 <= k < attrs.len() && sp_justified_by(
                    schema,
                    #[trigger] attrs[k],
                    is_core,
                    included,
                    excluded,
                    #[trigger] sp_select_attrs(schema, attrs, is_core, included, excluded)[j],
                ),
        forall|k: int, p: SpecAttrPath|
            0 <= k < attrs.len() && #[trigger] sp_justified_by(
                schema,
                attrs[k],
                is_core,
                included,
                excluded,
                p,
            ) ==> sp_contains_path(sp_select_attrs(schema, attrs, is_core, included, excluded), p),
    decreases attrs,
{
    if attrs.len() > 0 {
        lemma_select_attrs_rules(schema, attrs.drop_last(), is_core, included, excluded);
        let rec = sp_select_attrs(schema, attrs.drop_last(), is_core, included, excluded);
        let one = sp_select_one(schema, attrs.last(), is_core, included, excluded);
        let whole = sp_select_attrs(schema, attrs, is_core, included, excluded);
        assert(whole == rec + one);
        let last = attrs.last();
        let top = sp_top_path(schema, last, is_core);
        let own = if sp_emit(last, top, included, excluded) {
            seq![top]
        } else {
            Seq::<SpecAttrPath>::empty()
        };
        let subs_part = match last.sub_attributes {
            Some(ss) => sp_select_subs(ss, top, included, excluded),
            None => Seq::<SpecAttrPath>::empty(),
        };
        assert(one == own + subs_part);
        match last.sub_attributes {
            Some(ss) => {
                lemma_select_subs_rules(ss, top, included, excluded);
            },
            None => {},
        }
        assert forall|j: int| 0 <= j < whole.len() implies exists|k: int|
            0 <= k < attrs.len() && sp_justified_by(
                schema,
                #[trigger] attrs[k],
                is_core,
                included,
                excluded,
                #[trigger] whole[j],
            ) by {
            if j < rec.len() {
                assert(whole[j] == rec[j]);
                let k = choose|k: int|
                    0 <= k < attrs.drop_last().len() && sp_justified_by(
                        schema,
                        #[trigger] attrs.drop_last()[k],
                        is_core,
                        included,
                        excluded,
                        rec[j],
                    );
                assert(attrs.drop_last()[k] == attrs[k]);
            } else {
                let k = attrs.len() - 1;
                assert(attrs[k] == last);
                let jj = j - rec.len();
                assert(whole[j] == one[jj]);
                if jj < own.len() {
                    assert(one[jj] == top);
                    assert(sp_justified_by(schema, last, is_core, included, excluded, whole[j]));
                } else {
                    let js = jj - own.len();
                    assert(one[jj] == subs_part[js]);
                    match last.sub_attributes {
                        Some(ss) => {
                            assert(sp_justified_by(
                                schema,
                                last,
                                is_core,
                                included,
                                excluded,
                                whole[j],
                            ));
                        },
                        None => {},
                    }
                }
            }
        }
        assert forall|k: int, p: SpecAttrPath|
            0 <= k < attrs.len() && #[trigger] sp_justified_by(
                schema,
                attrs[k],
                is_core,
                included,
                excluded,
                p,
            ) implies sp_contains_path(whole, p) by {
            lemma_contains_concat(rec, one, p);
            lemma_contains_concat(own, subs_part, p);
            if k < attrs.len() - 1 {
                assert(attrs.drop_last()[k] == attrs[k]);
                assert(sp_contains_path(rec, p));
            } else {
                assert(attrs[k] == last);
                if p == top && sp_emit(last, top, included, excluded) {
                    assert(own[0] == p);
                    assert(sp_contains_path(own, p));
                } else {
                    match last.sub_attributes {
                        Some(ss) => {
                            let l = choose|l: int|
                                0 <= l < ss.len() && p == sp_sub_path(top, #[trigger] ss[l])
                                    && sp_emit(ss[l], p, included, excluded);
                            assert(sp_contains_path(subs_part, p));
                        },
                        None => {},
                    }
                }
            }
        }
    }
}

/// Law: the optional-attribute selection is a function of the schema
/// and the two lists alone, and it lists exactly the attribute and
/// sub-attribute paths that the `returned` rules call for — `default`
/// ones unless excluded, `request` ones when included, `always` and
/// `never` ones not at all.
pub proof fn lemma_selection_rules(
    schema: SpecSchema,
    included: Seq<SpecAttrPath>,
    excluded: Seq<SpecAttrPath>,
    is_core: bool,
)
    ensures
        forall|j: int|
            0 <= j < sp_optional_attributes(schema, included, excluded, is_core).len()
                ==> sp_justified(
                schema,
                is_core,
                included,
                excluded,
                #[trigger] sp_optional_attributes(schema, included, excluded, is_core)[j],
            ),
        forall|p: SpecAttrPath|
            sp_justified(schema, is_core, included, excluded, p) ==> sp_contains_path(
                sp_optional_attributes(schema, included, excluded, is_core),
                p,
            ),
{
    lemma_select_attrs_rules(schema, schema.attributes, is_core, included, excluded);
}

} // verus!

verus! {

/// The model of a concatenation of path vectors is the concatenation of
/// their models.
pub proof fn lemma_view_paths_concat(a: Seq<AttrPath>, b: Seq<AttrPath>)
    ensures
        view_paths(a + b) == view_paths(a) + view_paths(b),
    decreases b,
{
    if b.len() == 0 {
        assert(a + b =~= a);
        assert(view_paths(a) + view_paths(b) =~= view_paths(a));
    } else {
        lemma_view_paths_concat(a, b.drop_last());
        assert((a + b).drop_last() =~= a + b.drop_last());
        assert((a + b).last() == b.last());
        assert(view_paths(a + b) == view_paths(a + b.drop_last()).push(b.last()@));
        assert(view_paths(b) == view_paths(b.drop_last()).push(b.last()@));
        assert(view_paths(a) + view_paths(b.drop_last()).push(b.last()@) =~= (view_paths(a)
            + view_paths(b.drop_last())).push(b.last()@));
    }
}

} // verus!
