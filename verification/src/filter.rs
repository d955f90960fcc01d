//! The SCIM filter and path syntax trees: attribute paths, comparison
//! operators and values, filter expressions and value paths, together with
//! their mathematical models.

use vstd::prelude::*;

use crate::text::{str_eq, opt_str_eq};
use crate::error::{Error, ErrorType};
use crate::grammar::{sp_parse_filter, sp_parse_value_path, sp_parse_attr_path};

verus! {

/// Model of an attribute path: `(urn?, name, subAttr?)`.
pub struct SpecAttrPath {
    pub urn: Option<Seq<char>>,
    pub name: Seq<char>,
    pub sub_attr: Option<Seq<char>>,
}

/// An attribute path, the triple `(urn?, name, subAttr?)`.
#[derive(Debug, Clone, PartialEq, Eq)]
pub struct AttrPath {
    /// Schema URN qualifying the attribute, if any.
    pub urn: Option<String>,
    /// Name of the attribute.
    pub name: String,
    /// Name of the sub-attribute, if any.
    pub sub_attr: Option<String>,
}

impl View for AttrPath {
    type V = SpecAttrPath;

    open spec fn view(&self) -> SpecAttrPath {
        SpecAttrPath {
            urn: match self.urn {
                Some(u) => Some(u@),
                None => None,
            },
            name: self.name@,
            sub_attr: match self.sub_attr {
                Some(s) => Some(s@),
                None => None,
            },
        }
    }
}

/// A borrowed view of an [`AttrPath`].
#[derive(Debug, Clone, Copy, PartialEq, Eq)]
pub struct AttrPathRef<'a> {
    /// Schema URN qualifying the attribute, if any.
    pub urn: Option<&'a str>,
    /// Name of the attribute.
    pub name: &'a str,
    /// Name of the sub-attribute, if any.
    pub sub_attr: Option<&'a str>,
}

impl<'a> View for AttrPathRef<'a> {
    type V = SpecAttrPath;

    open spec fn view(&self) -> SpecAttrPath {
        SpecAttrPath {
            urn: match self.urn {
                Some(u) => Some(u@),
                None => None,
            },
            name: self.name@,
            sub_attr: match self.sub_attr {
                Some(s) => Some(s@),
                None => None,
            },
        }
    }
}

impl AttrPath {
    /// Borrows this path as an [`AttrPathRef`].
    pub fn as_ref(&self) -> (r: AttrPathRef<'_>)
        ensures
            r@ == self@,
    {
        AttrPathRef {
            urn: match &self.urn {
                Some(u) => Some(u.as_str()),
                None => None,
            },
            name: self.name.as_str(),
            sub_attr: match &self.sub_attr {
                Some(s) => Some(s.as_str()),
                None => None,
            },
        }
    }

    /// Decides equality of two attribute paths.
    pub fn same_as(&self, other: &AttrPath) -> (r: bool)
        ensures
            r == (self@ == other@),
    {
        let r = opt_str_eq(&self.urn, &other.urn) && str_eq(self.name.as_str(), other.name.as_str())
            && opt_str_eq(&self.sub_attr, &other.sub_attr);
        proof {
            if r {
                assert(self@.urn == other@.urn);
                assert(self@.sub_attr == other@.sub_attr);
            }
        }
        r
    }
}

/// A comparison operator of the filter grammar.
#[derive(Debug, Clone, Copy, PartialEq, Eq, Structural)]
pub enum CompareOp {
    /// `eq`
    Equal,
    /// `ne`
    NotEqual,
    /// `co`
    Contains,
    /// `sw`
    StartsWith,
    /// `ew`
    EndsWith,
    /// `gt`
    GreaterThan,
    /// `ge`
    GreaterThanOrEqual,
    /// `lt`
    LessThan,
    /// `le`
    LessThanOrEqual,
}

/// Model of a comparison value: null, boolean, decimal number (kept as its
/// literal text) or string.
pub enum SpecCompValue {
    Null,
    Bool(bool),
    Num(Seq<char>),
    Str(Seq<char>),
}

/// A comparison value: null, boolean, decimal number (kept as its literal
/// text, preserving arbitrary precision) or string.
#[derive(Debug, Clone, PartialEq, Eq)]
pub enum CompValue {
    /// The literal `null`.
    Null,
    /// The literals `true` and `false`.
    Bool(bool),
    /// A decimal number, held as its literal text.
    Num(String),
    /// A quoted string, with escapes decoded.
    Str(String),
}

impl View for CompValue {
    type V = SpecCompValue;

    open spec fn view(&self) -> SpecCompValue {
        match self {
            CompValue::Null => SpecCompValue::Null,
            CompValue::Bool(b) => SpecCompValue::Bool(*b),
            CompValue::Num(n) => SpecCompValue::Num(n@),
            CompValue::Str(s) => SpecCompValue::Str(s@),
        }
    }
}

/// Model of a filter expression.
pub enum SpecFilter {
    Present(SpecAttrPath),
    Compare(SpecAttrPath, CompareOp, SpecCompValue),
    Has(SpecAttrPath, Box<SpecFilter>),
    And(Seq<SpecFilter>),
    Or(Seq<SpecFilter>),
    Not(Box<SpecFilter>),
}

/// A filter expression over attribute paths and comparison values.
#[derive(Debug, PartialEq, Eq)]
pub enum Filter {
    /// `attrPath pr`: the attribute is present.
    Present(AttrPath),
    /// `attrPath op value`: a comparison.
    Compare(AttrPath, CompareOp, CompValue),
    /// `attrPath[filter]`: a value filter scoped to a complex attribute.
    Has(AttrPath, Box<Filter>),
    /// A conjunction of two or more clauses.
    And(Vec<Filter>),
    /// A disjunction of two or more clauses.
    Or(Vec<Filter>),
    /// `not (filter)`.
    Not(Box<Filter>),
}

/// Models of a sequence of filters, element-wise.
pub open spec fn view_filters(fs: Seq<Filter>) -> Seq<SpecFilter>
    decreases fs,
{
    if fs.len() == 0 {
        Seq::empty()
    } else {
        view_filters(fs.drop_last()).push(fs.last()@)
    }
}

impl View for Filter {
    type V = SpecFilter;

    open spec fn view(&self) -> SpecFilter
        decreases self,
    {
        match self {
            Filter::Present(p) => SpecFilter::Present(p@),
            Filter::Compare(p, op, v) => SpecFilter::Compare(p@, *op, v@),
            Filter::Has(p, f) => SpecFilter::Has(p@, Box::new((**f)@)),
            Filter::And(fs) => SpecFilter::And(view_filters(fs@)),
            Filter::Or(fs) => SpecFilter::Or(view_filters(fs@)),
            Filter::Not(f) => SpecFilter::Not(Box::new((**f)@)),
        }
    }
}

/// The model of a sequence of filters has the same length and holds the
/// models of its elements, in order.
pub proof fn lemma_view_filters(fs: Seq<Filter>)
    ensures
        view_filters(fs).len() == fs.len(),
        forall|i: int| 0 <= i < fs.len() ==> view_filters(fs)[i] == #[trigger] fs[i]@,
    decreases fs,
{
    if fs.len() > 0 {
        lemma_view_filters(fs.drop_last());
        assert(view_filters(fs) == view_filters(fs.drop_last()).push(fs.last()@));
        assert forall|i: int| 0 <= i < fs.len() implies view_filters(fs)[i] == #[trigger] fs[i]@ by {
            if i < fs.len() - 1 {
                assert(fs.drop_last()[i] == fs[i]);
                assert(view_filters(fs)[i] == view_filters(fs.drop_last())[i]);
            } else {
                assert(fs.last() == fs[i]);
            }
        }
    }
}

/// Structural size of a filter, used as a termination measure by
/// functions that walk filters through their child vectors.
pub open spec fn filter_size(f: Filter) -> nat
    decreases f,
{
    match f {
        Filter::Present(_) => 1,
        Filter::Compare(_, _, _) => 1,
        Filter::Has(_, inner) => 1 + filter_size(*inner),
        Filter::And(fs) => 1 + filters_size(fs@),
        Filter::Or(fs) => 1 + filters_size(fs@),
        Filter::Not(inner) => 1 + filter_size(*inner),
    }
}

/// Structural size of a sequence of filters.
pub open spec fn filters_size(fs: Seq<Filter>) -> nat
    decreases fs,
{
    if fs.len() == 0 {
        0
    } else {
        filters_size(fs.drop_last()) + filter_size(fs.last()) + 1
    }
}

/// Model of a value path.
pub enum SpecValuePath {
    Attr(SpecAttrPath),
    Filtered(SpecAttrPath, SpecFilter),
}

/// A value path: a bare attribute path, or one carrying a value filter.
#[derive(Debug, PartialEq, Eq)]
pub enum ValuePath {
    /// A bare attribute path.
    Attr(AttrPath),
    /// An attribute path with a value filter; a trailing sub-attribute
    /// selector is recorded on the path itself.
    Filtered(AttrPath, Filter),
}

impl View for ValuePath {
    type V = SpecValuePath;

    open spec fn view(&self) -> SpecValuePath {
        match self {
            ValuePath::Attr(p) => SpecValuePath::Attr(p@),
            ValuePath::Filtered(p, f) => SpecValuePath::Filtered(p@, f@),
        }
    }
}

} // verus!

verus! {

impl CompareOp {
    /// Reads a comparison operator from its two-letter code,
    /// ASCII-case-insensitively; any other text is rejected with a
    /// message naming it.
    pub fn from_str(s: &str) -> (r: Result<CompareOp, String>)
        ensures
            match r {
                Ok(op) => s@.len() == 2 && crate::grammar::sp_compare_op(s@, 0) == Some((2int, op)),
                Err(m) => !(s@.len() == 2 && crate::grammar::sp_compare_op(s@, 0) is Some) && m@
                    == s@ + " is not a valid operator"@,
            },
    {
        let cs = crate::text::str_to_chars(s);
        if cs.len() == 2 {
            match crate::parse::p_compare_op_pub(&cs, 0) {
                Some((_, op)) => {
                    return Ok(op);
                },
                None => {},
            }
        }
        let mut m = String::from_str(s);
        m.append(" is not a valid operator");
        Err(m)
    }
}

/// Parses a complete SCIM filter expression.  Trailing text or a grammar
/// failure yields an `invalidFilter` error whose detail names the
/// unconsumed input.
pub fn parse_filter(input: &str) -> (r: Result<Filter, Error>)
    ensures
        match r {
            Ok(f) => sp_parse_filter(input@) == Some(f@),
            Err(e) => sp_parse_filter(input@) is None && e.status == 400 && e.scim_type == Some(
                ErrorType::InvalidFilter,
            ) && e.detail@ == match crate::grammar::sp_filter(input@, 0) {
                Some((p, _)) => "Invalid filter: unexpected "@ + input@.subrange(
                    p,
                    input@.len() as int,
                ),
                None => "Invalid filter: "@ + input@,
            },
        },
{
    let cs = crate::text::str_to_chars(input);
    match crate::parse::p_or(&cs, 0) {
        Some((p, f)) => {
            if p == cs.len() {
                Ok(f)
            } else {
                let mut detail = String::from_str("Invalid filter: unexpected ");
                let rest = crate::text::chars_range_to_string(&cs, p, cs.len());
                detail.append(rest.as_str());
                Err(Error { status: 400, scim_type: Some(ErrorType::InvalidFilter), detail })
            }
        },
        None => {
            let mut detail = String::from_str("Invalid filter: ");
            detail.append(input);
            Err(Error { status: 400, scim_type: Some(ErrorType::InvalidFilter), detail })
        },
    }
}

/// Parses a complete SCIM value path.  Trailing text or a grammar
/// failure yields an `invalidPath` error whose detail names the
/// unconsumed input.
pub fn parse_value_path(input: &str) -> (r: Result<ValuePath, Error>)
    ensures
        match r {
            Ok(vp) => sp_parse_value_path(input@) == Some(vp@),
            Err(e) => sp_parse_value_path(input@) is None && e.status == 400 && e.scim_type
                == Some(ErrorType::InvalidPath) && e.detail@ == match crate::grammar::sp_value_path(
                input@,
                0,
            ) {
                Some((p, _)) => "Invalid path: unexpected "@ + input@.subrange(
                    p,
                    input@.len() as int,
                ),
                None => "Invalid path: "@ + input@,
            },
        },
{
    let cs = crate::text::str_to_chars(input);
    match crate::parse::p_value_path(&cs, 0) {
        Some((p, vp)) => {
            if p == cs.len() {
                Ok(vp)
            } else {
                let mut detail = String::from_str("Invalid path: unexpected ");
                let rest = crate::text::chars_range_to_string(&cs, p, cs.len());
                detail.append(rest.as_str());
                Err(Error { status: 400, scim_type: Some(ErrorType::InvalidPath), detail })
            }
        },
        None => {
            let mut detail = String::from_str("Invalid path: ");
            detail.append(input);
            Err(Error { status: 400, scim_type: Some(ErrorType::InvalidPath), detail })
        },
    }
}

/// Parses a complete attribute path.  Trailing text or a grammar failure
/// yields an `invalidPath` error whose detail names the unconsumed
/// input.
pub fn parse_attr_path(input: &str) -> (r: Result<AttrPath, Error>)
    ensures
        match r {
            Ok(ap) => sp_parse_attr_path(input@) == Some(ap@),
            Err(e) => sp_parse_attr_path(input@) is None && e.status == 400 && e.scim_type == Some(
                ErrorType::InvalidPath,
            ) && e.detail@ == match crate::grammar::sp_attr_path(input@, 0) {
                Some((p, _)) => "Invalid attribute path: unexpected "@ + input@.subrange(
                    p,
                    input@.len() as int,
                ),
                None => "Invalid attribute path: "@ + input@,
            },
        },
{
    let cs = crate::text::str_to_chars(input);
    match crate::parse::p_attr_path(&cs, 0) {
        Some((p, ap)) => {
            if p == cs.len() {
                Ok(ap)
            } else {
                let mut detail = String::from_str("Invalid attribute path: unexpected ");
                let rest = crate::text::chars_range_to_string(&cs, p, cs.len());
                detail.append(rest.as_str());
                Err(Error { status: 400, scim_type: Some(ErrorType::InvalidPath), detail })
            }
        },
        None => {
            let mut detail = String::from_str("Invalid attribute path: ");
            detail.append(input);
            Err(Error { status: 400, scim_type: Some(ErrorType::InvalidPath), detail })
        },
    }
}

} // verus!

verus! {

/// The canonical `meta.resourceType` attribute path.
pub open spec fn sp_meta_resource_type_path() -> SpecAttrPath {
    SpecAttrPath { urn: None, name: "meta"@, sub_attr: Some("resourceType"@) }
}

/// Whether `f` is a `meta.resourceType eq "<name>"` clause (attribute
/// names matched ASCII-case-insensitively), naming `name`.
pub open spec fn sp_is_rt_clause(f: SpecFilter, name: Seq<char>) -> bool {
    &&& f matches SpecFilter::Compare(p, op, v)
    &&& p.urn is None
    &&& crate::text::seq_ieq(p.name, "meta"@)
    &&& p.sub_attr matches Some(sub) && crate::text::seq_ieq(sub, "resourceType"@)
    &&& op == CompareOp::Equal
    &&& v == SpecCompValue::Str(name)
}

/// Resource-type extraction: a `meta.resourceType eq "<name>"` clause
/// yields the name; a conjunction holding one yields the name and the
/// remaining clauses; everything else is handed back.
pub open spec fn sp_take_rt(f: SpecFilter) -> Result<(Option<SpecFilter>, Seq<char>), SpecFilter>
    decreases f, 1int,
{
    match f {
        SpecFilter::And(fs) => {
            let (rem0, found) = sp_take_rt_list(fs);
            match found {
                Some((other, name)) => {
                    let rem = match other {
                        Some(o) => rem0.push(o),
                        None => rem0,
                    };
                    if rem.len() == 0 {
                        Ok((None, name))
                    } else if rem.len() == 1 {
                        Ok((Some(rem[0]), name))
                    } else {
                        Ok((Some(SpecFilter::And(rem)), name))
                    }
                },
                None => Err(SpecFilter::And(rem0)),
            }
        },
        SpecFilter::Compare(p, op, v) => if v matches SpecCompValue::Str(name) && sp_is_rt_clause(
            f,
            v->Str_0,
        ) {
            Ok((None, v->Str_0))
        } else {
            Err(f)
        },
        _ => Err(f),
    }
}

/// Resource-type extraction over the clauses of a conjunction, left to
/// right: the clauses handed back, and the first extraction result.
pub open spec fn sp_take_rt_list(fs: Seq<SpecFilter>) -> (
    Seq<SpecFilter>,
    Option<(Option<SpecFilter>, Seq<char>)>,
)
    decreases fs, 0int,
{
    if fs.len() == 0 {
        (Seq::empty(), None)
    } else {
        match sp_take_rt(fs.first()) {
            Ok((other, name)) => (fs.drop_first(), Some((other, name))),
            Err(f1) => {
                let (rem, found) = sp_take_rt_list(fs.drop_first());
                (seq![f1] + rem, found)
            },
        }
    }
}

/// A filter handed back by [`sp_take_rt`] is the filter it was given.
pub proof fn lemma_take_rt_err_identity(f: SpecFilter)
    ensures
        sp_take_rt(f) matches Err(g) ==> g == f,
    decreases f, 1int,
{
    match f {
        SpecFilter::And(fs) => {
            lemma_take_rt_list_err_identity(fs);
        },
        _ => {},
    }
}

/// Clauses handed back by [`sp_take_rt_list`] are the clauses it was
/// given, while nothing has been extracted.
pub proof fn lemma_take_rt_list_err_identity(fs: Seq<SpecFilter>)
    ensures
        sp_take_rt_list(fs).1 is None ==> sp_take_rt_list(fs).0 == fs,
    decreases fs, 0int,
{
    if fs.len() > 0 {
        match sp_take_rt(fs.first()) {
            Ok(_) => {},
            Err(f1) => {
                lemma_take_rt_err_identity(fs.first());
                lemma_take_rt_list_err_identity(fs.drop_first());
                if sp_take_rt_list(fs).1 is None {
                    assert(seq![f1] + fs.drop_first() =~= fs);
                }
            },
        }
    }
}

/// Law: a conjunction of the `meta.resourceType eq "<name>"` clause and
/// one other clause — in either order — yields that other clause and the
/// name; the bare clause alone yields the name and no residual filter.
pub proof fn lemma_take_resource_type_filter(name: Seq<char>, rt: SpecFilter, f2: SpecFilter)
    requires
        sp_is_rt_clause(rt, name),
        sp_take_rt(f2) is Err,
    ensures
        sp_take_rt(rt) == Ok::<_, SpecFilter>((None::<SpecFilter>, name)),
        sp_take_rt(SpecFilter::And(seq![rt, f2])) == Ok::<_, SpecFilter>((Some(f2), name)),
        sp_take_rt(SpecFilter::And(seq![f2, rt])) == Ok::<_, SpecFilter>((Some(f2), name)),
{
    lemma_take_rt_err_identity(f2);
    let both = seq![rt, f2];
    assert(both.first() == rt);
    assert(both.drop_first() =~= seq![f2]);
    let swapped = seq![f2, rt];
    assert(swapped.first() == f2);
    assert(swapped.drop_first() =~= seq![rt]);
    assert(seq![rt].first() == rt);
    assert(seq![rt].drop_first() =~= Seq::<SpecFilter>::empty());
    assert(sp_take_rt_list(seq![rt]) == (
        Seq::<SpecFilter>::empty(),
        Some((None::<SpecFilter>, name)),
    ));
    assert(seq![f2] + Seq::<SpecFilter>::empty() =~= seq![f2]);
}

impl Filter {
    /// Extracts the resource-type selector from this filter: a
    /// `meta.resourceType eq "<name>"` comparison yields the name, a
    /// conjunction holding one yields the name and the remaining
    /// clauses (unwrapped when only one remains); any other filter is
    /// handed back unchanged.
    pub fn take_resource_type_filter(self) -> (r: Result<(Option<Filter>, String), Filter>)
        ensures
            match r {
                Ok((of, name)) => sp_take_rt(self@) == Ok::<_, SpecFilter>(
                    (
                        match of {
                            Some(f) => Some(f@),
                            None => None,
                        },
                        name@,
                    ),
                ),
                Err(f) => sp_take_rt(self@) == Err::<(Option<SpecFilter>, Seq<char>), _>(f@),
            },
        decreases filter_size(self), 1nat,
    {
        match self {
            Filter::And(fs) => {
                proof {
                    lemma_view_filters(fs@);
                }
                let (rem0, found) = take_rt_list(fs);
                match found {
                    Some((other, name)) => {
                        let mut rem = rem0;
                        let ghost rem_before = rem@;
                        match other {
                            Some(o) => {
                                rem.push(o);
                                proof {
                                    assert(rem@.drop_last() == rem_before);
                                    assert(view_filters(rem@) == view_filters(rem_before).push(
                                        o@,
                                    ));
                                }
                            },
                            None => {},
                        }
                        if rem.len() == 0 {
                            proof {
                                assert(view_filters(rem@).len() == 0) by {
                                    lemma_view_filters(rem@);
                                }
                            }
                            Ok((None, name))
                        } else if rem.len() == 1 {
                            proof {
                                lemma_view_filters(rem@);
                            }
                            let mut rem = rem;
                            let only = rem.pop().unwrap();
                            Ok((Some(only), name))
                        } else {
                            proof {
                                lemma_view_filters(rem@);
                            }
                            Ok((Some(Filter::And(rem)), name))
                        }
                    },
                    None => Err(Filter::And(rem0)),
                }
            },
            Filter::Compare(ap, op, v) => {
                match v {
                    CompValue::Str(name) => {
                        let is_rt = ap.urn.is_none() && op == CompareOp::Equal
                            && crate::text::eq_ignore_ascii_case(ap.name.as_str(), "meta")
                            && match &ap.sub_attr {
                            Some(sub) => crate::text::eq_ignore_ascii_case(
                                sub.as_str(),
                                "resourceType",
                            ),
                            None => false,
                        };
                        if is_rt {
                            Ok((None, name))
                        } else {
                            Err(Filter::Compare(ap, op, CompValue::Str(name)))
                        }
                    },
                    _ => Err(Filter::Compare(ap, op, v)),
                }
            },
            other => Err(other),
        }
    }
}

/// Resource-type extraction over a vector of conjunction clauses.
fn take_rt_list(mut fs: Vec<Filter>) -> (r: (Vec<Filter>, Option<(Option<Filter>, String)>))
    ensures
        view_filters(r.0@) == sp_take_rt_list(view_filters(fs@)).0,
        match (r.1, sp_take_rt_list(view_filters(fs@)).1) {
            (Some((Some(f), nm)), Some((Some(sf), snm))) => f@ == sf && nm@ == snm,
            (Some((None, nm)), Some((None, snm))) => nm@ == snm,
            (None, None) => true,
            _ => false,
        },
    decreases filters_size(fs@), 0nat,
{
    let ghost fs0 = fs@;
    if fs.len() == 0 {
        proof {
            assert(view_filters(fs0).len() == 0) by {
                lemma_view_filters(fs0);
            }
        }
        (fs, None)
    } else {
        let hd = fs.remove(0);
        proof {
            lemma_filters_size_first(fs0);
            lemma_view_filters(fs0);
            lemma_view_filters(fs0.drop_first());
            assert(fs0.first() == hd);
            assert(fs0.drop_first() =~= fs@);
            assert(view_filters(fs0).first() == hd@);
            assert forall|k: int| 0 <= k < fs@.len() implies view_filters(fs0).drop_first()[k]
                == view_filters(fs@)[k] by {
                assert(view_filters(fs0)[k + 1] == fs0[k + 1]@);
                assert(fs0[k + 1] == fs@[k]);
                assert(view_filters(fs@)[k] == fs@[k]@);
            }
            assert(view_filters(fs0).drop_first() =~= view_filters(fs@));
            assert(view_filters(fs0).len() > 0);
        }
        match hd.take_resource_type_filter() {
            Ok((other, name)) => (fs, Some((other, name))),
            Err(h) => {
                let (mut rem, found) = take_rt_list(fs);
                let ghost rem_before = rem@;
                rem.insert(0, h);
                proof {
                    lemma_view_filters(rem@);
                    lemma_view_filters(rem_before);
                    assert(rem@.len() == rem_before.len() + 1);
                    assert forall|k: int| 0 <= k < rem@.len() implies view_filters(rem@)[k] == (
                    seq![h@] + view_filters(rem_before))[k] by {
                        assert(view_filters(rem@)[k] == rem@[k]@);
                        if k > 0 {
                            assert(rem@[k] == rem_before[k - 1]);
                            assert(view_filters(rem_before)[k - 1] == rem_before[k - 1]@);
                        }
                    }
                    assert(view_filters(rem@) =~= seq![h@] + view_filters(rem_before));
                }
                (rem, found)
            },
        }
    }
}

/// Splitting off the first clause splits the size measure.
pub proof fn lemma_filters_size_first(fs: Seq<Filter>)
    requires
        fs.len() > 0,
    ensures
        filters_size(fs) == filter_size(fs.first()) + 1 + filters_size(fs.drop_first()),
    decreases fs,
{
    if fs.len() == 1 {
        assert(fs.drop_last() =~= Seq::<Filter>::empty());
        assert(fs.drop_first() =~= Seq::<Filter>::empty());
        assert(fs.last() == fs.first());
    } else {
        lemma_filters_size_first(fs.drop_last());
        assert(fs.drop_last().first() == fs.first());
        assert(fs.drop_last().drop_first() =~= fs.drop_first().drop_last());
        assert(fs.drop_first().last() == fs.last());
    }
}

} // verus!

verus! {

/// The conjuncts of a filter: nested conjunctions flattened, in order;
/// any other filter is its own single conjunct.
pub open spec fn sp_cnf(f: SpecFilter) -> Seq<SpecFilter>
    decreases f,
{
    match f {
        SpecFilter::And(fs) => sp_cnf_list(fs),
        _ => seq![f],
    }
}

/// The conjuncts of a clause list, in order.
pub open spec fn sp_cnf_list(fs: Seq<SpecFilter>) -> Seq<SpecFilter>
    decreases fs,
{
    if fs.len() == 0 {
        Seq::empty()
    } else {
        sp_cnf_list(fs.drop_last()) + sp_cnf(fs.last())
    }
}

/// Models of a sequence of borrowed filters, element-wise.
pub open spec fn view_filter_refs(fs: Seq<&Filter>) -> Seq<SpecFilter>
    decreases fs,
{
    if fs.len() == 0 {
        Seq::empty()
    } else {
        view_filter_refs(fs.drop_last()).push(fs.last()@)
    }
}

impl Filter {
    /// The conjuncts of this filter, in order: nested conjunctions are
    /// flattened, anything else stands alone.
    pub fn iter_cnf<'a>(&'a self) -> (r: Vec<&'a Filter>)
        ensures
            view_filter_refs(r@) == sp_cnf(self@),
        decreases filter_size(*self),
    {
        match self {
            Filter::And(fs) => {
                let ghost svs = view_filters(fs@);
                proof {
                    lemma_view_filters(fs@);
                    assert(view_filter_refs(Seq::<&Filter>::empty()) =~= Seq::<
                        SpecFilter,
                    >::empty());
                    assert(sp_cnf_list(svs.take(0)) =~= Seq::<SpecFilter>::empty());
                }
                let mut r: Vec<&Filter> = Vec::new();
                let mut i: usize = 0;
                while i < fs.len()
                    invariant
                        i <= fs@.len(),
                        svs == view_filters(fs@),
                        svs.len() == fs@.len(),
                        forall|k: int| 0 <= k < fs@.len() ==> svs[k] == #[trigger] fs@[k]@,
                        filters_size(fs@) < filter_size(*self),
                        view_filter_refs(r@) == sp_cnf_list(svs.take(i as int)),
                    decreases fs@.len() - i,
                {
                    proof {
                        crate::print::lemma_filters_size_take_elem(fs@, i as int);
                        assert(svs[i as int] == fs@[i as int]@);
                    }
                    let ghost before = r@;
                    let mut more = fs[i].iter_cnf();
                    let ghost more0 = more@;
                    r.append(&mut more);
                    i = i + 1;
                    proof {
                        lemma_view_filter_refs_concat(before, more0);
                        assert(svs.take(i as int).drop_last() =~= svs.take(i as int - 1));
                        assert(svs.take(i as int).last() == svs[i as int - 1]);
                    }
                }
                proof {
                    assert(svs.take(fs@.len() as int) =~= svs);
                }
                r
            },
            _ => {
                let mut r: Vec<&Filter> = Vec::new();
                r.push(self);
                proof {
                    assert(r@.len() == 1);
                    assert(r@.last() == self);
                    assert(r@.drop_last() =~= Seq::<&Filter>::empty());
                    assert(view_filter_refs(r@) == view_filter_refs(r@.drop_last()).push(
                        r@.last()@,
                    ));
                    assert(view_filter_refs(r@) =~= seq![self@]);
                }
                r
            },
        }
    }
}

/// The model of a concatenation of borrowed-filter vectors is the
/// concatenation of their models.
proof fn lemma_view_filter_refs_concat(a: Seq<&Filter>, b: Seq<&Filter>)
    ensures
        view_filter_refs(a + b) == view_filter_refs(a) + view_filter_refs(b),
    decreases b,
{
    if b.len() == 0 {
        assert(a + b =~= a);
        assert(view_filter_refs(a) + view_filter_refs(b) =~= view_filter_refs(a));
    } else {
        lemma_view_filter_refs_concat(a, b.drop_last());
        assert((a + b).drop_last() =~= a + b.drop_last());
        assert((a + b).last() == b.last());
        assert(view_filter_refs(a + b) == view_filter_refs(a + b.drop_last()).push(b.last()@));
        assert(view_filter_refs(b) == view_filter_refs(b.drop_last()).push(b.last()@));
        assert(view_filter_refs(a) + view_filter_refs(b.drop_last()).push(b.last()@) =~= (
        view_filter_refs(a) + view_filter_refs(b.drop_last())).push(b.last()@));
    }
}

} // verus!

verus! {

/// Walking a conjunction whose first clauses all refuse extraction and
/// whose next clause is the `meta.resourceType` one hands the other
/// clauses back, in order, with the name.
proof fn lemma_take_rt_list_around(
    name: Seq<char>,
    pre: Seq<SpecFilter>,
    rt: SpecFilter,
    post: Seq<SpecFilter>,
)
    requires
        sp_is_rt_clause(rt, name),
        forall|k: int| 0 <= k < pre.len() ==> sp_take_rt(#[trigger] pre[k]) is Err,
    ensures
        sp_take_rt_list(pre + seq![rt] + post) == (
            pre + post,
            Some((None::<SpecFilter>, name)),
        ),
    decreases pre,
{
    let cs = pre + seq![rt] + post;
    if pre.len() == 0 {
        assert(cs.first() == rt);
        assert(cs.drop_first() =~= post);
        assert(pre + post =~= post);
    } else {
        assert(cs.first() == pre[0]);
        lemma_take_rt_err_identity(pre[0]);
        assert forall|k: int| 0 <= k < pre.drop_first().len() implies sp_take_rt(
            #[trigger] pre.drop_first()[k],
        ) is Err by {
            assert(pre.drop_first()[k] == pre[k + 1]);
        }
        lemma_take_rt_list_around(name, pre.drop_first(), rt, post);
        assert(cs.drop_first() =~= pre.drop_first() + seq![rt] + post);
        assert(seq![pre[0]] + (pre.drop_first() + post) =~= pre + post);
    }
}

/// Law: extracting the resource type from a conjunction holding exactly
/// one `meta.resourceType eq "<name>"` clause — in any position, every
/// other clause refusing extraction on its own — yields the name and
/// the other clauses in their original order: none, the one clause
/// unwrapped, or their conjunction.
pub proof fn lemma_take_rt_conjunction(
    name: Seq<char>,
    pre: Seq<SpecFilter>,
    rt: SpecFilter,
    post: Seq<SpecFilter>,
)
    requires
        sp_is_rt_clause(rt, name),
        forall|k: int| 0 <= k < pre.len() ==> sp_take_rt(#[trigger] pre[k]) is Err,
        forall|k: int| 0 <= k < post.len() ==> sp_take_rt(#[trigger] post[k]) is Err,
    ensures
        sp_take_rt(SpecFilter::And(pre + seq![rt] + post)) == Ok::<_, SpecFilter>(
            (
                if pre.len() + post.len() == 0 {
                    None
                } else if pre.len() + post.len() == 1 {
                    Some((pre + post)[0])
                } else {
                    Some(SpecFilter::And(pre + post))
                },
                name,
            ),
        ),
{
    lemma_take_rt_list_around(name, pre, rt, post);
}

} // verus!
