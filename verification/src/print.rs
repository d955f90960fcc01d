//! Canonical text for filters and paths: the inverse direction of the
//! parser.  Parsing rendered text yields the syntax tree back, which the
//! round-trip tests exercise.

use vstd::prelude::*;

use crate::filter::{
    AttrPath, CompValue, CompareOp, Filter, ValuePath, SpecAttrPath, SpecCompValue, SpecFilter,
    SpecValuePath, filter_size, filters_size,
};
use crate::text::push_char;

verus! {

/// Canonical text of an attribute path.  A scoped path — one inside a
/// value filter, whose attributes the parser rewrote under the parent —
/// renders only its sub-attribute.
pub open spec fn sp_render_path(p: SpecAttrPath, scoped: bool) -> Seq<char> {
    if scoped {
        match p.sub_attr {
            Some(t) => t,
            None => p.name,
        }
    } else {
        (match p.urn {
            Some(u) => u + seq![':'],
            None => Seq::empty(),
        }) + p.name + (match p.sub_attr {
            Some(t) => seq!['.'] + t,
            None => Seq::empty(),
        })
    }
}

/// The two-letter code of a comparison operator.
pub open spec fn sp_render_op(op: CompareOp) -> Seq<char> {
    match op {
        CompareOp::Equal => "eq"@,
        CompareOp::NotEqual => "ne"@,
        CompareOp::Contains => "co"@,
        CompareOp::StartsWith => "sw"@,
        CompareOp::EndsWith => "ew"@,
        CompareOp::GreaterThan => "gt"@,
        CompareOp::GreaterThanOrEqual => "ge"@,
        CompareOp::LessThan => "lt"@,
        CompareOp::LessThanOrEqual => "le"@,
    }
}

/// String-literal escaping: quotes and backslashes take a backslash.
pub open spec fn sp_escape_str(t: Seq<char>) -> Seq<char>
    decreases t,
{
    if t.len() == 0 {
        Seq::empty()
    } else {
        sp_escape_str(t.drop_last()) + (if t.last() == '"' || t.last() == '\\' {
            seq!['\\', t.last()]
        } else {
            seq![t.last()]
        })
    }
}

/// Canonical text of a comparison value.
pub open spec fn sp_render_value(v: SpecCompValue) -> Seq<char> {
    match v {
        SpecCompValue::Null => "null"@,
        SpecCompValue::Bool(b) => if b {
            "true"@
        } else {
            "false"@
        },
        SpecCompValue::Num(t) => t,
        SpecCompValue::Str(t) => seq!['"'] + sp_escape_str(t) + seq!['"'],
    }
}

/// Canonical text of a filter.  `level` 2 renders disjunctions bare,
/// 1 conjunctions, 0 parenthesizes both; `scoped` shortens paths inside
/// a value filter.
pub open spec fn sp_render_filter(f: SpecFilter, level: int, scoped: bool) -> Seq<char>
    decreases f, level,
{
    if level >= 2 {
        match f {
            SpecFilter::Or(fs) => sp_render_list(fs, " or "@, 1, scoped),
            _ => sp_render_filter(f, 1, scoped),
        }
    } else if level == 1 {
        match f {
            SpecFilter::And(fs) => sp_render_list(fs, " and "@, 0, scoped),
            _ => sp_render_filter(f, 0, scoped),
        }
    } else {
        match f {
            SpecFilter::Present(p) => sp_render_path(p, scoped) + " pr"@,
            SpecFilter::Compare(p, op, v) => sp_render_path(p, scoped) + seq![' ']
                + sp_render_op(op) + seq![' '] + sp_render_value(v),
            SpecFilter::Has(p, inner) => sp_render_path(p, scoped) + seq!['['] + sp_render_filter(
                *inner,
                2,
                true,
            ) + seq![']'],
            SpecFilter::Or(fs) => seq!['('] + sp_render_list(fs, " or "@, 1, scoped) + seq![')'],
            SpecFilter::And(fs) => seq!['('] + sp_render_list(fs, " and "@, 0, scoped)
                + seq![')'],
            SpecFilter::Not(inner) => "not ("@ + sp_render_filter(*inner, 2, scoped) + seq![')'],
        }
    }
}

/// Canonical text of a clause list, separated by `sep`.
pub open spec fn sp_render_list(fs: Seq<SpecFilter>, sep: Seq<char>, level: int, scoped: bool) -> Seq<
    char,
>
    decreases fs, level,
{
    if fs.len() == 0 {
        Seq::empty()
    } else if fs.len() == 1 {
        sp_render_filter(fs.last(), level, scoped)
    } else {
        sp_render_list(fs.drop_last(), sep, level, scoped) + sep + sp_render_filter(
            fs.last(),
            level,
            scoped,
        )
    }
}

/// Canonical text of a value path: the base path, then the value filter
/// in brackets, then the trailing sub-attribute selector.
pub open spec fn sp_render_value_path(vp: SpecValuePath) -> Seq<char> {
    match vp {
        SpecValuePath::Attr(p) => sp_render_path(p, false),
        SpecValuePath::Filtered(p, f) => (match p.urn {
            Some(u) => u + seq![':'],
            None => Seq::empty(),
        }) + p.name + seq!['['] + sp_render_filter(f, 2, true) + seq![']'] + (match p.sub_attr {
            Some(t) => seq!['.'] + t,
            None => Seq::empty(),
        }),
    }
}

impl AttrPath {
    /// Renders this path in the grammar's own notation.
    pub fn render(&self) -> (r: String)
        ensures
            r@ == sp_render_path(self@, false),
    {
        let mut r = String::new();
        match &self.urn {
            Some(u) => {
                r.append(u.as_str());
                push_char(&mut r, ':');
                proof {
                    assert(r@ =~= self@.urn.unwrap() + seq![':']);
                }
            },
            None => {},
        }
        r.append(self.name.as_str());
        match &self.sub_attr {
            Some(t) => {
                push_char(&mut r, '.');
                r.append(t.as_str());
                proof {
                    assert(r@ =~= sp_render_path(self@, false));
                }
            },
            None => {
                proof {
                    assert(r@ =~= sp_render_path(self@, false));
                }
            },
        }
        r
    }
}

/// Renders a path in scoped notation: only the sub-attribute, when one
/// is there.
fn render_path_scoped(p: &AttrPath) -> (r: String)
    ensures
        r@ == sp_render_path(p@, true),
{
    match &p.sub_attr {
        Some(t) => t.clone(),
        None => p.name.clone(),
    }
}

impl CompareOp {
    /// The two-letter code of this operator.
    pub fn code(&self) -> (r: &'static str)
        ensures
            r@ == sp_render_op(*self),
    {
        match self {
            CompareOp::Equal => "eq",
            CompareOp::NotEqual => "ne",
            CompareOp::Contains => "co",
            CompareOp::StartsWith => "sw",
            CompareOp::EndsWith => "ew",
            CompareOp::GreaterThan => "gt",
            CompareOp::GreaterThanOrEqual => "ge",
            CompareOp::LessThan => "lt",
            CompareOp::LessThanOrEqual => "le",
        }
    }
}

/// Escapes a string literal's text.
fn escape_str(t: &str) -> (r: String)
    ensures
        r@ == sp_escape_str(t@),
{
    let n = t.unicode_len();
    let mut r = String::new();
    let mut i: usize = 0;
    proof {
        assert(t@.subrange(0, 0) =~= Seq::<char>::empty());
    }
    while i < n
        invariant
            n == t@.len(),
            i <= n,
            r@ == sp_escape_str(t@.subrange(0, i as int)),
        decreases n - i,
    {
        let c = t.get_char(i);
        if c == '"' || c == '\\' {
            push_char(&mut r, '\\');
            push_char(&mut r, c);
        } else {
            push_char(&mut r, c);
        }
        i = i + 1;
        proof {
            assert(t@.subrange(0, i as int).drop_last() =~= t@.subrange(0, i as int - 1));
            assert(t@.subrange(0, i as int).last() == c);
            if c == '"' || c == '\\' {
                assert(r@ =~= sp_escape_str(t@.subrange(0, i as int - 1)) + seq!['\\', c]);
            } else {
                assert(r@ =~= sp_escape_str(t@.subrange(0, i as int - 1)) + seq![c]);
            }
        }
    }
    proof {
        assert(t@.subrange(0, n as int) =~= t@);
    }
    r
}

impl CompValue {
    /// Renders this comparison value in the grammar's own notation.
    pub fn render(&self) -> (r: String)
        ensures
            r@ == sp_render_value(self@),
    {
        match self {
            CompValue::Null => String::from_str("null"),
            CompValue::Bool(b) => if *b {
                String::from_str("true")
            } else {
                String::from_str("false")
            },
            CompValue::Num(t) => t.clone(),
            CompValue::Str(t) => {
                let mut r = String::new();
                push_char(&mut r, '"');
                let e = escape_str(t.as_str());
                r.append(e.as_str());
                push_char(&mut r, '"');
                proof {
                    assert(r@ =~= seq!['"'] + sp_escape_str(t@) + seq!['"']);
                }
                r
            },
        }
    }
}

/// Renders a filter at the given precedence level.
fn render_filter_at(f: &Filter, level: u8, scoped: bool) -> (r: String)
    ensures
        r@ == sp_render_filter(f@, level as int, scoped),
    decreases filter_size(*f), level,
{
    if level >= 2 {
        match f {
            Filter::Or(fs) => render_list(fs, " or ", 1, scoped),
            _ => render_filter_at(f, 1, scoped),
        }
    } else if level == 1 {
        match f {
            Filter::And(fs) => render_list(fs, " and ", 0, scoped),
            _ => render_filter_at(f, 0, scoped),
        }
    } else {
        match f {
            Filter::Present(p) => {
                let mut r = if scoped {
                    render_path_scoped(p)
                } else {
                    p.render()
                };
                r.append(" pr");
                r
            },
            Filter::Compare(p, op, v) => {
                let mut r = if scoped {
                    render_path_scoped(p)
                } else {
                    p.render()
                };
                push_char(&mut r, ' ');
                r.append(op.code());
                push_char(&mut r, ' ');
                let rv = v.render();
                r.append(rv.as_str());
                proof {
                    assert(r@ =~= sp_render_path(p@, scoped) + seq![' '] + sp_render_op(*op)
                        + seq![' '] + sp_render_value(v@));
                }
                r
            },
            Filter::Has(p, inner) => {
                let mut r = if scoped {
                    render_path_scoped(p)
                } else {
                    p.render()
                };
                push_char(&mut r, '[');
                let ri = render_filter_at(inner, 2, true);
                r.append(ri.as_str());
                push_char(&mut r, ']');
                proof {
                    assert(r@ =~= sp_render_path(p@, scoped) + seq!['['] + sp_render_filter(
                        (**inner)@,
                        2,
                        true,
                    ) + seq![']']);
                }
                r
            },
            Filter::Or(fs) => {
                let mut r = String::new();
                push_char(&mut r, '(');
                let ri = render_list(fs, " or ", 1, scoped);
                r.append(ri.as_str());
                push_char(&mut r, ')');
                proof {
                    assert(r@ =~= seq!['('] + sp_render_list(
                        crate::filter::view_filters(fs@),
                        " or "@,
                        1,
                        scoped,
                    ) + seq![')']);
                }
                r
            },
            Filter::And(fs) => {
                let mut r = String::new();
                push_char(&mut r, '(');
                let ri = render_list(fs, " and ", 0, scoped);
                r.append(ri.as_str());
                push_char(&mut r, ')');
                proof {
                    assert(r@ =~= seq!['('] + sp_render_list(
                        crate::filter::view_filters(fs@),
                        " and "@,
                        0,
                        scoped,
                    ) + seq![')']);
                }
                r
            },
            Filter::Not(inner) => {
                let mut r = String::from_str("not (");
                let ri = render_filter_at(inner, 2, scoped);
                r.append(ri.as_str());
                push_char(&mut r, ')');
                proof {
                    assert(r@ =~= "not ("@ + sp_render_filter((**inner)@, 2, scoped) + seq![')']);
                }
                r
            },
        }
    }
}

/// Renders a clause list, separated by `sep`.
fn render_list(fs: &Vec<Filter>, sep: &str, level: u8, scoped: bool) -> (r: String)
    ensures
        r@ == sp_render_list(crate::filter::view_filters(fs@), sep@, level as int, scoped),
    decreases filters_size(fs@), level,
{
    let ghost sfs = crate::filter::view_filters(fs@);
    proof {
        crate::filter::lemma_view_filters(fs@);
    }
    let mut r = String::new();
    let mut i: usize = 0;
    while i < fs.len()
        invariant
            i <= fs@.len(),
            sfs == crate::filter::view_filters(fs@),
            sfs.len() == fs@.len(),
            forall|k: int| 0 <= k < fs@.len() ==> sfs[k] == #[trigger] fs@[k]@,
            r@ == sp_render_list(sfs.take(i as int), sep@, level as int, scoped),
        decreases fs@.len() - i,
    {
        if i > 0 {
            r.append(sep);
        }
        proof {
            lemma_filters_size_take_elem(fs@, i as int);
        }
        let ri = render_filter_at(&fs[i], level, scoped);
        r.append(ri.as_str());
        i = i + 1;
        proof {
            assert(sfs.take(i as int).drop_last() =~= sfs.take(i as int - 1));
            assert(sfs.take(i as int).last() == sfs[i as int - 1]);
            assert(sfs[i as int - 1] == fs@[i as int - 1]@);
        }
    }
    proof {
        assert(sfs.take(fs@.len() as int) =~= sfs);
    }
    r
}

/// Each element's size is bounded by the whole vector's size measure.
pub proof fn lemma_filters_size_take_elem(fs: Seq<Filter>, i: int)
    requires
        0 <= i < fs.len(),
    ensures
        filter_size(fs[i]) < filters_size(fs),
    decreases fs,
{
    if i == fs.len() - 1 {
        assert(fs.last() == fs[i]);
    } else {
        lemma_filters_size_take_elem(fs.drop_last(), i);
        assert(fs.drop_last()[i] == fs[i]);
    }
}

impl Filter {
    /// Renders this filter in the grammar's own notation.
    pub fn render(&self) -> (r: String)
        ensures
            r@ == sp_render_filter(self@, 2, false),
    {
        render_filter_at(self, 2, false)
    }
}

impl ValuePath {
    /// Renders this value path in the grammar's own notation.
    pub fn render(&self) -> (r: String)
        ensures
            r@ == sp_render_value_path(self@),
    {
        match self {
            ValuePath::Attr(p) => p.render(),
            ValuePath::Filtered(p, f) => {
                let mut r = String::new();
                match &p.urn {
                    Some(u) => {
                        r.append(u.as_str());
                        push_char(&mut r, ':');
                        proof {
                            assert(r@ =~= p@.urn.unwrap() + seq![':']);
                        }
                    },
                    None => {},
                }
                r.append(p.name.as_str());
                push_char(&mut r, '[');
                let ri = render_filter_at(f, 2, true);
                r.append(ri.as_str());
                push_char(&mut r, ']');
                match &p.sub_attr {
                    Some(t) => {
                        push_char(&mut r, '.');
                        r.append(t.as_str());
                    },
                    None => {},
                }
                proof {
                    assert(r@ =~= sp_render_value_path(self@));
                }
                r
            },
        }
    }
}

} // verus!
