//! The executable recursive-descent parser for SCIM filters and paths,
//! proved to return exactly what the grammar in [`crate::grammar`]
//! describes.

use vstd::prelude::*;

use crate::text::{is_hex_char, hex_val, lower_char, chars_range_to_string, push_char};
use crate::filter::{
    AttrPath, CompValue, CompareOp, Filter, ValuePath, SpecAttrPath, SpecFilter, view_filters,
    lemma_view_filters, filter_size, filters_size,
};
use crate::grammar::{
    sp_skip_sp, sp_space1, sp_name_end, sp_attr_name, sp_sub_attr, sp_urn_seg_end, sp_urn_end,
    sp_urn, sp_attr_path, sp_compare_op, sp_digits_end, sp_num_end, sp_number, sp_lit_end,
    sp_escape, sp_frags, sp_string, sp_comp_value, sp_attr_filter, sp_prefix_path,
    sp_prefix_filter, sp_prefix_filters, sp_or, sp_or_tail, sp_and, sp_and_tail, sp_group,
    sp_has, sp_filter, sp_value_path, lemma_lit_end_bounds,
};

verus! {

/// Scans past blanks; returns the first position holding none.
fn skip_sp(s: &Vec<char>, i: usize) -> (r: usize)
    requires
        i <= s@.len(),
    ensures
        r as int == sp_skip_sp(s@, i as int),
        i <= r <= s@.len(),
{
    let mut k = i;
    while k < s.len() && (s[k] == ' ' || s[k] == '\t')
        invariant
            i <= k <= s@.len(),
            sp_skip_sp(s@, i as int) == sp_skip_sp(s@, k as int),
        decreases s@.len() - k,
    {
        k = k + 1;
    }
    k
}

/// One or more blanks: the position after them, or nothing.
fn p_space1(s: &Vec<char>, i: usize) -> (r: Option<usize>)
    requires
        i <= s@.len(),
    ensures
        match r {
            Some(p) => i < p <= s@.len() && sp_space1(s@, i as int) == Some(p as int),
            None => sp_space1(s@, i as int) is None,
        },
{
    if i < s.len() && (s[i] == ' ' || s[i] == '\t') {
        Some(skip_sp(s, i + 1))
    } else {
        None
    }
}

/// Scans past attribute-name characters.
fn name_end(s: &Vec<char>, i: usize) -> (r: usize)
    requires
        i <= s@.len(),
    ensures
        r as int == sp_name_end(s@, i as int),
        i <= r <= s@.len(),
{
    let mut k = i;
    while k < s.len() && ((('a' <= s[k] && s[k] <= 'z') || ('A' <= s[k] && s[k] <= 'Z') || ('0' <= s[k] && s[k] <= '9')) || s[k] == '_' || s[k] == '-')
        invariant
            i <= k <= s@.len(),
            sp_name_end(s@, i as int) == sp_name_end(s@, k as int),
        decreases s@.len() - k,
    {
        k = k + 1;
    }
    k
}

/// Scans past URN-segment characters.
fn urn_seg_end(s: &Vec<char>, i: usize) -> (r: usize)
    requires
        i <= s@.len(),
    ensures
        r as int == sp_urn_seg_end(s@, i as int),
        i <= r <= s@.len(),
{
    let mut k = i;
    while k < s.len() && ((('a' <= s[k] && s[k] <= 'z') || ('A' <= s[k] && s[k] <= 'Z') || ('0' <= s[k] && s[k] <= '9')) || s[k] == '.')
        invariant
            i <= k <= s@.len(),
            sp_urn_seg_end(s@, i as int) == sp_urn_seg_end(s@, k as int),
        decreases s@.len() - k,
    {
        k = k + 1;
    }
    k
}

/// Scans past digits.
fn digits_end(s: &Vec<char>, i: usize) -> (r: usize)
    requires
        i <= s@.len(),
    ensures
        r as int == sp_digits_end(s@, i as int),
        i <= r <= s@.len(),
{
    let mut k = i;
    while k < s.len() && '0' <= s[k] && s[k] <= '9'
        invariant
            i <= k <= s@.len(),
            sp_digits_end(s@, i as int) == sp_digits_end(s@, k as int),
        decreases s@.len() - k,
    {
        k = k + 1;
    }
    k
}

/// Scans past digits and dots.
fn num_end(s: &Vec<char>, i: usize) -> (r: usize)
    requires
        i <= s@.len(),
    ensures
        r as int == sp_num_end(s@, i as int),
        i <= r <= s@.len(),
{
    let mut k = i;
    while k < s.len() && (('0' <= s[k] && s[k] <= '9') || s[k] == '.')
        invariant
            i <= k <= s@.len(),
            sp_num_end(s@, i as int) == sp_num_end(s@, k as int),
        decreases s@.len() - k,
    {
        k = k + 1;
    }
    k
}

/// Scans past plain string-literal characters.
fn lit_end(s: &Vec<char>, i: usize) -> (r: usize)
    requires
        i <= s@.len(),
    ensures
        r as int == sp_lit_end(s@, i as int),
        i <= r <= s@.len(),
{
    let mut k = i;
    while k < s.len() && s[k] != '"' && s[k] != '\\'
        invariant
            i <= k <= s@.len(),
            sp_lit_end(s@, i as int) == sp_lit_end(s@, k as int),
        decreases s@.len() - k,
    {
        k = k + 1;
    }
    k
}

/// An attribute name.
fn p_attr_name(s: &Vec<char>, i: usize) -> (r: Option<(usize, String)>)
    requires
        i <= s@.len(),
    ensures
        match r {
            Some((p, t)) => i < p <= s@.len() && sp_attr_name(s@, i as int) == Some(
                (p as int, t@),
            ),
            None => sp_attr_name(s@, i as int) is None,
        },
{
    if i < s.len() && (('a' <= s[i] && s[i] <= 'z') || ('A' <= s[i] && s[i] <= 'Z')) {
        let j = name_end(s, i + 1);
        let t = chars_range_to_string(s, i, j);
        Some((j, t))
    } else {
        None
    }
}

/// A `.`-prefixed sub-attribute name.
fn p_sub_attr(s: &Vec<char>, i: usize) -> (r: Option<(usize, String)>)
    requires
        i <= s@.len(),
    ensures
        match r {
            Some((p, t)) => i < p <= s@.len() && sp_sub_attr(s@, i as int) == Some((p as int, t@)),
            None => sp_sub_attr(s@, i as int) is None,
        },
{
    if i < s.len() && s[i] == '.' {
        p_attr_name(s, i + 1)
    } else {
        None
    }
}

/// A URN prefix.
fn p_urn(s: &Vec<char>, i: usize) -> (r: Option<(usize, String)>)
    requires
        i <= s@.len(),
    ensures
        match r {
            Some((p, t)) => i < p <= s@.len() && sp_urn(s@, i as int) == Some((p as int, t@)),
            None => sp_urn(s@, i as int) is None,
        },
{
    let mut cur = i;
    loop
        invariant
            i <= cur <= s@.len(),
            sp_urn_end(s@, i as int) == sp_urn_end(s@, cur as int),
        ensures
            cur as int == sp_urn_end(s@, i as int),
            i <= cur <= s@.len(),
        decreases s@.len() - cur,
    {
        let j = urn_seg_end(s, cur);
        if cur < j && j < s.len() && s[j] == ':' {
            cur = j + 1;
        } else {
            break;
        }
    }
    if i < cur {
        let t = chars_range_to_string(s, i, cur - 1);
        Some((cur, t))
    } else {
        None
    }
}

/// An attribute path.
pub(crate) fn p_attr_path(s: &Vec<char>, i: usize) -> (r: Option<(usize, AttrPath)>)
    requires
        i <= s@.len(),
    ensures
        match r {
            Some((p, ap)) => i < p <= s@.len() && sp_attr_path(s@, i as int) == Some(
                (p as int, ap@),
            ),
            None => sp_attr_path(s@, i as int) is None,
        },
{
    let (p1, urn) = match p_urn(s, i) {
        Some((p, t)) => (p, Some(t)),
        None => (i, None),
    };
    match p_attr_name(s, p1) {
        Some((p2, nm)) => match p_sub_attr(s, p2) {
            Some((p3, t)) => Some((p3, AttrPath { urn, name: nm, sub_attr: Some(t) })),
            None => Some((p2, AttrPath { urn, name: nm, sub_attr: None })),
        },
        None => None,
    }
}

/// A comparison operator.
pub(crate) fn p_compare_op_pub(s: &Vec<char>, i: usize) -> (r: Option<(usize, CompareOp)>)
    requires
        i <= s@.len(),
    ensures
        match r {
            Some((p, op)) => i < p <= s@.len() && sp_compare_op(s@, i as int) == Some(
                (p as int, op),
            ),
            None => sp_compare_op(s@, i as int) is None,
        },
{
    if i < s.len() && i + 1 < s.len() {
        let a = lower_char(s[i]);
        let b = lower_char(s[i + 1]);
        if a == 'e' && b == 'q' {
            Some((i + 2, CompareOp::Equal))
        } else if a == 'n' && b == 'e' {
            Some((i + 2, CompareOp::NotEqual))
        } else if a == 'c' && b == 'o' {
            Some((i + 2, CompareOp::Contains))
        } else if a == 's' && b == 'w' {
            Some((i + 2, CompareOp::StartsWith))
        } else if a == 'e' && b == 'w' {
            Some((i + 2, CompareOp::EndsWith))
        } else if a == 'g' && b == 't' {
            Some((i + 2, CompareOp::GreaterThan))
        } else if a == 'g' && b == 'e' {
            Some((i + 2, CompareOp::GreaterThanOrEqual))
        } else if a == 'l' && b == 't' {
            Some((i + 2, CompareOp::LessThan))
        } else if a == 'l' && b == 'e' {
            Some((i + 2, CompareOp::LessThanOrEqual))
        } else {
            None
        }
    } else {
        None
    }
}

/// Relies on `char::from_u32`: yields the character with the given code
/// point, or nothing when the value is a surrogate or above the scalar
/// range, exactly as its documentation states.
#[verifier::external_body]
fn char_from_u32(v: u32) -> (r: Option<char>)
    ensures
        r == if v < 0xD800 || (0xDFFF < v && v <= 0x10FFFF) {
            Some(v as char)
        } else {
            None::<char>
        },
{
    char::from_u32(v)
}

/// The numeric value of a hexadecimal digit.
fn hex_digit_val(c: char) -> (r: u32)
    requires
        is_hex_char(c),
    ensures
        r == hex_val(c),
        r < 16,
{
    if '0' <= c && c <= '9' {
        c as u32 - '0' as u32
    } else if 'a' <= c && c <= 'f' {
        c as u32 - 'a' as u32 + 10
    } else {
        c as u32 - 'A' as u32 + 10
    }
}

/// A backslash escape.
fn p_escape(s: &Vec<char>, i: usize) -> (r: Option<(usize, char)>)
    requires
        i <= s@.len(),
    ensures
        match r {
            Some((p, c)) => i < p <= s@.len() && sp_escape(s@, i as int) == Some((p as int, c)),
            None => sp_escape(s@, i as int) is None,
        },
{
    if i < s.len() && i + 1 < s.len() && s[i] == '\\' {
        let c = s[i + 1];
        if c == '"' {
            Some((i + 2, '"'))
        } else if c == '\\' {
            Some((i + 2, '\\'))
        } else if c == '/' {
            Some((i + 2, '/'))
        } else if c == 'b' {
            Some((i + 2, '\u{08}'))
        } else if c == 'f' {
            Some((i + 2, '\u{0C}'))
        } else if c == 'n' {
            Some((i + 2, '\n'))
        } else if c == 'r' {
            Some((i + 2, '\r'))
        } else if c == 't' {
            Some((i + 2, '\t'))
        } else if c == 'u' && s.len() - i > 5 && is_hex(s[i + 2]) && is_hex(s[i + 3]) && is_hex(
            s[i + 4],
        ) && is_hex(s[i + 5]) {
            let v = hex_digit_val(s[i + 2]) * 4096 + hex_digit_val(s[i + 3]) * 256 + hex_digit_val(
                s[i + 4],
            ) * 16 + hex_digit_val(s[i + 5]);
            match char_from_u32(v) {
                Some(ch) => Some((i + 6, ch)),
                None => None,
            }
        } else {
            None
        }
    } else {
        None
    }
}

/// Whether `c` is a hexadecimal digit.
fn is_hex(c: char) -> (r: bool)
    ensures
        r == is_hex_char(c),
{
    ('0' <= c && c <= '9') || ('a' <= c && c <= 'f') || ('A' <= c && c <= 'F')
}

/// The body of a string literal: plain runs and decoded escapes, as far
/// as they reach.
fn p_frags(s: &Vec<char>, i: usize) -> (r: (usize, String))
    requires
        i <= s@.len(),
    ensures
        i <= r.0 <= s@.len(),
        sp_frags(s@, i as int) == (r.0 as int, r.1@),
{
    let mut cur = i;
    let mut acc = String::new();
    loop
        invariant
            i <= cur <= s@.len(),
            sp_frags(s@, i as int).0 == sp_frags(s@, cur as int).0,
            sp_frags(s@, i as int).1 == acc@ + sp_frags(s@, cur as int).1,
        ensures
            i <= cur <= s@.len(),
            sp_frags(s@, i as int) == (cur as int, acc@),
        decreases s@.len() - cur,
    {
        if cur < s.len() && s[cur] != '"' && s[cur] != '\\' {
            let j = lit_end(s, cur);
            let t = chars_range_to_string(s, cur, j);
            acc.append(t.as_str());
            proof {
                lemma_lit_end_bounds(s@, cur as int + 1);
                assert(cur < j);
                assert(sp_frags(s@, cur as int).1 == s@.subrange(cur as int, j as int) + sp_frags(
                    s@,
                    j as int,
                ).1);
            }
            cur = j;
        } else {
            match p_escape(s, cur) {
                Some((j, c)) => {
                    let ghost acc0 = acc@;
                    push_char(&mut acc, c);
                    proof {
                        assert(sp_frags(s@, cur as int).1 == seq![c] + sp_frags(s@, j as int).1);
                        assert(acc0 + (seq![c] + sp_frags(s@, j as int).1) =~= acc@ + sp_frags(
                            s@,
                            j as int,
                        ).1);
                    }
                    cur = j;
                },
                None => {
                    proof {
                        assert(sp_frags(s@, cur as int) == (cur as int, Seq::<char>::empty()));
                        assert(sp_frags(s@, i as int).1 == acc@ + Seq::<char>::empty());
                        assert(acc@ + Seq::<char>::empty() =~= acc@);
                    }
                    break;
                },
            }
        }
    }
    (cur, acc)
}

/// A quoted string literal, escapes decoded.
fn p_string(s: &Vec<char>, i: usize) -> (r: Option<(usize, String)>)
    requires
        i <= s@.len(),
    ensures
        match r {
            Some((p, t)) => i < p <= s@.len() && sp_string(s@, i as int) == Some((p as int, t@)),
            None => sp_string(s@, i as int) is None,
        },
{
    if i < s.len() && s[i] == '"' {
        let (e, t) = p_frags(s, i + 1);
        if e < s.len() && s[e] == '"' {
            Some((e + 1, t))
        } else {
            None
        }
    } else {
        None
    }
}

/// A comparison value.
fn p_comp_value(s: &Vec<char>, i: usize) -> (r: Option<(usize, CompValue)>)
    requires
        i <= s@.len(),
    ensures
        match r {
            Some((p, v)) => i < p <= s@.len() && sp_comp_value(s@, i as int) == Some(
                (p as int, v@),
            ),
            None => sp_comp_value(s@, i as int) is None,
        },
{
    if s.len() - i > 3 && s[i] == 'n' && s[i + 1] == 'u' && s[i + 2] == 'l' && s[i
        + 3] == 'l' {
        Some((i + 4, CompValue::Null))
    } else if s.len() - i > 4 && s[i] == 'f' && s[i + 1] == 'a' && s[i + 2] == 'l'
        && s[i + 3] == 's' && s[i + 4] == 'e' {
        Some((i + 5, CompValue::Bool(false)))
    } else if s.len() - i > 3 && s[i] == 't' && s[i + 1] == 'r' && s[i + 2] == 'u'
        && s[i + 3] == 'e' {
        Some((i + 4, CompValue::Bool(true)))
    } else {
        match p_number(s, i) {
            Some((p, t)) => Some((p, CompValue::Num(t))),
            None => match p_string(s, i) {
                Some((p, t)) => Some((p, CompValue::Str(t))),
                None => None,
            },
        }
    }
}

/// An attribute expression: presence test or comparison.
fn p_attr_filter(s: &Vec<char>, i: usize) -> (r: Option<(usize, Filter)>)
    requires
        i <= s@.len(),
    ensures
        match r {
            Some((p, f)) => i < p <= s@.len() && sp_attr_filter(s@, i as int) == Some(
                (p as int, f@),
            ),
            None => sp_attr_filter(s@, i as int) is None,
        },
{
    match p_attr_path(s, i) {
        Some((p1, ap)) => {
            match p_space1(s, p1) {
                Some(p2) => {
                    if p2 < s.len() && p2 + 1 < s.len() && (lower_char(s[p2]) == 'p' && lower_char(
                        s[p2 + 1],
                    ) == 'r') {
                        Some((p2 + 2, Filter::Present(ap)))
                    } else {
                        match p_compare_op_pub(s, p2) {
                            Some((p3, op)) => match p_space1(s, p3) {
                                Some(p4) => match p_comp_value(s, p4) {
                                    Some((p5, v)) => Some((p5, Filter::Compare(ap, op, v))),
                                    None => None,
                                },
                                None => None,
                            },
                            None => None,
                        }
                    }
                },
                None => None,
            }
        },
        None => None,
    }
}

/// A decimal number, kept as its literal text.
fn p_number(s: &Vec<char>, i: usize) -> (r: Option<(usize, String)>)
    requires
        i <= s@.len(),
    ensures
        match r {
            Some((p, t)) => i < p <= s@.len() && sp_number(s@, i as int) == Some((p as int, t@)),
            None => sp_number(s@, i as int) is None,
        },
{
    let r = num_end(s, i);
    let d1 = digits_end(s, i);
    if i < r && i < d1 && (s[i] != '0' || d1 == i + 1) {
        if d1 == r {
            Some((r, chars_range_to_string(s, i, r)))
        } else if d1 < r && s[d1] == '.' && r > d1 + 1 {
            let d2 = digits_end(s, d1 + 1);
            if d2 == r {
                Some((r, chars_range_to_string(s, i, r)))
            } else {
                None
            }
        } else {
            None
        }
    } else {
        None
    }
}

} // verus!

verus! {

/// Clones an optional string.
fn clone_opt_string(o: &Option<String>) -> (r: Option<String>)
    ensures
        match (o, &r) {
            (Some(a), Some(b)) => a@ == b@,
            (None, None) => true,
            _ => false,
        },
{
    match o {
        Some(s) => Some(s.clone()),
        None => None,
    }
}

/// Scopes `p` under the complex attribute `parent`.
fn prefix_path(parent: &AttrPath, p: AttrPath) -> (r: AttrPath)
    ensures
        r@ == sp_prefix_path(parent@, p@),
{
    AttrPath { urn: clone_opt_string(&parent.urn), name: parent.name.clone(), sub_attr: Some(
        p.name,
    ) }
}

/// Rewrites every attribute path inside `f` to a sub-attribute of
/// `parent`, as the grammar's value-filter rule asks.
fn prefix_filter(parent: &AttrPath, f: Filter) -> (r: Filter)
    ensures
        r@ == sp_prefix_filter(parent@, f@),
    decreases filter_size(f),
{
    match f {
        Filter::Present(p) => Filter::Present(prefix_path(parent, p)),
        Filter::Compare(p, op, v) => Filter::Compare(prefix_path(parent, p), op, v),
        Filter::Has(p, inner) => Filter::Has(
            prefix_path(parent, p),
            Box::new(prefix_filter(parent, *inner)),
        ),
        Filter::And(fs) => {
            let r = prefix_filters(parent, fs);
            proof {
                lemma_prefix_seqs(parent@, fs@, r@);
            }
            Filter::And(r)
        },
        Filter::Or(fs) => {
            let r = prefix_filters(parent, fs);
            proof {
                lemma_prefix_seqs(parent@, fs@, r@);
            }
            Filter::Or(r)
        },
        Filter::Not(inner) => Filter::Not(Box::new(prefix_filter(parent, *inner))),
    }
}

/// Rewrites every filter of `fs` with [`prefix_filter`].
fn prefix_filters(parent: &AttrPath, mut fs: Vec<Filter>) -> (r: Vec<Filter>)
    ensures
        r@.len() == fs@.len(),
        forall|k: int|
            0 <= k < fs@.len() ==> (#[trigger] r@[k])@ == sp_prefix_filter(parent@, fs@[k]@),
    decreases filters_size(fs@),
{
    let ghost fs0 = fs@;
    if fs.len() == 0 {
        fs
    } else {
        let last = fs.pop().unwrap();
        proof {
            assert(fs0.drop_last() == fs@);
            assert(fs0.last() == last);
        }
        let mut rest = prefix_filters(parent, fs);
        let pl = prefix_filter(parent, last);
        rest.push(pl);
        proof {
            assert forall|k: int|
                0 <= k < fs0.len() implies (#[trigger] rest@[k])@ == sp_prefix_filter(
                parent@,
                fs0[k]@,
            ) by {
                if k < fs0.len() - 1 {
                    assert(fs0.drop_last()[k] == fs0[k]);
                } else {
                    assert(fs0.last() == fs0[k]);
                }
            }
        }
        rest
    }
}

/// Element-wise rewriting of a vector of filters models the rewriting of
/// the modelled sequence.
proof fn lemma_prefix_seqs(parent: SpecAttrPath, fs: Seq<Filter>, r: Seq<Filter>)
    requires
        r.len() == fs.len(),
        forall|k: int| 0 <= k < fs.len() ==> (#[trigger] r[k])@ == sp_prefix_filter(parent, fs[k]@),
    ensures
        view_filters(r) == sp_prefix_filters(parent, view_filters(fs)),
{
    lemma_view_filters(fs);
    lemma_view_filters(r);
    lemma_sp_prefix_filters(parent, view_filters(fs));
    assert forall|k: int| 0 <= k < fs.len() implies view_filters(r)[k] == sp_prefix_filters(
        parent,
        view_filters(fs),
    )[k] by {
        assert(view_filters(r)[k] == r[k]@);
        assert(view_filters(fs)[k] == fs[k]@);
    }
    assert(view_filters(r) =~= sp_prefix_filters(parent, view_filters(fs)));
}

/// The rewriting of a sequence of filter models has the same length and
/// holds the rewritings of its elements, in order.
proof fn lemma_sp_prefix_filters(parent: SpecAttrPath, fs: Seq<SpecFilter>)
    ensures
        sp_prefix_filters(parent, fs).len() == fs.len(),
        forall|k: int|
            0 <= k < fs.len() ==> sp_prefix_filters(parent, fs)[k] == sp_prefix_filter(
                parent,
                #[trigger] fs[k],
            ),
    decreases fs,
{
    if fs.len() > 0 {
        lemma_sp_prefix_filters(parent, fs.drop_last());
        assert(sp_prefix_filters(parent, fs) == sp_prefix_filters(parent, fs.drop_last()).push(
            sp_prefix_filter(parent, fs.last()),
        ));
        assert forall|k: int|
            0 <= k < fs.len() implies sp_prefix_filters(parent, fs)[k] == sp_prefix_filter(
            parent,
            #[trigger] fs[k],
        ) by {
            if k < fs.len() - 1 {
                assert(fs.drop_last()[k] == fs[k]);
            } else {
                assert(fs.last() == fs[k]);
            }
        }
    }
}

/// A disjunction.
pub(crate) fn p_or(s: &Vec<char>, i: usize) -> (r: Option<(usize, Filter)>)
    requires
        i <= s@.len(),
    ensures
        match r {
            Some((p, f)) => i < p <= s@.len() && sp_or(s@, i as int) == Some((p as int, f@)),
            None => sp_or(s@, i as int) is None,
        },
    decreases s@.len() - i, 4int,
{
    match p_and(s, i) {
        None => None,
        Some((p1, f1)) => {
            let mut more: Vec<Filter> = Vec::new();
            let mut cur: usize = p1;
            loop
                invariant
                    i < p1 <= cur <= s@.len(),
                    sp_and(s@, i as int) == Some((p1 as int, f1@)),
                    sp_or_tail(s@, p1 as int).0 == sp_or_tail(s@, cur as int).0,
                    sp_or_tail(s@, p1 as int).1 == view_filters(more@) + sp_or_tail(
                        s@,
                        cur as int,
                    ).1,
                ensures
                    i < p1 <= cur <= s@.len(),
                    sp_and(s@, i as int) == Some((p1 as int, f1@)),
                    sp_or_tail(s@, p1 as int) == (cur as int, view_filters(more@)),
                decreases s@.len() - cur,
            {
                let sep: Option<usize> = match p_space1(s, cur) {
                    Some(j1) => {
                        if j1 < s.len() && j1 + 1 < s.len() && lower_char(s[j1]) == 'o'
                            && lower_char(s[j1 + 1]) == 'r' {
                            p_space1(s, j1 + 2)
                        } else {
                            None
                        }
                    },
                    None => None,
                };
                match sep {
                    Some(j2) => {
                        match p_and(s, j2) {
                            Some((p2, f2)) => {
                                let ghost more0 = more@;
                                proof {
                                    assert(sp_or_tail(s@, cur as int).0 == sp_or_tail(
                                        s@,
                                        p2 as int,
                                    ).0);
                                    assert(sp_or_tail(s@, cur as int).1 == seq![f2@] + sp_or_tail(
                                        s@,
                                        p2 as int,
                                    ).1);
                                }
                                more.push(f2);
                                proof {
                                    assert(more@.drop_last() == more0);
                                    assert(view_filters(more@) == view_filters(more0).push(f2@));
                                    assert(view_filters(more0) + (seq![f2@] + sp_or_tail(
                                        s@,
                                        p2 as int,
                                    ).1) =~= view_filters(more@) + sp_or_tail(s@, p2 as int).1);
                                }
                                cur = p2;
                            },
                            None => {
                                proof {
                                    assert(sp_or_tail(s@, cur as int) == (
                                        cur as int,
                                        Seq::<SpecFilter>::empty(),
                                    ));
                                    assert(view_filters(more@) + Seq::<SpecFilter>::empty()
                                        =~= view_filters(more@));
                                }
                                break;
                            },
                        }
                    },
                    None => {
                        proof {
                            assert(sp_or_tail(s@, cur as int) == (
                                cur as int,
                                Seq::<SpecFilter>::empty(),
                            ));
                            assert(view_filters(more@) + Seq::<SpecFilter>::empty()
                                =~= view_filters(more@));
                        }
                        break;
                    },
                }
            }
            if more.len() == 0 {
                Some((cur, f1))
            } else {
                let mut all: Vec<Filter> = Vec::new();
                all.push(f1);
                let ghost more1 = more@;
                let ghost f1v = all@[0]@;
                all.append(&mut more);
                proof {
                    lemma_view_filters(all@);
                    lemma_view_filters(more1);
                    assert forall|k: int| 0 <= k < all@.len() implies view_filters(all@)[k] == (
                    seq![f1v] + view_filters(more1))[k] by {
                        assert(view_filters(all@)[k] == all@[k]@);
                        if k > 0 {
                            assert(all@[k] == more1[k - 1]);
                            assert(view_filters(more1)[k - 1] == more1[k - 1]@);
                        }
                    }
                    assert(view_filters(all@) =~= seq![f1v] + view_filters(more1));
                }
                Some((cur, Filter::Or(all)))
            }
        },
    }
}

/// A conjunction.
pub(crate) fn p_and(s: &Vec<char>, i: usize) -> (r: Option<(usize, Filter)>)
    requires
        i <= s@.len(),
    ensures
        match r {
            Some((p, f)) => i < p <= s@.len() && sp_and(s@, i as int) == Some((p as int, f@)),
            None => sp_and(s@, i as int) is None,
        },
    decreases s@.len() - i, 2int,
{
    match p_group(s, i) {
        None => None,
        Some((p1, f1)) => {
            let mut more: Vec<Filter> = Vec::new();
            let mut cur: usize = p1;
            loop
                invariant
                    i < p1 <= cur <= s@.len(),
                    sp_group(s@, i as int) == Some((p1 as int, f1@)),
                    sp_and_tail(s@, p1 as int).0 == sp_and_tail(s@, cur as int).0,
                    sp_and_tail(s@, p1 as int).1 == view_filters(more@) + sp_and_tail(
                        s@,
                        cur as int,
                    ).1,
                ensures
                    i < p1 <= cur <= s@.len(),
                    sp_group(s@, i as int) == Some((p1 as int, f1@)),
                    sp_and_tail(s@, p1 as int) == (cur as int, view_filters(more@)),
                decreases s@.len() - cur,
            {
                let sep: Option<usize> = match p_space1(s, cur) {
                    Some(j1) => {
                        if s.len() - j1 > 2 && lower_char(s[j1]) == 'a' && lower_char(s[j1 + 1])
                            == 'n' && lower_char(s[j1 + 2]) == 'd' {
                            p_space1(s, j1 + 3)
                        } else {
                            None
                        }
                    },
                    None => None,
                };
                match sep {
                    Some(j2) => {
                        match p_group(s, j2) {
                            Some((p2, f2)) => {
                                let ghost more0 = more@;
                                proof {
                                    assert(sp_and_tail(s@, cur as int).0 == sp_and_tail(
                                        s@,
                                        p2 as int,
                                    ).0);
                                    assert(sp_and_tail(s@, cur as int).1 == seq![f2@] + sp_and_tail(
                                        s@,
                                        p2 as int,
                                    ).1);
                                }
                                more.push(f2);
                                proof {
                                    assert(more@.drop_last() == more0);
                                    assert(view_filters(more@) == view_filters(more0).push(f2@));
                                    assert(view_filters(more0) + (seq![f2@] + sp_and_tail(
                                        s@,
                                        p2 as int,
                                    ).1) =~= view_filters(more@) + sp_and_tail(s@, p2 as int).1);
                                }
                                cur = p2;
                            },
                            None => {
                                proof {
                                    assert(sp_and_tail(s@, cur as int) == (
                                        cur as int,
                                        Seq::<SpecFilter>::empty(),
                                    ));
                                    assert(view_filters(more@) + Seq::<SpecFilter>::empty()
                                        =~= view_filters(more@));
                                }
                                break;
                            },
                        }
                    },
                    None => {
                        proof {
                            assert(sp_and_tail(s@, cur as int) == (
                                cur as int,
                                Seq::<SpecFilter>::empty(),
                            ));
                            assert(view_filters(more@) + Seq::<SpecFilter>::empty()
                                =~= view_filters(more@));
                        }
                        break;
                    },
                }
            }
            if more.len() == 0 {
                Some((cur, f1))
            } else {
                let mut all: Vec<Filter> = Vec::new();
                all.push(f1);
                let ghost more1 = more@;
                let ghost f1v = all@[0]@;
                all.append(&mut more);
                proof {
                    lemma_view_filters(all@);
                    lemma_view_filters(more1);
                    assert forall|k: int| 0 <= k < all@.len() implies view_filters(all@)[k] == (
                    seq![f1v] + view_filters(more1))[k] by {
                        assert(view_filters(all@)[k] == all@[k]@);
                        if k > 0 {
                            assert(all@[k] == more1[k - 1]);
                            assert(view_filters(more1)[k - 1] == more1[k - 1]@);
                        }
                    }
                    assert(view_filters(all@) =~= seq![f1v] + view_filters(more1));
                }
                Some((cur, Filter::And(all)))
            }
        },
    }
}

/// A group: a possibly negated parenthesized filter, an attribute
/// expression, or a value filter.
pub(crate) fn p_group(s: &Vec<char>, i: usize) -> (r: Option<(usize, Filter)>)
    requires
        i <= s@.len(),
    ensures
        match r {
            Some((p, f)) => i < p <= s@.len() && sp_group(s@, i as int) == Some((p as int, f@)),
            None => sp_group(s@, i as int) is None,
        },
    decreases s@.len() - i, 1int,
{
    let has_not = s.len() - i > 2 && lower_char(s[i]) == 'n' && lower_char(s[i + 1]) == 'o'
        && lower_char(s[i + 2]) == 't';
    let j = if has_not {
        i + 3
    } else {
        i
    };
    let j2 = skip_sp(s, j);
    if j2 < s.len() && s[j2] == '(' {
        match p_or(s, j2 + 1) {
            Some((p, f)) => {
                if p < s.len() && s[p] == ')' {
                    let g = if has_not {
                        Filter::Not(Box::new(f))
                    } else {
                        f
                    };
                    return Some((p + 1, g));
                }
            },
            None => {},
        }
    }
    match p_attr_filter(s, i) {
        Some(r) => Some(r),
        None => p_has(s, i),
    }
}

/// A value filter `attrPath "[" filter "]"`.
pub(crate) fn p_has(s: &Vec<char>, i: usize) -> (r: Option<(usize, Filter)>)
    requires
        i <= s@.len(),
    ensures
        match r {
            Some((p, f)) => i < p <= s@.len() && sp_has(s@, i as int) == Some((p as int, f@)),
            None => sp_has(s@, i as int) is None,
        },
    decreases s@.len() - i, 0int,
{
    match p_attr_path(s, i) {
        Some((p1, ap)) => {
            if p1 < s.len() && s[p1] == '[' {
                match p_or(s, p1 + 1) {
                    Some((p2, f)) => {
                        if p2 < s.len() && s[p2] == ']' {
                            let pf = prefix_filter(&ap, f);
                            Some((p2 + 1, Filter::Has(ap, Box::new(pf))))
                        } else {
                            None
                        }
                    },
                    None => None,
                }
            } else {
                None
            }
        },
        None => None,
    }
}

/// A value path.
pub(crate) fn p_value_path(s: &Vec<char>, i: usize) -> (r: Option<(usize, ValuePath)>)
    requires
        i <= s@.len(),
    ensures
        match r {
            Some((p, vp)) => i < p <= s@.len() && sp_value_path(s@, i as int) == Some(
                (p as int, vp@),
            ),
            None => sp_value_path(s@, i as int) is None,
        },
{
    match p_attr_path(s, i) {
        Some((p1, ap)) => {
            if p1 < s.len() && s[p1] == '[' {
                match p_or(s, p1 + 1) {
                    Some((p2, f)) => {
                        if p2 < s.len() && s[p2] == ']' {
                            let pf = prefix_filter(&ap, f);
                            match p_sub_attr(s, p2 + 1) {
                                Some((p4, t)) => Some(
                                    (
                                        p4,
                                        ValuePath::Filtered(
                                            AttrPath {
                                                urn: ap.urn,
                                                name: ap.name,
                                                sub_attr: Some(t),
                                            },
                                            pf,
                                        ),
                                    ),
                                ),
                                None => Some(
                                    (
                                        p2 + 1,
                                        ValuePath::Filtered(
                                            AttrPath { urn: ap.urn, name: ap.name, sub_attr: None },
                                            pf,
                                        ),
                                    ),
                                ),
                            }
                        } else {
                            Some((p1, ValuePath::Attr(ap)))
                        }
                    },
                    None => Some((p1, ValuePath::Attr(ap))),
                }
            } else {
                Some((p1, ValuePath::Attr(ap)))
            }
        },
        None => None,
    }
}

} // verus!
