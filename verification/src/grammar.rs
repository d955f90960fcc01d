//! The SCIM filter and path grammar (RFC 7644 §3.4.2.2 and §3.5.2) as a
//! mathematical recursive-descent parser over character sequences.
//!
//! Each production takes the input and a position and yields the position
//! one past the consumed text together with the parsed value, or nothing
//! when the production does not match at that position.  The executable
//! parser in [`crate::parse`] is proved to return exactly what these
//! functions describe.

use vstd::prelude::*;

use crate::text::{
    is_space_char, is_digit_char, is_alpha_char, is_name_char, is_urn_char, is_hex_char,
    lower_code, hex_val,
};
use crate::filter::{
    SpecAttrPath, SpecCompValue, SpecFilter, SpecValuePath, CompareOp,
};

verus! {

/// First position at or after `i` holding no blank (space or tab).
pub open spec fn sp_skip_sp(s: Seq<char>, i: int) -> int
    decreases s.len() - i,
{
    if 0 <= i < s.len() && is_space_char(s[i]) {
        sp_skip_sp(s, i + 1)
    } else {
        i
    }
}

/// At least one blank, then any further blanks: the position after them,
/// or nothing if `i` holds no blank.
pub open spec fn sp_space1(s: Seq<char>, i: int) -> Option<int> {
    if 0 <= i < s.len() && is_space_char(s[i]) {
        Some(sp_skip_sp(s, i + 1))
    } else {
        None
    }
}

/// End of the run of attribute-name characters starting at `i`.
pub open spec fn sp_name_end(s: Seq<char>, i: int) -> int
    decreases s.len() - i,
{
    if 0 <= i < s.len() && is_name_char(s[i]) {
        sp_name_end(s, i + 1)
    } else {
        i
    }
}

/// An attribute name: a letter followed by letters, digits, `_` or `-`.
pub open spec fn sp_attr_name(s: Seq<char>, i: int) -> Option<(int, Seq<char>)> {
    if 0 <= i < s.len() && is_alpha_char(s[i]) {
        let j = sp_name_end(s, i + 1);
        Some((j, s.subrange(i, j)))
    } else {
        None
    }
}

/// A `.`-prefixed sub-attribute name.
pub open spec fn sp_sub_attr(s: Seq<char>, i: int) -> Option<(int, Seq<char>)> {
    if 0 <= i < s.len() && s[i] == '.' {
        sp_attr_name(s, i + 1)
    } else {
        None
    }
}

/// End of the run of URN-segment characters (letters, digits, `.`)
/// starting at `i`.
pub open spec fn sp_urn_seg_end(s: Seq<char>, i: int) -> int
    decreases s.len() - i,
{
    if 0 <= i < s.len() && is_urn_char(s[i]) {
        sp_urn_seg_end(s, i + 1)
    } else {
        i
    }
}

/// Position after the last complete `segment ":"` group reachable from
/// `i`, greedily; `i` itself when no group matches there.
pub open spec fn sp_urn_end(s: Seq<char>, i: int) -> int
    decreases s.len() - i,
{
    let j = sp_urn_seg_end(s, i);
    if i < j && j < s.len() && s[j] == ':' {
        sp_urn_end(s, j + 1)
    } else {
        i
    }
}

/// A URN prefix: one or more `segment ":"` groups; the value is the text
/// of the groups without the final `:`.
pub open spec fn sp_urn(s: Seq<char>, i: int) -> Option<(int, Seq<char>)> {
    let e = sp_urn_end(s, i);
    if i < e {
        Some((e, s.subrange(i, e - 1)))
    } else {
        None
    }
}

/// An attribute path: an optional URN prefix, a name, and an optional
/// sub-attribute.  A URN prefix that matched is committed: a path with a
/// URN but no valid name after it does not parse.
pub open spec fn sp_attr_path(s: Seq<char>, i: int) -> Option<(int, SpecAttrPath)> {
    let (p1, urn) = match sp_urn(s, i) {
        Some((p, t)) => (p, Some(t)),
        None => (i, None),
    };
    match sp_attr_name(s, p1) {
        Some((p2, nm)) => match sp_sub_attr(s, p2) {
            Some((p3, t)) => Some((p3, SpecAttrPath { urn, name: nm, sub_attr: Some(t) })),
            None => Some((p2, SpecAttrPath { urn, name: nm, sub_attr: None })),
        },
        None => None,
    }
}

/// A comparison operator: any two characters matching one of the nine
/// codes, ASCII-case-insensitively.
pub open spec fn sp_compare_op(s: Seq<char>, i: int) -> Option<(int, CompareOp)> {
    if 0 <= i && i + 2 <= s.len() {
        let a = lower_code(s[i]);
        let b = lower_code(s[i + 1]);
        if a == 'e' as int && b == 'q' as int {
            Some((i + 2, CompareOp::Equal))
        } else if a == 'n' as int && b == 'e' as int {
            Some((i + 2, CompareOp::NotEqual))
        } else if a == 'c' as int && b == 'o' as int {
            Some((i + 2, CompareOp::Contains))
        } else if a == 's' as int && b == 'w' as int {
            Some((i + 2, CompareOp::StartsWith))
        } else if a == 'e' as int && b == 'w' as int {
            Some((i + 2, CompareOp::EndsWith))
        } else if a == 'g' as int && b == 't' as int {
            Some((i + 2, CompareOp::GreaterThan))
        } else if a == 'g' as int && b == 'e' as int {
            Some((i + 2, CompareOp::GreaterThanOrEqual))
        } else if a == 'l' as int && b == 't' as int {
            Some((i + 2, CompareOp::LessThan))
        } else if a == 'l' as int && b == 'e' as int {
            Some((i + 2, CompareOp::LessThanOrEqual))
        } else {
            None
        }
    } else {
        None
    }
}

/// End of the run of digits starting at `i`.
pub open spec fn sp_digits_end(s: Seq<char>, i: int) -> int
    decreases s.len() - i,
{
    if 0 <= i < s.len() && is_digit_char(s[i]) {
        sp_digits_end(s, i + 1)
    } else {
        i
    }
}

/// End of the run of digits and dots starting at `i`.
pub open spec fn sp_num_end(s: Seq<char>, i: int) -> int
    decreases s.len() - i,
{
    if 0 <= i < s.len() && (is_digit_char(s[i]) || s[i] == '.') {
        sp_num_end(s, i + 1)
    } else {
        i
    }
}

/// A decimal number: the maximal run of digits and dots starting at `i`,
/// provided that run forms a JSON number — an integer part without a
/// superfluous leading zero, optionally followed by one dot and at least
/// one fraction digit.  The value is the literal text.
pub open spec fn sp_number(s: Seq<char>, i: int) -> Option<(int, Seq<char>)> {
    let r = sp_num_end(s, i);
    let d1 = sp_digits_end(s, i);
    if 0 <= i < r && i < d1 && (s[i] != '0' || d1 == i + 1) && (d1 == r || (d1 < r && s[d1] == '.'
        && sp_digits_end(s, d1 + 1) == r && r > d1 + 1)) {
        Some((r, s.subrange(i, r)))
    } else {
        None
    }
}

/// End of the run of plain string-literal characters (anything but a
/// quote or a backslash) starting at `i`.
pub open spec fn sp_lit_end(s: Seq<char>, i: int) -> int
    decreases s.len() - i,
{
    if 0 <= i < s.len() && s[i] != '"' && s[i] != '\\' {
        sp_lit_end(s, i + 1)
    } else {
        i
    }
}

/// The run of plain string-literal characters neither starts before `i`
/// nor runs past the end of the input.
pub proof fn lemma_lit_end_bounds(s: Seq<char>, i: int)
    requires
        0 <= i <= s.len(),
    ensures
        i <= sp_lit_end(s, i) <= s.len(),
    decreases s.len() - i,
{
    if i < s.len() && s[i] != '"' && s[i] != '\\' {
        lemma_lit_end_bounds(s, i + 1);
    }
}

/// A backslash escape at `i`: the JSON escapes `\" \\ \/ \b \f \n \r \t`
/// and `\uXXXX` with four hex digits naming a non-surrogate code point.
pub open spec fn sp_escape(s: Seq<char>, i: int) -> Option<(int, char)> {
    if 0 <= i && i + 2 <= s.len() && s[i] == '\\' {
        let c = s[i + 1];
        if c == '"' {
            Some((i + 2, '"'))
        } else if c == '\\' {
            Some((i + 2, '\\'))
        } else if c == '/' {
            Some((i + 2, '/'))
        } else if c == 'b' {
            Some((i + 2, '\u{08}'))
        } else if c == 'f' {
            Some((i + 2, '\u{0C}'))
        } else if c == 'n' {
            Some((i + 2, '\n'))
        } else if c == 'r' {
            Some((i + 2, '\r'))
        } else if c == 't' {
            Some((i + 2, '\t'))
        } else if c == 'u' && i + 6 <= s.len() && is_hex_char(s[i + 2]) && is_hex_char(s[i + 3])
            && is_hex_char(s[i + 4]) && is_hex_char(s[i + 5]) {
            let v = hex_val(s[i + 2]) * 4096 + hex_val(s[i + 3]) * 256 + hex_val(s[i + 4]) * 16
                + hex_val(s[i + 5]);
            if 0xD800 <= v <= 0xDFFF {
                None
            } else {
                Some((i + 6, (v as u32) as char))
            }
        } else {
            None
        }
    } else {
        None
    }
}

/// The fragments of a string body from `i` on: runs of plain characters
/// and decoded escapes, as far as they reach.  Yields the position where
/// no further fragment matches and the decoded text.
pub open spec fn sp_frags(s: Seq<char>, i: int) -> (int, Seq<char>)
    decreases s.len() - i,
{
    if 0 <= i < s.len() && s[i] != '"' && s[i] != '\\' {
        let j = sp_lit_end(s, i);
        if i < j <= s.len() {
            let (e, rest) = sp_frags(s, j);
            (e, s.subrange(i, j) + rest)
        } else {
            (i, Seq::empty())
        }
    } else {
        match sp_escape(s, i) {
            Some((j, c)) => if i < j <= s.len() {
                let (e, rest) = sp_frags(s, j);
                (e, seq![c] + rest)
            } else {
                (i, Seq::empty())
            },
            None => (i, Seq::empty()),
        }
    }
}

/// A quoted string literal; the value is the decoded text.
pub open spec fn sp_string(s: Seq<char>, i: int) -> Option<(int, Seq<char>)> {
    if 0 <= i < s.len() && s[i] == '"' {
        let (e, t) = sp_frags(s, i + 1);
        if e < s.len() && s[e] == '"' {
            Some((e + 1, t))
        } else {
            None
        }
    } else {
        None
    }
}

/// A comparison value: the literals `null`, `false` and `true` (matched
/// case-sensitively), a number, or a quoted string, in that order.
pub open spec fn sp_comp_value(s: Seq<char>, i: int) -> Option<(int, SpecCompValue)> {
    if 0 <= i && i + 4 <= s.len() && s[i] == 'n' && s[i + 1] == 'u' && s[i + 2] == 'l' && s[i + 3]
        == 'l' {
        Some((i + 4, SpecCompValue::Null))
    } else if 0 <= i && i + 5 <= s.len() && s[i] == 'f' && s[i + 1] == 'a' && s[i + 2] == 'l' && s[i
        + 3] == 's' && s[i + 4] == 'e' {
        Some((i + 5, SpecCompValue::Bool(false)))
    } else if 0 <= i && i + 4 <= s.len() && s[i] == 't' && s[i + 1] == 'r' && s[i + 2] == 'u' && s[i
        + 3] == 'e' {
        Some((i + 4, SpecCompValue::Bool(true)))
    } else {
        match sp_number(s, i) {
            Some((p, t)) => Some((p, SpecCompValue::Num(t))),
            None => match sp_string(s, i) {
                Some((p, t)) => Some((p, SpecCompValue::Str(t))),
                None => None,
            },
        }
    }
}

/// An attribute expression: `attrPath pr` (present) or
/// `attrPath op value` (comparison), keywords ASCII-case-insensitive.
pub open spec fn sp_attr_filter(s: Seq<char>, i: int) -> Option<(int, SpecFilter)> {
    match sp_attr_path(s, i) {
        Some((p1, ap)) => {
            let pres = match sp_space1(s, p1) {
                Some(p2) => if p2 + 2 <= s.len() && lower_code(s[p2]) == 'p' as int && lower_code(
                    s[p2 + 1],
                ) == 'r' as int {
                    Some((p2 + 2, SpecFilter::Present(ap)))
                } else {
                    None
                },
                None => None,
            };
            match pres {
                Some(r) => Some(r),
                None => match sp_space1(s, p1) {
                    Some(p2) => match sp_compare_op(s, p2) {
                        Some((p3, op)) => match sp_space1(s, p3) {
                            Some(p4) => match sp_comp_value(s, p4) {
                                Some((p5, v)) => Some((p5, SpecFilter::Compare(ap, op, v))),
                                None => None,
                            },
                            None => None,
                        },
                        None => None,
                    },
                    None => None,
                },
            }
        },
        None => None,
    }
}

/// Scopes `p` under the complex attribute `parent`: the parent's URN and
/// name take over and `p`'s own name becomes the sub-attribute.
pub open spec fn sp_prefix_path(parent: SpecAttrPath, p: SpecAttrPath) -> SpecAttrPath {
    SpecAttrPath { urn: parent.urn, name: parent.name, sub_attr: Some(p.name) }
}

/// Rewrites every attribute path inside `f` with [`sp_prefix_path`].
pub open spec fn sp_prefix_filter(parent: SpecAttrPath, f: SpecFilter) -> SpecFilter
    decreases f,
{
    match f {
        SpecFilter::Present(p) => SpecFilter::Present(sp_prefix_path(parent, p)),
        SpecFilter::Compare(p, op, v) => SpecFilter::Compare(sp_prefix_path(parent, p), op, v),
        SpecFilter::Has(p, inner) => SpecFilter::Has(
            sp_prefix_path(parent, p),
            Box::new(sp_prefix_filter(parent, *inner)),
        ),
        SpecFilter::And(fs) => SpecFilter::And(sp_prefix_filters(parent, fs)),
        SpecFilter::Or(fs) => SpecFilter::Or(sp_prefix_filters(parent, fs)),
        SpecFilter::Not(inner) => SpecFilter::Not(Box::new(sp_prefix_filter(parent, *inner))),
    }
}

/// Rewrites every filter of `fs` with [`sp_prefix_filter`].
pub open spec fn sp_prefix_filters(parent: SpecAttrPath, fs: Seq<SpecFilter>) -> Seq<SpecFilter>
    decreases fs,
{
    if fs.len() == 0 {
        Seq::empty()
    } else {
        sp_prefix_filters(parent, fs.drop_last()).push(sp_prefix_filter(parent, fs.last()))
    }
}

/// A disjunction: a conjunction, then any number of
/// `S "or" S`-separated conjunctions; a single clause stays bare.
pub open spec fn sp_or(s: Seq<char>, i: int) -> Option<(int, SpecFilter)>
    decreases s.len() - i, 4int,
{
    match sp_and(s, i) {
        Some((p1, f1)) => if i < p1 <= s.len() {
            let (pe, more) = sp_or_tail(s, p1);
            if more.len() == 0 {
                Some((pe, f1))
            } else {
                Some((pe, SpecFilter::Or(seq![f1] + more)))
            }
        } else {
            None
        },
        None => None,
    }
}

/// The further `S "or" S conjunction` groups reachable from `i`: the
/// position after the last one and the clauses parsed.
pub open spec fn sp_or_tail(s: Seq<char>, i: int) -> (int, Seq<SpecFilter>)
    decreases s.len() - i, 5int,
{
    match sp_space1(s, i) {
        Some(j1) => if i < j1 && j1 + 2 <= s.len() && lower_code(s[j1]) == 'o' as int && lower_code(
            s[j1 + 1],
        ) == 'r' as int {
            match sp_space1(s, j1 + 2) {
                Some(j2) => if i < j2 <= s.len() {
                    match sp_and(s, j2) {
                        Some((p2, f2)) => if i < p2 <= s.len() {
                            let (pe, rest) = sp_or_tail(s, p2);
                            (pe, seq![f2] + rest)
                        } else {
                            (i, Seq::empty())
                        },
                        None => (i, Seq::empty()),
                    }
                } else {
                    (i, Seq::empty())
                },
                None => (i, Seq::empty()),
            }
        } else {
            (i, Seq::empty())
        },
        None => (i, Seq::empty()),
    }
}

/// A conjunction: a group, then any number of `S "and" S`-separated
/// groups; a single clause stays bare.
pub open spec fn sp_and(s: Seq<char>, i: int) -> Option<(int, SpecFilter)>
    decreases s.len() - i, 2int,
{
    match sp_group(s, i) {
        Some((p1, f1)) => if i < p1 <= s.len() {
            let (pe, more) = sp_and_tail(s, p1);
            if more.len() == 0 {
                Some((pe, f1))
            } else {
                Some((pe, SpecFilter::And(seq![f1] + more)))
            }
        } else {
            None
        },
        None => None,
    }
}

/// The further `S "and" S group` groups reachable from `i`: the position
/// after the last one and the clauses parsed.
pub open spec fn sp_and_tail(s: Seq<char>, i: int) -> (int, Seq<SpecFilter>)
    decreases s.len() - i, 3int,
{
    match sp_space1(s, i) {
        Some(j1) => if i < j1 && j1 + 3 <= s.len() && lower_code(s[j1]) == 'a' as int && lower_code(
            s[j1 + 1],
        ) == 'n' as int && lower_code(s[j1 + 2]) == 'd' as int {
            match sp_space1(s, j1 + 3) {
                Some(j2) => if i < j2 <= s.len() {
                    match sp_group(s, j2) {
                        Some((p2, f2)) => if i < p2 <= s.len() {
                            let (pe, rest) = sp_and_tail(s, p2);
                            (pe, seq![f2] + rest)
                        } else {
                            (i, Seq::empty())
                        },
                        None => (i, Seq::empty()),
                    }
                } else {
                    (i, Seq::empty())
                },
                None => (i, Seq::empty()),
            }
        } else {
            (i, Seq::empty())
        },
        None => (i, Seq::empty()),
    }
}

/// A group: `["not"] S? "(" filter ")"`, or an attribute expression, or a
/// value filter, tried in that order.
pub open spec fn sp_group(s: Seq<char>, i: int) -> Option<(int, SpecFilter)>
    decreases s.len() - i, 1int,
{
    let has_not = 0 <= i && i + 3 <= s.len() && lower_code(s[i]) == 'n' as int && lower_code(
        s[i + 1],
    ) == 'o' as int && lower_code(s[i + 2]) == 't' as int;
    let j = if has_not {
        i + 3
    } else {
        i
    };
    let j2 = sp_skip_sp(s, j);
    let paren = if i <= j2 && j2 < s.len() && s[j2] == '(' {
        match sp_or(s, j2 + 1) {
            Some((p, f)) => if p < s.len() && s[p] == ')' {
                Some(
                    (
                        p + 1,
                        if has_not {
                            SpecFilter::Not(Box::new(f))
                        } else {
                            f
                        },
                    ),
                )
            } else {
                None
            },
            None => None,
        }
    } else {
        None
    };
    match paren {
        Some(r) => Some(r),
        None => match sp_attr_filter(s, i) {
            Some(r) => Some(r),
            None => sp_has(s, i),
        },
    }
}

/// A value filter `attrPath "[" filter "]"`; the paths inside the inner
/// filter are rewritten to sub-attributes of the outer path.
pub open spec fn sp_has(s: Seq<char>, i: int) -> Option<(int, SpecFilter)>
    decreases s.len() - i, 0int,
{
    match sp_attr_path(s, i) {
        Some((p1, ap)) => if i < p1 && p1 < s.len() && s[p1] == '[' {
            match sp_or(s, p1 + 1) {
                Some((p2, f)) => if p2 < s.len() && s[p2] == ']' {
                    Some((p2 + 1, SpecFilter::Has(ap, Box::new(sp_prefix_filter(ap, f)))))
                } else {
                    None
                },
                None => None,
            }
        } else {
            None
        },
        None => None,
    }
}

/// A complete filter expression.
pub open spec fn sp_filter(s: Seq<char>, i: int) -> Option<(int, SpecFilter)> {
    sp_or(s, i)
}

/// A value path: an attribute path, optionally followed by
/// `"[" filter "]"` and a trailing sub-attribute selector.  A bracket
/// whose body does not parse is left unconsumed and the path stays bare.
pub open spec fn sp_value_path(s: Seq<char>, i: int) -> Option<(int, SpecValuePath)> {
    match sp_attr_path(s, i) {
        Some((p1, ap)) => {
            let br = if p1 < s.len() && s[p1] == '[' {
                match sp_or(s, p1 + 1) {
                    Some((p2, f)) => if p2 < s.len() && s[p2] == ']' {
                        Some((p2 + 1, sp_prefix_filter(ap, f)))
                    } else {
                        None
                    },
                    None => None,
                }
            } else {
                None
            };
            match br {
                Some((p3, pf)) => match sp_sub_attr(s, p3) {
                    Some((p4, t)) => Some(
                        (
                            p4,
                            SpecValuePath::Filtered(
                                SpecAttrPath { urn: ap.urn, name: ap.name, sub_attr: Some(t) },
                                pf,
                            ),
                        ),
                    ),
                    None => Some(
                        (
                            p3,
                            SpecValuePath::Filtered(
                                SpecAttrPath { urn: ap.urn, name: ap.name, sub_attr: None },
                                pf,
                            ),
                        ),
                    ),
                },
                None => Some((p1, SpecValuePath::Attr(ap))),
            }
        },
        None => None,
    }
}

} // verus!

verus! {

/// A whole filter: parses from the start and must consume all input.
pub open spec fn sp_parse_filter(s: Seq<char>) -> Option<SpecFilter> {
    match sp_filter(s, 0) {
        Some((p, f)) => if p == s.len() {
            Some(f)
        } else {
            None
        },
        None => None,
    }
}

/// A whole value path: parses from the start and must consume all input.
pub open spec fn sp_parse_value_path(s: Seq<char>) -> Option<SpecValuePath> {
    match sp_value_path(s, 0) {
        Some((p, vp)) => if p == s.len() {
            Some(vp)
        } else {
            None
        },
        None => None,
    }
}

/// A whole attribute path: parses from the start and must consume all
/// input.
pub open spec fn sp_parse_attr_path(s: Seq<char>) -> Option<SpecAttrPath> {
    match sp_attr_path(s, 0) {
        Some((p, ap)) => if p == s.len() {
            Some(ap)
        } else {
            None
        },
        None => None,
    }
}

} // verus!
