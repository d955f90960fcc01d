//! Listing and retrieval arguments as they arrive on the wire — query
//! parameters or a JSON search body — and their canonicalization.

use vstd::prelude::*;

use crate::manager::SortOrder;
use crate::text::{is_digit_char, str_to_chars, chars_range_to_string, str_eq};

verus! {

/// Model of raw listing arguments.
pub struct SpecListQuery {
    pub filter: Option<Seq<char>>,
    pub sort_by: Option<Seq<char>>,
    pub sort_order: SortOrder,
    pub start_index: Option<nat>,
    pub count: Option<nat>,
    pub attributes: Seq<Seq<char>>,
    pub excluded_attributes: Seq<Seq<char>>,
}

/// Raw listing arguments, as the wire carries them.
#[derive(Debug, PartialEq, Eq)]
pub struct ListResourcesArgs {
    /// The filter text.
    pub filter: Option<String>,
    /// The attribute path to sort by.
    pub sort_by: Option<String>,
    /// The sort order.
    pub sort_order: SortOrder,
    /// One-based index of the first wanted resource.
    pub start_index: Option<usize>,
    /// Number of wanted resources.
    pub count: Option<usize>,
    /// Attribute paths to include.
    pub attributes: Vec<String>,
    /// Attribute paths to exclude.
    pub excluded_attributes: Vec<String>,
}

/// Models of a sequence of strings, element-wise.
pub open spec fn view_string_seq(vs: Seq<String>) -> Seq<Seq<char>>
    decreases vs,
{
    if vs.len() == 0 {
        Seq::empty()
    } else {
        view_string_seq(vs.drop_last()).push(vs.last()@)
    }
}

/// The model of a sequence of strings has the same length and holds the
/// models of its elements, in order.
pub proof fn lemma_view_string_seq(vs: Seq<String>)
    ensures
        view_string_seq(vs).len() == vs.len(),
        forall|i: int| 0 <= i < vs.len() ==> view_string_seq(vs)[i] == #[trigger] vs[i]@,
    decreases vs,
{
    if vs.len() > 0 {
        lemma_view_string_seq(vs.drop_last());
        assert(view_string_seq(vs) == view_string_seq(vs.drop_last()).push(vs.last()@));
        assert forall|i: int| 0 <= i < vs.len() implies view_string_seq(vs)[i]
            == #[trigger] vs[i]@ by {
            if i < vs.len() - 1 {
                assert(vs.drop_last()[i] == vs[i]);
            } else {
                assert(vs.last() == vs[i]);
            }
        }
    }
}

impl View for ListResourcesArgs {
    type V = SpecListQuery;

    open spec fn view(&self) -> SpecListQuery {
        SpecListQuery {
            filter: match &self.filter {
                Some(s) => Some(s@),
                None => None,
            },
            sort_by: match &self.sort_by {
                Some(s) => Some(s@),
                None => None,
            },
            sort_order: self.sort_order,
            start_index: match self.start_index {
                Some(v) => Some(v as nat),
                None => None,
            },
            count: match self.count {
                Some(v) => Some(v as nat),
                None => None,
            },
            attributes: view_string_seq(self.attributes@),
            excluded_attributes: view_string_seq(self.excluded_attributes@),
        }
    }
}

/// Raw retrieval arguments: only the two selection lists.
#[derive(Debug, PartialEq, Eq)]
pub struct GetResourcesArgs {
    /// Attribute paths to include.
    pub attributes: Vec<String>,
    /// Attribute paths to exclude.
    pub excluded_attributes: Vec<String>,
}

/// Decimal value of a digit string, most significant first.
pub open spec fn sp_digits_val(s: Seq<char>) -> int
    decreases s,
{
    if s.len() == 0 {
        0
    } else {
        sp_digits_val(s.drop_last()) * 10 + (s.last() as int - '0' as int)
    }
}

/// A whole decimal number: every character a digit, at least one, and
/// the value within the machine's range.
pub open spec fn sp_parse_usize(s: Seq<char>) -> Option<nat> {
    if s.len() > 0 && (forall|k: int| 0 <= k < s.len() ==> is_digit_char(s[k])) && sp_digits_val(s)
        <= usize::MAX {
        Some(sp_digits_val(s) as nat)
    } else {
        None
    }
}

/// A longer digit string has at least the value of its prefix.
proof fn lemma_digits_val_mono(s: Seq<char>, i: int, j: int)
    requires
        0 <= i <= j <= s.len(),
        forall|k: int| 0 <= k < s.len() ==> is_digit_char(s[k]),
    ensures
        sp_digits_val(s.take(i)) <= sp_digits_val(s.take(j)),
        sp_digits_val(s.take(j)) >= 0,
    decreases j,
{
    if j > 0 {
        if i == j {
            lemma_digits_val_mono(s, i - 1, j - 1);
            assert(s.take(j).drop_last() =~= s.take(j - 1));
            assert('0' <= s[j - 1] && s[j - 1] <= '9');
        } else {
            lemma_digits_val_mono(s, i, j - 1);
            assert(s.take(j).drop_last() =~= s.take(j - 1));
            assert('0' <= s[j - 1] && s[j - 1] <= '9');
        }
    }
}

/// Reads a whole decimal number.
pub fn parse_usize(s: &str) -> (r: Option<usize>)
    ensures
        match r {
            Some(v) => sp_parse_usize(s@) == Some(v as nat),
            None => sp_parse_usize(s@) is None,
        },
{
    let cs = str_to_chars(s);
    let n = cs.len();
    if n == 0 {
        return None;
    }
    let mut val: usize = 0;
    let mut i: usize = 0;
    proof {
        assert(s@.take(0) =~= Seq::<char>::empty());
    }
    while i < n
        invariant
            n == s@.len(),
            cs@ == s@,
            i <= n,
            forall|k: int| 0 <= k < i ==> is_digit_char(s@[k]),
            val == sp_digits_val(s@.take(i as int)),
        decreases n - i,
    {
        let c = cs[i];
        if !('0' <= c && c <= '9') {
            return None;
        }
        let d: usize = (c as u8 - 48) as usize;
        proof {
            assert(d == c as int - '0' as int);
        }
        if val > (usize::MAX - d) / 10 {
            proof {
                assert(s@.take(i as int + 1).drop_last() =~= s@.take(i as int));
                assert(s@.take(i as int + 1).last() == c);
                assert(sp_digits_val(s@.take(i as int + 1)) > usize::MAX) by {
                    assert(val * 10 + d > usize::MAX) by (nonlinear_arith)
                        requires
                            val > (usize::MAX - d) / 10,
                            d <= 9,
                            val >= 0,
                    ;
                }
                if forall|k: int| 0 <= k < s@.len() ==> is_digit_char(s@[k]) {
                    lemma_digits_val_mono(s@, i as int + 1, s@.len() as int);
                    assert(s@.take(s@.len() as int) =~= s@);
                }
            }
            return None;
        }
        proof {
            assert(val * 10 + d <= usize::MAX) by (nonlinear_arith)
                requires
                    val <= (usize::MAX - d) / 10,
                    d <= 9,
                    val >= 0,
            ;
            assert(s@.take(i as int + 1).drop_last() =~= s@.take(i as int));
            assert(s@.take(i as int + 1).last() == c);
        }
        val = val * 10 + d;
        i = i + 1;
    }
    proof {
        assert(s@.take(n as int) =~= s@);
    }
    Some(val)
}

/// The value under the first pair whose key is `key`, if any.
pub open spec fn sp_q_get(q: Seq<(Seq<char>, Seq<char>)>, key: Seq<char>) -> Option<Seq<char>>
    decreases q,
{
    if q.len() == 0 {
        None
    } else if q.first().0 == key {
        Some(q.first().1)
    } else {
        sp_q_get(q.drop_first(), key)
    }
}

/// Models of a sequence of string pairs, element-wise.
pub open spec fn view_pairs(vs: Seq<(String, String)>) -> Seq<(Seq<char>, Seq<char>)>
    decreases vs,
{
    if vs.len() == 0 {
        Seq::empty()
    } else {
        view_pairs(vs.drop_last()).push((vs.last().0@, vs.last().1@))
    }
}

/// The model of a sequence of string pairs has the same length and
/// holds the models of its elements, in order.
pub proof fn lemma_view_pairs(vs: Seq<(String, String)>)
    ensures
        view_pairs(vs).len() == vs.len(),
        forall|i: int| 0 <= i < vs.len() ==> view_pairs(vs)[i] == (#[trigger] vs[i].0@, vs[i].1@),
    decreases vs,
{
    if vs.len() > 0 {
        lemma_view_pairs(vs.drop_last());
        assert(view_pairs(vs) == view_pairs(vs.drop_last()).push((vs.last().0@, vs.last().1@)));
        assert forall|i: int| 0 <= i < vs.len() implies view_pairs(vs)[i] == (
            #[trigger] vs[i].0@,
            vs[i].1@,
        ) by {
            if i < vs.len() - 1 {
                assert(vs.drop_last()[i] == vs[i]);
            } else {
                assert(vs.last() == vs[i]);
            }
        }
    }
}

/// Looks the first pair with the given key up in a query string's
/// decoded pairs.
pub fn q_get<'a>(q: &'a Vec<(String, String)>, key: &str) -> (r: Option<&'a String>)
    ensures
        match r {
            Some(v) => sp_q_get(view_pairs(q@), key@) == Some(v@),
            None => sp_q_get(view_pairs(q@), key@) is None,
        },
{
    proof {
        lemma_view_pairs(q@);
        assert(view_pairs(q@).skip(0) =~= view_pairs(q@));
    }
    let mut i: usize = 0;
    while i < q.len()
        invariant
            i <= q@.len(),
            view_pairs(q@).len() == q@.len(),
            forall|k: int| 0 <= k < q@.len() ==> view_pairs(q@)[k] == (#[trigger] q@[k].0@, q@[k].1@),
            sp_q_get(view_pairs(q@), key@) == sp_q_get(view_pairs(q@).skip(i as int), key@),
        decreases q@.len() - i,
    {
        proof {
            assert(view_pairs(q@).skip(i as int).first() == view_pairs(q@)[i as int]);
            assert(view_pairs(q@).skip(i as int).drop_first() =~= view_pairs(q@).skip(i as int + 1));
        }
        if str_eq(q[i].0.as_str(), key) {
            return Some(&q[i].1);
        }
        i = i + 1;
    }
    None
}

/// End of the run of non-comma characters starting at `i`.
pub open spec fn sp_field_end(s: Seq<char>, i: int) -> int
    decreases s.len() - i,
{
    if 0 <= i < s.len() && s[i] != ',' {
        sp_field_end(s, i + 1)
    } else {
        i
    }
}

/// The comma-separated fields of `s` from `i` on.
pub open spec fn sp_split_commas(s: Seq<char>, i: int) -> Seq<Seq<char>>
    decreases s.len() - i,
{
    let j = sp_field_end(s, i);
    if i <= j <= s.len() {
        if j < s.len() {
            seq![s.subrange(i, j)] + sp_split_commas(s, j + 1)
        } else {
            seq![s.subrange(i, j)]
        }
    } else {
        seq![]
    }
}

/// Splits a string at commas; there is always at least one field, and
/// empty fields are kept.
pub fn split_commas(s: &str) -> (r: Vec<String>)
    ensures
        view_string_seq(r@) == sp_split_commas(s@, 0),
{
    let cs = str_to_chars(s);
    let n = cs.len();
    let mut r: Vec<String> = Vec::new();
    let mut i: usize = 0;
    proof {
        assert(view_string_seq(r@) + sp_split_commas(s@, 0) =~= sp_split_commas(s@, 0));
    }
    loop
        invariant_except_break
            sp_split_commas(s@, 0) == view_string_seq(r@) + sp_split_commas(s@, i as int),
        invariant
            n == s@.len(),
            cs@ == s@,
            i <= n,
        ensures
            view_string_seq(r@) == sp_split_commas(s@, 0),
        decreases n - i,
    {
        let mut j: usize = i;
        while j < n && cs[j] != ','
            invariant
                i <= j <= n,
                n == s@.len(),
                cs@ == s@,
                sp_field_end(s@, i as int) == sp_field_end(s@, j as int),
            decreases n - j,
        {
            j = j + 1;
        }
        let ghost r_before = r@;
        let field = chars_range_to_string(&cs, i, j);
        r.push(field);
        proof {
            assert(r@.drop_last() == r_before);
            assert(view_string_seq(r@) == view_string_seq(r_before).push(s@.subrange(
                i as int,
                j as int,
            )));
        }
        if j < n {
            proof {
                assert(sp_split_commas(s@, i as int) == seq![s@.subrange(i as int, j as int)]
                    + sp_split_commas(s@, j as int + 1));
                assert(view_string_seq(r_before) + sp_split_commas(s@, i as int)
                    =~= view_string_seq(r@) + sp_split_commas(s@, j as int + 1));
            }
            i = j + 1;
        } else {
            proof {
                assert(sp_split_commas(s@, i as int) =~= seq![s@.subrange(i as int, j as int)]);
                assert(view_string_seq(r_before) + sp_split_commas(s@, i as int)
                    =~= view_string_seq(r@));
            }
            break;
        }
    }
    r
}

/// The wire text of a sort order.
pub open spec fn sp_sort_order_of(s: Seq<char>) -> Option<SortOrder> {
    if s == "ascending"@ {
        Some(SortOrder::Ascending)
    } else if s == "descending"@ {
        Some(SortOrder::Descending)
    } else {
        None
    }
}

/// Reads a sort order from its wire text.
pub fn parse_sort_order(s: &str) -> (r: Option<SortOrder>)
    ensures
        r == sp_sort_order_of(s@),
{
    if str_eq(s, "ascending") {
        Some(SortOrder::Ascending)
    } else if str_eq(s, "descending") {
        Some(SortOrder::Descending)
    } else {
        None
    }
}

} // verus!
