//! A plain JSON value model.  Objects keep their keys in insertion
//! order; numbers are held as their literal text so no precision is lost.

use vstd::prelude::*;

use crate::text::push_char;

verus! {

/// Model of a JSON value.
pub enum SpecJson {
    Null,
    Bool(bool),
    Num(Seq<char>),
    Str(Seq<char>),
    Array(Seq<SpecJson>),
    Object(Seq<(Seq<char>, SpecJson)>),
}

/// A JSON value.
#[derive(Debug, PartialEq, Eq)]
pub enum JsonValue {
    /// `null`.
    Null,
    /// `true` or `false`.
    Bool(bool),
    /// A number, held as its literal text.
    Num(String),
    /// A string.
    Str(String),
    /// An array.
    Array(Vec<JsonValue>),
    /// An object; keys keep their insertion order.
    Object(Vec<(String, JsonValue)>),
}

/// Models of a sequence of JSON values, element-wise.
pub open spec fn view_json_seq(vs: Seq<JsonValue>) -> Seq<SpecJson>
    decreases vs,
{
    if vs.len() == 0 {
        Seq::empty()
    } else {
        view_json_seq(vs.drop_last()).push(vs.last()@)
    }
}

/// Models of a sequence of JSON object entries, element-wise.
pub open spec fn view_json_entries(vs: Seq<(String, JsonValue)>) -> Seq<(Seq<char>, SpecJson)>
    decreases vs,
{
    if vs.len() == 0 {
        Seq::empty()
    } else {
        view_json_entries(vs.drop_last()).push((vs.last().0@, vs.last().1@))
    }
}

impl View for JsonValue {
    type V = SpecJson;

    open spec fn view(&self) -> SpecJson
        decreases self,
    {
        match self {
            JsonValue::Null => SpecJson::Null,
            JsonValue::Bool(b) => SpecJson::Bool(*b),
            JsonValue::Num(n) => SpecJson::Num(n@),
            JsonValue::Str(s) => SpecJson::Str(s@),
            JsonValue::Array(vs) => SpecJson::Array(view_json_seq(vs@)),
            JsonValue::Object(es) => SpecJson::Object(view_json_entries(es@)),
        }
    }
}

/// The model of a sequence of JSON values has the same length and holds
/// the models of its elements, in order.
pub proof fn lemma_view_json_seq(vs: Seq<JsonValue>)
    ensures
        view_json_seq(vs).len() == vs.len(),
        forall|i: int| 0 <= i < vs.len() ==> view_json_seq(vs)[i] == #[trigger] vs[i]@,
    decreases vs,
{
    if vs.len() > 0 {
        lemma_view_json_seq(vs.drop_last());
        assert(view_json_seq(vs) == view_json_seq(vs.drop_last()).push(vs.last()@));
        assert forall|i: int| 0 <= i < vs.len() implies view_json_seq(vs)[i] == #[trigger] vs[i]@ by {
            if i < vs.len() - 1 {
                assert(vs.drop_last()[i] == vs[i]);
            } else {
                assert(vs.last() == vs[i]);
            }
        }
    }
}

/// The model of a sequence of JSON object entries has the same length
/// and holds the models of its entries, in order.
pub proof fn lemma_view_json_entries(vs: Seq<(String, JsonValue)>)
    ensures
        view_json_entries(vs).len() == vs.len(),
        forall|i: int| 0 <= i < vs.len() ==> view_json_entries(vs)[i] == (
            #[trigger] vs[i].0@,
            vs[i].1@,
        ),
    decreases vs,
{
    if vs.len() > 0 {
        lemma_view_json_entries(vs.drop_last());
        assert(view_json_entries(vs) == view_json_entries(vs.drop_last()).push(
            (vs.last().0@, vs.last().1@),
        ));
        assert forall|i: int| 0 <= i < vs.len() implies view_json_entries(vs)[i] == (
            #[trigger] vs[i].0@,
            vs[i].1@,
        ) by {
            if i < vs.len() - 1 {
                assert(vs.drop_last()[i] == vs[i]);
            } else {
                assert(vs.last() == vs[i]);
            }
        }
    }
}

/// The character of one decimal digit.
pub open spec fn digit_char(d: nat) -> char {
    if d == 0 {
        '0'
    } else if d == 1 {
        '1'
    } else if d == 2 {
        '2'
    } else if d == 3 {
        '3'
    } else if d == 4 {
        '4'
    } else if d == 5 {
        '5'
    } else if d == 6 {
        '6'
    } else if d == 7 {
        '7'
    } else if d == 8 {
        '8'
    } else {
        '9'
    }
}

/// Decimal digits of `n`, most significant first.
pub open spec fn nat_digits(n: nat) -> Seq<char>
    decreases n,
{
    if n < 10 {
        seq![digit_char(n)]
    } else {
        nat_digits(n / 10).push(digit_char(n % 10))
    }
}

/// The character of one decimal digit.
fn digit_char_of(d: u64) -> (r: char)
    requires
        d < 10,
    ensures
        r == digit_char(d as nat),
{
    if d == 0 {
        '0'
    } else if d == 1 {
        '1'
    } else if d == 2 {
        '2'
    } else if d == 3 {
        '3'
    } else if d == 4 {
        '4'
    } else if d == 5 {
        '5'
    } else if d == 6 {
        '6'
    } else if d == 7 {
        '7'
    } else if d == 8 {
        '8'
    } else {
        '9'
    }
}

/// Renders `v` in decimal.
pub fn u64_to_string(v: u64) -> (r: String)
    ensures
        r@ == nat_digits(v as nat),
    decreases v,
{
    if v < 10 {
        let mut r = String::new();
        push_char(&mut r, digit_char_of(v));
        proof {
            assert(r@ =~= seq![digit_char(v as nat)]);
        }
        r
    } else {
        let mut r = u64_to_string(v / 10);
        push_char(&mut r, digit_char_of(v % 10));
        r
    }
}

/// Renders `v` in decimal.
pub fn u16_to_string(v: u16) -> (r: String)
    ensures
        r@ == nat_digits(v as nat),
{
    u64_to_string(v as u64)
}

/// The value under the first entry of `es` whose key is `key`, if any.
pub open spec fn spec_obj_get(es: Seq<(Seq<char>, SpecJson)>, key: Seq<char>) -> Option<SpecJson>
    decreases es,
{
    if es.len() == 0 {
        None
    } else if es.first().0 == key {
        Some(es.first().1)
    } else {
        spec_obj_get(es.drop_first(), key)
    }
}

/// Looks a key up in a JSON object's entries: the value under the first
/// entry with that exact key, if any.
pub fn obj_get<'a>(es: &'a Vec<(String, JsonValue)>, key: &str) -> (r: Option<&'a JsonValue>)
    ensures
        match r {
            Some(v) => spec_obj_get(view_json_entries(es@), key@) == Some(v@),
            None => spec_obj_get(view_json_entries(es@), key@) is None,
        },
{
    let mut i: usize = 0;
    proof {
        lemma_view_json_entries(es@);
        assert(view_json_entries(es@).skip(0) =~= view_json_entries(es@));
    }
    while i < es.len()
        invariant
            i <= es@.len(),
            view_json_entries(es@).len() == es@.len(),
            forall|k: int| 0 <= k < es@.len() ==> view_json_entries(es@)[k] == (
                #[trigger] es@[k].0@,
                es@[k].1@,
            ),
            spec_obj_get(view_json_entries(es@), key@) == spec_obj_get(
                view_json_entries(es@).skip(i as int),
                key@,
            ),
        decreases es@.len() - i,
    {
        proof {
            assert(view_json_entries(es@).skip(i as int).first() == view_json_entries(es@)[
                i as int
            ]);
            assert(view_json_entries(es@).skip(i as int).drop_first() =~= view_json_entries(
                es@,
            ).skip(i as int + 1));
        }
        if crate::text::str_eq(es[i].0.as_str(), key) {
            return Some(&es[i].1);
        }
        i = i + 1;
    }
    proof {
        assert(view_json_entries(es@).skip(i as int).len() == 0);
    }
    None
}

} // verus!
