//! Reading a struct's fields from a JSON value, the way a derived
//! `Deserialize` reads them.
//!
//! A struct reads from an object, member by member name, or from an array,
//! element by field position. In an array every field up to the last one
//! without a default must be there, and no element may be left over. A
//! missing optional member, or `null`, reads as `None`; a member of the
//! wrong kind fails the whole struct.
use vstd::prelude::*;
use crate::items::{opt_string_member, string_member};
use crate::json::copy_json;
use crate::value::{fields_view, group_json_view, seq_view, Json, JsonV, Number, NumberV};
use crate::ws::{element, element_of, number_member, opt_ref_view, strings_prefix};

verus! {

broadcast use group_json_view;

// ─── Views of decoded values ────────────────────────────────────────────

pub open spec fn o_view<T: View>(o: Option<T>) -> Option<T::V> {
    match o {
        Some(x) => Some(x@),
        None => None,
    }
}

pub open spec fn oo_view<T: View>(o: Option<Option<T>>) -> Option<Option<T::V>> {
    match o {
        Some(Some(x)) => Some(Some(x@)),
        Some(None) => Some(None),
        None => None,
    }
}

pub open spec fn vec_view<T: View>(v: Vec<T>) -> Seq<T::V> {
    v@.map_values(|x: T| x@)
}

pub open spec fn opt_vec_view<T: View>(o: Option<Vec<T>>) -> Option<Seq<T::V>> {
    match o {
        Some(v) => Some(vec_view(v)),
        None => None,
    }
}

pub open spec fn pairs_view(v: Vec<(String, String)>) -> Seq<(Seq<char>, Seq<char>)> {
    v@.map_values(|p: (String, String)| (p.0@, p.1@))
}

pub open spec fn opt_pairs_view(o: Option<Vec<(String, String)>>) -> Option<Seq<(Seq<char>, Seq<char>)>> {
    match o {
        Some(v) => Some(pairs_view(v)),
        None => None,
    }
}

// ─── Where a field comes from ───────────────────────────────────────────

/// The member named `name` of an object, or the element at `i` of an array.
pub open spec fn field_at(v: JsonV, name: Seq<char>, i: int) -> Option<JsonV> {
    match v {
        JsonV::Object(_) => v.get(name),
        JsonV::Array(a) => element(a, i),
        _ => None,
    }
}

/// An object, or an array of `min` to `max` elements.
pub open spec fn struct_form(v: JsonV, min: int, max: int) -> bool {
    match v {
        JsonV::Object(_) => true,
        JsonV::Array(a) => min <= a.len() <= max,
        _ => false,
    }
}

pub fn field_of<'a>(v: &'a Json, name: &str, i: usize) -> (r: Option<&'a Json>)
    ensures
        opt_ref_view(r) == field_at(v@, name@, i as int),
{
    match v {
        Json::Object(_) => v.get(name),
        Json::Array(a) => element_of(a, i),
        _ => None,
    }
}

pub fn struct_form_ok(v: &Json, min: usize, max: usize) -> (r: bool)
    ensures
        r == struct_form(v@, min as int, max as int),
{
    match v {
        Json::Object(_) => true,
        Json::Array(a) => {
            assert(v@ == JsonV::Array(seq_view(a@)));
            min <= a.len() && a.len() <= max
        },
        _ => false,
    }
}

// ─── Members by kind ────────────────────────────────────────────────────

/// A required boolean.
pub open spec fn bool_member(o: Option<JsonV>) -> Option<bool> {
    match o {
        Some(JsonV::Bool(b)) => Some(b),
        _ => None,
    }
}

/// A signed 64-bit integer: a JSON integer in range.
pub open spec fn i64_of(v: JsonV) -> Option<i64> {
    match v {
        JsonV::Number(NumberV::PosInt(n)) => if n <= i64::MAX {
            Some(n as i64)
        } else {
            None
        },
        JsonV::Number(NumberV::NegInt(n)) => Some(n),
        _ => None,
    }
}

pub open spec fn i64_member(o: Option<JsonV>) -> Option<i64> {
    match o {
        Some(v) => i64_of(v),
        None => None,
    }
}

pub open spec fn opt_i64_member(o: Option<JsonV>) -> Option<Option<i64>> {
    match o {
        None => Some(None),
        Some(JsonV::Null) => Some(None),
        Some(v) => match i64_of(v) {
            Some(n) => Some(Some(n)),
            None => None,
        },
    }
}

/// A floating-point field, kept as the number it was given: any JSON number.
pub open spec fn float_member(o: Option<JsonV>) -> Option<NumberV> {
    match o {
        Some(v) => number_member(v),
        None => None,
    }
}

pub open spec fn opt_float_member(o: Option<JsonV>) -> Option<Option<NumberV>> {
    match o {
        None => Some(None),
        Some(JsonV::Null) => Some(None),
        Some(JsonV::Number(n)) => Some(Some(n)),
        _ => None,
    }
}

/// A required JSON value: anything, `null` included.
pub open spec fn value_member(o: Option<JsonV>) -> Option<JsonV> {
    o
}

/// An optional JSON value: absent or `null` is `None`; it never fails.
pub open spec fn opt_any_member(o: Option<JsonV>) -> Option<Option<JsonV>> {
    match o {
        None => Some(None),
        Some(JsonV::Null) => Some(None),
        Some(v) => Some(Some(v)),
    }
}

/// A list of strings.
pub open spec fn strings_member(o: Option<JsonV>) -> Option<Seq<Seq<char>>> {
    match o {
        Some(JsonV::Array(a)) => strings_prefix(a, a.len() as int),
        _ => None,
    }
}

pub open spec fn opt_strings_member(o: Option<JsonV>) -> Option<Option<Seq<Seq<char>>>> {
    match o {
        None => Some(None),
        Some(JsonV::Null) => Some(None),
        Some(v) => match strings_member(Some(v)) {
            Some(s) => Some(Some(s)),
            None => None,
        },
    }
}

pub open spec fn string_pairs_prefix(f: Seq<(Seq<char>, JsonV)>, n: int) -> Option<Seq<(Seq<char>, Seq<char>)>>
    decreases n,
{
    if n <= 0 {
        Some(Seq::empty())
    } else {
        match (string_pairs_prefix(f, n - 1), f[n - 1].1) {
            (Some(t), JsonV::Str(s)) => Some(t.push((f[n - 1].0, s))),
            _ => None,
        }
    }
}

/// A map of strings to strings: an object whose members are all strings,
/// kept in member order.
pub open spec fn opt_string_map_member(o: Option<JsonV>) -> Option<Option<Seq<(Seq<char>, Seq<char>)>>> {
    match o {
        None => Some(None),
        Some(JsonV::Null) => Some(None),
        Some(JsonV::Object(f)) => match string_pairs_prefix(f, f.len() as int) {
            Some(p) => Some(Some(p)),
            None => None,
        },
        _ => None,
    }
}

// ─── Reading members ────────────────────────────────────────────────────

pub fn req_string(o: Option<&Json>) -> (r: Option<String>)
    ensures
        o_view(r) == string_member(opt_ref_view(o)),
{
    match o {
        Some(Json::String(s)) => Some(s.clone()),
        _ => None,
    }
}

pub fn opt_string(o: Option<&Json>) -> (r: Option<Option<String>>)
    ensures
        oo_view(r) == opt_string_member(opt_ref_view(o)),
{
    match o {
        None => Some(None),
        Some(Json::Null) => Some(None),
        Some(Json::String(s)) => Some(Some(s.clone())),
        _ => None,
    }
}

pub fn req_bool(o: Option<&Json>) -> (r: Option<bool>)
    ensures
        r == bool_member(opt_ref_view(o)),
{
    match o {
        Some(Json::Bool(b)) => Some(*b),
        _ => None,
    }
}

pub fn opt_bool(o: Option<&Json>) -> (r: Option<Option<bool>>)
    ensures
        r == crate::ws::opt_bool_member(opt_ref_view(o)),
{
    match o {
        None => Some(None),
        Some(Json::Null) => Some(None),
        Some(Json::Bool(b)) => Some(Some(*b)),
        _ => None,
    }
}

fn i64_from(v: &Json) -> (r: Option<i64>)
    ensures
        r == i64_of(v@),
{
    match v {
        Json::Number(Number::PosInt(n)) => {
            if *n <= 9223372036854775807u64 {
                Some(*n as i64)
            } else {
                None
            }
        },
        Json::Number(Number::NegInt(n)) => Some(*n),
        _ => None,
    }
}

pub fn req_i64(o: Option<&Json>) -> (r: Option<i64>)
    ensures
        r == i64_member(opt_ref_view(o)),
{
    match o {
        Some(v) => i64_from(v),
        None => None,
    }
}

pub fn opt_i64(o: Option<&Json>) -> (r: Option<Option<i64>>)
    ensures
        r == opt_i64_member(opt_ref_view(o)),
{
    match o {
        None => Some(None),
        Some(Json::Null) => Some(None),
        Some(v) => match i64_from(v) {
            Some(n) => Some(Some(n)),
            None => None,
        },
    }
}

pub fn req_float(o: Option<&Json>) -> (r: Option<Number>)
    ensures
        o_view(r) == float_member(opt_ref_view(o)),
{
    match o {
        Some(Json::Number(n)) => Some(n.duplicate()),
        _ => None,
    }
}

pub fn opt_float(o: Option<&Json>) -> (r: Option<Option<Number>>)
    ensures
        oo_view(r) == opt_float_member(opt_ref_view(o)),
{
    match o {
        None => Some(None),
        Some(Json::Null) => Some(None),
        Some(Json::Number(n)) => Some(Some(n.duplicate())),
        _ => None,
    }
}

pub fn req_value(o: Option<&Json>) -> (r: Option<Json>)
    ensures
        o_view(r) == value_member(opt_ref_view(o)),
{
    match o {
        Some(v) => Some(copy_json(v)),
        None => None,
    }
}

pub fn opt_any(o: Option<&Json>) -> (r: Option<Option<Json>>)
    ensures
        oo_view(r) == opt_any_member(opt_ref_view(o)),
{
    match o {
        None => Some(None),
        Some(Json::Null) => Some(None),
        Some(v) => Some(Some(copy_json(v))),
    }
}

proof fn lemma_strings_prefix_none(a: Seq<JsonV>, n: int, m: int)
    requires
        1 <= n <= m,
        strings_prefix(a, n) is None,
    ensures
        strings_prefix(a, m) is None,
    decreases m - n,
{
    if n < m {
        lemma_strings_prefix_none(a, n, m - 1);
    }
}

pub fn req_strings(o: Option<&Json>) -> (r: Option<Vec<String>>)
    ensures
        opt_vec_view(r) == strings_member(opt_ref_view(o)),
{
    match o {
        Some(Json::Array(a)) => {
            let ghost av = seq_view(a@);
            let mut out: Vec<String> = Vec::new();
            let mut i: usize = 0;
            while i < a.len()
                invariant
                    i <= a@.len(),
                    av == seq_view(a@),
                    opt_ref_view(o) == Some(JsonV::Array(av)),
                    strings_prefix(av, i as int) == Some(vec_view(out)),
                decreases a.len() - i,
            {
                assert(av[i as int] == a@[i as int]@);
                match &a[i] {
                    Json::String(s) => {
                        let ghost before = out@;
                        out.push(s.clone());
                        assert(vec_view(out) =~= before.map_values(|x: String| x@).push(s@));
                    },
                    _ => {
                        proof {
                            lemma_strings_prefix_none(av, i as int + 1, av.len() as int);
                        }
                        return None;
                    },
                }
                i = i + 1;
            }
            Some(out)
        },
        _ => None,
    }
}

pub fn opt_strings(o: Option<&Json>) -> (r: Option<Option<Vec<String>>>)
    ensures
        match r {
            Some(x) => opt_strings_member(opt_ref_view(o)) == Some(opt_vec_view(x)),
            None => opt_strings_member(opt_ref_view(o)) is None,
        },
{
    match o {
        None => Some(None),
        Some(Json::Null) => Some(None),
        Some(v) => match req_strings(Some(v)) {
            Some(s) => Some(Some(s)),
            None => None,
        },
    }
}

proof fn lemma_string_pairs_prefix_none(f: Seq<(Seq<char>, JsonV)>, n: int, m: int)
    requires
        1 <= n <= m,
        string_pairs_prefix(f, n) is None,
    ensures
        string_pairs_prefix(f, m) is None,
    decreases m - n,
{
    if n < m {
        lemma_string_pairs_prefix_none(f, n, m - 1);
    }
}

pub fn opt_string_map(o: Option<&Json>) -> (r: Option<Option<Vec<(String, String)>>>)
    ensures
        match r {
            Some(x) => opt_string_map_member(opt_ref_view(o)) == Some(opt_pairs_view(x)),
            None => opt_string_map_member(opt_ref_view(o)) is None,
        },
{
    match o {
        None => Some(None),
        Some(Json::Null) => Some(None),
        Some(Json::Object(f)) => {
            let ghost fv = fields_view(f@);
            let mut out: Vec<(String, String)> = Vec::new();
            let mut i: usize = 0;
            while i < f.len()
                invariant
                    i <= f@.len(),
                    fv == fields_view(f@),
                    opt_ref_view(o) == Some(JsonV::Object(fv)),
                    string_pairs_prefix(fv, i as int) == Some(pairs_view(out)),
                decreases f.len() - i,
            {
                assert(fv[i as int] == (f@[i as int].0@, f@[i as int].1@));
                match &f[i].1 {
                    Json::String(s) => {
                        let ghost before = out@;
                        out.push((f[i].0.clone(), s.clone()));
                        assert(pairs_view(out) =~= before.map_values(
                            |p: (String, String)| (p.0@, p.1@),
                        ).push((f@[i as int].0@, s@)));
                    },
                    _ => {
                        proof {
                            lemma_string_pairs_prefix_none(fv, i as int + 1, fv.len() as int);
                        }
                        return None;
                    },
                }
                i = i + 1;
            }
            Some(Some(out))
        },
        _ => None,
    }
}

} // verus!
