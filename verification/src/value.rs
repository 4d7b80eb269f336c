//! JSON values and their mathematical model.
use vstd::prelude::*;

verus! {

/// A JSON number, kept as the three forms a JSON number can take.
#[derive(Debug, Clone)]
pub enum Number {
    PosInt(u64),
    NegInt(i64),
    /// A floating-point number, kept as its shortest decimal text.
    Float(String),
}

#[derive(Debug)]
pub enum Json {
    Null,
    Bool(bool),
    Number(Number),
    String(String),
    Array(Vec<Json>),
    Object(Vec<(String, Json)>),
}

pub enum NumberV {
    PosInt(u64),
    NegInt(i64),
    Float(Seq<char>),
}

/// The mathematical model of a JSON value.
pub enum JsonV {
    Null,
    Bool(bool),
    Number(NumberV),
    Str(Seq<char>),
    Array(Seq<JsonV>),
    Object(Seq<(Seq<char>, JsonV)>),
}

impl View for Number {
    type V = NumberV;

    open spec fn view(&self) -> NumberV {
        match self {
            Number::PosInt(n) => NumberV::PosInt(*n),
            Number::NegInt(n) => NumberV::NegInt(*n),
            Number::Float(s) => NumberV::Float(s@),
        }
    }
}

pub open spec fn json_view(j: Json) -> JsonV
    decreases j, 0nat,
{
    match j {
        Json::Null => JsonV::Null,
        Json::Bool(b) => JsonV::Bool(b),
        Json::Number(n) => JsonV::Number(n@),
        Json::String(s) => JsonV::Str(s@),
        Json::Array(v) => JsonV::Array(seq_view(v@)),
        Json::Object(v) => JsonV::Object(fields_view(v@)),
    }
}

pub open spec fn seq_view(s: Seq<Json>) -> Seq<JsonV>
    decreases s, 1nat,
{
    if s.len() == 0 {
        Seq::empty()
    } else {
        seq_view(s.drop_last()).push(json_view(s.last()))
    }
}

pub open spec fn fields_view(s: Seq<(String, Json)>) -> Seq<(Seq<char>, JsonV)>
    decreases s, 1nat,
{
    if s.len() == 0 {
        Seq::empty()
    } else {
        fields_view(s.drop_last()).push((s.last().0@, json_view(s.last().1)))
    }
}

impl View for Json {
    type V = JsonV;

    open spec fn view(&self) -> JsonV {
        json_view(*self)
    }
}

pub broadcast proof fn lemma_seq_view_len(s: Seq<Json>)
    ensures
        #[trigger] seq_view(s).len() == s.len(),
    decreases s.len(),
{
    if s.len() > 0 {
        lemma_seq_view_len(s.drop_last());
    }
}

pub broadcast proof fn lemma_seq_view_index(s: Seq<Json>, i: int)
    requires
        0 <= i < s.len(),
    ensures
        #[trigger] seq_view(s)[i] == json_view(s[i]),
    decreases s.len(),
{
    if i < s.len() - 1 {
        lemma_seq_view_len(s.drop_last());
        lemma_seq_view_index(s.drop_last(), i);
    } else {
        lemma_seq_view_len(s.drop_last());
    }
}

pub broadcast proof fn lemma_fields_view_len(s: Seq<(String, Json)>)
    ensures
        #[trigger] fields_view(s).len() == s.len(),
    decreases s.len(),
{
    if s.len() > 0 {
        lemma_fields_view_len(s.drop_last());
    }
}

pub broadcast proof fn lemma_fields_view_index(s: Seq<(String, Json)>, i: int)
    requires
        0 <= i < s.len(),
    ensures
        #[trigger] fields_view(s)[i] == (s[i].0@, json_view(s[i].1)),
    decreases s.len(),
{
    lemma_fields_view_len(s.drop_last());
    if i < s.len() - 1 {
        lemma_fields_view_index(s.drop_last(), i);
    }
}

pub broadcast group group_json_view {
    lemma_seq_view_len,
    lemma_seq_view_index,
    lemma_fields_view_len,
    lemma_fields_view_index,
}

} // verus!
