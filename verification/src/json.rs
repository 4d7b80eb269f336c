//! Reading and building JSON values.
//!
//! Objects keep their members in a vector; every object built here keeps its
//! keys in ascending order without repetition, which is the order and the
//! uniqueness a JSON map has on the wire.
use vstd::prelude::*;
use crate::value::{
    fields_view, group_json_view, json_view, seq_view, Json, JsonV, Number, NumberV,
};

verus! {

broadcast use group_json_view;

// ─── Reading ────────────────────────────────────────────────────────────

/// The value of the first member named `key`.
pub open spec fn fields_get(f: Seq<(Seq<char>, JsonV)>, key: Seq<char>) -> Option<JsonV>
    decreases f.len(),
{
    if f.len() == 0 {
        None
    } else if f[0].0 == key {
        Some(f[0].1)
    } else {
        fields_get(f.drop_first(), key)
    }
}

/// Index of the first member named `key`, if any.
pub open spec fn fields_find(f: Seq<(Seq<char>, JsonV)>, key: Seq<char>) -> Option<int>
    decreases f.len(),
{
    if f.len() == 0 {
        None
    } else if f[0].0 == key {
        Some(0)
    } else {
        match fields_find(f.drop_first(), key) {
            Some(i) => Some(i + 1),
            None => None,
        }
    }
}

pub proof fn lemma_fields_find(f: Seq<(Seq<char>, JsonV)>, key: Seq<char>)
    ensures
        match fields_find(f, key) {
            Some(i) => 0 <= i < f.len() && f[i].0 == key && fields_get(f, key) == Some(f[i].1)
                && forall|j: int| 0 <= j < i ==> f[j].0 != key,
            None => fields_get(f, key).is_none() && forall|j: int| 0 <= j < f.len() ==> f[j].0 != key,
        },
    decreases f.len(),
{
    if f.len() > 0 {
        lemma_fields_find(f.drop_first(), key);
        if f[0].0 != key {
            match fields_find(f.drop_first(), key) {
                Some(i) => {
                    assert forall|j: int| 0 <= j < i + 1 implies f[j].0 != key by {
                        if j > 0 {
                            assert(f[j] == f.drop_first()[j - 1]);
                        }
                    }
                },
                None => {
                    assert forall|j: int| 0 <= j < f.len() implies f[j].0 != key by {
                        if j > 0 {
                            assert(f[j] == f.drop_first()[j - 1]);
                        }
                    }
                },
            }
        }
    }
}

impl JsonV {
    /// Member lookup, as `Value::get` with a string key: objects only.
    pub open spec fn get(self, key: Seq<char>) -> Option<JsonV> {
        match self {
            JsonV::Object(f) => fields_get(f, key),
            _ => None,
        }
    }

    pub open spec fn as_str(self) -> Option<Seq<char>> {
        match self {
            JsonV::Str(s) => Some(s),
            _ => None,
        }
    }

    pub open spec fn as_u64(self) -> Option<u64> {
        match self {
            JsonV::Number(NumberV::PosInt(n)) => Some(n),
            _ => None,
        }
    }

    pub open spec fn as_array(self) -> Option<Seq<JsonV>> {
        match self {
            JsonV::Array(a) => Some(a),
            _ => None,
        }
    }

    pub open spec fn as_bool(self) -> Option<bool> {
        match self {
            JsonV::Bool(b) => Some(b),
            _ => None,
        }
    }

    /// `get(key)` followed by `as_str`.
    pub open spec fn get_str(self, key: Seq<char>) -> Option<Seq<char>> {
        match self.get(key) {
            Some(v) => v.as_str(),
            None => None,
        }
    }

    /// Indexing as `value[key]`: missing members read as `null`.
    pub open spec fn at(self, key: Seq<char>) -> JsonV {
        match self.get(key) {
            Some(v) => v,
            None => JsonV::Null,
        }
    }
}

// ─── Text helpers ───────────────────────────────────────────────────────

/// Appends one character to a string (`String::push`).
#[verifier::external_body]
pub fn push_char(s: &mut String, c: char)
    ensures
        final(s)@ == old(s)@.push(c),
{
    s.push(c)
}

/// The characters of a string.
pub fn chars_of(s: &str) -> (r: Vec<char>)
    ensures
        r@ == s@,
{
    let mut r: Vec<char> = Vec::new();
    for c in it: s.chars()
        invariant
            r@ == it.seq().take(it.index() as int),
            it.seq() == s@,
    {
        r.push(c);
    }
    assert(r@ =~= s@);
    r
}

/// The string made of the characters `s[from..to]`.
pub fn string_of(s: &[char], from: usize, to: usize) -> (r: String)
    requires
        from <= to <= s@.len(),
    ensures
        r@ == s@.subrange(from as int, to as int),
{
    let mut r = String::new();
    let mut i = from;
    while i < to
        invariant
            from <= i <= to <= s@.len(),
            r@ == s@.subrange(from as int, i as int),
        decreases to - i,
    {
        push_char(&mut r, s[i]);
        i = i + 1;
        assert(r@ =~= s@.subrange(from as int, i as int));
    }
    r
}

pub fn str_eq(a: &str, b: &str) -> (r: bool)
    ensures
        r == (a@ == b@),
{
    let x = a.to_owned();
    let y = b.to_owned();
    x == y
}

pub fn owned(s: &str) -> (r: String)
    ensures
        r@ == s@,
{
    s.to_owned()
}

/// `a` followed by `b`.
pub fn concat(a: &str, b: &str) -> (r: String)
    ensures
        r@ == a@ + b@,
{
    let mut r = a.to_owned();
    r.append(b);
    r
}

/// Strict lexicographic order on characters (the order of UTF-8 strings).
pub open spec fn chars_lt(a: Seq<char>, b: Seq<char>) -> bool
    decreases a.len(),
{
    if b.len() == 0 {
        false
    } else if a.len() == 0 {
        true
    } else if a[0] != b[0] {
        (a[0] as u32) < (b[0] as u32)
    } else {
        chars_lt(a.drop_first(), b.drop_first())
    }
}

/// Whether `a` comes strictly before `b`.
pub fn key_before(a: &str, b: &str) -> (r: bool)
    ensures
        r == chars_lt(a@, b@),
{
    let x = chars_of(a);
    let y = chars_of(b);
    let mut i: usize = 0;
    assert(x@.skip(0) =~= x@);
    assert(y@.skip(0) =~= y@);
    while i < x.len() && i < y.len() && x[i] == y[i]
        invariant
            i <= x@.len(),
            i <= y@.len(),
            x@.subrange(0, i as int) == y@.subrange(0, i as int),
            chars_lt(a@, b@) == chars_lt(x@.skip(i as int), y@.skip(i as int)),
        decreases x.len() - i,
    {
        assert(x@.skip(i as int).drop_first() =~= x@.skip(i + 1));
        assert(y@.skip(i as int).drop_first() =~= y@.skip(i + 1));
        i = i + 1;
    }
    if i == y.len() {
        false
    } else if i == x.len() {
        true
    } else {
        (x[i] as u32) < (y[i] as u32)
    }
}

// ─── Objects ────────────────────────────────────────────────────────────

/// Where a new member named `key` goes: before the first larger key.
pub open spec fn fields_insert_new(f: Seq<(Seq<char>, JsonV)>, key: Seq<char>, v: JsonV) -> Seq<
    (Seq<char>, JsonV),
>
    decreases f.len(),
{
    if f.len() == 0 {
        seq![(key, v)]
    } else if chars_lt(key, f[0].0) {
        seq![(key, v)] + f
    } else {
        seq![f[0]] + fields_insert_new(f.drop_first(), key, v)
    }
}

/// Inserting a member the way a JSON map does: an existing member keeps its
/// place and takes the new value; a new member goes before the first larger key.
pub open spec fn fields_insert(f: Seq<(Seq<char>, JsonV)>, key: Seq<char>, v: JsonV) -> Seq<
    (Seq<char>, JsonV),
> {
    match fields_find(f, key) {
        Some(i) => f.update(i, (key, v)),
        None => fields_insert_new(f, key, v),
    }
}

/// Removing the first member named `key`.
pub open spec fn fields_remove(f: Seq<(Seq<char>, JsonV)>, key: Seq<char>) -> Seq<
    (Seq<char>, JsonV),
>
    decreases f.len(),
{
    if f.len() == 0 {
        f
    } else if f[0].0 == key {
        f.drop_first()
    } else {
        seq![f[0]] + fields_remove(f.drop_first(), key)
    }
}

/// Member names occur at most once.
pub open spec fn keys_unique(f: Seq<(Seq<char>, JsonV)>) -> bool {
    forall|i: int, j: int| 0 <= i < j < f.len() ==> f[i].0 != f[j].0
}

proof fn lemma_insert_new(f: Seq<(Seq<char>, JsonV)>, key: Seq<char>, v: JsonV)
    requires
        forall|j: int| 0 <= j < f.len() ==> f[j].0 != key,
    ensures
        fields_get(fields_insert_new(f, key, v), key) == Some(v),
        forall|k2: Seq<char>|
            k2 != key ==> fields_get(#[trigger] fields_insert_new(f, key, v), k2) == fields_get(
                f,
                k2,
            ),
        fields_insert_new(f, key, v).len() == f.len() + 1,
        exists|p: int|
            0 <= p <= f.len() && #[trigger] fields_insert_new(f, key, v) == f.take(p) + seq![(key, v)]
                + f.skip(p),
    decreases f.len(),
{
    let r = fields_insert_new(f, key, v);
    if f.len() == 0 {
        assert(r.drop_first() =~= Seq::<(Seq<char>, JsonV)>::empty());
        assert(r =~= f.take(0) + seq![(key, v)] + f.skip(0));
        assert forall|k2: Seq<char>| k2 != key implies fields_get(
            #[trigger] fields_insert_new(f, key, v),
            k2,
        ) == fields_get(f, k2) by {
            assert(fields_get(r, k2) == fields_get(r.drop_first(), k2));
        }
    } else if chars_lt(key, f[0].0) {
        assert(r[0] == (key, v));
        assert(r.drop_first() =~= f);
        assert(r =~= f.take(0) + seq![(key, v)] + f.skip(0));
        assert forall|k2: Seq<char>| k2 != key implies fields_get(
            #[trigger] fields_insert_new(f, key, v),
            k2,
        ) == fields_get(f, k2) by {
            assert(fields_get(r, k2) == fields_get(r.drop_first(), k2));
        }
    } else {
        let t = f.drop_first();
        assert forall|j: int| 0 <= j < t.len() implies t[j].0 != key by {
            assert(t[j] == f[j + 1]);
        }
        lemma_insert_new(t, key, v);
        let rt = fields_insert_new(t, key, v);
        assert(r[0] == f[0]);
        assert(r.drop_first() =~= rt);
        let p = choose|p: int| 0 <= p <= t.len() && fields_insert_new(t, key, v) == t.take(p) + seq![(key, v)]
            + t.skip(p);
        assert(r =~= f.take(p + 1) + seq![(key, v)] + f.skip(p + 1));
        assert forall|k2: Seq<char>| k2 != key implies fields_get(
            #[trigger] fields_insert_new(f, key, v),
            k2,
        ) == fields_get(f, k2) by {
            if f[0].0 != k2 {
                assert(fields_get(r, k2) == fields_get(r.drop_first(), k2));
                assert(fields_get(rt, k2) == fields_get(t, k2));
            }
        }
    }
}

/// A read after an insert gives back what was inserted; other members read as before.
pub proof fn lemma_get_insert(f: Seq<(Seq<char>, JsonV)>, key: Seq<char>, v: JsonV, k2: Seq<char>)
    ensures
        fields_get(fields_insert(f, key, v), k2) == if k2 == key {
            Some(v)
        } else {
            fields_get(f, k2)
        },
{
    lemma_fields_find(f, key);
    lemma_fields_find(f, k2);
    match fields_find(f, key) {
        Some(i) => {
            let r = f.update(i, (key, v));
            lemma_fields_find(r, k2);
            lemma_fields_find(r, key);
            match fields_find(r, k2) {
                Some(j) => {
                    if j != i {
                        assert(r[j] == f[j]);
                    }
                },
                None => {
                    if k2 == key {
                        assert(r[i].0 == key);
                    } else {
                        match fields_find(f, k2) {
                            Some(j) => {
                                assert(r[j] == f[j]);
                            },
                            None => {},
                        }
                    }
                },
            }
            match fields_find(f, k2) {
                Some(j) => {
                    if k2 != key {
                        assert(r[j] == f[j]);
                        lemma_fields_find(r, k2);
                    }
                },
                None => {},
            }
        },
        None => {
            lemma_insert_new(f, key, v);
        },
    }
}

/// Inserting keeps member names unique.
pub proof fn lemma_insert_unique(f: Seq<(Seq<char>, JsonV)>, key: Seq<char>, v: JsonV)
    requires
        keys_unique(f),
    ensures
        keys_unique(fields_insert(f, key, v)),
{
    lemma_fields_find(f, key);
    match fields_find(f, key) {
        Some(i) => {
            let r = f.update(i, (key, v));
            assert forall|a: int, b: int| 0 <= a < b < r.len() implies r[a].0 != r[b].0 by {
                assert(r[a].0 == f[a].0);
                assert(r[b].0 == f[b].0);
            }
        },
        None => {
            lemma_insert_new(f, key, v);
            let r = fields_insert_new(f, key, v);
            let p = choose|p: int| 0 <= p <= f.len() && fields_insert_new(f, key, v) == f.take(p) + seq![(key, v)]
                + f.skip(p);
            assert forall|a: int, b: int| 0 <= a < b < r.len() implies r[a].0 != r[b].0 by {
                if a < p {
                    assert(r[a] == f[a]);
                } else if a > p {
                    assert(r[a] == f[a - 1]);
                }
                if b < p {
                    assert(r[b] == f[b]);
                } else if b > p {
                    assert(r[b] == f[b - 1]);
                }
            }
        },
    }
}

/// With member names unique, after removing `key` it reads as absent and the rest is untouched.
pub proof fn lemma_get_remove(f: Seq<(Seq<char>, JsonV)>, key: Seq<char>, k2: Seq<char>)
    requires
        keys_unique(f),
    ensures
        fields_get(fields_remove(f, key), k2) == if k2 == key {
            None
        } else {
            fields_get(f, k2)
        },
        keys_unique(fields_remove(f, key)),
    decreases f.len(),
{
    let r = fields_remove(f, key);
    let t = f.drop_first();
    if f.len() == 0 {
    } else {
        assert(keys_unique(t)) by {
            assert forall|i: int, j: int| 0 <= i < j < t.len() implies t[i].0 != t[j].0 by {
                assert(t[i] == f[i + 1]);
                assert(t[j] == f[j + 1]);
            }
        }
        if f[0].0 == key {
            lemma_fields_find(t, key);
            assert forall|j: int| 0 <= j < t.len() implies t[j].0 != key by {
                assert(t[j] == f[j + 1]);
            }
        } else {
            lemma_get_remove(t, key, k2);
            lemma_remove_subset(t, key);
            assert(r.drop_first() =~= fields_remove(t, key));
            let rt = fields_remove(t, key);
            assert forall|i: int, j: int| 0 <= i < j < r.len() implies r[i].0 != r[j].0 by {
                if i == 0 {
                    assert(r[j] == rt[j - 1]);
                    let jj = choose|jj: int| 0 <= jj < t.len() && t[jj] == rt[j - 1];
                    assert(f[jj + 1] == t[jj]);
                } else {
                    assert(r[i] == rt[i - 1]);
                    assert(r[j] == rt[j - 1]);
                }
            }
        }
    }
}

proof fn lemma_remove_subset(f: Seq<(Seq<char>, JsonV)>, key: Seq<char>)
    ensures
        forall|i: int|
            0 <= i < fields_remove(f, key).len() ==> exists|j: int|
                0 <= j < f.len() && f[j] == #[trigger] fields_remove(f, key)[i],
    decreases f.len(),
{
    let r = fields_remove(f, key);
    let t = f.drop_first();
    if f.len() == 0 {
    } else if f[0].0 == key {
        assert forall|i: int| 0 <= i < r.len() implies exists|j: int|
            0 <= j < f.len() && f[j] == #[trigger] r[i] by {
            assert(f[i + 1] == r[i]);
        }
    } else {
        lemma_remove_subset(t, key);
        let rt = fields_remove(t, key);
        assert forall|i: int| 0 <= i < r.len() implies exists|j: int|
            0 <= j < f.len() && f[j] == #[trigger] r[i] by {
            if i == 0 {
                assert(f[0] == r[0]);
            } else {
                assert(r[i] == rt[i - 1]);
                let j = choose|j: int| 0 <= j < t.len() && t[j] == rt[i - 1];
                assert(f[j + 1] == t[j]);
            }
        }
    }
}

impl Json {
    pub fn is_null(&self) -> (r: bool)
        ensures
            r == (self@ is Null),
    {
        match self {
            Json::Null => true,
            _ => false,
        }
    }

    /// Member lookup (`Value::get` with a string key).
    pub fn get(&self, key: &str) -> (r: Option<&Json>)
        ensures
            match r {
                Some(v) => self@.get(key@) == Some(v@),
                None => self@.get(key@).is_none(),
            },
    {
        match self {
            Json::Object(f) => {
                let i = find_field(f, key);
                match i {
                    Some(i) => Some(&f[i].1),
                    None => None,
                }
            },
            _ => None,
        }
    }

    pub fn as_str(&self) -> (r: Option<&str>)
        ensures
            match r {
                Some(s) => self@.as_str() == Some(s@),
                None => self@.as_str().is_none(),
            },
    {
        match self {
            Json::String(s) => Some(s.as_str()),
            _ => None,
        }
    }

    pub fn as_u64(&self) -> (r: Option<u64>)
        ensures
            r == self@.as_u64(),
    {
        match self {
            Json::Number(Number::PosInt(n)) => Some(*n),
            _ => None,
        }
    }

    pub fn as_bool(&self) -> (r: Option<bool>)
        ensures
            r == self@.as_bool(),
    {
        match self {
            Json::Bool(b) => Some(*b),
            _ => None,
        }
    }

    pub fn as_array(&self) -> (r: Option<&Vec<Json>>)
        ensures
            match r {
                Some(a) => self@.as_array() == Some(seq_view(a@)),
                None => self@.as_array().is_none(),
            },
    {
        match self {
            Json::Array(a) => Some(a),
            _ => None,
        }
    }

    /// `get(key)` followed by `as_str`.
    pub fn get_str(&self, key: &str) -> (r: Option<&str>)
        ensures
            match r {
                Some(s) => self@.get_str(key@) == Some(s@),
                None => self@.get_str(key@).is_none(),
            },
    {
        match self.get(key) {
            Some(v) => v.as_str(),
            None => None,
        }
    }

    pub fn str_value(s: &str) -> (r: Json)
        ensures
            r@ == JsonV::Str(s@),
    {
        Json::String(s.to_owned())
    }

    pub fn uint(n: u64) -> (r: Json)
        ensures
            r@ == JsonV::Number(NumberV::PosInt(n)),
    {
        Json::Number(Number::PosInt(n))
    }

    /// A copy with the same model.
    pub fn duplicate(&self) -> (r: Json)
        ensures
            r@ == self@,
    {
        copy_json(self)
    }
}

/// A copy of `j` with the same model.
#[verifier::loop_isolation(false)]
pub fn copy_json(j: &Json) -> (r: Json)
    ensures
        r@ == j@,
    decreases j,
{
    match j {
        Json::Null => Json::Null,
        Json::Bool(b) => Json::Bool(*b),
        Json::Number(n) => Json::Number(n.duplicate()),
        Json::String(s) => Json::String(s.clone()),
        Json::Array(a) => {
            let mut r: Vec<Json> = Vec::new();
            let mut i: usize = 0;
            while i < a.len()
                invariant
                    i <= a@.len(),
                    r@.len() == i,
                    forall|k: int| 0 <= k < i ==> json_view(#[trigger] r@[k]) == json_view(a@[k]),
                decreases a.len() - i,
            {
                proof {
                    assert(decreases_to!(j => a[i as int]));
                }
                let x = copy_json(&a[i]);
                r.push(x);
                i = i + 1;
            }
            assert(seq_view(r@) =~= seq_view(a@));
            Json::Array(r)
        },
        Json::Object(f) => {
            let mut r: Vec<(String, Json)> = Vec::new();
            let mut i: usize = 0;
            while i < f.len()
                invariant
                    i <= f@.len(),
                    r@.len() == i,
                    forall|k: int|
                        0 <= k < i ==> (#[trigger] r@[k]).0@ == f@[k].0@ && json_view(r@[k].1)
                            == json_view(f@[k].1),
                decreases f.len() - i,
            {
                proof {
                    assert(decreases_to!(j => f[i as int]));
                    assert(decreases_to!(f[i as int] => f[i as int].1));
                }
                let x = copy_json(&f[i].1);
                r.push((f[i].0.clone(), x));
                i = i + 1;
            }
            assert(fields_view(r@) =~= fields_view(f@)) by {
                assert forall|k: int| 0 <= k < r@.len() implies fields_view(r@)[k] == fields_view(f@)[k] by {
                    assert(r@[k].0@ == f@[k].0@);
                }
            }
            Json::Object(r)
        },
    }
}

impl Number {
    pub fn duplicate(&self) -> (r: Number)
        ensures
            r@ == self@,
    {
        match self {
            Number::PosInt(n) => Number::PosInt(*n),
            Number::NegInt(n) => Number::NegInt(*n),
            Number::Float(s) => Number::Float(s.clone()),
        }
    }
}

/// Index of the first member named `key`.
pub fn find_field(f: &Vec<(String, Json)>, key: &str) -> (r: Option<usize>)
    ensures
        match r {
            Some(i) => fields_find(fields_view(f@), key@) == Some(i as int),
            None => fields_find(fields_view(f@), key@).is_none(),
        },
        match r {
            Some(i) => i < f@.len() && fields_get(fields_view(f@), key@) == Some(
                json_view(f@[i as int].1),
            ),
            None => fields_get(fields_view(f@), key@).is_none(),
        },
{
    let mut i: usize = 0;
    while i < f.len()
        invariant
            i <= f@.len(),
            forall|j: int| 0 <= j < i ==> (#[trigger] fields_view(f@)[j]).0 != key@,
        decreases f.len() - i,
    {
        assert(fields_view(f@)[i as int].0 == f@[i as int].0@);
        if str_eq(f[i].0.as_str(), key) {
            proof {
                lemma_fields_find(fields_view(f@), key@);
                match fields_find(fields_view(f@), key@) {
                    Some(k) => {
                        if k < i {
                            assert(fields_view(f@)[k].0 != key@);
                        }
                    },
                    None => {},
                }
            }
            return Some(i);
        }
        i = i + 1;
    }
    proof {
        lemma_fields_find(fields_view(f@), key@);
        match fields_find(fields_view(f@), key@) {
            Some(k) => {
                assert(fields_view(f@)[k].0 != key@);
            },
            None => {},
        }
    }
    None
}

/// Sets member `key` to `v` the way a JSON map does (see [`fields_insert`]).
pub fn insert_field(f: &mut Vec<(String, Json)>, key: String, v: Json)
    ensures
        fields_view(final(f)@) == fields_insert(fields_view(old(f)@), key@, v@),
{
    match find_field(f, key.as_str()) {
        Some(i) => {
            let ghost old_f = f@;
            f.set(i, (key, v));
            assert(fields_view(f@) =~= fields_view(old_f).update(i as int, (key@, v@)));
            assert(fields_insert(fields_view(old_f), key@, v@) == fields_view(old_f).update(
                i as int,
                (key@, v@),
            ));
            return ;
        },
        None => {},
    }
    let ghost f0 = fields_view(f@);
    assert(fields_insert(f0, key@, v@) == fields_insert_new(f0, key@, v@));
    let mut i: usize = 0;
    assert(fields_view(f@).skip(0) =~= fields_view(f@));
    assert(fields_view(f@).take(0) + fields_insert_new(f0, key@, v@) =~= fields_insert_new(
        f0,
        key@,
        v@,
    ));
    while i < f.len()
        invariant
            i <= f@.len(),
            f0 == fields_view(f@),
            f0 == fields_view(old(f)@),
            fields_insert(f0, key@, v@) == fields_insert_new(f0, key@, v@),
            fields_insert_new(f0, key@, v@) == fields_view(f@).take(i as int) + fields_insert_new(
                fields_view(f@).skip(i as int),
                key@,
                v@,
            ),
        decreases f.len() - i,
    {
        let ghost rest = fields_view(f@).skip(i as int);
        assert(rest[0] == fields_view(f@)[i as int]);
        if key_before(key.as_str(), f[i].0.as_str()) {
            let ghost old_f = f@;
            assert(fields_insert_new(rest, key@, v@) == seq![(key@, v@)] + rest);
            f.insert(i, (key, v));
            assert(fields_view(f@) =~= fields_view(old_f).take(i as int) + (seq![(key@, v@)]
                + rest));
            return ;
        }
        assert(fields_insert_new(rest, key@, v@) == seq![rest[0]] + fields_insert_new(
            rest.drop_first(),
            key@,
            v@,
        ));
        assert(rest.drop_first() =~= fields_view(f@).skip(i + 1));
        assert(fields_view(f@).take(i + 1) =~= fields_view(f@).take(i as int) + seq![rest[0]]);
        i = i + 1;
    }
    let ghost old_f = f@;
    f.push((key, v));
    assert(fields_view(old_f).skip(i as int) =~= Seq::<(Seq<char>, JsonV)>::empty());
    assert(fields_view(f@) =~= fields_view(old_f).take(i as int) + seq![(key@, v@)]);
}

/// Removes the first member named `key`, returning its value.
pub fn remove_field(f: &mut Vec<(String, Json)>, key: &str) -> (r: Option<Json>)
    ensures
        fields_view(final(f)@) == fields_remove(fields_view(old(f)@), key@),
        match r {
            Some(v) => fields_get(fields_view(old(f)@), key@) == Some(v@),
            None => fields_get(fields_view(old(f)@), key@).is_none(),
        },
{
    let ghost f0 = fields_view(f@);
    let mut i: usize = 0;
    assert(fields_view(f@).skip(0) =~= fields_view(f@));
    assert(fields_view(f@).take(0) + fields_remove(f0, key@) =~= fields_remove(f0, key@));
    while i < f.len()
        invariant
            i <= f@.len(),
            f0 == fields_view(f@),
            f0 == fields_view(old(f)@),
            fields_remove(f0, key@) == fields_view(f@).take(i as int) + fields_remove(
                fields_view(f@).skip(i as int),
                key@,
            ),
            fields_get(f0, key@) == fields_get(fields_view(f@).skip(i as int), key@),
        decreases f.len() - i,
    {
        let ghost rest = fields_view(f@).skip(i as int);
        assert(rest[0] == fields_view(f@)[i as int]);
        if str_eq(f[i].0.as_str(), key) {
            let ghost old_f = f@;
            assert(rest[0].0 == key@);
            assert(fields_remove(rest, key@) == rest.drop_first());
            assert(fields_get(rest, key@) == Some(rest[0].1));
            let (_, v) = f.remove(i);
            assert(v@ == rest[0].1);
            assert(fields_view(f@) =~= fields_view(old_f).take(i as int) + rest.drop_first());
            return Some(v);
        }
        assert(rest.drop_first() =~= fields_view(f@).skip(i + 1));
        assert(fields_view(f@).take(i + 1) =~= fields_view(f@).take(i as int) + seq![rest[0]]);
        i = i + 1;
    }
    assert(fields_view(f@).skip(i as int) =~= Seq::<(Seq<char>, JsonV)>::empty());
    assert(fields_view(f@).take(i as int) =~= fields_view(f@));
    None
}

/// An object built from members given in order, each inserted as a JSON map inserts.
pub open spec fn object_of(pairs: Seq<(Seq<char>, JsonV)>) -> JsonV {
    JsonV::Object(fields_from(pairs))
}

pub open spec fn fields_from(pairs: Seq<(Seq<char>, JsonV)>) -> Seq<(Seq<char>, JsonV)>
    decreases pairs.len(),
{
    if pairs.len() == 0 {
        Seq::empty()
    } else {
        fields_insert(fields_from(pairs.drop_last()), pairs.last().0, pairs.last().1)
    }
}

/// Builds an object from members, inserting them one by one.
pub fn object(pairs: Vec<(String, Json)>) -> (r: Json)
    ensures
        r@ == object_of(fields_view(pairs@)),
{
    let ghost pv = fields_view(pairs@);
    let ghost ps = pairs@;
    let mut f: Vec<(String, Json)> = Vec::new();
    for p in it: pairs
        invariant
            it.seq() == ps,
            pv == fields_view(ps),
            fields_view(f@) == fields_from(pv.take(it.index() as int)),
    {
        let ghost k = it.index() as int;
        assert(pv[k] == (p.0@, json_view(p.1)));
        assert(pv.take(k + 1).drop_last() =~= pv.take(k));
        insert_field(&mut f, p.0, p.1);
    }
    assert(pv.take(ps.len() as int) =~= pv);
    Json::Object(f)
}


// ─── The order of keys ──────────────────────────────────────────────────

pub proof fn lemma_chars_lt_irreflexive(a: Seq<char>)
    ensures
        !chars_lt(a, a),
    decreases a.len(),
{
    if a.len() > 0 {
        lemma_chars_lt_irreflexive(a.drop_first());
    }
}

pub proof fn lemma_chars_lt_asymmetric(a: Seq<char>, b: Seq<char>)
    ensures
        chars_lt(a, b) ==> !chars_lt(b, a),
    decreases a.len(),
{
    if a.len() > 0 && b.len() > 0 && a[0] == b[0] {
        lemma_chars_lt_asymmetric(a.drop_first(), b.drop_first());
    }
}

pub proof fn lemma_chars_lt_transitive(a: Seq<char>, b: Seq<char>, c: Seq<char>)
    requires
        chars_lt(a, b),
        chars_lt(b, c),
    ensures
        chars_lt(a, c),
    decreases a.len(),
{
    if a.len() > 0 && a[0] == b[0] && b[0] == c[0] {
        lemma_chars_lt_transitive(a.drop_first(), b.drop_first(), c.drop_first());
    }
}

pub proof fn lemma_chars_lt_total(a: Seq<char>, b: Seq<char>)
    ensures
        a == b || chars_lt(a, b) || chars_lt(b, a),
    decreases a.len(),
{
    if a.len() > 0 && b.len() > 0 && a[0] == b[0] {
        lemma_chars_lt_total(a.drop_first(), b.drop_first());
        if a.drop_first() == b.drop_first() {
            assert(a =~= seq![a[0]] + a.drop_first());
            assert(b =~= seq![b[0]] + b.drop_first());
        }
    } else if a.len() > 0 && b.len() > 0 {
        let (x, y) = (a[0], b[0]);
        assert((x as u32) != (y as u32)) by {
            vstd::utf8::char_u32_cast(x, x as u32);
            vstd::utf8::char_u32_cast(y, y as u32);
        }
    } else if a.len() == 0 && b.len() == 0 {
        assert(a =~= b);
    }
}

/// Member names in strictly ascending order, so that each occurs once.
pub open spec fn keys_ascending(f: Seq<(Seq<char>, JsonV)>) -> bool {
    forall|i: int, j: int| 0 <= i < j < f.len() ==> chars_lt(#[trigger] f[i].0, #[trigger] f[j].0)
}

/// A new member goes after the members whose names are not larger and
/// before the first larger one.
proof fn lemma_insert_new_between(
    q: Seq<(Seq<char>, JsonV)>,
    r: Seq<(Seq<char>, JsonV)>,
    key: Seq<char>,
    v: JsonV,
)
    requires
        forall|i: int| 0 <= i < q.len() ==> !chars_lt(key, #[trigger] q[i].0),
        r.len() == 0 || chars_lt(key, r[0].0),
    ensures
        fields_insert_new(q + r, key, v) == q + seq![(key, v)] + r,
    decreases q.len(),
{
    if q.len() == 0 {
        assert(q + r =~= r);
        assert(q + seq![(key, v)] + r =~= seq![(key, v)] + r);
        if r.len() == 0 {
            assert(seq![(key, v)] + r =~= seq![(key, v)]);
        }
    } else {
        let qr = q + r;
        assert(qr[0] == q[0]);
        assert(!chars_lt(key, q[0].0));
        assert(qr.drop_first() =~= q.drop_first() + r);
        assert forall|i: int| 0 <= i < q.drop_first().len() implies !chars_lt(
            key,
            #[trigger] q.drop_first()[i].0,
        ) by {
            assert(q.drop_first()[i] == q[i + 1]);
        }
        lemma_insert_new_between(q.drop_first(), r, key, v);
        assert(seq![q[0]] + (q.drop_first() + seq![(key, v)] + r) =~= q + seq![(key, v)] + r);
    }
}

/// Removing a member found after members of other names leaves the rest.
pub proof fn lemma_remove_between(
    q: Seq<(Seq<char>, JsonV)>,
    r: Seq<(Seq<char>, JsonV)>,
    key: Seq<char>,
    v: JsonV,
)
    requires
        forall|i: int| 0 <= i < q.len() ==> (#[trigger] q[i]).0 != key,
    ensures
        fields_remove(q + seq![(key, v)] + r, key) == q + r,
        fields_get(q + seq![(key, v)] + r, key) == Some(v),
    decreases q.len(),
{
    let s = q + seq![(key, v)] + r;
    if q.len() == 0 {
        assert(s =~= seq![(key, v)] + r);
        assert(s.drop_first() =~= r);
        assert(q + r =~= r);
    } else {
        assert(s[0] == q[0]);
        assert(s.drop_first() =~= q.drop_first() + seq![(key, v)] + r);
        assert forall|i: int| 0 <= i < q.drop_first().len() implies (
        #[trigger] q.drop_first()[i]).0 != key by {
            assert(q.drop_first()[i] == q[i + 1]);
        }
        lemma_remove_between(q.drop_first(), r, key, v);
        assert(seq![q[0]] + (q.drop_first() + r) =~= q + r);
    }
}

/// Building an object from a first member and then members in ascending
/// order of other names puts the first member in its place among them.
pub proof fn lemma_build_with_first(first: (Seq<char>, JsonV), f: Seq<(Seq<char>, JsonV)>, k: int) -> (p: int)
    requires
        keys_ascending(f),
        forall|i: int| 0 <= i < f.len() ==> (#[trigger] f[i]).0 != first.0,
        0 <= k <= f.len(),
    ensures
        0 <= p <= k,
        fields_from(seq![first] + f.take(k)) == f.take(p) + seq![first] + f.subrange(p, k),
        forall|i: int| 0 <= i < p ==> chars_lt((#[trigger] f[i]).0, first.0),
        forall|i: int| p <= i < k ==> chars_lt(first.0, (#[trigger] f[i]).0),
    decreases k,
{
    let pairs = seq![first] + f.take(k);
    if k == 0 {
        assert(pairs =~= seq![first]);
        assert(pairs.drop_last() =~= Seq::<(Seq<char>, JsonV)>::empty());
        assert(fields_from(Seq::<(Seq<char>, JsonV)>::empty()) =~= Seq::<(Seq<char>, JsonV)>::empty());
        lemma_fields_find(Seq::<(Seq<char>, JsonV)>::empty(), first.0);
        assert(f.take(0) + seq![first] + f.subrange(0, 0) =~= seq![first]);
        0
    } else {
        let p0 = lemma_build_with_first(first, f, k - 1);
        assert(pairs.drop_last() =~= seq![first] + f.take(k - 1));
        assert(pairs.last() == f[k - 1]);
        let g = f.take(p0) + seq![first] + f.subrange(p0, k - 1);
        let key = f[k - 1].0;
        let v = f[k - 1].1;
        // The new name is not in `g`.
        assert forall|j: int| 0 <= j < g.len() implies (#[trigger] g[j]).0 != key by {
            if j < p0 {
                assert(g[j] == f[j]);
                assert(chars_lt(f[j].0, f[k - 1].0));
                lemma_chars_lt_irreflexive(key);
            } else if j == p0 {
                assert(g[j] == first);
            } else {
                assert(g[j] == f[j - 1]);
                assert(chars_lt(f[j - 1].0, f[k - 1].0));
                lemma_chars_lt_irreflexive(key);
            }
        }
        lemma_fields_find(g, key);
        assert(fields_from(pairs) == fields_insert_new(g, key, v));
        lemma_chars_lt_total(key, first.0);
        if chars_lt(key, first.0) {
            if p0 < k - 1 {
                assert(chars_lt(first.0, f[p0].0));
                assert(chars_lt(f[p0].0, f[k - 1].0));
                lemma_chars_lt_transitive(first.0, f[p0].0, key);
                lemma_chars_lt_asymmetric(key, first.0);
            }
            assert(p0 == k - 1);
            let q = f.take(k - 1);
            let r = seq![first];
            assert(g =~= q + r);
            assert forall|i: int| 0 <= i < q.len() implies !chars_lt(key, #[trigger] q[i].0) by {
                assert(q[i] == f[i]);
                assert(chars_lt(f[i].0, key));
                lemma_chars_lt_asymmetric(f[i].0, key);
            }
            lemma_insert_new_between(q, r, key, v);
            assert(q + seq![(key, v)] + r =~= f.take(k) + seq![first] + f.subrange(k, k));
            k
        } else {
            assert(chars_lt(first.0, key));
            let empty = Seq::<(Seq<char>, JsonV)>::empty();
            assert(g + empty =~= g);
            assert forall|j: int| 0 <= j < g.len() implies !chars_lt(key, #[trigger] g[j].0) by {
                if j < p0 {
                    assert(g[j] == f[j]);
                    assert(chars_lt(f[j].0, key));
                    lemma_chars_lt_asymmetric(f[j].0, key);
                } else if j == p0 {
                    assert(g[j] == first);
                    lemma_chars_lt_asymmetric(first.0, key);
                } else {
                    assert(g[j] == f[j - 1]);
                    assert(chars_lt(f[j - 1].0, key));
                    lemma_chars_lt_asymmetric(f[j - 1].0, key);
                }
            }
            lemma_insert_new_between(g, empty, key, v);
            assert(g + seq![(key, v)] + empty =~= f.take(p0) + seq![first] + f.subrange(p0, k));
            p0
        }
    }
}

/// An object built from a first member and then the members of `f`, whose
/// names ascend and differ from the first one's: taking the first member
/// out again leaves `f`, and the first member reads back.
#[verifier::spinoff_prover]
#[verifier::rlimit(30)]
pub proof fn lemma_first_member_reads_back(first: (Seq<char>, JsonV), f: Seq<(Seq<char>, JsonV)>)
    requires
        keys_ascending(f),
        forall|i: int| 0 <= i < f.len() ==> (#[trigger] f[i]).0 != first.0,
    ensures
        fields_remove(fields_from(seq![first] + f), first.0) == f,
        fields_get(fields_from(seq![first] + f), first.0) == Some(first.1),
{
    let p = lemma_build_with_first(first, f, f.len() as int);
    assert(f.take(f.len() as int) =~= f);
    let q = f.take(p);
    let r = f.subrange(p, f.len() as int);
    assert forall|i: int| 0 <= i < q.len() implies (#[trigger] q[i]).0 != first.0 by {
        assert(q[i] == f[i]);
    }
    assert(seq![first] =~= seq![(first.0, first.1)]);
    lemma_remove_between(q, r, first.0, first.1);
    assert(q + r =~= f);
}

/// In an object built from members in order, a member whose name does
/// not come again later reads back.
pub proof fn lemma_get_built(s: Seq<(Seq<char>, JsonV)>, i: int)
    requires
        0 <= i < s.len(),
        forall|j: int| i < j < s.len() ==> (#[trigger] s[j]).0 != s[i].0,
    ensures
        fields_get(fields_from(s), s[i].0) == Some(s[i].1),
    decreases s.len(),
{
    let last = s.last();
    lemma_get_insert(fields_from(s.drop_last()), last.0, last.1, s[i].0);
    if i < s.len() - 1 {
        assert forall|j: int| i < j < s.drop_last().len() implies (#[trigger] s.drop_last()[j]).0
            != s.drop_last()[i].0 by {
            assert(s.drop_last()[j] == s[j]);
        }
        lemma_get_built(s.drop_last(), i);
    }
}


/// In an object built from members none of which has the name `k`, `k`
/// reads as absent.
pub proof fn lemma_get_absent(s: Seq<(Seq<char>, JsonV)>, k: Seq<char>)
    requires
        forall|j: int| 0 <= j < s.len() ==> (#[trigger] s[j]).0 != k,
    ensures
        fields_get(fields_from(s), k) is None,
    decreases s.len(),
{
    if s.len() == 0 {
        assert(fields_from(s) =~= Seq::<(Seq<char>, JsonV)>::empty());
    } else {
        let last = s.last();
        lemma_get_insert(fields_from(s.drop_last()), last.0, last.1, k);
        assert forall|j: int| 0 <= j < s.drop_last().len() implies (#[trigger] s.drop_last()[j]).0
            != k by {
            assert(s.drop_last()[j] == s[j]);
        }
        lemma_get_absent(s.drop_last(), k);
    }
}

} // verus!
