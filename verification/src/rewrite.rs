//! Rewriting a JSON body by configured steps: rename, remove, replace and
//! reset members addressed by paths.
//!
//! A path is a JSON pointer (`/a/b/0`), or dotted (`a.b.0`), which reads as
//! the pointer of its dot-separated segments. A `*` segment stands for every
//! element of an array.
use vstd::prelude::*;
use crate::json::{
    copy_json, fields_find, fields_get, fields_insert, fields_remove, insert_field, owned,
    remove_field, str_eq,
};
use crate::jsonio::{json_text, text_of_json};
use crate::text::{
    decimal, decimal_string, has_prefix, join, join_strings, lemma_split_len, parse_usize,
    parse_usize_str, replace_all, replace_str, split, split_char, starts_with,
};
use crate::value::{fields_view, group_json_view, json_view, seq_view, Json, JsonV};

verus! {

broadcast use group_json_view;

// ─── Configuration ──────────────────────────────────────────────────────

/// When a replace rule applies to a value.
#[derive(Debug)]
pub enum RewriteCondition {
    /// The value's text (a string as it stands, anything else as JSON)
    /// matches the regular expression.
    Regex { pattern: String },
    /// Any of the conditions holds.
    Any(Vec<RewriteCondition>),
    /// The value equals this one.
    Value(Json),
}

#[derive(Debug)]
pub struct ReplaceRule {
    pub condition: RewriteCondition,
    /// The value written at the matched path.
    pub set: Option<Json>,
    /// Values written at further paths.
    pub with: Vec<(String, Json)>,
}

#[derive(Debug)]
pub enum RewriteStep {
    /// Moves the value at each `from` path to its `to` path.
    Rename(Vec<(String, String)>),
    Remove(Vec<String>),
    Replace(Vec<(String, Vec<ReplaceRule>)>),
    /// Overwrites values at paths that already exist.
    Reset(Vec<(String, Json)>),
}

#[derive(Debug)]
pub struct RewriteConfig {
    pub steps: Vec<RewriteStep>,
}

impl RewriteConfig {
    pub fn is_empty(&self) -> (r: bool)
        ensures
            r == (self.steps@.len() == 0),
    {
        self.steps.len() == 0
    }
}

// ─── Regular expressions ────────────────────────────────────────────────

/// Whether `pattern` is a regular expression the `regex` crate accepts.
pub uninterp spec fn regex_valid(pattern: Seq<char>) -> bool;

/// Whether the `regex` crate finds a match of `pattern` in `text`.
pub uninterp spec fn regex_matches(pattern: Seq<char>, text: Seq<char>) -> bool;

/// `regex::Regex::new`: whether the pattern compiles.
#[verifier::external_body]
fn regex_compiles(pattern: &str) -> (r: bool)
    ensures
        r == regex_valid(pattern@),
{
    regex::Regex::new(pattern).is_ok()
}

/// `regex::Regex::is_match`, after compiling the pattern; a pattern that
/// does not compile matches nothing.
#[verifier::external_body]
fn regex_is_match(pattern: &str, text: &str) -> (r: bool)
    ensures
        r == (regex_valid(pattern@) && regex_matches(pattern@, text@)),
{
    match regex::Regex::new(pattern) {
        Ok(re) => re.is_match(text),
        Err(_) => false,
    }
}

pub ghost enum CondV {
    Regex(Seq<char>),
    Any(Seq<CondV>),
    Value(JsonV),
}

pub open spec fn cond_view(c: RewriteCondition) -> CondV
    decreases c, 0nat,
{
    match c {
        RewriteCondition::Regex { pattern } => CondV::Regex(pattern@),
        RewriteCondition::Any(v) => CondV::Any(conds_view(v@)),
        RewriteCondition::Value(j) => CondV::Value(j@),
    }
}

pub open spec fn conds_view(s: Seq<RewriteCondition>) -> Seq<CondV>
    decreases s, 1nat,
{
    if s.len() == 0 {
        Seq::empty()
    } else {
        conds_view(s.drop_last()).push(cond_view(s.last()))
    }
}

impl View for RewriteCondition {
    type V = CondV;

    open spec fn view(&self) -> CondV {
        cond_view(*self)
    }
}

/// The condition a configured value gives: a string is a regular
/// expression, an array any of its elements, anything else a value to
/// equal. The first element that is not a condition fails the whole.
pub open spec fn cond_of(v: JsonV) -> Result<CondV, Seq<char>>
    decreases v, 0nat,
{
    match v {
        JsonV::Str(p) => if regex_valid(p) {
            Ok(CondV::Regex(p))
        } else {
            Err("invalid regex: "@ + p)
        },
        JsonV::Array(a) => match conds_of(a, a.len() as int) {
            Ok(cs) => Ok(CondV::Any(cs)),
            Err(e) => Err(e),
        },
        _ => Ok(CondV::Value(v)),
    }
}

pub open spec fn conds_of(a: Seq<JsonV>, n: int) -> Result<Seq<CondV>, Seq<char>>
    decreases a, 1nat, n,
{
    if n <= 0 || n > a.len() {
        Ok(Seq::empty())
    } else {
        match conds_of(a, n - 1) {
            Ok(cs) => match cond_of(a[n - 1]) {
                Ok(c) => Ok(cs.push(c)),
                Err(e) => Err(e),
            },
            Err(e) => Err(e),
        }
    }
}

proof fn lemma_conds_err(a: Seq<JsonV>, k: int, n: int)
    requires
        0 <= k <= n <= a.len(),
        conds_of(a, k) is Err,
    ensures
        conds_of(a, n) == conds_of(a, k),
    decreases n - k,
{
    if k < n {
        lemma_conds_err(a, k, n - 1);
    }
}

proof fn lemma_conds_view_push(s: Seq<RewriteCondition>, c: RewriteCondition)
    ensures
        conds_view(s.push(c)) == conds_view(s).push(cond_view(c)),
{
    assert(s.push(c).drop_last() =~= s);
}

#[verifier::loop_isolation(false)]
fn condition_of(v: &Json) -> (r: Result<RewriteCondition, String>)
    ensures
        match r {
            Ok(c) => cond_of(v@) == Ok::<CondV, Seq<char>>(c@),
            Err(e) => cond_of(v@) == Err::<CondV, Seq<char>>(e@),
        },
    decreases v,
{
    match v {
        Json::String(p) => {
            if regex_compiles(p.as_str()) {
                Ok(RewriteCondition::Regex { pattern: p.clone() })
            } else {
                Err(crate::json::concat("invalid regex: ", p.as_str()))
            }
        },
        Json::Array(items) => {
            let ghost a = seq_view(items@);
            let mut conds: Vec<RewriteCondition> = Vec::new();
            let mut i: usize = 0;
            while i < items.len()
                invariant
                    i <= items@.len(),
                    a == seq_view(items@),
                    *v == Json::Array(*items),
                    conds_of(a, i as int) == Ok::<Seq<CondV>, Seq<char>>(conds_view(conds@)),
                decreases items.len() - i,
            {
                proof {
                    assert(decreases_to!(v => items[i as int]));
                }
                assert(a[i as int] == items@[i as int]@);
                match condition_of(&items[i]) {
                    Ok(c) => {
                        proof {
                            lemma_conds_view_push(conds@, c);
                        }
                        conds.push(c);
                    },
                    Err(e) => {
                        proof {
                            lemma_conds_err(a, i as int + 1, a.len() as int);
                        }
                        return Err(e);
                    },
                }
                i = i + 1;
            }
            Ok(RewriteCondition::Any(conds))
        },
        _ => Ok(RewriteCondition::Value(copy_json(v))),
    }
}

impl RewriteCondition {
    /// A condition from its configured value: a string is a regular
    /// expression, an array any of its elements, anything else a value to
    /// equal.
    pub fn from_value(v: Json) -> (r: Result<RewriteCondition, String>)
        ensures
            match r {
                Ok(c) => cond_of(v@) == Ok::<CondV, Seq<char>>(c@),
                Err(e) => cond_of(v@) == Err::<CondV, Seq<char>>(e@),
            },
    {
        condition_of(&v)
    }
}

// ─── Matching ───────────────────────────────────────────────────────────

/// The text a regular expression is matched against: a string as it
/// stands, anything else as compact JSON.
pub open spec fn match_text_of(v: JsonV) -> Seq<char> {
    match v {
        JsonV::Str(s) => s,
        _ => text_of_json(v),
    }
}

pub open spec fn matches(v: JsonV, c: CondV) -> bool
    decreases c, 0nat,
{
    match c {
        CondV::Regex(p) => regex_valid(p) && regex_matches(p, match_text_of(v)),
        CondV::Any(cs) => any_matches(v, cs, cs.len() as int),
        CondV::Value(w) => v == w,
    }
}

pub open spec fn any_matches(v: JsonV, cs: Seq<CondV>, n: int) -> bool
    decreases cs, 1nat, n,
{
    if n <= 0 || n > cs.len() {
        false
    } else {
        any_matches(v, cs, n - 1) || matches(v, cs[n - 1])
    }
}

fn match_text(value: &Json) -> (r: String)
    ensures
        r@ == match_text_of(value@),
{
    match value {
        Json::String(s) => s.clone(),
        _ => json_text(value),
    }
}

#[verifier::loop_isolation(false)]
fn value_matches(value: &Json, condition: &RewriteCondition) -> (r: bool)
    ensures
        r == matches(value@, condition@),
    decreases condition,
{
    match condition {
        RewriteCondition::Regex { pattern } => {
            assert(condition@ == CondV::Regex(pattern@));
            let t = match_text(value);
            regex_is_match(pattern.as_str(), t.as_str())
        },
        RewriteCondition::Any(candidates) => {
            let ghost cs = conds_view(candidates@);
            let mut i: usize = 0;
            while i < candidates.len()
                invariant
                    i <= candidates@.len(),
                    cs == conds_view(candidates@),
                    *condition == RewriteCondition::Any(*candidates),
                    !any_matches(value@, cs, i as int),
                decreases candidates.len() - i,
            {
                proof {
                    assert(decreases_to!(condition => candidates[i as int]));
                    lemma_conds_view_index(candidates@, i as int);
                }
                if value_matches(value, &candidates[i]) {
                    proof {
                        lemma_any_matches_mono(value@, cs, i as int + 1, cs.len() as int);
                    }
                    return true;
                }
                i = i + 1;
            }
            assert(condition@ == CondV::Any(cs));
            proof {
                lemma_conds_view_len(candidates@);
            }
            false
        },
        RewriteCondition::Value(candidate) => {
            assert(condition@ == CondV::Value(candidate@));
            json_eq(value, candidate)
        },
    }
}

proof fn lemma_conds_view_index(s: Seq<RewriteCondition>, i: int)
    requires
        0 <= i < s.len(),
    ensures
        conds_view(s).len() == s.len(),
        conds_view(s)[i] == cond_view(s[i]),
    decreases s.len(),
{
    lemma_conds_view_len(s.drop_last());
    if i < s.len() - 1 {
        lemma_conds_view_index(s.drop_last(), i);
    }
}

proof fn lemma_conds_view_len(s: Seq<RewriteCondition>)
    ensures
        conds_view(s).len() == s.len(),
    decreases s.len(),
{
    if s.len() > 0 {
        lemma_conds_view_len(s.drop_last());
    }
}

proof fn lemma_any_matches_mono(v: JsonV, cs: Seq<CondV>, i: int, n: int)
    requires
        0 <= i <= n <= cs.len(),
        any_matches(v, cs, i),
    ensures
        any_matches(v, cs, n),
    decreases n - i,
{
    if i < n {
        lemma_any_matches_mono(v, cs, i, n - 1);
    }
}

/// Whether two values are equal.
#[verifier::loop_isolation(false)]
pub fn json_eq(a: &Json, b: &Json) -> (r: bool)
    ensures
        r == (a@ == b@),
    decreases a,
{
    match (a, b) {
        (Json::Null, Json::Null) => true,
        (Json::Bool(x), Json::Bool(y)) => *x == *y,
        (Json::Number(x), Json::Number(y)) => match (x, y) {
            (crate::value::Number::PosInt(p), crate::value::Number::PosInt(q)) => *p == *q,
            (crate::value::Number::NegInt(p), crate::value::Number::NegInt(q)) => *p == *q,
            (crate::value::Number::Float(p), crate::value::Number::Float(q)) => str_eq(p.as_str(), q.as_str()),
            _ => false,
        },
        (Json::String(x), Json::String(y)) => str_eq(x.as_str(), y.as_str()),
        (Json::Array(x), Json::Array(y)) => {
            if x.len() != y.len() {
                assert(seq_view(x@).len() != seq_view(y@).len());
                return false;
            }
            let mut i: usize = 0;
            while i < x.len()
                invariant
                    i <= x@.len(),
                    x@.len() == y@.len(),
                    *a == Json::Array(*x),
                    forall|k: int| 0 <= k < i ==> json_view(#[trigger] x@[k]) == json_view(y@[k]),
                decreases x.len() - i,
            {
                proof {
                    assert(decreases_to!(a => x[i as int]));
                }
                if !json_eq(&x[i], &y[i]) {
                    assert(seq_view(x@)[i as int] != seq_view(y@)[i as int]);
                    return false;
                }
                i = i + 1;
            }
            assert(seq_view(x@) =~= seq_view(y@));
            true
        },
        (Json::Object(x), Json::Object(y)) => {
            if x.len() != y.len() {
                assert(fields_view(x@).len() != fields_view(y@).len());
                return false;
            }
            let mut i: usize = 0;
            while i < x.len()
                invariant
                    i <= x@.len(),
                    x@.len() == y@.len(),
                    *a == Json::Object(*x),
                    forall|k: int| 0 <= k < i ==> (#[trigger] fields_view(x@)[k]) == fields_view(y@)[k],
                decreases x.len() - i,
            {
                proof {
                    assert(decreases_to!(a => x[i as int]));
                    assert(decreases_to!(x[i as int] => x[i as int].1));
                }
                if !str_eq(x[i].0.as_str(), y[i].0.as_str()) || !json_eq(&x[i].1, &y[i].1) {
                    assert(fields_view(x@)[i as int] != fields_view(y@)[i as int]);
                    return false;
                }
                i = i + 1;
            }
            assert(fields_view(x@) =~= fields_view(y@));
            true
        },
        _ => false,
    }
}

// ─── Paths ──────────────────────────────────────────────────────────────

pub open spec fn strings_view(s: Seq<String>) -> Seq<Seq<char>> {
    s.map_values(|x: String| x@)
}

/// A pointer segment with `~` written `~0` and `/` written `~1`.
pub open spec fn escape_token(t: Seq<char>) -> Seq<char> {
    replace_all(replace_all(t, "~"@, "~0"@), "/"@, "~1"@)
}

/// A pointer segment read back: `~1` is `/`, then `~0` is `~`.
pub open spec fn unescape_token(t: Seq<char>) -> Seq<char> {
    replace_all(replace_all(t, "~1"@, "/"@), "~0"@, "~"@)
}

/// The segments of a pointer as written: what follows each `/`.
pub open spec fn raw_tokens(path: Seq<char>) -> Seq<Seq<char>> {
    split(path, '/').drop_first()
}

pub open spec fn pointer_parse(path: Seq<char>) -> Seq<Seq<char>> {
    raw_tokens(path).map_values(|t: Seq<char>| unescape_token(t))
}

/// The segments of a rewrite path, which must be a JSON pointer.
pub open spec fn tokens_of(path: Seq<char>) -> Result<Seq<Seq<char>>, Seq<char>> {
    if path.len() == 0 {
        Ok(Seq::empty())
    } else if !starts_with(path, "/"@) {
        Err("rewrite path must be a JSON pointer: "@ + path)
    } else {
        Ok(pointer_parse(path))
    }
}

pub open spec fn wildcard(path: Seq<char>) -> bool {
    split(path, '/').contains("*"@)
}

/// A path as a JSON pointer: a dotted path becomes the pointer of its segments.
pub open spec fn normalized(path: Seq<char>) -> Seq<char> {
    if path.len() == 0 {
        Seq::empty()
    } else if starts_with(path, "/"@) {
        path
    } else {
        "/"@ + join(split(path, '.').map_values(|t: Seq<char>| escape_token(t)), "/"@)
    }
}

/// An array index in a pointer: no sign and no leading zero.
pub open spec fn pointer_index(t: Seq<char>) -> Option<usize> {
    if (t.len() > 0 && t[0] == '+') || (t.len() > 1 && t[0] == '0') {
        None
    } else {
        parse_usize(t)
    }
}

/// The value at the given segments (`Value::pointer` after parsing).
pub open spec fn get_at(v: JsonV, toks: Seq<Seq<char>>) -> Option<JsonV>
    decreases toks.len(),
{
    if toks.len() == 0 {
        Some(v)
    } else {
        match v {
            JsonV::Object(f) => match fields_get(f, toks[0]) {
                Some(c) => get_at(c, toks.drop_first()),
                None => None,
            },
            JsonV::Array(a) => match pointer_index(toks[0]) {
                Some(i) => if i < a.len() {
                    get_at(a[i as int], toks.drop_first())
                } else {
                    None
                },
                None => None,
            },
            _ => None,
        }
    }
}

/// The value a JSON pointer addresses (`Value::pointer`).
pub open spec fn pointer_get(v: JsonV, path: Seq<char>) -> Option<JsonV> {
    if path.len() == 0 {
        Some(v)
    } else if !starts_with(path, "/"@) {
        None
    } else {
        get_at(v, pointer_parse(path))
    }
}

fn escape(t: &str) -> (r: String)
    ensures
        r@ == escape_token(t@),
{
    proof {
        reveal_strlit("~");
        reveal_strlit("/");
    }
    let a = replace_str(t, "~", "~0");
    replace_str(a.as_str(), "/", "~1")
}

fn unescape(t: &str) -> (r: String)
    ensures
        r@ == unescape_token(t@),
{
    proof {
        reveal_strlit("~1");
        reveal_strlit("~0");
    }
    let a = replace_str(t, "~1", "/");
    replace_str(a.as_str(), "~0", "~")
}

/// The segments of a JSON pointer rewrite path.
pub fn pointer_tokens(path: &str) -> (r: Result<Vec<String>, String>)
    ensures
        match r {
            Ok(t) => tokens_of(path@) == Ok::<Seq<Seq<char>>, Seq<char>>(strings_view(t@)),
            Err(e) => tokens_of(path@) == Err::<Seq<Seq<char>>, Seq<char>>(e@),
        },
{
    if path.is_empty() {
        let v: Vec<String> = Vec::new();
        assert(strings_view(v@) =~= Seq::<Seq<char>>::empty());
        return Ok(v);
    }
    if !has_prefix(path, "/") {
        return Err(crate::json::concat("rewrite path must be a JSON pointer: ", path));
    }
    let parts = split_char(path, '/');
    let ghost pv = strings_view(parts@);
    let mut r: Vec<String> = Vec::new();
    let mut i: usize = 1;
    proof {
        lemma_split_len(path@, '/');
    }
    assert(pv.len() >= 1);
    while i < parts.len()
        invariant
            1 <= i <= parts@.len(),
            pv == strings_view(parts@),
            pv == split(path@, '/'),
            strings_view(r@) == pv.drop_first().take(i - 1).map_values(|t: Seq<char>| unescape_token(t)),
        decreases parts.len() - i,
    {
        let u = unescape(parts[i].as_str());
        assert(pv[i as int] == parts@[i as int]@);
        let ghost before = r@;
        r.push(u);
        assert(strings_view(r@) =~= strings_view(before).push(u@));
        assert(pv.drop_first().take(i as int) =~= pv.drop_first().take(i - 1).push(pv[i as int]));
        assert(strings_view(r@) =~= pv.drop_first().take(i as int).map_values(
            |t: Seq<char>| unescape_token(t),
        ));
        i = i + 1;
    }
    assert(pv.drop_first().take(i - 1) =~= pv.drop_first());
    Ok(r)
}

/// Whether some segment of the path is `*`.
pub fn has_wildcard(path: &str) -> (r: bool)
    ensures
        r == wildcard(path@),
{
    let parts = split_char(path, '/');
    let ghost pv = strings_view(parts@);
    let mut i: usize = 0;
    while i < parts.len()
        invariant
            i <= parts@.len(),
            pv == strings_view(parts@),
            pv == split(path@, '/'),
            forall|k: int| 0 <= k < i ==> pv[k] != "*"@,
        decreases parts.len() - i,
    {
        if str_eq(parts[i].as_str(), "*") {
            assert(pv[i as int] == "*"@);
            return true;
        }
        i = i + 1;
    }
    false
}

/// A rewrite path as a JSON pointer: pointers stand; a dotted path becomes
/// the pointer of its segments.
pub fn normalize_path(path: &str) -> (r: String)
    ensures
        r@ == normalized(path@),
{
    if path.is_empty() {
        return String::new();
    }
    if has_prefix(path, "/") {
        return owned(path);
    }
    let parts = split_char(path, '.');
    let ghost pv = strings_view(parts@);
    let mut escaped: Vec<String> = Vec::new();
    let mut i: usize = 0;
    while i < parts.len()
        invariant
            i <= parts@.len(),
            pv == strings_view(parts@),
            strings_view(escaped@) == pv.take(i as int).map_values(|t: Seq<char>| escape_token(t)),
        decreases parts.len() - i,
    {
        let e = escape(parts[i].as_str());
        assert(pv[i as int] == parts@[i as int]@);
        let ghost before = escaped@;
        escaped.push(e);
        assert(strings_view(escaped@) =~= strings_view(before).push(e@));
        assert(pv.take(i + 1) =~= pv.take(i as int).push(pv[i as int]));
        assert(strings_view(escaped@) =~= pv.take(i + 1).map_values(|t: Seq<char>| escape_token(t)));
        i = i + 1;
    }
    assert(pv.take(parts@.len() as int) =~= pv);
    let joined = join_strings(&escaped, "/");
    crate::json::concat("/", joined.as_str())
}

// ─── Reading, writing and removing at a path ────────────────────────────

fn pointer_index_of(t: &str) -> (r: Option<usize>)
    ensures
        r == pointer_index(t@),
{
    let x = crate::json::chars_of(t);
    if (x.len() > 0 && x[0] == '+') || (x.len() > 1 && x[0] == '0') {
        None
    } else {
        parse_usize_str(t)
    }
}

/// The value at a path (`Value::pointer`).
#[verifier::spinoff_prover]
#[verifier::rlimit(30)]
pub fn get_path<'a>(body: &'a Json, path: &str) -> (r: Option<&'a Json>)
    ensures
        match r {
            Some(x) => pointer_get(body@, path@) == Some(x@),
            None => pointer_get(body@, path@).is_none(),
        },
{
    if path.is_empty() {
        return Some(body);
    }
    if !has_prefix(path, "/") {
        return None;
    }
    let toks = match pointer_tokens(path) {
        Ok(t) => t,
        Err(_) => {
            return None;
        },
    };
    let ghost tv = strings_view(toks@);
    assert(tv == pointer_parse(path@));
    let mut cur: &Json = body;
    let mut i: usize = 0;
    assert(tv.skip(0) =~= tv);
    while i < toks.len()
        invariant
            i <= toks@.len(),
            tv == strings_view(toks@),
            tv == pointer_parse(path@),
            path@.len() > 0,
            starts_with(path@, "/"@),
            get_at(body@, tv) == get_at(cur@, tv.skip(i as int)),
        decreases toks.len() - i,
    {
        let ghost rest = tv.skip(i as int);
        assert(rest[0] == toks@[i as int]@);
        assert(rest.drop_first() =~= tv.skip(i + 1));
        let next: Option<&Json> = match cur {
            Json::Object(f) => match crate::json::find_field(f, toks[i].as_str()) {
                Some(k) => {
                    assert(get_at(cur@, rest) == get_at(f@[k as int].1@, rest.drop_first()));
                    Some(&f[k].1)
                },
                None => {
                    assert(get_at(cur@, rest).is_none());
                    None
                },
            },
            Json::Array(a) => match pointer_index_of(toks[i].as_str()) {
                Some(k) => {
                    if k < a.len() {
                        assert(seq_view(a@)[k as int] == a@[k as int]@);
                        Some(&a[k])
                    } else {
                        None
                    }
                },
                None => None,
            },
            _ => None,
        };
        match next {
            Some(n) => {
                cur = n;
            },
            None => {
                return None;
            },
        }
        i = i + 1;
    }
    assert(tv.skip(i as int) =~= Seq::<Seq<char>>::empty());
    Some(cur)
}

/// Writing `val` at the given segments: segments that read as array
/// indices must index into arrays; other segments make objects as needed.
/// On an error the writes made so far stay.
pub open spec fn set_at(v: JsonV, toks: Seq<Seq<char>>, val: JsonV) -> (JsonV, Result<(), Seq<char>>)
    decreases toks.len(),
{
    if toks.len() == 0 {
        (val, Ok(()))
    } else {
        let t = toks[0];
        let f = match v {
            JsonV::Object(f) => f,
            _ => Seq::empty(),
        };
        if toks.len() == 1 {
            match parse_usize(t) {
                Some(i) => match v {
                    JsonV::Array(a) => if i < a.len() {
                        (JsonV::Array(a.update(i as int, val)), Ok(()))
                    } else {
                        (v, Err("rewrite array index out of bounds: "@ + t))
                    },
                    _ => (v, Err("rewrite path expects array at final segment: "@ + t)),
                },
                None => (JsonV::Object(fields_insert(f, t, val)), Ok(())),
            }
        } else {
            match parse_usize(t) {
                Some(i) => match v {
                    JsonV::Array(a) => if i < a.len() {
                        let (c, r) = set_at(a[i as int], toks.drop_first(), val);
                        (JsonV::Array(a.update(i as int, c)), r)
                    } else {
                        (v, Err("rewrite array index out of bounds: "@ + t))
                    },
                    _ => (v, Err("rewrite path expects array before segment: "@ + t)),
                },
                None => {
                    let child = match fields_get(f, t) {
                        Some(c) => c,
                        None => JsonV::Object(Seq::empty()),
                    };
                    let (c, r) = set_at(child, toks.drop_first(), val);
                    (JsonV::Object(fields_insert(f, t, c)), r)
                },
            }
        }
    }
}

pub open spec fn res_view(r: Result<(), String>) -> Result<(), Seq<char>> {
    match r {
        Ok(()) => Ok(()),
        Err(e) => Err(e@),
    }
}

fn take_field(f: &mut Vec<(String, Json)>, key: &str) -> (r: Option<Json>)
    ensures
        match r {
            Some(c) => {
                &&& crate::json::fields_get(fields_view(old(f)@), key@) == Some(c@)
                &&& forall|x: JsonV| #[trigger] fields_insert(fields_view(final(f)@), key@, x) == fields_insert(fields_view(old(f)@), key@, x)
            },
            None => {
                &&& crate::json::fields_get(fields_view(old(f)@), key@).is_none()
                &&& final(f)@ == old(f)@
            },
        },
{
    match crate::json::find_field(f, key) {
        Some(i) => {
            let ghost f0 = fields_view(f@);
            proof {
                crate::json::lemma_fields_find(f0, key@);
            }
            let mut slot = (owned(key), Json::Null);
            f.set_and_swap(i, &mut slot);
            let ghost f1 = fields_view(f@);
            assert(f1 =~= f0.update(i as int, (key@, JsonV::Null)));
            proof {
                crate::json::lemma_fields_find(f1, key@);
                assert forall|x: JsonV| #[trigger] fields_insert(f1, key@, x) == fields_insert(f0, key@, x) by {
                    assert(fields_find(f1, key@) == Some(i as int)) by {
                        if fields_find(f1, key@) != Some(i as int) {
                            match fields_find(f1, key@) {
                                Some(j) => {
                                    assert(f1[j].0 == key@);
                                    if j < i {
                                        assert(f0[j] == f1[j]);
                                    }
                                },
                                None => {
                                    assert(f1[i as int].0 == key@);
                                },
                            }
                        }
                    }
                    assert(f1.update(i as int, (key@, x)) =~= f0.update(i as int, (key@, x)));
                }
            }
            Some(slot.1)
        },
        None => None,
    }
}

fn set_at_tokens(v: Json, toks: &Vec<String>, pos: usize, value: Json) -> (r: (Json, Result<(), String>))
    requires
        pos <= toks@.len(),
    ensures
        (r.0@, res_view(r.1)) == set_at(v@, strings_view(toks@).skip(pos as int), value@),
    decreases toks@.len() - pos,
{
    let ghost tv = strings_view(toks@).skip(pos as int);
    if pos == toks.len() {
        assert(tv.len() == 0);
        return (value, Ok(()));
    }
    let t = &toks[pos];
    assert(tv[0] == t@);
    assert(tv.drop_first() =~= strings_view(toks@).skip(pos + 1));
    let ghost vv = v@;
    if pos + 1 == toks.len() {
        match parse_usize_str(t.as_str()) {
            Some(i) => match v {
                Json::Array(mut a) => {
                    if i < a.len() {
                        let ghost av = seq_view(a@);
                        let ghost xv = value@;
                        a.set(i, value);
                        assert(seq_view(a@) =~= av.update(i as int, xv));
                        (Json::Array(a), Ok(()))
                    } else {
                        (Json::Array(a), Err(crate::json::concat("rewrite array index out of bounds: ", t.as_str())))
                    }
                },
                other => (other, Err(crate::json::concat("rewrite path expects array at final segment: ", t.as_str()))),
            },
            None => {
                let mut f: Vec<(String, Json)> = match v {
                    Json::Object(f) => f,
                    _ => {
                        let e: Vec<(String, Json)> = Vec::new();
                        assert(fields_view(e@) =~= Seq::<(Seq<char>, JsonV)>::empty());
                        e
                    },
                };
                assert(fields_view(f@) == match vv {
                    JsonV::Object(g) => g,
                    _ => Seq::<(Seq<char>, JsonV)>::empty(),
                });
                insert_field(&mut f, t.clone(), value);
                (Json::Object(f), Ok(()))
            },
        }
    } else {
        match parse_usize_str(t.as_str()) {
            Some(i) => match v {
                Json::Array(mut a) => {
                    if i < a.len() {
                        let ghost av = seq_view(a@);
                        let mut child = Json::Null;
                        a.set_and_swap(i, &mut child);
                        assert(child@ == av[i as int]);
                        let (c, r) = set_at_tokens(child, toks, pos + 1, value);
                        a.set(i, c);
                        assert(seq_view(a@) =~= av.update(i as int, c@));
                        (Json::Array(a), r)
                    } else {
                        (Json::Array(a), Err(crate::json::concat("rewrite array index out of bounds: ", t.as_str())))
                    }
                },
                other => (other, Err(crate::json::concat("rewrite path expects array before segment: ", t.as_str()))),
            },
            None => {
                let mut f: Vec<(String, Json)> = match v {
                    Json::Object(f) => f,
                    _ => {
                        let e: Vec<(String, Json)> = Vec::new();
                        assert(fields_view(e@) =~= Seq::<(Seq<char>, JsonV)>::empty());
                        e
                    },
                };
                let ghost f0 = fields_view(f@);
                assert(f0 == match vv {
                    JsonV::Object(g) => g,
                    _ => Seq::<(Seq<char>, JsonV)>::empty(),
                });
                let child = match take_field(&mut f, t.as_str()) {
                    Some(c) => c,
                    None => {
                        let e: Vec<(String, Json)> = Vec::new();
                        assert(fields_view(e@) =~= Seq::<(Seq<char>, JsonV)>::empty());
                        Json::Object(e)
                    },
                };
                assert(child@ == match fields_get(f0, t@) {
                    Some(c) => c,
                    None => JsonV::Object(Seq::empty()),
                });
                let (c, r) = set_at_tokens(child, toks, pos + 1, value);
                let ghost cv = c@;
                insert_field(&mut f, t.clone(), c);
                assert(fields_view(f@) == fields_insert(f0, t@, cv));
                (Json::Object(f), r)
            },
        }
    }
}

/// Removing the member or element named by the last segment from a parent value.
pub open spec fn remove_in(p: JsonV, last: Seq<char>) -> JsonV {
    match p {
        JsonV::Object(f) => JsonV::Object(fields_remove(f, last)),
        JsonV::Array(a) => match parse_usize(last) {
            Some(i) => if i < a.len() {
                JsonV::Array(a.remove(i as int))
            } else {
                p
            },
            None => p,
        },
        _ => p,
    }
}

/// `remove_in` applied at the value the segments address, if there is one.
pub open spec fn remove_at(v: JsonV, toks: Seq<Seq<char>>, last: Seq<char>) -> JsonV
    decreases toks.len(),
{
    if toks.len() == 0 {
        remove_in(v, last)
    } else {
        match v {
            JsonV::Object(f) => match fields_get(f, toks[0]) {
                Some(c) => JsonV::Object(fields_insert(f, toks[0], remove_at(c, toks.drop_first(), last))),
                None => v,
            },
            JsonV::Array(a) => match pointer_index(toks[0]) {
                Some(i) => if i < a.len() {
                    JsonV::Array(a.update(i as int, remove_at(a[i as int], toks.drop_first(), last)))
                } else {
                    v
                },
                None => v,
            },
            _ => v,
        }
    }
}

/// The pointer of all segments but the last.
pub open spec fn parent_path(toks: Seq<Seq<char>>) -> Seq<char> {
    "/"@ + join(toks.drop_last().map_values(|t: Seq<char>| escape_token(t)), "/"@)
}

/// The body with the value at `path` removed; the whole body becomes null
/// for the empty path, and a path that is not a pointer removes nothing.
pub open spec fn removed(v: JsonV, path: Seq<char>) -> JsonV {
    match tokens_of(path) {
        Err(_) => v,
        Ok(toks) => if toks.len() == 0 {
            JsonV::Null
        } else if toks.len() == 1 {
            remove_in(v, toks[0])
        } else {
            remove_at(v, pointer_parse(parent_path(toks)), toks.last())
        },
    }
}

fn remove_in_value(v: Json, last: &String) -> (r: Json)
    ensures
        r@ == remove_in(v@, last@),
{
    match v {
        Json::Object(mut f) => {
            let _ = remove_field(&mut f, last.as_str());
            Json::Object(f)
        },
        Json::Array(mut a) => {
            match parse_usize_str(last.as_str()) {
                Some(i) => {
                    if i < a.len() {
                        let ghost av = seq_view(a@);
                        let _ = a.remove(i);
                        assert(seq_view(a@) =~= av.remove(i as int));
                    }
                },
                None => {},
            }
            Json::Array(a)
        },
        other => other,
    }
}

fn remove_at_tokens(v: Json, toks: &Vec<String>, pos: usize, last: &String) -> (r: Json)
    requires
        pos <= toks@.len(),
    ensures
        r@ == remove_at(v@, strings_view(toks@).skip(pos as int), last@),
    decreases toks@.len() - pos,
{
    let ghost tv = strings_view(toks@).skip(pos as int);
    if pos == toks.len() {
        assert(tv.len() == 0);
        return remove_in_value(v, last);
    }
    let t = &toks[pos];
    assert(tv[0] == t@);
    assert(tv.drop_first() =~= strings_view(toks@).skip(pos + 1));
    match v {
        Json::Object(mut f) => {
            let ghost f0 = fields_view(f@);
            match take_field(&mut f, t.as_str()) {
                Some(child) => {
                    let c = remove_at_tokens(child, toks, pos + 1, last);
                    let ghost cv = c@;
                    insert_field(&mut f, t.clone(), c);
                    assert(fields_view(f@) == fields_insert(f0, t@, cv));
                    Json::Object(f)
                },
                None => Json::Object(f),
            }
        },
        Json::Array(mut a) => {
            match pointer_index_of(t.as_str()) {
                Some(i) => {
                    if i < a.len() {
                        let ghost av = seq_view(a@);
                        let mut child = Json::Null;
                        a.set_and_swap(i, &mut child);
                        assert(child@ == av[i as int]);
                        let c = remove_at_tokens(child, toks, pos + 1, last);
                        a.set(i, c);
                        assert(seq_view(a@) =~= av.update(i as int, c@));
                    }
                },
                None => {},
            }
            Json::Array(a)
        },
        other => other,
    }
}

fn escape_all(toks: &Vec<String>, n: usize) -> (r: Vec<String>)
    requires
        n <= toks@.len(),
    ensures
        strings_view(r@) == strings_view(toks@).take(n as int).map_values(|t: Seq<char>| escape_token(t)),
{
    let ghost tv = strings_view(toks@);
    let mut r: Vec<String> = Vec::new();
    let mut i: usize = 0;
    while i < n
        invariant
            i <= n <= toks@.len(),
            tv == strings_view(toks@),
            strings_view(r@) == tv.take(i as int).map_values(|t: Seq<char>| escape_token(t)),
        decreases n - i,
    {
        let e = escape(toks[i].as_str());
        assert(tv[i as int] == toks@[i as int]@);
        let ghost before = r@;
        r.push(e);
        assert(strings_view(r@) =~= strings_view(before).push(e@));
        assert(tv.take(i + 1) =~= tv.take(i as int).push(tv[i as int]));
        i = i + 1;
    }
    r
}

fn take_json(body: &mut Json) -> (r: Json)
    ensures
        r@ == old(body)@,
{
    let mut tmp = Json::Null;
    std::mem::swap(&mut tmp, body);
    tmp
}

/// Removes the value at a path.
pub fn remove_path(body: &mut Json, path: &str)
    ensures
        final(body)@ == removed(old(body)@, path@),
{
    let tokens = match pointer_tokens(path) {
        Ok(t) => t,
        Err(_) => {
            return;
        },
    };
    let ghost tv = strings_view(tokens@);
    if tokens.len() == 0 {
        *body = Json::Null;
        return;
    }
    let n = tokens.len();
    let last = &tokens[n - 1];
    assert(tv.last() == last@);
    if n == 1 {
        let v = take_json(body);
        *body = remove_in_value(v, last);
        return;
    }
    let escaped = escape_all(&tokens, n - 1);
    assert(tv.take(n - 1) =~= tv.drop_last());
    let joined = join_strings(&escaped, "/");
    let parent = crate::json::concat("/", joined.as_str());
    assert(parent@ == parent_path(tv));
    proof {
        reveal_strlit("/");
    }
    assert(parent@.take(1) =~= "/"@);
    let ptoks = match pointer_tokens(parent.as_str()) {
        Ok(p) => p,
        Err(_) => {
            return;
        },
    };
    assert(strings_view(ptoks@) == pointer_parse(parent_path(tv)));
    assert(strings_view(ptoks@).skip(0) =~= strings_view(ptoks@));
    let v = take_json(body);
    *body = remove_at_tokens(v, &ptoks, 0, last);
}

// ─── Wildcards ──────────────────────────────────────────────────────────

pub open spec fn prefix_all(p: Seq<char>, lists: Seq<Seq<Seq<char>>>) -> Seq<Seq<Seq<char>>> {
    lists.map_values(|l: Seq<Seq<char>>| seq![p] + l)
}

/// The segment lists that the written segments `toks` reach in `v`, a `*`
/// standing for each index of an array.
pub open spec fn expand_toks(v: JsonV, toks: Seq<Seq<char>>) -> Seq<Seq<Seq<char>>>
    decreases toks.len(), 2nat, 0nat,
{
    if toks.len() == 0 {
        seq![Seq::empty()]
    } else if toks[0] == "*"@ {
        match v {
            JsonV::Array(a) => expand_elems(a, a.len(), toks),
            _ => Seq::empty(),
        }
    } else {
        let r = unescape_token(toks[0]);
        match parse_usize(r) {
            Some(i) => match v {
                JsonV::Array(a) => if i < a.len() {
                    prefix_all(r, expand_toks(a[i as int], toks.drop_first()))
                } else {
                    Seq::empty()
                },
                _ => Seq::empty(),
            },
            None => match v {
                JsonV::Object(f) => match fields_get(f, r) {
                    Some(c) => prefix_all(r, expand_toks(c, toks.drop_first())),
                    None => Seq::empty(),
                },
                _ => Seq::empty(),
            },
        }
    }
}

/// The lists reached through the first `n` elements, in order.
pub open spec fn expand_elems(a: Seq<JsonV>, n: nat, toks: Seq<Seq<char>>) -> Seq<Seq<Seq<char>>>
    decreases toks.len(), 1nat, n,
{
    if n == 0 || n > a.len() || toks.len() == 0 {
        Seq::empty()
    } else {
        expand_elems(a, (n - 1) as nat, toks) + prefix_all(
            decimal((n - 1) as nat),
            expand_toks(a[n - 1], toks.drop_first()),
        )
    }
}

pub open spec fn path_of_tokens(l: Seq<Seq<char>>) -> Seq<char> {
    "/"@ + join(l.map_values(|t: Seq<char>| escape_token(t)), "/"@)
}

/// The concrete paths a path with wildcards reaches in `v`.
pub open spec fn expanded(v: JsonV, path: Seq<char>) -> Seq<Seq<char>> {
    expand_toks(v, raw_tokens(path)).map_values(|l: Seq<Seq<char>>| path_of_tokens(l))
}

pub open spec fn lists_view(r: Seq<Vec<String>>) -> Seq<Seq<Seq<char>>> {
    r.map_values(|l: Vec<String>| strings_view(l@))
}

fn prefix_lists(p: &String, lists: Vec<Vec<String>>) -> (r: Vec<Vec<String>>)
    ensures
        lists_view(r@) == prefix_all(p@, lists_view(lists@)),
{
    let ghost lv = lists_view(lists@);
    let ghost ls = lists@;
    let mut r: Vec<Vec<String>> = Vec::new();
    for l in it: lists
        invariant
            it.seq() == ls,
            lv == lists_view(ls),
            lists_view(r@) == prefix_all(p@, lv.take(it.index() as int)),
    {
        let ghost k = it.index() as int;
        let ghost lw = l@;
        let mut x: Vec<String> = vec![p.clone()];
        let mut l2 = l;
        x.append(&mut l2);
        assert(strings_view(x@) =~= seq![p@] + strings_view(lw));
        assert(lv[k] == strings_view(lw));
        let ghost before = r@;
        r.push(x);
        assert(lists_view(r@) =~= lists_view(before).push(strings_view(x@)));
        assert(lv.take(k + 1) =~= lv.take(k).push(lv[k]));
    }
    assert(lv.take(ls.len() as int) =~= lv);
    r
}

fn append_lists(r: &mut Vec<Vec<String>>, more: Vec<Vec<String>>)
    ensures
        lists_view(final(r)@) == lists_view(old(r)@) + lists_view(more@),
{
    let mut m = more;
    let ghost r0 = r@;
    let ghost m0 = m@;
    r.append(&mut m);
    assert(lists_view(r@) =~= lists_view(r0) + lists_view(m0));
}

#[verifier::loop_isolation(false)]
fn expand_tokens(current: &Json, toks: &Vec<String>, pos: usize) -> (r: Vec<Vec<String>>)
    requires
        pos <= toks@.len(),
    ensures
        lists_view(r@) == expand_toks(current@, strings_view(toks@).skip(pos as int)),
    decreases toks@.len() - pos, 2nat, 0nat,
{
    let ghost tv = strings_view(toks@).skip(pos as int);
    if pos == toks.len() {
        assert(tv.len() == 0);
        let e: Vec<String> = Vec::new();
        let r = vec![e];
        assert(lists_view(r@) =~= seq![Seq::<Seq<char>>::empty()]) by {
            assert(strings_view(r@[0]@) =~= Seq::<Seq<char>>::empty());
        }
        return r;
    }
    let token = &toks[pos];
    assert(tv[0] == token@);
    assert(tv.drop_first() =~= strings_view(toks@).skip(pos + 1));
    if str_eq(token.as_str(), "*") {
        assert(tv[0] == "*"@);
        match current {
            Json::Array(a) => expand_elements(a, a.len(), toks, pos),
            _ => {
                let r: Vec<Vec<String>> = Vec::new();
                assert(lists_view(r@) =~= Seq::<Seq<Seq<char>>>::empty());
                r
            },
        }
    } else {
        assert(tv[0] != "*"@);
        let resolved = unescape(token.as_str());
        assert(resolved@ == unescape_token(tv[0]));
        let empty: Vec<Vec<String>> = Vec::new();
        assert(lists_view(empty@) =~= Seq::<Seq<Seq<char>>>::empty());
        match parse_usize_str(resolved.as_str()) {
            Some(i) => match current {
                Json::Array(a) => {
                    if i < a.len() {
                        proof {
                            assert(decreases_to!(current => a[i as int]));
                        }
                        let sub = expand_tokens(&a[i], toks, pos + 1);
                        assert(seq_view(a@)[i as int] == a@[i as int]@);
                        prefix_lists(&resolved, sub)
                    } else {
                        empty
                    }
                },
                _ => empty,
            },
            None => match current {
                Json::Object(f) => match crate::json::find_field(f, resolved.as_str()) {
                    Some(k) => {
                        proof {
                            assert(decreases_to!(current => f[k as int]));
                            assert(decreases_to!(f[k as int] => f[k as int].1));
                        }
                        let sub = expand_tokens(&f[k].1, toks, pos + 1);
                        prefix_lists(&resolved, sub)
                    },
                    None => empty,
                },
                _ => empty,
            },
        }
    }
}

#[verifier::loop_isolation(false)]
fn expand_elements(a: &Vec<Json>, n: usize, toks: &Vec<String>, pos: usize) -> (r: Vec<Vec<String>>)
    requires
        pos < toks.len(),
        n <= a@.len(),
    ensures
        lists_view(r@) == expand_elems(seq_view(a@), n as nat, strings_view(toks@).skip(pos as int)),
    decreases toks@.len() - pos, 1nat, n,
{
    let ghost tv = strings_view(toks@).skip(pos as int);
    assert(tv.drop_first() =~= strings_view(toks@).skip(pos + 1));
    if n == 0 {
        let r: Vec<Vec<String>> = Vec::new();
        assert(lists_view(r@) =~= Seq::<Seq<Seq<char>>>::empty());
        return r;
    }
    let mut r = expand_elements(a, n - 1, toks, pos);
    let sub = expand_tokens(&a[n - 1], toks, pos + 1);
    let idx = decimal_string((n - 1) as u64);
    let more = prefix_lists(&idx, sub);
    append_lists(&mut r, more);
    r
}

/// Expands a path with `*` segments into the concrete paths it reaches:
/// `/messages/*/role` → `/messages/0/role`, `/messages/1/role`, ….
pub fn expand_paths(body: &Json, path: &str) -> (r: Vec<String>)
    ensures
        strings_view(r@) == expanded(body@, path@),
{
    let parts = split_char(path, '/');
    proof {
        lemma_split_len(path@, '/');
    }
    let ghost pv = strings_view(parts@);
    let mut toks: Vec<String> = Vec::new();
    let mut i: usize = 1;
    while i < parts.len()
        invariant
            1 <= i <= parts@.len(),
            pv == strings_view(parts@),
            pv == split(path@, '/'),
            strings_view(toks@) == pv.drop_first().take(i - 1),
        decreases parts.len() - i,
    {
        assert(pv[i as int] == parts@[i as int]@);
        let ghost before = toks@;
        toks.push(parts[i].clone());
        assert(strings_view(toks@) =~= strings_view(before).push(parts@[i as int]@));
        assert(pv.drop_first().take(i as int) =~= pv.drop_first().take(i - 1).push(pv[i as int]));
        i = i + 1;
    }
    assert(pv.drop_first().take(i - 1) =~= raw_tokens(path@));
    assert(strings_view(toks@).skip(0) =~= strings_view(toks@));
    let lists = expand_tokens(body, &toks, 0);
    let ghost lv = lists_view(lists@);
    let ghost ls = lists@;
    let mut r: Vec<String> = Vec::new();
    for l in it: lists
        invariant
            it.seq() == ls,
            lv == lists_view(ls),
            strings_view(r@) == lv.take(it.index() as int).map_values(
                |l: Seq<Seq<char>>| path_of_tokens(l),
            ),
    {
        let ghost k = it.index() as int;
        let escaped = escape_all(&l, l.len());
        assert(strings_view(l@).take(l@.len() as int) =~= strings_view(l@));
        let joined = join_strings(&escaped, "/");
        let p = crate::json::concat("/", joined.as_str());
        assert(lv[k] == strings_view(l@));
        let ghost before = r@;
        r.push(p);
        assert(strings_view(r@) =~= strings_view(before).push(p@));
        assert(lv.take(k + 1) =~= lv.take(k).push(lv[k]));
    }
    assert(lv.take(ls.len() as int) =~= lv);
    r
}

// ─── Writing at a path ──────────────────────────────────────────────────

pub type Outcome = (JsonV, Result<(), Seq<char>>);

/// Applies `f` to the first `n` of `xs` in turn; the first error stops it,
/// keeping what was written before.
pub open spec fn fold_res<A>(v: JsonV, xs: Seq<A>, n: int, f: spec_fn(JsonV, A) -> Outcome) -> Outcome
    decreases n,
{
    if n <= 0 {
        (v, Ok(()))
    } else {
        let (w, r) = fold_res(v, xs, n - 1, f);
        if r is Err {
            (w, r)
        } else {
            f(w, xs[n - 1])
        }
    }
}

pub proof fn lemma_fold_err<A>(v: JsonV, xs: Seq<A>, k: int, n: int, f: spec_fn(JsonV, A) -> Outcome)
    requires
        0 <= k <= n,
        fold_res(v, xs, k, f).1 is Err,
    ensures
        fold_res(v, xs, n, f) == fold_res(v, xs, k, f),
    decreases n - k,
{
    if k < n {
        lemma_fold_err(v, xs, k, n - 1, f);
    }
}

pub open spec fn set_concrete_step(val: JsonV) -> spec_fn(JsonV, Seq<char>) -> Outcome {
    |w: JsonV, p: Seq<char>|
        match tokens_of(p) {
            Err(e) => (w, Err(e)),
            Ok(t) => set_at(w, t, val),
        }
}

/// Writing `val` at a path; a path with wildcards writes at each path it
/// reaches in the body as it was.
pub open spec fn set_path_spec(v: JsonV, path: Seq<char>, val: JsonV) -> Outcome {
    if wildcard(path) {
        let ps = expanded(v, path);
        fold_res(v, ps, ps.len() as int, set_concrete_step(val))
    } else {
        match tokens_of(path) {
            Err(e) => (v, Err(e)),
            Ok(t) => set_at(v, t, val),
        }
    }
}

fn set_tokens_in(body: &mut Json, toks: &Vec<String>, value: Json) -> (r: Result<(), String>)
    ensures
        (final(body)@, res_view(r)) == set_at(old(body)@, strings_view(toks@), value@),
{
    assert(strings_view(toks@).skip(0) =~= strings_view(toks@));
    let v = take_json(body);
    let (w, r) = set_at_tokens(v, toks, 0, value);
    *body = w;
    r
}

/// Writes `value` at a path.
pub fn set_path(body: &mut Json, path: &str, value: Json) -> (r: Result<(), String>)
    ensures
        (final(body)@, res_view(r)) == set_path_spec(old(body)@, path@, value@),
{
    let ghost v0 = body@;
    let ghost val = value@;
    if has_wildcard(path) {
        let paths = expand_paths(body, path);
        let ghost ps = strings_view(paths@);
        let mut i: usize = 0;
        while i < paths.len()
            invariant
                i <= paths@.len(),
                ps == strings_view(paths@),
                ps == expanded(v0, path@),
                v0 == old(body)@,
                val == value@,
                wildcard(path@),
                (body@, Ok::<(), Seq<char>>(())) == fold_res(v0, ps, i as int, set_concrete_step(val)),
            decreases paths.len() - i,
        {
            assert(ps[i as int] == paths@[i as int]@);
            let ghost w = body@;
            let ghost step_res = set_concrete_step(val)(w, ps[i as int]);
            assert(fold_res(v0, ps, i + 1, set_concrete_step(val)) == step_res);
            let toks = match pointer_tokens(paths[i].as_str()) {
                Ok(t) => t,
                Err(e) => {
                    proof {
                        lemma_fold_err(v0, ps, i + 1, ps.len() as int, set_concrete_step(val));
                    }
                    return Err(e);
                },
            };
            match set_tokens_in(body, &toks, copy_json(&value)) {
                Ok(()) => {},
                Err(e) => {
                    proof {
                        lemma_fold_err(v0, ps, i + 1, ps.len() as int, set_concrete_step(val));
                    }
                    return Err(e);
                },
            }
            i = i + 1;
        }
        return Ok(());
    }
    let toks = match pointer_tokens(path) {
        Ok(t) => t,
        Err(e) => {
            return Err(e);
        },
    };
    set_tokens_in(body, &toks, value)
}

// ─── Applying the steps ─────────────────────────────────────────────────

pub ghost struct RuleV {
    pub cond: CondV,
    pub set: Option<JsonV>,
    pub with: Seq<(Seq<char>, JsonV)>,
}

impl View for ReplaceRule {
    type V = RuleV;

    open spec fn view(&self) -> RuleV {
        RuleV {
            cond: self.condition@,
            set: crate::models::opt_json_view(self.set),
            with: fields_view(self.with@),
        }
    }
}

pub open spec fn rules_view(s: Seq<ReplaceRule>) -> Seq<RuleV> {
    s.map_values(|r: ReplaceRule| r@)
}

pub ghost enum StepV {
    Rename(Seq<(Seq<char>, Seq<char>)>),
    Remove(Seq<Seq<char>>),
    Replace(Seq<(Seq<char>, Seq<RuleV>)>),
    Reset(Seq<(Seq<char>, JsonV)>),
}

impl View for RewriteStep {
    type V = StepV;

    open spec fn view(&self) -> StepV {
        match self {
            RewriteStep::Rename(rs) => StepV::Rename(
                rs@.map_values(|p: (String, String)| (p.0@, p.1@)),
            ),
            RewriteStep::Remove(ps) => StepV::Remove(strings_view(ps@)),
            RewriteStep::Replace(es) => StepV::Replace(
                es@.map_values(|e: (String, Vec<ReplaceRule>)| (e.0@, rules_view(e.1@))),
            ),
            RewriteStep::Reset(es) => StepV::Reset(fields_view(es@)),
        }
    }
}

pub open spec fn rename_step() -> spec_fn(JsonV, (Seq<char>, Seq<char>)) -> Outcome {
    |w: JsonV, r: (Seq<char>, Seq<char>)|
        {
            let f = normalized(r.0);
            match pointer_get(w, f) {
                Some(x) => set_path_spec(removed(w, f), normalized(r.1), x),
                None => (w, Ok(())),
            }
        }
}

pub open spec fn remove_all(w: JsonV, ps: Seq<Seq<char>>, n: int) -> JsonV
    decreases n,
{
    if n <= 0 {
        w
    } else {
        removed(remove_all(w, ps, n - 1), ps[n - 1])
    }
}

pub open spec fn remove_one(w: JsonV, path: Seq<char>) -> JsonV {
    let p = normalized(path);
    if wildcard(p) {
        let ps = expanded(w, p);
        remove_all(w, ps, ps.len() as int)
    } else {
        removed(w, p)
    }
}

pub open spec fn removes(w: JsonV, paths: Seq<Seq<char>>, n: int) -> JsonV
    decreases n,
{
    if n <= 0 {
        w
    } else {
        remove_one(removes(w, paths, n - 1), paths[n - 1])
    }
}

pub open spec fn with_step() -> spec_fn(JsonV, (Seq<char>, JsonV)) -> Outcome {
    |w: JsonV, p: (Seq<char>, JsonV)| set_path_spec(w, normalized(p.0), p.1)
}

pub open spec fn rule_applies(w: JsonV, target: Seq<char>, rule: RuleV) -> bool {
    match pointer_get(w, target) {
        Some(x) => matches(x, rule.cond),
        None => false,
    }
}

pub open spec fn rule_step(target: Seq<char>) -> spec_fn(JsonV, RuleV) -> Outcome {
    |w: JsonV, rule: RuleV|
        if rule_applies(w, target, rule) {
            let (w1, r1) = match rule.set {
                Some(x) => set_path_spec(w, target, x),
                None => (w, Ok(())),
            };
            if r1 is Err {
                (w1, r1)
            } else {
                fold_res(w1, rule.with, rule.with.len() as int, with_step())
            }
        } else {
            (w, Ok(()))
        }
}

pub open spec fn target_step(rules: Seq<RuleV>) -> spec_fn(JsonV, Seq<char>) -> Outcome {
    |w: JsonV, target: Seq<char>| fold_res(w, rules, rules.len() as int, rule_step(target))
}

pub open spec fn replace_targets(w: JsonV, path: Seq<char>) -> Seq<Seq<char>> {
    let p = normalized(path);
    if wildcard(p) {
        expanded(w, p)
    } else {
        seq![p]
    }
}

pub open spec fn replace_step() -> spec_fn(JsonV, (Seq<char>, Seq<RuleV>)) -> Outcome {
    |w: JsonV, e: (Seq<char>, Seq<RuleV>)|
        {
            let targets = replace_targets(w, e.0);
            fold_res(w, targets, targets.len() as int, target_step(e.1))
        }
}

pub open spec fn reset_concrete_step(x: JsonV) -> spec_fn(JsonV, Seq<char>) -> Outcome {
    |w: JsonV, c: Seq<char>|
        if pointer_get(w, c) is Some {
            set_path_spec(w, c, x)
        } else {
            (w, Ok(()))
        }
}

pub open spec fn reset_step() -> spec_fn(JsonV, (Seq<char>, JsonV)) -> Outcome {
    |w: JsonV, e: (Seq<char>, JsonV)|
        {
            let p = normalized(e.0);
            if wildcard(p) {
                let ps = expanded(w, p);
                fold_res(w, ps, ps.len() as int, reset_concrete_step(e.1))
            } else if pointer_get(w, p) is Some {
                set_path_spec(w, p, e.1)
            } else {
                (w, Ok(()))
            }
        }
}

pub open spec fn step_apply() -> spec_fn(JsonV, StepV) -> Outcome {
    |w: JsonV, s: StepV|
        match s {
            StepV::Rename(rs) => fold_res(w, rs, rs.len() as int, rename_step()),
            StepV::Remove(ps) => (removes(w, ps, ps.len() as int), Ok(())),
            StepV::Replace(es) => fold_res(w, es, es.len() as int, replace_step()),
            StepV::Reset(es) => fold_res(w, es, es.len() as int, reset_step()),
        }
}

pub open spec fn steps_view(s: Seq<RewriteStep>) -> Seq<StepV> {
    s.map_values(|x: RewriteStep| x@)
}

/// The body after the rewrite's steps, in order; an error stops the
/// rewrite and keeps what was written before it.
pub open spec fn rewritten(v: JsonV, steps: Seq<StepV>) -> Outcome {
    fold_res(v, steps, steps.len() as int, step_apply())
}

fn rename_rules(body: &mut Json, rules: &Vec<(String, String)>) -> (r: Result<(), String>)
    ensures
        (final(body)@, res_view(r)) == fold_res(
            old(body)@,
            rules@.map_values(|p: (String, String)| (p.0@, p.1@)),
            rules@.len() as int,
            rename_step(),
        ),
{
    let ghost v0 = body@;
    let ghost rs = rules@.map_values(|p: (String, String)| (p.0@, p.1@));
    let mut i: usize = 0;
    while i < rules.len()
        invariant
            i <= rules@.len(),
            rs == rules@.map_values(|p: (String, String)| (p.0@, p.1@)),
            v0 == old(body)@,
            (body@, Ok::<(), Seq<char>>(())) == fold_res(v0, rs, i as int, rename_step()),
        decreases rules.len() - i,
    {
        assert(rs[i as int] == (rules@[i as int].0@, rules@[i as int].1@));
        let ghost w = body@;
        assert(fold_res(v0, rs, i + 1, rename_step()) == rename_step()(w, rs[i as int]));
        let from = normalize_path(rules[i].0.as_str());
        let to = normalize_path(rules[i].1.as_str());
        let found = match get_path(body, from.as_str()) {
            Some(v) => Some(copy_json(v)),
            None => None,
        };
        match found {
            Some(v) => {
                remove_path(body, from.as_str());
                match set_path(body, to.as_str(), v) {
                    Ok(()) => {},
                    Err(e) => {
                        proof {
                            lemma_fold_err(v0, rs, i + 1, rs.len() as int, rename_step());
                        }
                        return Err(e);
                    },
                }
            },
            None => {},
        }
        i = i + 1;
    }
    Ok(())
}

fn remove_paths(body: &mut Json, paths: &Vec<String>)
    ensures
        final(body)@ == removes(old(body)@, strings_view(paths@), paths@.len() as int),
{
    let ghost v0 = body@;
    let ghost ps = strings_view(paths@);
    let mut i: usize = 0;
    while i < paths.len()
        invariant
            i <= paths@.len(),
            ps == strings_view(paths@),
            v0 == old(body)@,
            body@ == removes(v0, ps, i as int),
        decreases paths.len() - i,
    {
        assert(ps[i as int] == paths@[i as int]@);
        let ghost w = body@;
        let path = normalize_path(paths[i].as_str());
        if has_wildcard(path.as_str()) {
            let concrete = expand_paths(body, path.as_str());
            let ghost cs = strings_view(concrete@);
            let mut j: usize = 0;
            while j < concrete.len()
                invariant
                    j <= concrete@.len(),
                    cs == strings_view(concrete@),
                    body@ == remove_all(w, cs, j as int),
                decreases concrete.len() - j,
            {
                assert(cs[j as int] == concrete@[j as int]@);
                remove_path(body, concrete[j].as_str());
                j = j + 1;
            }
        } else {
            remove_path(body, path.as_str());
        }
        i = i + 1;
    }
}

fn apply_withs(body: &mut Json, with: &Vec<(String, Json)>) -> (r: Result<(), String>)
    ensures
        (final(body)@, res_view(r)) == fold_res(
            old(body)@,
            fields_view(with@),
            with@.len() as int,
            with_step(),
        ),
{
    let ghost v0 = body@;
    let ghost ws = fields_view(with@);
    let mut i: usize = 0;
    while i < with.len()
        invariant
            i <= with@.len(),
            ws == fields_view(with@),
            v0 == old(body)@,
            (body@, Ok::<(), Seq<char>>(())) == fold_res(v0, ws, i as int, with_step()),
        decreases with.len() - i,
    {
        assert(ws[i as int] == (with@[i as int].0@, with@[i as int].1@));
        let ghost w = body@;
        assert(fold_res(v0, ws, i + 1, with_step()) == with_step()(w, ws[i as int]));
        let path = normalize_path(with[i].0.as_str());
        match set_path(body, path.as_str(), copy_json(&with[i].1)) {
            Ok(()) => {},
            Err(e) => {
                proof {
                    lemma_fold_err(v0, ws, i + 1, ws.len() as int, with_step());
                }
                return Err(e);
            },
        }
        i = i + 1;
    }
    Ok(())
}

fn apply_rule(body: &mut Json, target: &String, rule: &ReplaceRule) -> (r: Result<(), String>)
    ensures
        (final(body)@, res_view(r)) == rule_step(target@)(old(body)@, rule@),
{
    let applies = match get_path(body, target.as_str()) {
        Some(v) => value_matches(v, &rule.condition),
        None => false,
    };
    if !applies {
        return Ok(());
    }
    match &rule.set {
        Some(v) => match set_path(body, target.as_str(), copy_json(v)) {
            Ok(()) => {},
            Err(e) => {
                return Err(e);
            },
        },
        None => {},
    }
    apply_withs(body, &rule.with)
}

fn apply_rules(body: &mut Json, target: &String, rules: &Vec<ReplaceRule>) -> (r: Result<(), String>)
    ensures
        (final(body)@, res_view(r)) == target_step(rules_view(rules@))(old(body)@, target@),
{
    let ghost v0 = body@;
    let ghost rs = rules_view(rules@);
    let mut i: usize = 0;
    while i < rules.len()
        invariant
            i <= rules@.len(),
            rs == rules_view(rules@),
            v0 == old(body)@,
            (body@, Ok::<(), Seq<char>>(())) == fold_res(v0, rs, i as int, rule_step(target@)),
        decreases rules.len() - i,
    {
        assert(rs[i as int] == rules@[i as int]@);
        let ghost w = body@;
        assert(fold_res(v0, rs, i + 1, rule_step(target@)) == rule_step(target@)(w, rs[i as int]));
        match apply_rule(body, target, &rules[i]) {
            Ok(()) => {},
            Err(e) => {
                proof {
                    lemma_fold_err(v0, rs, i + 1, rs.len() as int, rule_step(target@));
                }
                return Err(e);
            },
        }
        i = i + 1;
    }
    Ok(())
}

fn replace_entry(body: &mut Json, path: &String, rules: &Vec<ReplaceRule>) -> (r: Result<(), String>)
    ensures
        (final(body)@, res_view(r)) == replace_step()(old(body)@, (path@, rules_view(rules@))),
{
    let ghost v0 = body@;
    let p = normalize_path(path.as_str());
    let targets: Vec<String> = if has_wildcard(p.as_str()) {
        expand_paths(body, p.as_str())
    } else {
        let t = vec![p];
        assert(strings_view(t@) =~= seq![normalized(path@)]);
        t
    };
    let ghost ts = strings_view(targets@);
    assert(ts == replace_targets(v0, path@));
    let ghost f = target_step(rules_view(rules@));
    let mut i: usize = 0;
    while i < targets.len()
        invariant
            i <= targets@.len(),
            ts == strings_view(targets@),
            ts == replace_targets(v0, path@),
            v0 == old(body)@,
            f == target_step(rules_view(rules@)),
            (body@, Ok::<(), Seq<char>>(())) == fold_res(v0, ts, i as int, f),
        decreases targets.len() - i,
    {
        assert(ts[i as int] == targets@[i as int]@);
        let ghost w = body@;
        assert(fold_res(v0, ts, i + 1, f) == f(w, ts[i as int]));
        match apply_rules(body, &targets[i], rules) {
            Ok(()) => {},
            Err(e) => {
                proof {
                    lemma_fold_err(v0, ts, i + 1, ts.len() as int, f);
                }
                return Err(e);
            },
        }
        i = i + 1;
    }
    Ok(())
}

fn replace_entries(body: &mut Json, entries: &Vec<(String, Vec<ReplaceRule>)>) -> (r: Result<(), String>)
    ensures
        (final(body)@, res_view(r)) == fold_res(
            old(body)@,
            entries@.map_values(|e: (String, Vec<ReplaceRule>)| (e.0@, rules_view(e.1@))),
            entries@.len() as int,
            replace_step(),
        ),
{
    let ghost v0 = body@;
    let ghost es = entries@.map_values(|e: (String, Vec<ReplaceRule>)| (e.0@, rules_view(e.1@)));
    let mut i: usize = 0;
    while i < entries.len()
        invariant
            i <= entries@.len(),
            es == entries@.map_values(|e: (String, Vec<ReplaceRule>)| (e.0@, rules_view(e.1@))),
            v0 == old(body)@,
            (body@, Ok::<(), Seq<char>>(())) == fold_res(v0, es, i as int, replace_step()),
        decreases entries.len() - i,
    {
        assert(es[i as int] == (entries@[i as int].0@, rules_view(entries@[i as int].1@)));
        let ghost w = body@;
        assert(fold_res(v0, es, i + 1, replace_step()) == replace_step()(w, es[i as int]));
        match replace_entry(body, &entries[i].0, &entries[i].1) {
            Ok(()) => {},
            Err(e) => {
                proof {
                    lemma_fold_err(v0, es, i + 1, es.len() as int, replace_step());
                }
                return Err(e);
            },
        }
        i = i + 1;
    }
    Ok(())
}

fn reset_entry(body: &mut Json, path: &String, value: &Json) -> (r: Result<(), String>)
    ensures
        (final(body)@, res_view(r)) == reset_step()(old(body)@, (path@, value@)),
{
    let ghost v0 = body@;
    let p = normalize_path(path.as_str());
    if has_wildcard(p.as_str()) {
        let concrete = expand_paths(body, p.as_str());
        let ghost cs = strings_view(concrete@);
        let ghost f = reset_concrete_step(value@);
        let mut i: usize = 0;
        while i < concrete.len()
            invariant
                i <= concrete@.len(),
                cs == strings_view(concrete@),
                cs == expanded(v0, normalized(path@)),
                wildcard(normalized(path@)),
                v0 == old(body)@,
                f == reset_concrete_step(value@),
                (body@, Ok::<(), Seq<char>>(())) == fold_res(v0, cs, i as int, f),
            decreases concrete.len() - i,
        {
            assert(cs[i as int] == concrete@[i as int]@);
            let ghost w = body@;
            assert(fold_res(v0, cs, i + 1, f) == f(w, cs[i as int]));
            if get_path(body, concrete[i].as_str()).is_some() {
                match set_path(body, concrete[i].as_str(), copy_json(value)) {
                    Ok(()) => {},
                    Err(e) => {
                        proof {
                            lemma_fold_err(v0, cs, i + 1, cs.len() as int, f);
                        }
                        return Err(e);
                    },
                }
            }
            i = i + 1;
        }
        Ok(())
    } else if get_path(body, p.as_str()).is_some() {
        set_path(body, p.as_str(), copy_json(value))
    } else {
        Ok(())
    }
}

fn reset_entries(body: &mut Json, entries: &Vec<(String, Json)>) -> (r: Result<(), String>)
    ensures
        (final(body)@, res_view(r)) == fold_res(
            old(body)@,
            fields_view(entries@),
            entries@.len() as int,
            reset_step(),
        ),
{
    let ghost v0 = body@;
    let ghost es = fields_view(entries@);
    let mut i: usize = 0;
    while i < entries.len()
        invariant
            i <= entries@.len(),
            es == fields_view(entries@),
            v0 == old(body)@,
            (body@, Ok::<(), Seq<char>>(())) == fold_res(v0, es, i as int, reset_step()),
        decreases entries.len() - i,
    {
        assert(es[i as int] == (entries@[i as int].0@, entries@[i as int].1@));
        let ghost w = body@;
        assert(fold_res(v0, es, i + 1, reset_step()) == reset_step()(w, es[i as int]));
        match reset_entry(body, &entries[i].0, &entries[i].1) {
            Ok(()) => {},
            Err(e) => {
                proof {
                    lemma_fold_err(v0, es, i + 1, es.len() as int, reset_step());
                }
                return Err(e);
            },
        }
        i = i + 1;
    }
    Ok(())
}

/// Applies the rewrite's steps to the body, in order. An error stops the
/// rewrite; what was written before it stays.
pub fn apply_rewrite(body: &mut Json, rewrite: &RewriteConfig) -> (r: Result<(), String>)
    ensures
        (final(body)@, res_view(r)) == rewritten(old(body)@, steps_view(rewrite.steps@)),
{
    if rewrite.is_empty() {
        return Ok(());
    }
    let ghost v0 = body@;
    let ghost ss = steps_view(rewrite.steps@);
    let mut i: usize = 0;
    while i < rewrite.steps.len()
        invariant
            i <= rewrite.steps@.len(),
            ss == steps_view(rewrite.steps@),
            v0 == old(body)@,
            (body@, Ok::<(), Seq<char>>(())) == fold_res(v0, ss, i as int, step_apply()),
        decreases rewrite.steps.len() - i,
    {
        assert(ss[i as int] == rewrite.steps@[i as int]@);
        let ghost w = body@;
        assert(fold_res(v0, ss, i + 1, step_apply()) == step_apply()(w, ss[i as int]));
        let r = match &rewrite.steps[i] {
            RewriteStep::Rename(rules) => rename_rules(body, rules),
            RewriteStep::Remove(paths) => {
                remove_paths(body, paths);
                Ok(())
            },
            RewriteStep::Replace(entries) => replace_entries(body, entries),
            RewriteStep::Reset(entries) => reset_entries(body, entries),
        };
        match r {
            Ok(()) => {},
            Err(e) => {
                proof {
                    lemma_fold_err(v0, ss, i + 1, ss.len() as int, step_apply());
                }
                return Err(e);
            },
        }
        i = i + 1;
    }
    Ok(())
}

// ─── Laws ───────────────────────────────────────────────────────────────

/// A segment that reads as an index reads as the same index when a path
/// is read back (no `+` sign, no leading zero).
pub open spec fn index_clean(toks: Seq<Seq<char>>) -> bool {
    forall|i: int| 0 <= i < toks.len() && (#[trigger] parse_usize(toks[i])) is Some ==> pointer_index(toks[i]) == parse_usize(toks[i])
}

/// What a successful write puts at some segments is what a read of the
/// same segments gives back.
pub proof fn law_set_then_get(v: JsonV, toks: Seq<Seq<char>>, val: JsonV)
    requires
        index_clean(toks),
        set_at(v, toks, val).1 is Ok,
    ensures
        get_at(set_at(v, toks, val).0, toks) == Some(val),
    decreases toks.len(),
{
    if toks.len() == 0 {
    } else {
        let t = toks[0];
        let rest = toks.drop_first();
        assert(index_clean(rest)) by {
            assert forall|i: int| 0 <= i < rest.len() && (#[trigger] parse_usize(rest[i])) is Some implies pointer_index(rest[i]) == parse_usize(rest[i]) by {
                assert(rest[i] == toks[i + 1]);
            }
        }
        assert(parse_usize(toks[0]) is Some ==> pointer_index(toks[0]) == parse_usize(toks[0]));
        let f = match v {
            JsonV::Object(f) => f,
            _ => Seq::empty(),
        };
        match parse_usize(t) {
            Some(i) => {
                match v {
                    JsonV::Array(a) => {
                        if toks.len() > 1 {
                            let (c, r) = set_at(a[i as int], rest, val);
                            law_set_then_get(a[i as int], rest, val);
                        }
                    },
                    _ => {},
                }
            },
            None => {
                if toks.len() == 1 {
                    crate::json::lemma_get_insert(f, t, val, t);
                } else {
                    let child = match fields_get(f, t) {
                        Some(c) => c,
                        None => JsonV::Object(Seq::empty()),
                    };
                    let (c, r) = set_at(child, rest, val);
                    law_set_then_get(child, rest, val);
                    crate::json::lemma_get_insert(f, t, c, t);
                }
            },
        }
    }
}

/// A value written at a path without wildcards is read back at that path.
pub proof fn law_set_path_then_get(v: JsonV, path: Seq<char>, val: JsonV)
    requires
        !wildcard(path),
        tokens_of(path) is Ok,
        index_clean(tokens_of(path)->Ok_0),
        set_path_spec(v, path, val).1 is Ok,
    ensures
        pointer_get(set_path_spec(v, path, val).0, path) == Some(val),
{
    law_set_then_get(v, tokens_of(path)->Ok_0, val);
}

/// Normalizing a path twice is normalizing it once: a normalized path is
/// empty or a JSON pointer.
pub proof fn law_normalize_idempotent(path: Seq<char>)
    ensures
        normalized(normalized(path)) == normalized(path),
{
    reveal_strlit("/");
    if path.len() > 0 && !starts_with(path, "/"@) {
        let rest = join(split(path, '.').map_values(|t: Seq<char>| escape_token(t)), "/"@);
        let n = "/"@ + rest;
        assert(n.take(1) =~= "/"@);
        assert(starts_with(n, "/"@));
        assert(n.len() > 0);
    }
}

/// An empty rewrite leaves every body as it is.
pub proof fn law_empty_rewrite(v: JsonV)
    ensures
        rewritten(v, Seq::empty()) == (v, Ok::<(), Seq<char>>(())),
{
}

} // verus!
