//! Operations on text: splitting, joining, replacing, searching and decimal numbers.
use vstd::prelude::*;
use crate::json::{chars_of, push_char, string_of};

verus! {

// ─── Prefixes and searching ─────────────────────────────────────────────

pub open spec fn starts_with(s: Seq<char>, p: Seq<char>) -> bool {
    p.len() <= s.len() && s.take(p.len() as int) == p
}

/// Whether `p` occurs in `s` starting at `i`.
pub open spec fn occurs_at(s: Seq<char>, p: Seq<char>, i: int) -> bool {
    0 <= i && i + p.len() <= s.len() && s.subrange(i, i + p.len()) == p
}

/// The first position where `p` occurs in `s` (`str::find`).
pub open spec fn find(s: Seq<char>, p: Seq<char>) -> Option<int> {
    if exists|i: int| occurs_at(s, p, i) {
        Some(choose|i: int| occurs_at(s, p, i) && forall|j: int| 0 <= j < i ==> !occurs_at(s, p, j))
    } else {
        None
    }
}

pub open spec fn contains(s: Seq<char>, p: Seq<char>) -> bool {
    exists|i: int| occurs_at(s, p, i)
}

pub fn has_prefix(s: &str, p: &str) -> (r: bool)
    ensures
        r == starts_with(s@, p@),
{
    let x = chars_of(s);
    let y = chars_of(p);
    if y.len() > x.len() {
        return false;
    }
    let mut i: usize = 0;
    while i < y.len()
        invariant
            x@ == s@,
            y@ == p@,
            y@.len() <= x@.len(),
            i <= y@.len(),
            x@.take(i as int) == y@.take(i as int),
        decreases y.len() - i,
    {
        if x[i] != y[i] {
            assert(x@.take(y@.len() as int)[i as int] != y@[i as int]);
            return false;
        }
        assert(x@.take(i + 1) =~= x@.take(i as int).push(x@[i as int]));
        assert(y@.take(i + 1) =~= y@.take(i as int).push(y@[i as int]));
        i = i + 1;
    }
    assert(y@.take(y@.len() as int) =~= y@);
    true
}

/// `s` without the prefix `p`, if it has it (`str::strip_prefix`).
pub fn strip_prefix(s: &str, p: &str) -> (r: Option<String>)
    ensures
        match r {
            Some(t) => starts_with(s@, p@) && t@ == s@.skip(p@.len() as int),
            None => !starts_with(s@, p@),
        },
{
    if has_prefix(s, p) {
        let x = chars_of(s);
        let n = chars_of(p).len();
        Some(string_of(&x, n, x.len()))
    } else {
        None
    }
}

/// The first position where `p` occurs in `s`, searching from `from` on.
pub fn find_from(s: &Vec<char>, p: &Vec<char>, from: usize) -> (r: Option<usize>)
    requires
        from <= s@.len(),
    ensures
        match r {
            Some(i) => from <= i && occurs_at(s@, p@, i as int) && forall|j: int|
                from <= j < i ==> !occurs_at(s@, p@, j),
            None => forall|j: int| from <= j ==> !occurs_at(s@, p@, j),
        },
{
    if p.len() > s.len() {
        return None;
    }
    if p.len() == 0 {
        assert(s@.subrange(from as int, from as int) =~= p@);
        return Some(from);
    }
    let mut i: usize = from;
    while p.len() <= s.len() - i
        invariant
            from <= i <= s@.len(),
            p@.len() > 0,
            p@.len() <= s@.len(),
            forall|j: int| from <= j < i ==> !occurs_at(s@, p@, j),
        decreases s.len() - i,
    {
        if has_at(s, p, i) {
            return Some(i);
        }
        i = i + 1;
    }
    None
}

pub proof fn lemma_find(s: Seq<char>, p: Seq<char>, i: int)
    requires
        occurs_at(s, p, i),
        forall|j: int| 0 <= j < i ==> !occurs_at(s, p, j),
    ensures
        find(s, p) == Some(i),
{
    let k = choose|k: int| occurs_at(s, p, k) && forall|j: int| 0 <= j < k ==> !occurs_at(s, p, j);
    if k < i {
        assert(!occurs_at(s, p, k));
    }
    if i < k {
        assert(!occurs_at(s, p, i));
    }
}

/// `str::find`.
pub fn find_str(s: &str, p: &str) -> (r: Option<usize>)
    ensures
        match r {
            Some(i) => find(s@, p@) == Some(i as int) && occurs_at(s@, p@, i as int),
            None => find(s@, p@).is_none(),
        },
{
    let x = chars_of(s);
    let y = chars_of(p);
    let r = find_from(&x, &y, 0);
    match r {
        Some(i) => {
            proof {
                lemma_find(s@, p@, i as int);
            }
        },
        None => {},
    }
    r
}

/// `str::contains` with a string pattern.
pub fn contains_str(s: &str, p: &str) -> (r: bool)
    ensures
        r == contains(s@, p@),
{
    let r = find_str(s, p);
    proof {
        if r.is_none() && contains(s@, p@) {
            let i = choose|i: int| occurs_at(s@, p@, i);
            assert(exists|i: int| occurs_at(s@, p@, i));
        }
    }
    r.is_some()
}

// ─── Splitting and joining ──────────────────────────────────────────────

/// The pieces of `s` between occurrences of `c` (`str::split` with a character).
pub open spec fn split(s: Seq<char>, c: char) -> Seq<Seq<char>>
    decreases s.len(),
{
    if s.len() == 0 {
        seq![Seq::empty()]
    } else {
        let rest = split(s.drop_first(), c);
        if s[0] == c {
            seq![Seq::empty()] + rest
        } else {
            rest.update(0, seq![s[0]] + rest[0])
        }
    }
}

pub proof fn lemma_split_len(s: Seq<char>, c: char)
    ensures
        split(s, c).len() >= 1,
    decreases s.len(),
{
    if s.len() > 0 {
        lemma_split_len(s.drop_first(), c);
    }
}

/// Pieces of `t` when the first piece is to be preceded by `cur`.
pub open spec fn split_after(cur: Seq<char>, t: Seq<char>, c: char) -> Seq<Seq<char>> {
    split(t, c).update(0, cur + split(t, c)[0])
}

pub fn split_char(s: &str, c: char) -> (r: Vec<String>)
    ensures
        r@.map_values(|p: String| p@) == split(s@, c),
{
    let x = chars_of(s);
    let mut parts: Vec<String> = Vec::new();
    let mut cur: Vec<char> = Vec::new();
    let mut i: usize = 0;
    proof {
        lemma_split_len(x@, c);
        assert(x@.skip(0) =~= x@);
        assert(cur@ + split(x@, c)[0] =~= split(x@, c)[0]);
        assert(split_after(cur@, x@.skip(0), c) =~= split(x@, c));
    }
    while i < x.len()
        invariant
            i <= x@.len(),
            x@ == s@,
            split(s@, c) == parts@.map_values(|p: String| p@) + split_after(
                cur@,
                x@.skip(i as int),
                c,
            ),
        decreases x.len() - i,
    {
        let ghost t = x@.skip(i as int);
        assert(t.drop_first() =~= x@.skip(i + 1));
        proof {
            lemma_split_len(t.drop_first(), c);
            assert(t[0] == x@[i as int]);
            if t[0] == c {
                assert(split(t, c) == seq![Seq::<char>::empty()] + split(t.drop_first(), c));
            } else {
                assert(split(t, c) == split(t.drop_first(), c).update(
                    0,
                    seq![t[0]] + split(t.drop_first(), c)[0],
                ));
            }
        }
        if x[i] == c {
            let piece = string_of(&cur, 0, cur.len());
            assert(piece@ =~= cur@);
            assert(cur@ + Seq::<char>::empty() =~= cur@);
            assert(split_after(cur@, t, c) =~= seq![piece@] + split(t.drop_first(), c));
            let ghost before = parts@;
            parts.push(piece);
            cur = Vec::new();
            assert(parts@.map_values(|p: String| p@) =~= before.map_values(|p: String| p@).push(
                piece@,
            ));
            assert(split_after(Seq::empty(), x@.skip(i + 1), c) =~= split(x@.skip(i + 1), c));
            assert(before.map_values(|p: String| p@) + split_after(piece@, t, c) =~= parts@.map_values(
                |p: String| p@,
            ) + split_after(Seq::empty(), x@.skip(i + 1), c));
        } else {
            let ghost oc = cur@;
            cur.push(x[i]);
            assert(oc + (seq![t[0]] + split(t.drop_first(), c)[0]) =~= cur@ + split(
                t.drop_first(),
                c,
            )[0]);
            assert(split_after(oc, t, c) =~= split_after(cur@, t.drop_first(), c));
        }
        i = i + 1;
    }
    let piece = string_of(&cur, 0, cur.len());
    assert(piece@ =~= cur@);
    let ghost before = parts@;
    parts.push(piece);
    assert(x@.skip(i as int) =~= Seq::<char>::empty());
    assert(split_after(cur@, x@.skip(i as int), c) =~= seq![cur@]);
    assert(parts@.map_values(|p: String| p@) =~= before.map_values(|p: String| p@).push(piece@));
    parts
}

/// The pieces joined with `sep` between them.
pub open spec fn join(parts: Seq<Seq<char>>, sep: Seq<char>) -> Seq<char>
    decreases parts.len(),
{
    if parts.len() == 0 {
        Seq::empty()
    } else if parts.len() == 1 {
        parts[0]
    } else {
        join(parts.drop_last(), sep) + sep + parts.last()
    }
}

/// `[String]::join`.
pub fn join_strings(parts: &Vec<String>, sep: &str) -> (r: String)
    ensures
        r@ == join(parts@.map_values(|p: String| p@), sep@),
{
    let ghost pv = parts@.map_values(|p: String| p@);
    let mut r = String::new();
    let mut i: usize = 0;
    while i < parts.len()
        invariant
            i <= parts@.len(),
            pv == parts@.map_values(|p: String| p@),
            r@ == join(pv.take(i as int), sep@),
        decreases parts.len() - i,
    {
        assert(pv.take(i + 1).drop_last() =~= pv.take(i as int));
        if i == 0 {
            assert(pv.take(1) =~= seq![pv[0]]);
            r.append(parts[i].as_str());
            assert(r@ =~= pv[0]);
        } else {
            r.append(sep);
            r.append(parts[i].as_str());
        }
        i = i + 1;
    }
    assert(pv.take(parts@.len() as int) =~= pv);
    r
}

// ─── Replacing ──────────────────────────────────────────────────────────

/// `s` with each occurrence of `pat`, found left to right, replaced by `rep`
/// (`str::replace`). An empty `pat` occurs before each character and at the end.
pub open spec fn replace_all(s: Seq<char>, pat: Seq<char>, rep: Seq<char>) -> Seq<char>
    decreases s.len(),
{
    if pat.len() == 0 {
        if s.len() == 0 {
            rep
        } else {
            rep + seq![s[0]] + replace_all(s.drop_first(), pat, rep)
        }
    } else if s.len() < pat.len() {
        s
    } else if s.take(pat.len() as int) == pat {
        rep + replace_all(s.skip(pat.len() as int), pat, rep)
    } else {
        seq![s[0]] + replace_all(s.drop_first(), pat, rep)
    }
}

pub fn replace_str(s: &str, pat: &str, rep: &str) -> (r: String)
    ensures
        r@ == replace_all(s@, pat@, rep@),
{
    let x = chars_of(s);
    let p = chars_of(pat);
    let mut out = String::new();
    let mut i: usize = 0;
    assert(x@.skip(0) =~= x@);
    if p.len() == 0 {
        while i < x.len()
            invariant
                i <= x@.len(),
                x@ == s@,
                pat@.len() == 0,
                replace_all(s@, pat@, rep@) == out@ + replace_all(x@.skip(i as int), pat@, rep@),
            decreases x.len() - i,
        {
            assert(x@.skip(i as int).drop_first() =~= x@.skip(i + 1));
            out.append(rep);
            push_char(&mut out, x[i]);
            i = i + 1;
        }
        out.append(rep);
        return out;
    }
    while i < x.len()
        invariant
            i <= x@.len(),
            x@ == s@,
            p@ == pat@,
            p@.len() > 0,
            replace_all(s@, pat@, rep@) == out@ + replace_all(x@.skip(i as int), pat@, rep@),
        decreases x.len() - i,
    {
        let ghost t = x@.skip(i as int);
        if p.len() <= x.len() - i && has_at(&x, &p, i) {
            assert(t.take(p@.len() as int) =~= x@.subrange(i as int, i + p@.len()));
            assert(t.skip(p@.len() as int) =~= x@.skip(i + p@.len()));
            out.append(rep);
            i = i + p.len();
        } else {
            proof {
                if t.len() >= p@.len() {
                    assert(t.take(p@.len() as int) =~= x@.subrange(i as int, i + p@.len()));
                }
            }
            assert(t.drop_first() =~= x@.skip(i + 1));
            push_char(&mut out, x[i]);
            i = i + 1;
        }
    }
    out
}

/// Whether `p` occurs in `s` at `i`.
pub fn has_at(s: &Vec<char>, p: &Vec<char>, i: usize) -> (r: bool)
    requires
        i + p@.len() <= s@.len(),
    ensures
        r == (s@.subrange(i as int, i + p@.len()) == p@),
{
    let mut k: usize = 0;
    while k < p.len()
        invariant
            i + p@.len() <= s@.len(),
            i + p@.len() <= s.len(),
            k <= p@.len(),
            s@.subrange(i as int, i + k) == p@.take(k as int),
        decreases p.len() - k,
    {
        if s[i + k] != p[k] {
            assert(s@.subrange(i as int, i + p@.len())[k as int] == s@[i + k]);
            return false;
        }
        assert(s@.subrange(i as int, i + k + 1) =~= s@.subrange(i as int, i + k).push(s@[i + k]));
        assert(p@.take(k + 1) =~= p@.take(k as int).push(p@[k as int]));
        k = k + 1;
    }
    assert(p@.take(p@.len() as int) =~= p@);
    true
}

// ─── Decimal numbers ────────────────────────────────────────────────────

pub open spec fn is_digit(c: char) -> bool {
    '0' <= c && c <= '9'
}

pub open spec fn digit_value(c: char) -> nat {
    (c as u32 - '0' as u32) as nat
}

/// The value of a string of decimal digits.
pub open spec fn digits_value(s: Seq<char>) -> nat
    decreases s.len(),
{
    if s.len() == 0 {
        0
    } else {
        digits_value(s.drop_last()) * 10 + digit_value(s.last())
    }
}

pub open spec fn all_digits(s: Seq<char>) -> bool {
    forall|i: int| 0 <= i < s.len() ==> is_digit(#[trigger] s[i])
}

/// `str::parse::<usize>`: an optional `+`, then one or more decimal digits,
/// with a value that fits in `usize`.
pub open spec fn parse_usize(s: Seq<char>) -> Option<usize> {
    let d = if s.len() > 0 && s[0] == '+' {
        s.drop_first()
    } else {
        s
    };
    if d.len() > 0 && all_digits(d) && digits_value(d) <= usize::MAX {
        Some(digits_value(d) as usize)
    } else {
        None
    }
}

proof fn lemma_digits_value_mono(s: Seq<char>, t: Seq<char>)
    requires
        all_digits(s + t),
    ensures
        digits_value(s) <= digits_value(s + t),
    decreases t.len(),
{
    if t.len() > 0 {
        let u = s + t;
        assert(u.drop_last() =~= s + t.drop_last());
        assert(all_digits(s + t.drop_last())) by {
            assert forall|i: int| 0 <= i < (s + t.drop_last()).len() implies is_digit(
                #[trigger] (s + t.drop_last())[i],
            ) by {
                assert((s + t.drop_last())[i] == u[i]);
            }
        }
        lemma_digits_value_mono(s, t.drop_last());
    } else {
        assert(s + t =~= s);
    }
}

/// `str::parse::<usize>`.
pub fn parse_usize_str(s: &str) -> (r: Option<usize>)
    ensures
        r == parse_usize(s@),
{
    let x = chars_of(s);
    let mut start: usize = 0;
    if x.len() > 0 && x[0] == '+' {
        start = 1;
    }
    let ghost d = if x@.len() > 0 && x@[0] == '+' {
        x@.drop_first()
    } else {
        x@
    };
    assert(d =~= x@.skip(start as int));
    if start == x.len() {
        return None;
    }
    let mut v: usize = 0;
    let mut i: usize = start;
    while i < x.len()
        invariant
            start <= i <= x@.len(),
            x@ == s@,
            d == x@.skip(start as int),
            d == (if s@.len() > 0 && s@[0] == '+' {
                s@.drop_first()
            } else {
                s@
            }),
            all_digits(x@.subrange(start as int, i as int)),
            v as nat == digits_value(x@.subrange(start as int, i as int)),
        decreases x.len() - i,
    {
        let c = x[i];
        let ghost pre = x@.subrange(start as int, i as int);
        assert(x@.subrange(start as int, i + 1) =~= pre.push(c));
        assert(x@.subrange(start as int, i + 1).drop_last() =~= pre);
        if !('0' <= c && c <= '9') {
            assert(!all_digits(d)) by {
                assert(d[i - start] == c);
            }
            return None;
        }
        let dv = (c as u32 - '0' as u32) as usize;
        if v > (usize::MAX - dv) / 10 {
            proof {
                assert(digits_value(pre.push(c)) == digits_value(pre) * 10 + digit_value(c));
                assert(digits_value(pre.push(c)) > usize::MAX) by (nonlinear_arith)
                    requires
                        v > (usize::MAX - dv) / 10,
                        digits_value(pre.push(c)) == v * 10 + dv,
                        dv <= 9,
                ;
                if all_digits(d) {
                    assert(d =~= pre.push(c) + x@.skip(i + 1));
                    lemma_digits_value_mono(pre.push(c), x@.skip(i + 1));
                }
            }
            return None;
        }
        assert(v * 10 + dv <= usize::MAX) by (nonlinear_arith)
            requires
                v <= (usize::MAX - dv) / 10,
        ;
        v = v * 10 + dv;
        i = i + 1;
        assert(all_digits(x@.subrange(start as int, i as int))) by {
            assert forall|k: int| 0 <= k < x@.subrange(start as int, i as int).len() implies is_digit(
                #[trigger] x@.subrange(start as int, i as int)[k],
            ) by {
                if k < pre.len() {
                    assert(x@.subrange(start as int, i as int)[k] == pre[k]);
                }
            }
        }
    }
    assert(x@.subrange(start as int, i as int) =~= d);
    Some(v)
}

/// The decimal digits of `n`, without leading zeros (`usize::to_string`).
pub open spec fn decimal(n: nat) -> Seq<char>
    decreases n,
{
    if n < 10 {
        seq![digit_char(n)]
    } else {
        decimal(n / 10).push(digit_char(n % 10))
    }
}

pub open spec fn digit_char(d: nat) -> char {
    if d == 0 {
        '0'
    } else if d == 1 {
        '1'
    } else if d == 2 {
        '2'
    } else if d == 3 {
        '3'
    } else if d == 4 {
        '4'
    } else if d == 5 {
        '5'
    } else if d == 6 {
        '6'
    } else if d == 7 {
        '7'
    } else if d == 8 {
        '8'
    } else {
        '9'
    }
}

fn digit_of(d: u64) -> (c: char)
    requires
        d < 10,
    ensures
        c == digit_char(d as nat),
{
    if d == 0 {
        '0'
    } else if d == 1 {
        '1'
    } else if d == 2 {
        '2'
    } else if d == 3 {
        '3'
    } else if d == 4 {
        '4'
    } else if d == 5 {
        '5'
    } else if d == 6 {
        '6'
    } else if d == 7 {
        '7'
    } else if d == 8 {
        '8'
    } else {
        '9'
    }
}

/// `u64::to_string`.
pub fn decimal_string(n: u64) -> (r: String)
    ensures
        r@ == decimal(n as nat),
    decreases n,
{
    if n < 10 {
        let mut r = String::new();
        push_char(&mut r, digit_of(n));
        assert(r@ =~= seq![digit_char(n as nat)]);
        r
    } else {
        let mut r = decimal_string(n / 10);
        push_char(&mut r, digit_of(n % 10));
        r
    }
}

/// Reading back the digits of a number gives the number.
pub proof fn lemma_parse_decimal(n: usize)
    ensures
        parse_usize(decimal(n as nat)) == Some(n),
{
    lemma_decimal_digits(n as nat);
    assert(decimal(n as nat)[0] != '+') by {
        lemma_decimal_digits(n as nat);
    }
}

pub proof fn lemma_digit_char(d: nat)
    requires
        d < 10,
    ensures
        is_digit(digit_char(d)),
        digit_value(digit_char(d)) == d,
{
}

pub proof fn lemma_decimal_digits(n: nat)
    ensures
        decimal(n).len() > 0,
        all_digits(decimal(n)),
        digits_value(decimal(n)) == n,
    decreases n,
{
    lemma_digit_char(n % 10);
    if n < 10 {
        assert(n % 10 == n);
        assert(decimal(n).drop_last() =~= Seq::<char>::empty());
        assert(digits_value(decimal(n)) == digits_value(Seq::<char>::empty()) * 10 + digit_value(
            digit_char(n),
        ));
    }
    if n >= 10 {
        lemma_decimal_digits(n / 10);
        let s = decimal(n);
        assert(s.drop_last() =~= decimal(n / 10));
        assert(s.last() == digit_char(n % 10));
        assert(digits_value(s) == digits_value(decimal(n / 10)) * 10 + digit_value(s.last()));
        assert((n / 10) * 10 + n % 10 == n);
        assert forall|i: int| 0 <= i < s.len() implies is_digit(#[trigger] s[i]) by {
            if i < s.len() - 1 {
                assert(s[i] == decimal(n / 10)[i]);
            }
        }
    }
}

} // verus!
