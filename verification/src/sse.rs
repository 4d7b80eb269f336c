//! Reading server-sent events out of a stream buffer: an event ends at a
//! blank line, and its payload is its first `data:` line.
use vstd::prelude::*;
use crate::json::{chars_of, string_of};
use crate::text::{find, find_str, has_prefix, split, split_char, starts_with};

verus! {

/// `char::is_whitespace`: the Unicode White_Space characters.
pub open spec fn is_ws(c: char) -> bool {
    ||| c == ' '
    ||| ('\u{9}' <= c && c <= '\u{d}')
    ||| c == '\u{85}'
    ||| c == '\u{a0}'
    ||| c == '\u{1680}'
    ||| ('\u{2000}' <= c && c <= '\u{200a}')
    ||| c == '\u{2028}'
    ||| c == '\u{2029}'
    ||| c == '\u{202f}'
    ||| c == '\u{205f}'
    ||| c == '\u{3000}'
}

/// Whitespace-free at both ends (`str::trim`): the first and last
/// non-whitespace characters and what lies between.
pub open spec fn trimmed(s: Seq<char>) -> Seq<char>
    decreases s.len(),
{
    if s.len() == 0 {
        s
    } else if is_ws(s[0]) {
        trimmed(s.drop_first())
    } else if is_ws(s.last()) {
        trimmed(s.drop_last())
    } else {
        s
    }
}

pub open spec fn strip_cr(l: Seq<char>) -> Seq<char> {
    if l.len() > 0 && l.last() == '\r' {
        l.drop_last()
    } else {
        l
    }
}

/// The lines of a text (`str::lines`): split at `\n`, without a final
/// empty line, each without a trailing `\r`.
pub open spec fn lines_of(s: Seq<char>) -> Seq<Seq<char>> {
    let parts = if s.len() == 0 {
        Seq::empty()
    } else if s.last() == '\n' {
        split(s, '\n').drop_last()
    } else {
        split(s, '\n')
    };
    parts.map_values(|l: Seq<char>| strip_cr(l))
}

/// The first of the lines that starts with `data:`.
pub open spec fn first_data_line(ls: Seq<Seq<char>>) -> Option<Seq<char>>
    decreases ls.len(),
{
    if ls.len() == 0 {
        None
    } else if starts_with(ls[0], "data:"@) {
        Some(ls[0])
    } else {
        first_data_line(ls.drop_first())
    }
}

/// The payload of an event: its first `data:` line, after `data:`, trimmed.
pub open spec fn event_data(event: Seq<char>) -> Option<Seq<char>> {
    match first_data_line(lines_of(trimmed(event))) {
        Some(l) => Some(trimmed(l.skip(5))),
        None => None,
    }
}

/// The first complete event of a buffer and what follows it.
pub open spec fn next_event(buffer: Seq<char>) -> Option<(Option<Seq<char>>, Seq<char>)> {
    match find(buffer, "\n\n"@) {
        Some(i) => Some((event_data(buffer.take(i)), buffer.skip(i + 2))),
        None => None,
    }
}

fn is_ws_char(c: char) -> (r: bool)
    ensures
        r == is_ws(c),
{
    c == ' ' || ('\u{9}' <= c && c <= '\u{d}') || c == '\u{85}' || c == '\u{a0}' || c == '\u{1680}'
        || ('\u{2000}' <= c && c <= '\u{200a}') || c == '\u{2028}' || c == '\u{2029}' || c
        == '\u{202f}' || c == '\u{205f}' || c == '\u{3000}'
}

proof fn lemma_trimmed_range(s: Seq<char>, a: int, b: int)
    requires
        0 <= a <= b <= s.len(),
        forall|k: int| 0 <= k < a ==> is_ws(#[trigger] s[k]),
        forall|k: int| b <= k < s.len() ==> is_ws(#[trigger] s[k]),
        a == b || (!is_ws(s[a]) && !is_ws(s[b - 1])),
    ensures
        trimmed(s) == s.subrange(a, b),
    decreases s.len(),
{
    if s.len() == 0 {
        assert(s.subrange(a, b) =~= s);
    } else if is_ws(s[0]) {
        let t = s.drop_first();
        if a == 0 {
            assert(b == 0);
            assert forall|k: int| 0 <= k < t.len() implies is_ws(#[trigger] t[k]) by {
                assert(t[k] == s[k + 1]);
            }
            lemma_trimmed_range(t, 0, 0);
            assert(t.subrange(0, 0) =~= s.subrange(a, b));
        } else {
            assert forall|k: int| 0 <= k < a - 1 implies is_ws(#[trigger] t[k]) by {
                assert(t[k] == s[k + 1]);
            }
            assert forall|k: int| b - 1 <= k < t.len() implies is_ws(#[trigger] t[k]) by {
                assert(t[k] == s[k + 1]);
            }
            if a < b {
                assert(t[a - 1] == s[a]);
                assert(t[b - 2] == s[b - 1]);
            }
            lemma_trimmed_range(t, a - 1, b - 1);
            assert(t.subrange(a - 1, b - 1) =~= s.subrange(a, b));
        }
    } else if is_ws(s.last()) {
        assert(a == 0);
        assert(b < s.len());
        let t = s.drop_last();
        assert forall|k: int| b <= k < t.len() implies is_ws(#[trigger] t[k]) by {
            assert(t[k] == s[k]);
        }
        if a < b {
            assert(t[a] == s[a]);
            assert(t[b - 1] == s[b - 1]);
        }
        lemma_trimmed_range(t, a, b);
        assert(t.subrange(a, b) =~= s.subrange(a, b));
    } else {
        assert(a == 0);
        assert(b == s.len());
        assert(s.subrange(a, b) =~= s);
    }
}

/// `str::trim` on `s[lo..hi]`.
pub fn trim_range(s: &[char], lo: usize, hi: usize) -> (r: String)
    requires
        lo <= hi <= s@.len(),
    ensures
        r@ == trimmed(s@.subrange(lo as int, hi as int)),
{
    let ghost t = s@.subrange(lo as int, hi as int);
    let mut a: usize = lo;
    while a < hi && is_ws_char(s[a])
        invariant
            lo <= a <= hi <= s@.len(),
            t == s@.subrange(lo as int, hi as int),
            forall|k: int| 0 <= k < a - lo ==> is_ws(#[trigger] t[k]),
        decreases hi - a,
    {
        assert(t[a - lo] == s@[a as int]);
        a = a + 1;
    }
    let mut b: usize = hi;
    while b > a && is_ws_char(s[b - 1])
        invariant
            lo <= a <= b <= hi <= s@.len(),
            t == s@.subrange(lo as int, hi as int),
            forall|k: int| 0 <= k < a - lo ==> is_ws(#[trigger] t[k]),
            forall|k: int| b - lo <= k < hi - lo ==> is_ws(#[trigger] t[k]),
            a == hi || !is_ws(s@[a as int]),
        decreases b - a,
    {
        assert(t[b - 1 - lo] == s@[b - 1]);
        b = b - 1;
    }
    proof {
        if a < b {
            assert(t[a - lo] == s@[a as int]);
            assert(t[b - 1 - lo] == s@[b - 1]);
        }
        lemma_trimmed_range(t, a - lo, b - lo);
        assert(t.subrange(a - lo, b - lo) =~= s@.subrange(a as int, b as int));
    }
    string_of(s, a, b)
}

/// The payload of an event: its first `data:` line, after `data:`, trimmed.
fn data_of_event(event: &str) -> (r: Option<String>)
    ensures
        match r {
            Some(d) => first_data_line(lines_of(event@)) is Some && d@ == trimmed(
                first_data_line(lines_of(event@))->0.skip(5),
            ),
            None => first_data_line(lines_of(event@)).is_none(),
        },
{
    proof {
        reveal_strlit("data:");
    }
    let x = chars_of(event);
    if x.len() == 0 {
        assert(lines_of(event@) =~= Seq::<Seq<char>>::empty());
        return None;
    }
    let parts = split_char(event, '\n');
    let ghost pv = parts@.map_values(|p: String| p@);
    proof {
        crate::text::lemma_split_len(event@, '\n');
    }
    let count = if x[x.len() - 1] == '\n' {
        parts.len() - 1
    } else {
        parts.len()
    };
    let ghost lv = lines_of(event@);
    assert(pv == split(event@, '\n'));
    assert(event@.last() == x@[x@.len() - 1]);
    let ghost base = if x@[x@.len() - 1] == '\n' {
        pv.drop_last()
    } else {
        pv
    };
    assert(lv == base.map_values(|l: Seq<char>| strip_cr(l)));
    assert(lv.len() == count);
    assert(lv.skip(0) =~= lv);
    let mut i: usize = 0;
    while i < count
        invariant
            i <= count <= parts@.len(),
            pv == parts@.map_values(|p: String| p@),
            lv == lines_of(event@),
            lv.len() == count,
            forall|k: int| 0 <= k < count ==> #[trigger] lv[k] == strip_cr(pv[k]),
            first_data_line(lv) == first_data_line(lv.skip(i as int)),
        decreases count - i,
    {
        proof {
            reveal_strlit("data:");
        }
        let line = strip_cr_string(&parts[i]);
        assert(line@ == lv[i as int]);
        let ghost rest = lv.skip(i as int);
        assert(rest[0] == lv[i as int]);
        if has_prefix(line.as_str(), "data:") {
            let y = chars_of(line.as_str());
            assert(y@.len() >= 5);
            assert(y@.subrange(5, y@.len() as int) =~= line@.skip(5));
            return Some(trim_range(y.as_slice(), 5, y.len()));
        }
        assert(rest.drop_first() =~= lv.skip(i + 1));
        i = i + 1;
    }
    assert(lv.skip(i as int) =~= Seq::<Seq<char>>::empty());
    None
}

fn strip_cr_string(l: &String) -> (r: String)
    ensures
        r@ == strip_cr(l@),
{
    let x = chars_of(l.as_str());
    if x.len() > 0 && x[x.len() - 1] == '\r' {
        string_of(x.as_slice(), 0, x.len() - 1)
    } else {
        l.clone()
    }
}

/// The first complete event of the buffer, as its data payload if it has
/// one, and the rest of the buffer; `None` until a blank line arrives.
#[verifier::rlimit(50)]
pub fn next_sse_event(buffer: &str) -> (r: Option<(Option<String>, String)>)
    ensures
        match r {
            Some((d, rest)) => next_event(buffer@) == Some((
                match d {
                    Some(x) => Some(x@),
                    None => None,
                },
                rest@,
            )),
            None => next_event(buffer@).is_none(),
        },
{
    let end = match find_str(buffer, "\n\n") {
        Some(i) => i,
        None => {
            return None;
        },
    };
    let x = chars_of(buffer);
    proof {
        reveal_strlit("\n\n");
    }
    let event = trim_range(x.as_slice(), 0, end);
    assert(x@.subrange(0, end as int) =~= buffer@.take(end as int));
    let rest = string_of(x.as_slice(), end + 2, x.len());
    assert(rest@ =~= buffer@.skip(end + 2));
    let data = data_of_event(event.as_str());
    Some((data, rest))
}

} // verus!
