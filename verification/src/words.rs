use vstd::prelude::*;

use crate::text::{chars_of, occurs_at, push_char, push_str, string_from_chars, substring, to_owned, views};

verus! {

/// `c` is white space in the sense of `char::is_whitespace` (the Unicode `White_Space`
/// property).
pub open spec fn is_ws(c: char) -> bool {
    ('\u{9}' <= c <= '\u{d}') || c == ' ' || c == '\u{85}' || c == '\u{a0}' || c == '\u{1680}'
        || ('\u{2000}' <= c <= '\u{200a}') || c == '\u{2028}' || c == '\u{2029}' || c
        == '\u{202f}' || c == '\u{205f}' || c == '\u{3000}'
}

/// `s` without leading white space.
pub open spec fn trim_start_spec(s: Seq<char>) -> Seq<char>
    decreases s.len(),
{
    if s.len() > 0 && is_ws(s[0]) {
        trim_start_spec(s.drop_first())
    } else {
        s
    }
}

/// `s` without trailing white space.
pub open spec fn trim_end_spec(s: Seq<char>) -> Seq<char>
    decreases s.len(),
{
    if s.len() > 0 && is_ws(s.last()) {
        trim_end_spec(s.drop_last())
    } else {
        s
    }
}

/// `s` without leading or trailing white space.
pub open spec fn trim_spec(s: Seq<char>) -> Seq<char> {
    trim_end_spec(trim_start_spec(s))
}

/// The index of the first white space character of `s` from `i` on, or the length.
pub open spec fn ws_end(s: Seq<char>, i: int) -> int
    decreases s.len() - i,
{
    if i < 0 || i >= s.len() || is_ws(s[i]) {
        i
    } else {
        ws_end(s, i + 1)
    }
}

/// The white-space separated words of `s` (what `str::split_whitespace` yields).
pub open spec fn ws_tokens(s: Seq<char>) -> Seq<Seq<char>>
    decreases s.len(),
{
    let t = trim_start_spec(s);
    if t.len() == 0 || t.len() > s.len() {
        Seq::empty()
    } else {
        let n = ws_end(t, 0);
        if n <= 0 || n > t.len() {
            Seq::empty()
        } else {
            seq![t.take(n)] + ws_tokens(t.skip(n))
        }
    }
}

pub proof fn lemma_trim_start_len(s: Seq<char>)
    ensures
        trim_start_spec(s).len() <= s.len(),
        trim_start_spec(s).len() > 0 ==> !is_ws(trim_start_spec(s)[0]),
        trim_start_spec(s) == s.skip(s.len() - trim_start_spec(s).len()),
    decreases s.len(),
{
    if s.len() > 0 && is_ws(s[0]) {
        lemma_trim_start_len(s.drop_first());
        assert(s.drop_first().skip(s.drop_first().len() - trim_start_spec(s).len()) =~= s.skip(
            s.len() - trim_start_spec(s).len(),
        ));
    } else {
        assert(s.skip(0) =~= s);
    }
}

pub proof fn lemma_ws_end(s: Seq<char>, i: int)
    requires
        0 <= i <= s.len(),
    ensures
        i <= ws_end(s, i) <= s.len(),
        forall|k: int| i <= k < ws_end(s, i) ==> !is_ws(#[trigger] s[k]),
        ws_end(s, i) < s.len() ==> is_ws(s[ws_end(s, i)]),
    decreases s.len() - i,
{
    if i < s.len() && !is_ws(s[i]) {
        lemma_ws_end(s, i + 1);
    }
}

/// Whether `c` is white space.
pub fn is_whitespace(c: char) -> (r: bool)
    ensures
        r == is_ws(c),
{
    ('\u{9}' <= c && c <= '\u{d}') || c == ' ' || c == '\u{85}' || c == '\u{a0}' || c
        == '\u{1680}' || ('\u{2000}' <= c && c <= '\u{200a}') || c == '\u{2028}' || c
        == '\u{2029}' || c == '\u{202f}' || c == '\u{205f}' || c == '\u{3000}'
}

/// `s` without leading or trailing white space.
pub fn trim(s: &str) -> (r: String)
    ensures
        r@ == trim_spec(s@),
{
    let cs = chars_of(s);
    let n = cs.len();
    let mut a: usize = 0;
    assert(cs@.skip(0) =~= cs@);
    while a < n && is_whitespace(cs[a])
        invariant
            n == cs@.len(),
            a <= n,
            trim_start_spec(cs@) == trim_start_spec(cs@.skip(a as int)),
        decreases n - a,
    {
        assert(cs@.skip(a as int).drop_first() =~= cs@.skip(a + 1));
        a = a + 1;
    }
    let ghost t = cs@.skip(a as int);
    assert(trim_start_spec(t) == t) by {
        if t.len() > 0 {
            assert(t[0] == cs@[a as int]);
        }
    }
    let mut b: usize = n;
    assert(t =~= cs@.subrange(a as int, b as int));
    while b > a && is_whitespace(cs[b - 1])
        invariant
            n == cs@.len(),
            a <= b <= n,
            trim_end_spec(t) == trim_end_spec(cs@.subrange(a as int, b as int)),
        decreases b,
    {
        assert(cs@.subrange(a as int, b as int).drop_last() =~= cs@.subrange(a as int, b - 1));
        b = b - 1;
    }
    let r = substring(cs.as_slice(), a, b);
    assert(trim_end_spec(cs@.subrange(a as int, b as int)) == cs@.subrange(a as int, b as int));
    assert(cs@ == s@);
    r
}

/// `s` without leading white space.
pub fn trim_start(s: &str) -> (r: String)
    ensures
        r@ == trim_start_spec(s@),
{
    let cs = chars_of(s);
    let n = cs.len();
    let mut a: usize = 0;
    assert(cs@.skip(0) =~= cs@);
    while a < n && is_whitespace(cs[a])
        invariant
            n == cs@.len(),
            cs@ == s@,
            a <= n,
            trim_start_spec(cs@) == trim_start_spec(cs@.skip(a as int)),
        decreases n - a,
    {
        assert(cs@.skip(a as int).drop_first() =~= cs@.skip(a + 1));
        a = a + 1;
    }
    let r = substring(cs.as_slice(), a, n);
    assert(r@ =~= cs@.skip(a as int));
    assert(trim_start_spec(r@) == r@) by {
        if r@.len() > 0 {
            assert(r@[0] == cs@[a as int]);
        }
    }
    r
}

/// `s` without trailing white space.
pub fn trim_end(s: &str) -> (r: String)
    ensures
        r@ == trim_end_spec(s@),
{
    let cs = chars_of(s);
    let n = cs.len();
    let mut b: usize = n;
    assert(cs@.take(n as int) =~= cs@);
    while b > 0 && is_whitespace(cs[b - 1])
        invariant
            n == cs@.len(),
            b <= n,
            trim_end_spec(cs@) == trim_end_spec(cs@.take(b as int)),
        decreases b,
    {
        assert(cs@.take(b as int).drop_last() =~= cs@.take(b - 1));
        b = b - 1;
    }
    let r = substring(cs.as_slice(), 0, b);
    assert(r@ =~= cs@.take(b as int));
    r
}

/// The white-space separated words of `s`.
pub fn split_whitespace(s: &str) -> (r: Vec<String>)
    ensures
        views(r@) == ws_tokens(s@),
{
    let cs = chars_of(s);
    let n = cs.len();
    let mut out: Vec<String> = Vec::new();
    let mut i: usize = 0;
    assert(cs@.skip(0) =~= cs@);
    while i < n
        invariant
            n == cs@.len(),
            cs@ == s@,
            i <= n,
            ws_tokens(s@) == views(out@) + ws_tokens(cs@.skip(i as int)),
        decreases n - i,
    {
        let ghost rest = cs@.skip(i as int);
        // skip white space
        let mut a = i;
        while a < n && is_whitespace(cs[a])
            invariant
                n == cs@.len(),
                i <= a <= n,
                trim_start_spec(rest) == trim_start_spec(cs@.skip(a as int)),
                rest == cs@.skip(i as int),
            decreases n - a,
        {
            assert(cs@.skip(a as int).drop_first() =~= cs@.skip(a + 1));
            a = a + 1;
        }
        let ghost t = cs@.skip(a as int);
        assert(trim_start_spec(t) == t) by {
            if t.len() > 0 {
                assert(t[0] == cs@[a as int]);
            }
        }
        proof {
            lemma_trim_start_len(rest);
        }
        if a == n {
            assert(t.len() == 0);
            assert(ws_tokens(rest) =~= Seq::<Seq<char>>::empty());
            assert(views(out@) + ws_tokens(rest) =~= views(out@));
            i = n;
            assert(cs@.skip(n as int) =~= Seq::<char>::empty());
            assert(ws_tokens(cs@.skip(n as int)) =~= Seq::<Seq<char>>::empty());
            assert(views(out@) + ws_tokens(cs@.skip(i as int)) =~= views(out@));
        } else {
            let mut b = a;
            while b < n && !is_whitespace(cs[b])
                invariant
                    n == cs@.len(),
                    a <= b <= n,
                    t == cs@.skip(a as int),
                    ws_end(t, 0) == ws_end(t, (b - a) as int),
                decreases n - b,
            {
                b = b + 1;
            }
            proof {
                lemma_ws_end(t, 0);
                assert(ws_end(t, (b - a) as int) == (b - a) as int);
            }
            let word = substring(cs.as_slice(), a, b);
            assert(word@ =~= t.take((b - a) as int));
            assert(t.skip((b - a) as int) =~= cs@.skip(b as int));
            let ghost before = out@;
            out.push(word);
            assert(views(out@) =~= views(before).push(word@));
            assert(ws_tokens(rest) == seq![t.take((b - a) as int)] + ws_tokens(cs@.skip(b as int)));
            assert(views(out@) + ws_tokens(cs@.skip(b as int)) =~= views(before) + ws_tokens(rest));
            i = b;
        }
    }
    assert(cs@.skip(n as int) =~= Seq::<char>::empty());
    assert(ws_tokens(cs@.skip(n as int)) =~= Seq::<Seq<char>>::empty());
    assert(views(out@) + Seq::<Seq<char>>::empty() =~= views(out@));
    out
}

/// The first index at or after `i` where `d` occurs in `s`.
pub open spec fn first_occurrence(s: Seq<char>, d: Seq<char>, i: int) -> Option<int>
    decreases s.len() + 1 - i,
{
    if i < 0 || i > s.len() {
        None
    } else if occurs_at(s, d, i) {
        Some(i)
    } else {
        first_occurrence(s, d, i + 1)
    }
}

/// The pieces of `s` between occurrences of a non-empty delimiter `d` (what `str::split` with a
/// string pattern yields).
pub open spec fn split_str_spec(s: Seq<char>, d: Seq<char>) -> Seq<Seq<char>>
    decreases s.len(),
{
    match first_occurrence(s, d, 0) {
        Some(i) => if d.len() > 0 && 0 <= i && i + d.len() <= s.len() {
            seq![s.take(i)] + split_str_spec(s.skip(i + d.len()), d)
        } else {
            seq![s]
        },
        None => seq![s],
    }
}

/// `s` split at the first occurrence of `d`.
pub open spec fn split_once_str_spec(s: Seq<char>, d: Seq<char>) -> Option<(Seq<char>, Seq<char>)> {
    match first_occurrence(s, d, 0) {
        Some(i) => Some((s.take(i), s.skip(i + d.len()))),
        None => None,
    }
}

/// The parts joined with `sep` between consecutive parts.
pub open spec fn join_spec(parts: Seq<Seq<char>>, sep: Seq<char>) -> Seq<char>
    decreases parts.len(),
{
    if parts.len() == 0 {
        Seq::empty()
    } else if parts.len() == 1 {
        parts[0]
    } else {
        join_spec(parts.drop_last(), sep) + sep + parts.last()
    }
}

pub proof fn lemma_first_occurrence(s: Seq<char>, d: Seq<char>, i: int)
    requires
        0 <= i <= s.len() + 1,
    ensures
        match first_occurrence(s, d, i) {
            Some(k) => i <= k <= s.len() && occurs_at(s, d, k) && forall|j: int|
                i <= j < k ==> !occurs_at(s, d, j),
            None => forall|j: int| i <= j <= s.len() ==> !occurs_at(s, d, j),
        },
    decreases s.len() + 1 - i,
{
    if i <= s.len() && !occurs_at(s, d, i) {
        lemma_first_occurrence(s, d, i + 1);
    }
}

pub fn find_from(cs: &Vec<char>, ds: &Vec<char>, from: usize) -> (r: Option<usize>)
    requires
        from <= cs@.len(),
    ensures
        match r {
            Some(k) => Some(k as int) == first_occurrence(cs@, ds@, from as int),
            None => first_occurrence(cs@, ds@, from as int) is None,
        },
{
    proof {
        lemma_first_occurrence(cs@, ds@, from as int);
    }
    let r = crate::text::find_chars_from(cs.as_slice(), ds.as_slice(), from);
    proof {
        match r {
            Some(k) => {
                let f = first_occurrence(cs@, ds@, from as int);
                if f != Some(k as int) {
                    match f {
                        Some(k2) => {
                            if k2 < k {
                            } else {
                                assert(!occurs_at(cs@, ds@, k as int));
                            }
                        },
                        None => {
                            assert(!occurs_at(cs@, ds@, k as int));
                        },
                    }
                }
            },
            None => {
                match first_occurrence(cs@, ds@, from as int) {
                    Some(k2) => {
                        assert(occurs_at(cs@, ds@, k2));
                    },
                    None => {},
                }
            },
        }
    }
    r
}

/// The pieces of `s` between occurrences of the non-empty delimiter `d`.
pub fn split_str(s: &str, d: &str) -> (r: Vec<String>)
    requires
        d@.len() > 0,
    ensures
        views(r@) == split_str_spec(s@, d@),
{
    let cs = chars_of(s);
    let ds = chars_of(d);
    let n = cs.len();
    let mut out: Vec<String> = Vec::new();
    let mut start: usize = 0;
    assert(cs@.skip(0) =~= cs@);
    loop
        invariant
            n == cs@.len(),
            cs@ == s@,
            ds@ == d@,
            ds@.len() > 0,
            start <= n,
            split_str_spec(s@, d@) == views(out@) + split_str_spec(cs@.skip(start as int), d@),
        decreases n - start,
    {
        let ghost t = cs@.skip(start as int);
        match find_from(&cs, &ds, start) {
            Some(k) => {
                proof {
                    lemma_first_occurrence(cs@, ds@, start as int);
                }
                if ds.len() > n - k {
                    assert(!occurs_at(cs@, ds@, k as int));
                    assert(false);
                }
                proof {
                    lemma_shift_occurrence(cs@, ds@, start as int);
                }
                let piece = substring(cs.as_slice(), start, k);
                assert(piece@ =~= t.take(k - start));
                assert(t.skip(k - start + ds@.len()) =~= cs@.skip(k + ds@.len()));
                let ghost before = out@;
                out.push(piece);
                assert(views(out@) =~= views(before).push(piece@));
                assert(views(out@) + split_str_spec(cs@.skip(k + ds@.len()), d@) =~= views(before)
                    + split_str_spec(t, d@));
                start = k + ds.len();
            },
            None => {
                proof {
                    lemma_shift_occurrence(cs@, ds@, start as int);
                }
                let piece = substring(cs.as_slice(), start, n);
                assert(piece@ =~= t);
                let ghost before = out@;
                out.push(piece);
                assert(views(out@) =~= views(before).push(piece@));
                assert(views(out@) =~= views(before) + split_str_spec(t, d@));
                return out;
            },
        }
    }
}

/// Occurrences in a suffix are the occurrences in the whole, shifted.
pub proof fn lemma_shift_occurrence(s: Seq<char>, d: Seq<char>, start: int)
    requires
        0 <= start <= s.len(),
    ensures
        first_occurrence(s.skip(start), d, 0) == match first_occurrence(s, d, start) {
            Some(k) => Some(k - start),
            None => None::<int>,
        },
{
    let t = s.skip(start);
    lemma_first_occurrence(s, d, start);
    lemma_first_occurrence(t, d, 0);
    assert forall|j: int| 0 <= j <= t.len() implies occurs_at(t, d, j) == occurs_at(s, d, j + start) by {
        if occurs_at(t, d, j) {
            assert(t.subrange(j, j + d.len()) =~= s.subrange(j + start, j + start + d.len()));
        }
        if occurs_at(s, d, j + start) {
            assert(t.subrange(j, j + d.len()) =~= s.subrange(j + start, j + start + d.len()));
        }
    }
    match first_occurrence(s, d, start) {
        Some(k) => {
            assert(occurs_at(t, d, k - start));
            match first_occurrence(t, d, 0) {
                Some(k2) => {
                    if k2 < k - start {
                        assert(occurs_at(s, d, k2 + start));
                    }
                    if k2 > k - start {
                        assert(!occurs_at(t, d, k - start));
                    }
                },
                None => {},
            }
        },
        None => {
            match first_occurrence(t, d, 0) {
                Some(k2) => {
                    assert(occurs_at(s, d, k2 + start));
                },
                None => {},
            }
        },
    }
}

/// `s` split at the first occurrence of `d`.
pub fn split_once_str(s: &str, d: &str) -> (r: Option<(String, String)>)
    ensures
        match r {
            Some((a, b)) => split_once_str_spec(s@, d@) == Some((a@, b@)),
            None => split_once_str_spec(s@, d@) is None,
        },
{
    let cs = chars_of(s);
    let ds = chars_of(d);
    let n = cs.len();
    match find_from(&cs, &ds, 0) {
        Some(k) => {
            proof {
                lemma_first_occurrence(cs@, ds@, 0);
            }
            if ds.len() > n - k {
                assert(!occurs_at(cs@, ds@, k as int));
                assert(false);
            }
            let a = substring(cs.as_slice(), 0, k);
            let b = substring(cs.as_slice(), k + ds.len(), n);
            assert(a@ =~= cs@.take(k as int));
            assert(b@ =~= cs@.skip(k + ds@.len()));
            Some((a, b))
        },
        None => None,
    }
}

/// The parts joined with `sep` between consecutive parts.
pub fn join(parts: &Vec<String>, sep: &str) -> (r: String)
    ensures
        r@ == join_spec(views(parts@), sep@),
{
    let mut out = String::new();
    let mut i: usize = 0;
    assert(views(parts@).take(0) =~= Seq::<Seq<char>>::empty());
    while i < parts.len()
        invariant
            i <= parts@.len(),
            out@ == join_spec(views(parts@).take(i as int), sep@),
        decreases parts.len() - i,
    {
        if i > 0 {
            push_str(&mut out, sep);
        }
        push_str(&mut out, parts[i].as_str());
        assert(views(parts@).take(i + 1).drop_last() =~= views(parts@).take(i as int));
        if i == 0 {
            assert(views(parts@).take(1) =~= seq![parts@[0]@]);
        }
        i = i + 1;
    }
    assert(views(parts@).take(i as int) =~= views(parts@));
    out
}


/// `s` without trailing copies of `c`.
pub open spec fn trim_end_char_spec(s: Seq<char>, c: char) -> Seq<char>
    decreases s.len(),
{
    if s.len() > 0 && s.last() == c {
        trim_end_char_spec(s.drop_last(), c)
    } else {
        s
    }
}

/// `s` without leading copies of `c`.
pub open spec fn trim_start_char_spec(s: Seq<char>, c: char) -> Seq<char>
    decreases s.len(),
{
    if s.len() > 0 && s[0] == c {
        trim_start_char_spec(s.drop_first(), c)
    } else {
        s
    }
}

/// `s` without leading copies of `c`.
pub fn trim_start_char(s: &str, c: char) -> (r: String)
    ensures
        r@ == trim_start_char_spec(s@, c),
{
    let cs = chars_of(s);
    let n = cs.len();
    let mut a: usize = 0;
    assert(cs@.skip(0) =~= cs@);
    while a < n && cs[a] == c
        invariant
            n == cs@.len(),
            a <= n,
            trim_start_char_spec(cs@, c) == trim_start_char_spec(cs@.skip(a as int), c),
        decreases n - a,
    {
        assert(cs@.skip(a as int).drop_first() =~= cs@.skip(a + 1));
        a = a + 1;
    }
    let r = substring(cs.as_slice(), a, n);
    assert(r@ =~= cs@.skip(a as int));
    r
}

/// `s` without trailing copies of `c`.
pub fn trim_end_char(s: &str, c: char) -> (r: String)
    ensures
        r@ == trim_end_char_spec(s@, c),
{
    let cs = chars_of(s);
    let n = cs.len();
    let mut b: usize = n;
    assert(cs@.take(n as int) =~= cs@);
    while b > 0 && cs[b - 1] == c
        invariant
            n == cs@.len(),
            b <= n,
            trim_end_char_spec(cs@, c) == trim_end_char_spec(cs@.take(b as int), c),
        decreases b,
    {
        assert(cs@.take(b as int).drop_last() =~= cs@.take(b - 1));
        b = b - 1;
    }
    let r = substring(cs.as_slice(), 0, b);
    assert(r@ =~= cs@.take(b as int));
    r
}

} // verus!
