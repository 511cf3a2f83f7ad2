use vstd::prelude::*;

use crate::code_intel::names::{ascii_alnum, is_ascii_alnum};
use crate::sorted::{insert_sorted_string, lemma_sorted_names, sorted_names, strictly_sorted};
use crate::text::{
    chars_occur_at, chars_of, first_index, first_index_from, find_char_from, is_ident_char,
    occurs_at, push_char, push_str, rsplit_once_char, rsplit_once_spec, split_char,
    split_once_char, split_once_spec, split_spec, starts_with, starts_with_seq, strip_prefix,
    strip_prefix_or_keep, strip_prefix_or_self, substring, views,
};
use crate::words::{
    find_from, first_occurrence, is_whitespace, is_ws, trim, trim_end_char, trim_end_char_spec,
    trim_spec,
};

verus! {

// ---------------------------------------------------------------------------
// Tokens
// ---------------------------------------------------------------------------

/// Which characters part the tokens of a text.
#[derive(Clone, Copy, PartialEq, Eq, Structural)]
pub enum Separators {
    /// Anything but an ASCII letter, a digit or `-`: the tokens that may be CVE ids.
    Cve,
    /// White space, quotes, commas and `]`: the tokens that may hold package references.
    PackageRef,
}

/// `c` parts tokens of the given kind.
pub open spec fn is_separator(kind: Separators, c: char) -> bool {
    match kind {
        Separators::Cve => !(ascii_alnum(c) || c == '-'),
        Separators::PackageRef => is_ws(c) || c == '"' || c == '\'' || c == ',' || c == ']',
    }
}

/// The pieces of `s` between separators, empty ones included (what `str::split` with a
/// character predicate yields).
pub open spec fn tokens_spec(s: Seq<char>, kind: Separators) -> Seq<Seq<char>>
    decreases s.len(),
{
    if s.len() == 0 {
        seq![Seq::empty()]
    } else {
        let p = tokens_spec(s.drop_last(), kind);
        if is_separator(kind, s.last()) {
            p.push(Seq::empty())
        } else {
            p.update(p.len() - 1, p.last().push(s.last()))
        }
    }
}

proof fn lemma_tokens_nonempty(s: Seq<char>, kind: Separators)
    ensures
        tokens_spec(s, kind).len() >= 1,
    decreases s.len(),
{
    if s.len() > 0 {
        lemma_tokens_nonempty(s.drop_last(), kind);
    }
}

fn separates(kind: Separators, c: char) -> (r: bool)
    ensures
        r == is_separator(kind, c),
{
    match kind {
        Separators::Cve => !(is_ascii_alnum(c) || c == '-'),
        Separators::PackageRef => is_whitespace(c) || c == '"' || c == '\'' || c == ',' || c
            == ']',
    }
}

/// The tokens of `s`, as `tokens_spec` states them.
pub fn tokens(s: &str, kind: Separators) -> (r: Vec<String>)
    ensures
        views(r@) == tokens_spec(s@, kind),
{
    let cs = chars_of(s);
    let mut out: Vec<String> = Vec::new();
    let mut cur = String::new();
    let mut i: usize = 0;
    while i < cs.len()
        invariant
            cs@ == s@,
            i <= cs.len(),
            tokens_spec(cs@.take(i as int), kind) == views(out@).push(cur@),
        decreases cs.len() - i,
    {
        let c = cs[i];
        let ghost before = views(out@).push(cur@);
        assert(cs@.take(i + 1).drop_last() =~= cs@.take(i as int));
        if separates(kind, c) {
            let done = cur;
            out.push(done);
            cur = String::new();
            assert(views(out@).push(cur@) =~= before.push(Seq::empty()));
        } else {
            push_char(&mut cur, c);
            assert(views(out@).push(cur@) =~= before.update(
                before.len() - 1,
                before.last().push(c),
            ));
        }
        i = i + 1;
    }
    assert(cs@.take(i as int) =~= s@);
    out.push(cur);
    out
}

/// What a token of the given kind yields, if anything.
pub open spec fn kept(kind: Separators, t: Seq<char>) -> Option<Seq<char>> {
    match kind {
        Separators::Cve => cve_of(t),
        Separators::PackageRef => package_ref_of(t),
    }
}

/// What the tokens of `ts` yield, gathered as a set.
pub open spec fn gathered(ts: Seq<Seq<char>>, kind: Separators) -> Set<Seq<char>>
    decreases ts.len(),
{
    if ts.len() == 0 {
        Set::empty()
    } else {
        let prev = gathered(ts.drop_last(), kind);
        match kept(kind, ts.last()) {
            Some(v) => prev.insert(v),
            None => prev,
        }
    }
}

/// A token that is a CVE id: it starts with `CVE-` and has at least thirteen characters.
pub open spec fn cve_of(t: Seq<char>) -> Option<Seq<char>> {
    if starts_with_seq(t, "CVE-"@) && t.len() >= 13 {
        Some(t)
    } else {
        None
    }
}

/// The CVE ids that a text mentions, in increasing order, each once.
pub open spec fn cve_ids_spec(content: Seq<char>) -> Seq<Seq<char>> {
    sorted_names(gathered(tokens_spec(content, Separators::Cve), Separators::Cve))
}

/// The CVE ids of a text, as `cve_ids_spec` states them.
pub fn cve_ids(content: &str) -> (r: Vec<String>)
    ensures
        views(r@) == cve_ids_spec(content@),
{
    let ts = tokens(content, Separators::Cve);
    let ghost tv = views(ts@);
    let mut out: Vec<String> = Vec::new();
    let mut i: usize = 0;
    while i < ts.len()
        invariant
            tv == views(ts@),
            i <= ts.len(),
            strictly_sorted(views(out@)),
            views(out@).to_set() == gathered(tv.take(i as int), Separators::Cve),
        decreases ts.len() - i,
    {
        assert(tv.take(i + 1).drop_last() =~= tv.take(i as int));
        let t = ts[i].as_str();
        if starts_with(t, "CVE-") && t.unicode_len() >= 13 {
            insert_sorted_string(&mut out, crate::text::to_owned(t));
        }
        i = i + 1;
    }
    assert(tv.take(i as int) =~= tv);
    proof {
        lemma_sorted_names(views(out@));
    }
    out
}

/// A character trimmed from both ends of a package reference.
pub open spec fn is_ref_edge(c: char) -> bool {
    c == '"' || c == '\'' || c == ',' || c == ']' || c == '}' || c == ')'
}

/// `s` without leading reference edge characters.
pub open spec fn trim_start_edges(s: Seq<char>) -> Seq<char>
    decreases s.len(),
{
    if s.len() > 0 && is_ref_edge(s[0]) {
        trim_start_edges(s.drop_first())
    } else {
        s
    }
}

/// `s` without trailing reference edge characters.
pub open spec fn trim_end_edges(s: Seq<char>) -> Seq<char>
    decreases s.len(),
{
    if s.len() > 0 && is_ref_edge(s.last()) {
        trim_end_edges(s.drop_last())
    } else {
        s
    }
}

/// The package reference a token holds: from its first `pkg:` on, without edge characters,
/// when that still starts with `pkg:`.
pub open spec fn package_ref_of(t: Seq<char>) -> Option<Seq<char>> {
    match first_occurrence(t, "pkg:"@, 0) {
        Some(start) => {
            let v = trim_end_edges(trim_start_edges(t.skip(start)));
            if starts_with_seq(v, "pkg:"@) {
                Some(v)
            } else {
                None
            }
        },
        None => None,
    }
}

fn is_edge(c: char) -> (r: bool)
    ensures
        r == is_ref_edge(c),
{
    c == '"' || c == '\'' || c == ',' || c == ']' || c == '}' || c == ')'
}

fn trim_edges(cs: &Vec<char>, from: usize) -> (r: String)
    requires
        from <= cs@.len(),
    ensures
        r@ == trim_end_edges(trim_start_edges(cs@.skip(from as int))),
{
    let n = cs.len();
    let mut a = from;
    while a < n && is_edge(cs[a])
        invariant
            n == cs@.len(),
            from <= a <= n,
            trim_start_edges(cs@.skip(from as int)) == trim_start_edges(cs@.skip(a as int)),
        decreases n - a,
    {
        assert(cs@.skip(a as int).drop_first() =~= cs@.skip(a + 1));
        a = a + 1;
    }
    let ghost t = cs@.skip(a as int);
    assert(trim_start_edges(t) == t) by {
        if t.len() > 0 {
            assert(t[0] == cs@[a as int]);
        }
    }
    let mut b = n;
    assert(t =~= cs@.subrange(a as int, b as int));
    while b > a && is_edge(cs[b - 1])
        invariant
            n == cs@.len(),
            a <= b <= n,
            trim_end_edges(t) == trim_end_edges(cs@.subrange(a as int, b as int)),
        decreases b,
    {
        assert(cs@.subrange(a as int, b as int).drop_last() =~= cs@.subrange(a as int, b - 1));
        b = b - 1;
    }
    let r = substring(cs.as_slice(), a, b);
    assert(trim_end_edges(r@) == r@) by {
        if r@.len() > 0 {
            assert(r@.last() == cs@[b - 1]);
        }
    }
    r
}

/// The package references that a text mentions, in increasing order, each once.
pub open spec fn package_refs_spec(content: Seq<char>) -> Seq<Seq<char>> {
    sorted_names(gathered(tokens_spec(content, Separators::PackageRef), Separators::PackageRef))
}

/// The package references of a text, as `package_refs_spec` states them.
pub fn package_refs(content: &str) -> (r: Vec<String>)
    ensures
        views(r@) == package_refs_spec(content@),
{
    let ts = tokens(content, Separators::PackageRef);
    let ghost tv = views(ts@);
    let pat = chars_of("pkg:");
    let mut out: Vec<String> = Vec::new();
    let mut i: usize = 0;
    while i < ts.len()
        invariant
            tv == views(ts@),
            pat@ == "pkg:"@,
            i <= ts.len(),
            strictly_sorted(views(out@)),
            views(out@).to_set() == gathered(tv.take(i as int), Separators::PackageRef),
        decreases ts.len() - i,
    {
        assert(tv.take(i + 1).drop_last() =~= tv.take(i as int));
        let tc = chars_of(ts[i].as_str());
        proof {
            crate::words::lemma_first_occurrence(tc@, pat@, 0);
        }
        match find_from(&tc, &pat, 0) {
            Some(start) => {
                let v = trim_edges(&tc, start);
                if starts_with(v.as_str(), "pkg:") {
                    insert_sorted_string(&mut out, v);
                }
            },
            None => {},
        }
        i = i + 1;
    }
    assert(tv.take(i as int) =~= tv);
    proof {
        lemma_sorted_names(views(out@));
    }
    out
}

/// The text before the first `c` of `s` (the first piece of `str::split`).
pub open spec fn before_first(s: Seq<char>, c: char) -> Seq<char> {
    match first_index(s, c) {
        Some(i) => s.take(i),
        None => s,
    }
}

fn before_first_exec(s: &str, c: char) -> (r: String)
    ensures
        r@ == before_first(s@, c),
{
    match split_once_char(s, c) {
        Some((a, _)) => a,
        None => s.to_string(),
    }
}

/// A package reference `pkg:manager/name@version?qualifiers` taken apart: manager, name and
/// version, the name being all before the qualifiers when no `@` follows a non-empty name.
pub open spec fn parse_package_ref_spec(r: Seq<char>) -> Option<
    (Seq<char>, Seq<char>, Option<Seq<char>>),
> {
    if starts_with_seq(r, "pkg:"@) {
        match split_once_spec(r.skip(4), '/') {
            Some((manager, nv0)) => {
                let nv = before_first(nv0, '?');
                match rsplit_once_spec(nv, '@') {
                    Some((name, version)) => if name.len() > 0 {
                        Some((manager, name, Some(version)))
                    } else {
                        Some((manager, nv, None))
                    },
                    None => Some((manager, nv, None)),
                }
            },
            None => None,
        }
    } else {
        None
    }
}

/// A package reference taken apart, as `parse_package_ref_spec` states it.
pub fn parse_package_ref(package_ref: &str) -> (r: Option<(String, String, Option<String>)>)
    ensures
        match parse_package_ref_spec(package_ref@) {
            Some((m, n, v)) => r matches Some(x) && x.0@ == m && x.1@ == n && match v {
                Some(w) => x.2 matches Some(y) && y@ == w,
                None => x.2 is None,
            },
            None => r is None,
        },
{
    let rest = match strip_prefix(package_ref, "pkg:") {
        Some(rest) => rest,
        None => return None,
    };
    proof {
        reveal_strlit("pkg:");
    }
    let (manager, nv0) = match split_once_char(rest.as_str(), '/') {
        Some(p) => p,
        None => return None,
    };
    let nv = before_first_exec(nv0.as_str(), '?');
    match rsplit_once_char(nv.as_str(), '@') {
        Some((name, version)) => {
            if name.unicode_len() > 0 {
                Some((manager, name, Some(version)))
            } else {
                Some((manager, nv, None))
            }
        },
        None => Some((manager, nv, None)),
    }
}

// ---------------------------------------------------------------------------
// Imports
// ---------------------------------------------------------------------------

/// The leading run of ASCII letters, digits and `_` of `v`.
pub open spec fn ident_prefix(v: Seq<char>) -> Seq<char>
    decreases v.len(),
{
    if v.len() > 0 && is_ident_char(v[0]) {
        seq![v[0]] + ident_prefix(v.drop_first())
    } else {
        Seq::empty()
    }
}

/// The first run of ASCII letters, digits and `_` in `v`.
pub open spec fn first_ident_run(v: Seq<char>) -> Option<Seq<char>>
    decreases v.len(),
{
    if v.len() == 0 {
        None
    } else if is_ident_char(v[0]) {
        Some(ident_prefix(v))
    } else {
        first_ident_run(v.drop_first())
    }
}

fn ident_char(c: char) -> (r: bool)
    ensures
        r == is_ident_char(c),
{
    ('a' <= c && c <= 'z') || ('A' <= c && c <= 'Z') || ('0' <= c && c <= '9') || c == '_'
}

fn first_ident_run_exec(v: &str) -> (r: Option<String>)
    ensures
        match first_ident_run(v@) {
            Some(x) => r matches Some(y) && y@ == x,
            None => r is None,
        },
{
    let cs = chars_of(v);
    let n = cs.len();
    let mut a: usize = 0;
    assert(cs@.skip(0) =~= cs@);
    while a < n && !ident_char(cs[a])
        invariant
            cs@ == v@,
            n == cs@.len(),
            a <= n,
            first_ident_run(cs@) == first_ident_run(cs@.skip(a as int)),
        decreases n - a,
    {
        assert(cs@.skip(a as int).drop_first() =~= cs@.skip(a + 1));
        a = a + 1;
    }
    if a == n {
        return None;
    }
    let mut b = a;
    assert(cs@.skip(a as int) =~= cs@.subrange(a as int, a as int) + cs@.skip(b as int));
    while b < n && ident_char(cs[b])
        invariant
            n == cs@.len(),
            a <= b <= n,
            ident_prefix(cs@.skip(a as int)) == cs@.subrange(a as int, b as int) + ident_prefix(
                cs@.skip(b as int),
            ),
        decreases n - b,
    {
        assert(cs@.skip(b as int).drop_first() =~= cs@.skip(b + 1));
        assert(cs@.subrange(a as int, b + 1) =~= cs@.subrange(a as int, b as int) + seq![
            cs@[b as int],
        ]);
        b = b + 1;
    }
    assert(ident_prefix(cs@.skip(b as int)) =~= Seq::<char>::empty()) by {
        if b < n {
            assert(cs@.skip(b as int)[0] == cs@[b as int]);
        }
    }
    let r = substring(cs.as_slice(), a, b);
    assert(r@ =~= cs@.subrange(a as int, b as int) + Seq::<char>::empty());
    Some(r)
}

/// The crate or module a `use` declaration starts from: after `use`, the first run of
/// identifier characters, a leading `::` skipped.
pub open spec fn rust_import_root_spec(text: Seq<char>) -> Option<Seq<char>> {
    let t = trim_spec(text);
    if starts_with_seq(t, "use"@) {
        let u = trim_spec(trim_end_char_spec(trim_spec(t.skip(3)), ';'));
        first_ident_run(strip_prefix_or_self(u, "::"@))
    } else {
        None
    }
}

/// The root a `use` declaration imports, as `rust_import_root_spec` states it.
pub fn rust_import_root(use_declaration: &str) -> (r: Option<String>)
    ensures
        match rust_import_root_spec(use_declaration@) {
            Some(x) => r matches Some(y) && y@ == x,
            None => r is None,
        },
{
    let t = trim(use_declaration);
    proof {
        reveal_strlit("use");
    }
    match strip_prefix(t.as_str(), "use") {
        Some(rest) => {
            let u = trim(trim_end_char(trim(rest.as_str()).as_str(), ';').as_str());
            let v = strip_prefix_or_keep(u.as_str(), "::");
            first_ident_run_exec(v.as_str())
        },
        None => None,
    }
}

/// The last index at or below `i` where `d` occurs in `s`.
pub open spec fn last_occurrence(s: Seq<char>, d: Seq<char>, i: int) -> Option<int>
    decreases i + 1,
{
    if i < 0 {
        None
    } else if occurs_at(s, d, i) {
        Some(i)
    } else {
        last_occurrence(s, d, i - 1)
    }
}

/// `s` split at the last occurrence of `d` (what `str::rsplit_once` with a string does).
pub open spec fn rsplit_once_str_spec(s: Seq<char>, d: Seq<char>) -> Option<(Seq<char>, Seq<char>)> {
    match last_occurrence(s, d, s.len() as int) {
        Some(i) => Some((s.take(i), s.skip(i + d.len()))),
        None => None,
    }
}

pub(crate) fn rsplit_once_str(s: &str, d: &str) -> (r: Option<(String, String)>)
    ensures
        match rsplit_once_str_spec(s@, d@) {
            Some((head, rest)) => r matches Some((x, y)) && x@ == head && y@ == rest,
            None => r is None,
        },
{
    let cs = chars_of(s);
    let ds = chars_of(d);
    let mut i: usize = 0;
    let mut found: Option<usize> = None;
    while i < cs.len()
        invariant
            cs@ == s@,
            ds@ == d@,
            i <= cs.len(),
            match found {
                Some(k) => k < i && last_occurrence(s@, d@, i - 1) == Some(k as int) && occurs_at(
                    s@,
                    d@,
                    k as int,
                ),
                None => last_occurrence(s@, d@, i - 1) is None,
            },
        decreases cs.len() - i,
    {
        if chars_occur_at(cs.as_slice(), ds.as_slice(), i) {
            found = Some(i);
        }
        i = i + 1;
    }
    if chars_occur_at(cs.as_slice(), ds.as_slice(), i) {
        found = Some(i);
    }
    match found {
        Some(k) => {
            let head = substring(cs.as_slice(), 0, k);
            let rest = substring(cs.as_slice(), k + ds.len(), cs.len());
            assert(head@ =~= s@.take(k as int));
            assert(rest@ =~= s@.skip(k + d@.len()));
            Some((head, rest))
        },
        None => None,
    }
}

/// The text between the first quote of `s` (single or double) and the next quote of the
/// same kind.
pub open spec fn first_quote(s: Seq<char>, from: int) -> Option<int>
    decreases s.len() - from,
{
    if from < 0 || from >= s.len() {
        None
    } else if s[from] == '\'' || s[from] == '"' {
        Some(from)
    } else {
        first_quote(s, from + 1)
    }
}

/// What a quoted import names: the text inside the first pair of matching quotes.
pub open spec fn quoted_import_value_spec(s: Seq<char>) -> Option<Seq<char>> {
    match first_quote(s, 0) {
        Some(k) => match first_index_from(s, s[k], k + 1) {
            Some(j) => Some(s.subrange(k + 1, j)),
            None => None,
        },
        None => None,
    }
}

/// The text inside the first pair of matching quotes, as `quoted_import_value_spec` states it.
pub fn quoted_import_value(input: &str) -> (r: Option<String>)
    ensures
        match quoted_import_value_spec(input@) {
            Some(x) => r matches Some(y) && y@ == x,
            None => r is None,
        },
{
    let cs = chars_of(input);
    let mut k: usize = 0;
    while k < cs.len() && cs[k] != '\'' && cs[k] != '"'
        invariant
            cs@ == input@,
            k <= cs.len(),
            first_quote(cs@, 0) == first_quote(cs@, k as int),
        decreases cs.len() - k,
    {
        k = k + 1;
    }
    if k == cs.len() {
        return None;
    }
    let q = cs[k];
    match find_char_from(cs.as_slice(), q, k + 1) {
        Some(j) => {
            proof {
                crate::text::lemma_first_index_from(cs@, q, k + 1);
            }
            Some(substring(cs.as_slice(), k + 1, j))
        },
        None => None,
    }
}

/// The package an import path names: `@scope/name` for a scoped path, else the first
/// segment.
pub open spec fn package_root_spec(import: Seq<char>) -> Seq<char> {
    let parts = split_spec(import, '/');
    if starts_with_seq(import, "@"@) {
        parts[0] + "/"@ + (if parts.len() > 1 {
            parts[1]
        } else {
            Seq::empty()
        })
    } else {
        parts[0]
    }
}

proof fn lemma_split_nonempty(s: Seq<char>, c: char)
    ensures
        split_spec(s, c).len() >= 1,
    decreases s.len(),
{
    reveal_with_fuel(split_spec, 2);
}

/// The package an import path names, as `package_root_spec` states it.
pub fn package_root(import: &str) -> (r: String)
    ensures
        r@ == package_root_spec(import@),
{
    let parts = split_char(import, '/');
    proof {
        lemma_split_nonempty(import@, '/');
    }
    if starts_with(import, "@") {
        let mut out = parts[0].clone();
        push_str(&mut out, "/");
        if parts.len() > 1 {
            push_str(&mut out, parts[1].as_str());
        }
        out
    } else {
        parts[0].clone()
    }
}

fn package_root_opt(v: Option<String>) -> (r: Option<String>)
    ensures
        match v {
            Some(x) => r matches Some(y) && y@ == package_root_spec(x@),
            None => r is None,
        },
{
    match v {
        Some(x) => Some(package_root(x.as_str())),
        None => None,
    }
}

/// The package root of an optional quoted import.
pub open spec fn root_of(v: Option<Seq<char>>) -> Option<Seq<char>> {
    match v {
        Some(x) => Some(package_root_spec(x)),
        None => None,
    }
}

/// The package a line of JavaScript imports: from an `import ... from '...'` line, an
/// `import '...'` line, or a `require('...')` call.
pub open spec fn js_import_package_spec(line: Seq<char>) -> Option<Seq<char>> {
    let t = trim_spec(line);
    if starts_with_seq(t, "import "@) {
        match rsplit_once_str_spec(t, " from "@) {
            Some((_, rest)) => root_of(quoted_import_value_spec(rest)),
            None => root_of(quoted_import_value_spec(t)),
        }
    } else {
        match first_occurrence(t, "require("@, 0) {
            Some(i) => root_of(quoted_import_value_spec(t.skip(i + 8))),
            None => None,
        }
    }
}

/// The package a line of JavaScript imports, as `js_import_package_spec` states it.
pub fn js_import_package(line: &str) -> (r: Option<String>)
    ensures
        match js_import_package_spec(line@) {
            Some(x) => r matches Some(y) && y@ == x,
            None => r is None,
        },
{
    let t = trim(line);
    if starts_with(t.as_str(), "import ") {
        match rsplit_once_str(t.as_str(), " from ") {
            Some((_, rest)) => package_root_opt(quoted_import_value(rest.as_str())),
            None => package_root_opt(quoted_import_value(t.as_str())),
        }
    } else {
        let tc = chars_of(t.as_str());
        let pat = chars_of("require(");
        proof {
            reveal_strlit("require(");
        }
        proof {
            crate::words::lemma_first_occurrence(tc@, pat@, 0);
        }
        match find_from(&tc, &pat, 0) {
            Some(i) => {
                let rest = substring(tc.as_slice(), i + 8, tc.len());
                assert(rest@ =~= t@.skip(i + 8));
                package_root_opt(quoted_import_value(rest.as_str()))
            },
            None => None,
        }
    }
}

} // verus!
