use vstd::prelude::*;

use crate::code_intel::scan::before_first;
use crate::fjall_mr::{lines_of, text_lines};
use crate::text::{
    occurs_at, chars_of, find_char_from, first_index, first_index_from, push_str, split_once_char,
    split_once_spec, split_spec, starts_with, starts_with_seq, str_eq, strip_prefix, substring,
    views,
};
use crate::words::{
    find_from, first_occurrence, trim, trim_end_char, trim_end_char_spec, trim_spec, trim_start,
    trim_start_char, trim_start_char_spec, trim_start_spec,
};

verus! {

/// A dependency as a manifest names it: the package and, where given, its version.
pub type Dependency = (String, Option<String>);

/// The text of an optional string.
pub open spec fn opt_view(o: Option<String>) -> Option<Seq<char>> {
    match o {
        Some(s) => Some(s@),
        None => None,
    }
}

/// The texts of a list of dependencies.
pub open spec fn dep_views(v: Seq<Dependency>) -> Seq<(Seq<char>, Option<Seq<char>>)> {
    v.map_values(|d: Dependency| (d.0@, opt_view(d.1)))
}

/// The text between the first two double quotes of `s`.
pub open spec fn quoted_value_spec(s: Seq<char>) -> Option<Seq<char>> {
    match first_index(s, '"') {
        Some(i) => match first_index_from(s, '"', i + 1) {
            Some(j) => Some(s.subrange(i + 1, j)),
            None => None,
        },
        None => None,
    }
}

/// The text between the first two double quotes, as `quoted_value_spec` states it.
pub fn quoted_value(input: &str) -> (r: Option<String>)
    ensures
        opt_view(r) == quoted_value_spec(input@),
{
    let cs = chars_of(input);
    proof {
        crate::text::lemma_first_index_from(cs@, '"', 0);
    }
    match find_char_from(cs.as_slice(), '"', 0) {
        Some(i) => {
            proof {
                crate::text::lemma_first_index_from(cs@, '"', i + 1);
            }
            match find_char_from(cs.as_slice(), '"', i + 1) {
                Some(j) => Some(substring(cs.as_slice(), i + 1, j)),
                None => None,
            }
        },
        None => None,
    }
}

/// The quoted value after the first `"field"` in `s`.
pub open spec fn object_field_value_spec(s: Seq<char>, field: Seq<char>) -> Option<Seq<char>> {
    let pat = "\""@ + field + "\""@;
    match first_occurrence(s, pat, 0) {
        Some(start) => quoted_value_spec(s.skip(start + pat.len())),
        None => None,
    }
}

/// The quoted value after the first `"field"`, as `object_field_value_spec` states it.
pub fn object_field_value(input: &str, field: &str) -> (r: Option<String>)
    ensures
        opt_view(r) == object_field_value_spec(input@, field@),
{
    let mut pat = String::new();
    push_str(&mut pat, "\"");
    push_str(&mut pat, field);
    push_str(&mut pat, "\"");
    let cs = chars_of(input);
    let ps = chars_of(pat.as_str());
    proof {
        crate::words::lemma_first_occurrence(cs@, ps@, 0);
    }
    match find_from(&cs, &ps, 0) {
        Some(start) => {
            let n = cs.len();
            let rest = substring(cs.as_slice(), start + ps.len(), n);
            assert(rest@ =~= input@.skip(start + ps@.len()));
            quoted_value(rest.as_str())
        },
        None => None,
    }
}

/// A line that starts a JSON property: its quoted name and what follows the colon.
pub open spec fn json_property_spec(line: Seq<char>) -> Option<(Seq<char>, Seq<char>)> {
    if line.len() > 0 && line[0] == '"' {
        let after = line.skip(1);
        match first_index(after, '"') {
            Some(e) => {
                let rest = trim_start_spec(after.skip(e + 1));
                if rest.len() > 0 && rest[0] == ':' {
                    Some((after.take(e), trim_start_spec(rest.skip(1))))
                } else {
                    None
                }
            },
            None => None,
        }
    } else {
        None
    }
}

/// A JSON property line taken apart, as `json_property_spec` states it.
pub fn json_property(line: &str) -> (r: Option<(String, String)>)
    ensures
        match json_property_spec(line@) {
            Some((n, v)) => r matches Some(x) && x.0@ == n && x.1@ == v,
            None => r is None,
        },
{
    proof {
        reveal_strlit("\"");
        reveal_strlit(":");
    }
    proof {
        lemma_starts_with_char(line@, '"');
        assert("\""@ =~= seq!['"']);
        assert(":"@ =~= seq![':']);
    }
    let after = match strip_prefix(line, "\"") {
        Some(a) => a,
        None => return None,
    };
    let ac = chars_of(after.as_str());
    let an = ac.len();
    proof {
        crate::text::lemma_first_index_from(ac@, '"', 0);
    }
    let e = match find_char_from(ac.as_slice(), '"', 0) {
        Some(e) => e,
        None => return None,
    };
    let name = substring(ac.as_slice(), 0, e);
    let tail = substring(ac.as_slice(), e + 1, an);
    assert(name@ =~= after@.take(e as int));
    assert(tail@ =~= after@.skip(e + 1));
    let rest = trim_start(tail.as_str());
    proof {
        lemma_starts_with_char(rest@, ':');
    }
    match strip_prefix(rest.as_str(), ":") {
        Some(v) => Some((name, trim_start(v.as_str()))),
        None => None,
    }
}

proof fn lemma_starts_with_char(s: Seq<char>, c: char)
    ensures
        starts_with_seq(s, seq![c]) <==> (s.len() > 0 && s[0] == c),
{
    if s.len() > 0 && s[0] == c {
        assert(s.subrange(0, 1) =~= seq![c]);
    }
    if starts_with_seq(s, seq![c]) {
        assert(s.subrange(0, 1)[0] == c);
    }
}

/// Opening braces minus closing braces in `s`.
pub open spec fn brace_count(s: Seq<char>) -> int
    decreases s.len(),
{
    if s.len() == 0 {
        0
    } else {
        brace_count(s.drop_last()) + (if s.last() == '{' {
            1int
        } else if s.last() == '}' {
            -1int
        } else {
            0int
        })
    }
}

proof fn lemma_brace_count_bound(s: Seq<char>)
    ensures
        -s.len() <= brace_count(s) <= s.len(),
    decreases s.len(),
{
    if s.len() > 0 {
        lemma_brace_count_bound(s.drop_last());
    }
}

/// Opening braces minus closing braces on a line.
pub fn brace_delta(line: &str) -> (r: i32)
    requires
        line@.len() <= i32::MAX,
    ensures
        r == brace_count(line@),
{
    let cs = chars_of(line);
    let mut d: i32 = 0;
    let mut i: usize = 0;
    while i < cs.len()
        invariant
            cs@ == line@,
            cs@.len() <= i32::MAX,
            i <= cs.len(),
            d == brace_count(cs@.take(i as int)),
            -i <= d <= i,
        decreases cs.len() - i,
    {
        assert(cs@.take(i + 1).drop_last() =~= cs@.take(i as int));
        if cs[i] == '{' {
            d = d + 1;
        } else if cs[i] == '}' {
            d = d - 1;
        }
        i = i + 1;
    }
    assert(cs@.take(i as int) =~= line@);
    d
}

// ---------------------------------------------------------------------------
// Cargo manifests
// ---------------------------------------------------------------------------

/// A line of a Cargo manifest without its comment, trimmed.
pub open spec fn cargo_line(l: Seq<char>) -> Seq<char> {
    trim_spec(before_first(l, '#'))
}

/// The section headers whose entries are dependencies.
pub open spec fn is_dependency_header(line: Seq<char>) -> bool {
    line == "[dependencies]"@ || line == "[dev-dependencies]"@ || line
        == "[build-dependencies]"@
}

/// A version is kept unless it is a relative path.
pub open spec fn kept_version(v: Option<Seq<char>>) -> Option<Seq<char>> {
    match v {
        Some(x) => if !starts_with_seq(x, "./"@) && !starts_with_seq(x, "../"@) {
            Some(x)
        } else {
            None
        },
        None => None,
    }
}

/// The dependency a `name = value` line of a dependency section names: the name without
/// quotes, and the quoted value or the object's `version` field.
pub open spec fn cargo_entry(line: Seq<char>) -> Option<(Seq<char>, Option<Seq<char>>)> {
    match split_once_spec(line, '=') {
        Some((name, value)) => {
            let n = trim_end_char_spec(trim_start_char_spec(trim_spec(name), '"'), '"');
            let v = match quoted_value_spec(value) {
                Some(q) => Some(q),
                None => object_field_value_spec(value, "version"@),
            };
            Some((n, kept_version(v)))
        },
        None => None,
    }
}

/// After the lines `ls`: whether a dependency section is open, and the dependencies so far.
pub open spec fn cargo_fold(ls: Seq<Seq<char>>) -> (bool, Seq<(Seq<char>, Option<Seq<char>>)>)
    decreases ls.len(),
{
    if ls.len() == 0 {
        (false, Seq::empty())
    } else {
        let st = cargo_fold(ls.drop_last());
        let line = cargo_line(ls.last());
        if line.len() > 0 && line[0] == '[' {
            (is_dependency_header(line), st.1)
        } else if !st.0 || line.len() == 0 {
            st
        } else {
            match cargo_entry(line) {
                Some(d) => (st.0, st.1.push(d)),
                None => st,
            }
        }
    }
}

/// The dependencies a Cargo manifest lists in its dependency sections, in order.
pub open spec fn cargo_dependencies_spec(content: Seq<char>) -> Seq<(Seq<char>, Option<Seq<char>>)> {
    cargo_fold(text_lines(content)).1
}

fn cargo_entry_exec(line: &str) -> (r: Option<Dependency>)
    ensures
        match cargo_entry(line@) {
            Some(d) => r matches Some(x) && x.0@ == d.0 && opt_view(x.1) == d.1,
            None => r is None,
        },
{
    let (name, value) = match split_once_char(line, '=') {
        Some(p) => p,
        None => return None,
    };
    let n = trim_end_char(trim_start_char(trim(name.as_str()).as_str(), '"').as_str(), '"');
    let v = match quoted_value(value.as_str()) {
        Some(q) => Some(q),
        None => object_field_value(value.as_str(), "version"),
    };
    let v = match v {
        Some(x) => {
            if !starts_with(x.as_str(), "./") && !starts_with(x.as_str(), "../") {
                Some(x)
            } else {
                None
            }
        },
        None => None,
    };
    Some((n, v))
}

/// The dependencies of a Cargo manifest, as `cargo_dependencies_spec` states them.
pub fn cargo_dependencies(content: &str) -> (r: Vec<Dependency>)
    ensures
        dep_views(r@) == cargo_dependencies_spec(content@),
{
    let lines = lines_of(content);
    let ghost ls = views(lines@);
    let mut out: Vec<Dependency> = Vec::new();
    let mut open = false;
    let mut i: usize = 0;
    while i < lines.len()
        invariant
            ls == views(lines@),
            i <= lines.len(),
            (open, dep_views(out@)) == cargo_fold(ls.take(i as int)),
        decreases lines.len() - i,
    {
        assert(ls.take(i + 1).drop_last() =~= ls.take(i as int));
        let line = trim(before_first_line(lines[i].as_str()).as_str());
        proof {
            reveal_strlit("[");
            lemma_starts_with_char(line@, '[');
            assert("["@ =~= seq!['[']);
        }
        if starts_with(line.as_str(), "[") {
            open = str_eq(line.as_str(), "[dependencies]") || str_eq(
                line.as_str(),
                "[dev-dependencies]",
            ) || str_eq(line.as_str(), "[build-dependencies]");
        } else if open && line.unicode_len() > 0 {
            match cargo_entry_exec(line.as_str()) {
                Some(d) => {
                    let ghost before = dep_views(out@);
                    out.push(d);
                    assert(dep_views(out@) =~= before.push(dep_views(out@).last()));
                },
                None => {},
            }
        }
        i = i + 1;
    }
    assert(ls.take(i as int) =~= ls);
    out
}

fn before_first_line(s: &str) -> (r: String)
    ensures
        r@ == before_first(s@, '#'),
{
    match split_once_char(s, '#') {
        Some((a, _)) => a,
        None => crate::text::to_owned(s),
    }
}

// ---------------------------------------------------------------------------
// package.json manifests
// ---------------------------------------------------------------------------

/// A line that opens one of the dependency objects of a `package.json`.
pub open spec fn opens_dependency_object(t: Seq<char>) -> bool {
    starts_with_seq(t, "\"dependencies\""@) || starts_with_seq(t, "\"devDependencies\""@)
        || starts_with_seq(t, "\"peerDependencies\""@) || starts_with_seq(
        t,
        "\"optionalDependencies\""@,
    )
}

/// The names of the dependency objects themselves.
pub open spec fn is_dependency_object_name(n: Seq<char>) -> bool {
    n == "dependencies"@ || n == "devDependencies"@ || n == "peerDependencies"@ || n
        == "optionalDependencies"@
}

/// After the lines `ls`: whether a dependency object is open, its brace depth, and the
/// dependencies so far.
pub open spec fn npm_fold(ls: Seq<Seq<char>>) -> (bool, int, Seq<(Seq<char>, Option<Seq<char>>)>)
    decreases ls.len(),
{
    if ls.len() == 0 {
        (false, 0, Seq::empty())
    } else {
        let st = npm_fold(ls.drop_last());
        let t = trim_spec(ls.last());
        if opens_dependency_object(t) {
            (true, brace_count(t), st.2)
        } else if !st.0 {
            st
        } else {
            let deps = match json_property_spec(t) {
                Some((n, rest)) => if !is_dependency_object_name(n) {
                    st.2.push((n, quoted_value_spec(rest)))
                } else {
                    st.2
                },
                None => st.2,
            };
            let d = st.1 + brace_count(t);
            (d > 0, d, deps)
        }
    }
}

/// The dependencies a `package.json` lists in its dependency objects, in order.
pub open spec fn npm_dependencies_spec(content: Seq<char>) -> Seq<(Seq<char>, Option<Seq<char>>)> {
    npm_fold(text_lines(content)).2
}

/// The summed lengths of some texts.
pub open spec fn sum_len(ls: Seq<Seq<char>>) -> int
    decreases ls.len(),
{
    if ls.len() == 0 {
        0
    } else {
        sum_len(ls.drop_last()) + ls.last().len()
    }
}

proof fn lemma_sum_len_prepend(a: Seq<char>, rest: Seq<Seq<char>>)
    ensures
        sum_len(seq![a] + rest) == a.len() + sum_len(rest),
    decreases rest.len(),
{
    let whole = seq![a] + rest;
    if rest.len() == 0 {
        assert(whole =~= seq![a]);
        assert(whole.drop_last() =~= Seq::<Seq<char>>::empty());
        assert(sum_len(whole) == sum_len(whole.drop_last()) + whole.last().len());
        assert(sum_len(Seq::<Seq<char>>::empty()) == 0);
    } else {
        lemma_sum_len_prepend(a, rest.drop_last());
        assert(whole.drop_last() =~= seq![a] + rest.drop_last());
        assert(whole.last() == rest.last());
        assert(sum_len(whole) == sum_len(whole.drop_last()) + whole.last().len());
        assert(sum_len(rest) == sum_len(rest.drop_last()) + rest.last().len());
    }
}

proof fn lemma_split_sum(s: Seq<char>, c: char)
    ensures
        sum_len(split_spec(s, c)) <= s.len(),
    decreases s.len(),
{
    crate::text::lemma_first_index_from(s, c, 0);
    match first_index(s, c) {
        Some(i) => {
            let rest = s.subrange(i + 1, s.len() as int);
            lemma_split_sum(rest, c);
            lemma_sum_len_prepend(s.take(i), split_spec(rest, c));
            assert(split_spec(s, c) == seq![s.take(i)] + split_spec(rest, c));
        },
        None => {
            assert(split_spec(s, c) == seq![s]);
            assert(seq![s].drop_last() =~= Seq::<Seq<char>>::empty());
            assert(seq![s].last() == s);
            assert(sum_len(seq![s]) == sum_len(seq![s].drop_last()) + s.len());
            assert(sum_len(Seq::<Seq<char>>::empty()) == 0);
        },
    }
}

proof fn lemma_lines_sum(s: Seq<char>)
    ensures
        sum_len(text_lines(s)) <= s.len(),
{
    lemma_split_sum(s, '\n');
}

proof fn lemma_sum_len_take(ls: Seq<Seq<char>>, i: int)
    requires
        0 <= i <= ls.len(),
    ensures
        0 <= sum_len(ls.take(i)) <= sum_len(ls),
    decreases ls.len() - i,
{
    if i < ls.len() {
        lemma_sum_len_take(ls, i + 1);
        assert(ls.take(i + 1).drop_last() =~= ls.take(i));
        lemma_sum_len_nonneg(ls.take(i));
    } else {
        assert(ls.take(i) =~= ls);
        lemma_sum_len_nonneg(ls);
    }
}

proof fn lemma_sum_len_nonneg(ls: Seq<Seq<char>>)
    ensures
        sum_len(ls) >= 0,
    decreases ls.len(),
{
    if ls.len() > 0 {
        lemma_sum_len_nonneg(ls.drop_last());
    }
}

proof fn lemma_trim_len(s: Seq<char>)
    ensures
        trim_spec(s).len() <= s.len(),
{
    crate::words::lemma_trim_start_len(s);
    lemma_trim_end_len(crate::words::trim_start_spec(s));
}

proof fn lemma_trim_end_len(s: Seq<char>)
    ensures
        crate::words::trim_end_spec(s).len() <= s.len(),
    decreases s.len(),
{
    if s.len() > 0 {
        lemma_trim_end_len(s.drop_last());
    }
}

/// The dependencies of a `package.json`, as `npm_dependencies_spec` states them.
pub fn npm_dependencies(content: &str) -> (r: Vec<Dependency>)
    requires
        content@.len() <= i32::MAX,
    ensures
        dep_views(r@) == npm_dependencies_spec(content@),
{
    let lines = lines_of(content);
    let ghost ls = views(lines@);
    proof {
        lemma_lines_sum(content@);
    }
    let mut out: Vec<Dependency> = Vec::new();
    let mut open = false;
    let mut depth: i32 = 0;
    let mut i: usize = 0;
    while i < lines.len()
        invariant
            ls == views(lines@),
            sum_len(ls) <= i32::MAX,
            i <= lines.len(),
            (open, depth as int, dep_views(out@)) == npm_fold(ls.take(i as int)),
            -sum_len(ls.take(i as int)) <= depth <= sum_len(ls.take(i as int)),
        decreases lines.len() - i,
    {
        assert(ls.take(i + 1).drop_last() =~= ls.take(i as int));
        proof {
            lemma_sum_len_take(ls, i + 1);
            lemma_sum_len_take(ls, i as int);
        }
        let t = trim(lines[i].as_str());
        proof {
            lemma_trim_len(ls[i as int]);
            lemma_brace_count_bound(t@);
            reveal_strlit("\"dependencies\"");
            reveal_strlit("\"devDependencies\"");
            reveal_strlit("\"peerDependencies\"");
            reveal_strlit("\"optionalDependencies\"");
        }
        let ts = t.as_str();
        if starts_with(ts, "\"dependencies\"") || starts_with(ts, "\"devDependencies\"")
            || starts_with(ts, "\"peerDependencies\"") || starts_with(
            ts,
            "\"optionalDependencies\"",
        ) {
            open = true;
            depth = brace_delta(ts);
        } else if open {
            match json_property(ts) {
                Some((name, rest)) => {
                    let n = name.as_str();
                    if !(str_eq(n, "dependencies") || str_eq(n, "devDependencies") || str_eq(
                        n,
                        "peerDependencies",
                    ) || str_eq(n, "optionalDependencies")) {
                        let ghost before = dep_views(out@);
                        let q = quoted_value(rest.as_str());
                        out.push((name, q));
                        assert(dep_views(out@) =~= before.push(dep_views(out@).last()));
                    }
                },
                None => {},
            }
            depth = depth + brace_delta(ts);
            if depth <= 0 {
                open = false;
            }
        }
        i = i + 1;
    }
    assert(ls.take(i as int) =~= ls);
    out
}

/// The dependencies a manifest of the given package manager lists.
pub open spec fn manifest_dependencies_spec(manager: Seq<char>, content: Seq<char>) -> Seq<
    (Seq<char>, Option<Seq<char>>),
> {
    if manager == "cargo"@ {
        cargo_dependencies_spec(content)
    } else if manager == "npm"@ {
        npm_dependencies_spec(content)
    } else {
        Seq::empty()
    }
}

/// The dependencies of a manifest, as `manifest_dependencies_spec` states them.
pub fn manifest_dependencies(manager: &str, content: &str) -> (r: Vec<Dependency>)
    requires
        content@.len() <= i32::MAX,
    ensures
        dep_views(r@) == manifest_dependencies_spec(manager@, content@),
{
    if str_eq(manager, "cargo") {
        cargo_dependencies(content)
    } else if str_eq(manager, "npm") {
        npm_dependencies(content)
    } else {
        let r: Vec<Dependency> = Vec::new();
        assert(dep_views(r@) =~= Seq::<(Seq<char>, Option<Seq<char>>)>::empty());
        r
    }
}

} // verus!
