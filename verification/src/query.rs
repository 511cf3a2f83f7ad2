use vstd::prelude::*;

use crate::domain::{
    RyaIri, RyaStatement, RyaStatementModel, RyaType, RyaTypeModel, opt_iri_clone, opt_iri_view,
    opt_view,
};
use crate::strmap::StrMap;
use crate::text::{contains_seq, ends_with_seq, starts_with_seq, str_eq, to_owned, views};

verus! {

/// Limits and filters of a query.
pub struct QueryOptions {
    pub limit: Option<usize>,
    pub ttl_millis: Option<u64>,
    pub current_time_millis: Option<u64>,
    pub start_time_millis: Option<u64>,
    pub end_time_millis: Option<u64>,
    pub regex_subject: Option<String>,
    pub regex_predicate: Option<String>,
    pub regex_object: Option<String>,
    pub auths: Vec<String>,
}

impl QueryOptions {
    /// No limit, no filter and no authorizations.
    pub fn new() -> (r: Self)
        ensures
            r.limit is None,
            r.ttl_millis is None,
            r.current_time_millis is None,
            r.start_time_millis is None,
            r.end_time_millis is None,
            r.regex_subject is None,
            r.regex_predicate is None,
            r.regex_object is None,
            r.auths@.len() == 0,
    {
        QueryOptions {
            limit: None,
            ttl_millis: None,
            current_time_millis: None,
            start_time_millis: None,
            end_time_millis: None,
            regex_subject: None,
            regex_predicate: None,
            regex_object: None,
            auths: Vec::new(),
        }
    }

    /// The same options with the distinct given authorizations, in increasing order.
    pub fn with_auths(self, auths: Vec<String>) -> (r: Self)
        ensures
            crate::sorted::strictly_sorted(views(r.auths@)),
            views(r.auths@).to_set() == views(auths@).to_set(),
            r.limit == self.limit,
            r.ttl_millis == self.ttl_millis,
            r.current_time_millis == self.current_time_millis,
            r.start_time_millis == self.start_time_millis,
            r.end_time_millis == self.end_time_millis,
            opt_view(r.regex_subject) == opt_view(self.regex_subject),
            opt_view(r.regex_predicate) == opt_view(self.regex_predicate),
            opt_view(r.regex_object) == opt_view(self.regex_object),
    {
        let mut s = self;
        s.auths = sorted_strings(auths);
        s
    }
}

/// The distinct strings of a list, in increasing order.
pub fn sorted_strings(v: Vec<String>) -> (r: Vec<String>)
    ensures
        crate::sorted::strictly_sorted(views(r@)),
        views(r@).to_set() == views(v@).to_set(),
{
    let mut out: Vec<String> = Vec::new();
    let mut i: usize = 0;
    assert(views(out@).to_set() =~= views(v@).take(0).to_set());
    while i < v.len()
        invariant
            i <= v@.len(),
            crate::sorted::strictly_sorted(views(out@)),
            views(out@).to_set() == views(v@).take(i as int).to_set(),
        decreases v.len() - i,
    {
        let x = v[i].clone();
        let ghost xm = x@;
        crate::sorted::insert_sorted_string(&mut out, x);
        proof {
            assert(views(v@).take(i + 1) =~= views(v@).take(i as int).push(xm));
            crate::pcj::lemma_push_to_set(views(v@).take(i as int), xm);
        }
        i = i + 1;
    }
    assert(views(v@).take(i as int) =~= views(v@));
    out
}

/// A pattern of statements: each present part must match.
pub struct StatementPattern {
    pub subject: Option<RyaIri>,
    pub predicate: Option<RyaIri>,
    pub object: Option<RyaType>,
    pub context: Option<RyaIri>,
    pub qualifier: Option<String>,
}

pub open spec fn opt_type_view(o: Option<RyaType>) -> Option<RyaTypeModel> {
    match o {
        Some(t) => Some(t@),
        None => None,
    }
}

impl StatementPattern {
    /// A pattern on subject, predicate and object, with no context or qualifier.
    pub fn new(subject: Option<RyaIri>, predicate: Option<RyaIri>, object: Option<RyaType>) -> (r: Self)
        ensures
            opt_iri_view(r.subject) == opt_iri_view(subject),
            opt_iri_view(r.predicate) == opt_iri_view(predicate),
            opt_type_view(r.object) == opt_type_view(object),
            r.context is None,
            r.qualifier is None,
    {
        StatementPattern { subject, predicate, object, context: None, qualifier: None }
    }
}

impl Clone for StatementPattern {
    fn clone(&self) -> (r: Self)
        ensures
            opt_iri_view(r.subject) == opt_iri_view(self.subject),
            opt_iri_view(r.predicate) == opt_iri_view(self.predicate),
            opt_type_view(r.object) == opt_type_view(self.object),
            opt_iri_view(r.context) == opt_iri_view(self.context),
            opt_view(r.qualifier) == opt_view(self.qualifier),
    {
        StatementPattern {
            subject: opt_iri_clone(&self.subject),
            predicate: opt_iri_clone(&self.predicate),
            object: match &self.object {
                Some(o) => Some(o.clone()),
                None => None,
            },
            context: opt_iri_clone(&self.context),
            qualifier: crate::domain::opt_clone(&self.qualifier),
        }
    }
}

/// How a multi-pattern join is carried out; all give the same results here.
#[derive(Clone, Copy, Debug, PartialEq, Eq, Structural)]
pub enum JoinStrategy {
    Hash,
    Iterative,
    Merge,
}

/// A statement pattern as values.
pub struct PatternModel {
    pub subject: Option<RyaTypeModel>,
    pub predicate: Option<RyaTypeModel>,
    pub object: Option<RyaTypeModel>,
    pub context: Option<RyaTypeModel>,
    pub qualifier: Option<Seq<char>>,
}

pub open spec fn pattern_model(p: StatementPattern) -> PatternModel {
    PatternModel {
        subject: opt_iri_view(p.subject),
        predicate: opt_iri_view(p.predicate),
        object: opt_type_view(p.object),
        context: opt_iri_view(p.context),
        qualifier: opt_view(p.qualifier),
    }
}

/// Whether a statement matches each present part of the pattern.
pub open spec fn matches_pattern_spec(st: RyaStatementModel, p: PatternModel) -> bool {
    &&& (p.subject matches Some(v) ==> v == st.subject)
    &&& (p.predicate matches Some(v) ==> v == st.predicate)
    &&& (p.object matches Some(v) ==> v == st.object)
    &&& (p.context matches Some(v) ==> st.context == Some(v))
    &&& (p.qualifier matches Some(v) ==> st.qualifier == Some(v))
}

/// The candidates a pattern with one-character classes `[...]` expands to, continuing from
/// `out` with the characters `rest`.
pub open spec fn expand_from(out: Seq<Seq<char>>, rest: Seq<char>) -> Seq<Seq<char>>
    decreases rest.len(),
{
    if rest.len() == 0 {
        out
    } else if rest[0] == '[' {
        let body = rest.skip(1);
        match crate::text::first_index(body, ']') {
            Some(close) => {
                let class = body.take(close);
                let next = if class.len() > 0 {
                    product(out, class)
                } else {
                    out.map_values(|p: Seq<char>| p + seq!['['] + class)
                };
                if 0 <= close < body.len() {
                    expand_from(next, body.skip(close + 1))
                } else {
                    next
                }
            },
            None => out.map_values(|p: Seq<char>| p + seq!['['] + body),
        }
    } else {
        expand_from(out.map_values(|p: Seq<char>| p.push(rest[0])), rest.skip(1))
    }
}

/// Each prefix extended by each character of the class, prefixes outermost.
pub open spec fn product(out: Seq<Seq<char>>, class: Seq<char>) -> Seq<Seq<char>>
    decreases out.len(),
{
    if out.len() == 0 {
        Seq::empty()
    } else {
        product(out.drop_last(), class) + class.map_values(|c: char| out.last().push(c))
    }
}

/// Whether a value matches a candidate: `.*x.*` means contains `x`; anything else must equal.
pub open spec fn candidate_matches(c: Seq<char>, value: Seq<char>) -> bool {
    if starts_with_seq(c, ".*"@) && ends_with_seq(c.skip(2), ".*"@) {
        contains_seq(value, c.skip(2).take(c.len() - 4))
    } else {
        value == c
    }
}

/// Whether a value matches an optional simple pattern.
pub open spec fn regex_matches_spec(pattern: Option<Seq<char>>, value: Seq<char>) -> bool {
    match pattern {
        None => true,
        Some(p) => some_candidate(expand_from(seq![Seq::empty()], p), value),
    }
}

/// Some candidate of the list matches the value.
pub open spec fn some_candidate(cs: Seq<Seq<char>>, value: Seq<char>) -> bool
    decreases cs.len(),
{
    if cs.len() == 0 {
        false
    } else {
        some_candidate(cs.drop_last(), value) || candidate_matches(cs.last(), value)
    }
}

pub proof fn lemma_some_candidate_prefix(cs: Seq<Seq<char>>, value: Seq<char>, i: int)
    requires
        0 <= i <= cs.len(),
    ensures
        some_candidate(cs.take(i), value) ==> some_candidate(cs, value),
        (forall|k: int| 0 <= k < cs.len() ==> !candidate_matches(#[trigger] cs[k], value)) ==> !some_candidate(cs, value),
    decreases cs.len(),
{
    if cs.len() > 0 {
        if i == cs.len() {
            assert(cs.take(i) =~= cs);
        } else {
            assert(cs.drop_last().take(i) =~= cs.take(i));
        }
        let j = if i == cs.len() { i - 1 } else { i };
        lemma_some_candidate_prefix(cs.drop_last(), value, j);
        if forall|k: int| 0 <= k < cs.len() ==> !candidate_matches(#[trigger] cs[k], value) {
            assert forall|k: int| 0 <= k < cs.drop_last().len() implies !candidate_matches(#[trigger] cs.drop_last()[k], value) by {
                assert(cs.drop_last()[k] == cs[k]);
            }
            assert(!candidate_matches(cs[cs.len() - 1], value));
        }
        if i == cs.len() {
        } else {
            assert(cs.drop_last().take(i) =~= cs.take(i));
        }
    } else {
        assert(cs.take(i) =~= cs);
    }
}

/// A statement's parts match the options' patterns.
pub open spec fn matches_regexes_spec(st: RyaStatementModel, o: QueryOptions) -> bool {
    &&& regex_matches_spec(opt_view(o.regex_subject), st.subject.data)
    &&& regex_matches_spec(opt_view(o.regex_predicate), st.predicate.data)
    &&& regex_matches_spec(opt_view(o.regex_object), st.object.data)
}

/// A term of a visibility expression without white space and parentheses.
pub open spec fn clean_term(t: Seq<char>) -> Seq<char> {
    crate::pcj::clean_term_spec(t)
}

/// Every non-empty cleaned term of the alternative is an authorization.
pub open spec fn alternative_ok(d: Seq<char>, auths: Seq<Seq<char>>) -> bool {
    forall|j: int| 0 <= j < crate::text::split_spec(d, '&').len() ==> (clean_term(#[trigger] crate::text::split_spec(d, '&')[j]).len() == 0
        || auths.contains(clean_term(crate::text::split_spec(d, '&')[j])))
}

/// Whether a reader with the authorizations may see a statement with this column visibility.
pub open spec fn statement_visible(cv: Option<Seq<u8>>, auths: Seq<Seq<char>>) -> bool {
    match cv {
        None => true,
        Some(b) => if b.len() == 0 {
            true
        } else if auths.len() == 0 {
            false
        } else {
            let e = crate::bytes::utf8_lossy_text(b);
            exists|i: int| 0 <= i < crate::text::split_spec(e, '|').len() && #[trigger] alternative_ok(crate::text::split_spec(e, '|')[i], auths)
        },
    }
}

/// Whether a timestamp passes the time window and time-to-live of a query.
pub open spec fn ttl_allowed_spec(ts: u64, ttl: Option<u64>, now: Option<u64>, start: Option<u64>, end: Option<u64>) -> bool {
    &&& (start matches Some(s) ==> ts > s)
    &&& (end matches Some(e) ==> ts <= e)
    &&& match (ttl, now) {
        (Some(t), Some(n)) => ts <= n && n - ts < t,
        _ => true,
    }
}

pub fn ttl_allowed(timestamp: u64, ttl_millis: Option<u64>, current_time_millis: Option<u64>, start_time_millis: Option<u64>, end_time_millis: Option<u64>) -> (r: bool)
    ensures
        r == ttl_allowed_spec(timestamp, ttl_millis, current_time_millis, start_time_millis, end_time_millis),
{
    if let Some(start_time) = start_time_millis {
        if timestamp <= start_time {
            return false;
        }
    }
    if let Some(end_time) = end_time_millis {
        if timestamp > end_time {
            return false;
        }
    }
    match (ttl_millis, current_time_millis) {
        (Some(ttl), Some(current_time)) => {
            if timestamp > current_time {
                false
            } else {
                current_time - timestamp < ttl
            }
        },
        _ => true,
    }
}


/// Each string with `c` appended.
fn push_to_each(out: &Vec<String>, tail: &str) -> (r: Vec<String>)
    ensures
        views(r@) == views(out@).map_values(|p: Seq<char>| p + tail@),
{
    let mut next: Vec<String> = Vec::new();
    let mut a: usize = 0;
    while a < out.len()
        invariant
            a <= out@.len(),
            views(next@) == views(out@).take(a as int).map_values(|p: Seq<char>| p + tail@),
        decreases out.len() - a,
    {
        let s = crate::text::concat(out[a].as_str(), tail);
        let ghost before = next@;
        let ghost sm = s@;
        next.push(s);
        assert(views(next@) =~= views(before).push(sm));
        assert(views(out@).take(a + 1).map_values(|p: Seq<char>| p + tail@) =~= views(out@).take(a as int).map_values(|p: Seq<char>| p + tail@).push(out@[a as int]@ + tail@));
        a = a + 1;
    }
    assert(views(out@).take(a as int) =~= views(out@));
    next
}

fn product_exec(out: &Vec<String>, class: &[char]) -> (r: Vec<String>)
    ensures
        views(r@) == product(views(out@), class@),
{
    let mut next: Vec<String> = Vec::new();
    let mut a: usize = 0;
    assert(views(out@).take(0) =~= Seq::<Seq<char>>::empty());
    while a < out.len()
        invariant
            a <= out@.len(),
            views(next@) == product(views(out@).take(a as int), class@),
        decreases out.len() - a,
    {
        assert(views(out@).take(a + 1).drop_last() =~= views(out@).take(a as int));
        assert(views(out@).take(a + 1).last() == out@[a as int]@);
        let ghost base = views(next@);
        let mut b: usize = 0;
        while b < class.len()
            invariant
                a < out@.len(),
                b <= class@.len(),
                views(next@) == base + class@.take(b as int).map_values(|c: char| out@[a as int]@.push(c)),
            decreases class.len() - b,
        {
            let mut s = out[a].clone();
            crate::text::push_char(&mut s, class[b]);
            let ghost before = next@;
            let ghost sm = s@;
            next.push(s);
            assert(views(next@) =~= views(before).push(sm));
            assert(class@.take(b + 1).map_values(|c: char| out@[a as int]@.push(c)) =~= class@.take(b as int).map_values(|c: char| out@[a as int]@.push(c)).push(out@[a as int]@.push(class@[b as int])));
            b = b + 1;
        }
        assert(class@.take(b as int) =~= class@);
        a = a + 1;
    }
    assert(views(out@).take(a as int) =~= views(out@));
    next
}

/// The candidates of a simple pattern: each one-character class `[...]` is expanded to its
/// characters; an unclosed or empty class stays as text (an empty class loses its `]`).
pub fn expand_single_char_classes(pattern: &str) -> (r: Vec<String>)
    ensures
        views(r@) == expand_from(seq![Seq::<char>::empty()], pattern@),
{
    let p = crate::text::chars_of(pattern);
    let n = p.len();
    let mut out: Vec<String> = Vec::new();
    out.push(String::new());
    assert(views(out@) =~= seq![Seq::<char>::empty()]);
    let mut i: usize = 0;
    assert(p@.skip(0) =~= p@);
    while i < n
        invariant
            n == p@.len(),
            p@ == pattern@,
            i <= n,
            expand_from(seq![Seq::<char>::empty()], pattern@) == expand_from(views(out@), p@.skip(i as int)),
        decreases n - i,
    {
        let ghost rest = p@.skip(i as int);
        if p[i] == '[' {
            let ghost body = rest.skip(1);
            assert(body =~= p@.skip(i + 1));
            proof {
                crate::text::lemma_first_index_from(p@, ']', i + 1);
                lemma_first_index_shift(p@, ']', i + 1);
            }
            match crate::text::find_char_from(p.as_slice(), ']', i + 1) {
                Some(j) => {
                    let class = crate::text::substring(p.as_slice(), i + 1, j);
                    let cc = crate::text::chars_of(class.as_str());
                    assert(cc@ =~= body.take(j - i - 1));
                    let ghost old_out = views(out@);
                    assert(crate::text::first_index(body, ']') == Some((j - i - 1) as int));
                    if cc.len() > 0 {
                        out = product_exec(&out, cc.as_slice());
                    } else {
                        proof {
                            reveal_strlit("[");
                        }
                        let mut tail = to_owned("[");
                        crate::text::push_str(&mut tail, class.as_str());
                        out = push_to_each(&out, tail.as_str());
                        assert(tail@ =~= seq!['['] + cc@);
                        assert forall|k: int| 0 <= k < views(out@).len() implies views(out@)[k] =~= old_out[k] + seq!['['] + cc@ by {}
                        assert(views(out@) =~= old_out.map_values(|q: Seq<char>| q + seq!['['] + cc@));
                    }
                    assert(body.skip(j - i - 1 + 1) =~= p@.skip(j + 1));
                    i = j + 1;
                },
                None => {
                    let class = crate::text::substring(p.as_slice(), i + 1, n);
                    assert(class@ =~= body);
                    proof {
                        reveal_strlit("[");
                    }
                    let ghost old_out = views(out@);
                    let mut tail = to_owned("[");
                    crate::text::push_str(&mut tail, class.as_str());
                    out = push_to_each(&out, tail.as_str());
                    assert(tail@ =~= seq!['['] + body);
                    assert forall|k: int| 0 <= k < views(out@).len() implies views(out@)[k] =~= old_out[k] + seq!['['] + body by {}
                    assert(views(out@) =~= old_out.map_values(|q: Seq<char>| q + seq!['['] + body));
                    assert(p@.skip(n as int) =~= Seq::<char>::empty());
                    i = n;
                },
            }
        } else {
            let mut tail = String::new();
            crate::text::push_char(&mut tail, p[i]);
            let ghost old_out = views(out@);
            out = push_to_each(&out, tail.as_str());
            assert(tail@ == seq![rest[0]]);
            assert forall|k: int| 0 <= k < views(out@).len() implies views(out@)[k] =~= old_out[k].push(rest[0]) by {}
            assert(views(out@) =~= old_out.map_values(|q: Seq<char>| q.push(rest[0])));
            assert(rest.skip(1) =~= p@.skip(i + 1));
            i = i + 1;
        }
    }
    assert(p@.skip(n as int) =~= Seq::<char>::empty());
    out
}

/// The first occurrence of `c` after position `from` is the first occurrence in the suffix,
/// shifted.
proof fn lemma_first_index_shift(s: Seq<char>, c: char, from: int)
    requires
        0 <= from <= s.len(),
    ensures
        crate::text::first_index(s.skip(from), c) == match crate::text::first_index_from(s, c, from) {
            Some(k) => Some(k - from),
            None => None::<int>,
        },
{
    let t = s.skip(from);
    crate::text::lemma_first_index_from(s, c, from);
    crate::text::lemma_first_index_from(t, c, 0);
    match crate::text::first_index_from(s, c, from) {
        Some(k) => {
            assert(t[k - from] == c);
            match crate::text::first_index_from(t, c, 0) {
                Some(k2) => {
                    if k2 < k - from {
                        assert(s[k2 + from] == c);
                    }
                },
                None => {},
            }
        },
        None => {
            match crate::text::first_index_from(t, c, 0) {
                Some(k2) => {
                    assert(s[k2 + from] == c);
                },
                None => {},
            }
        },
    }
}

fn candidate_matches_exec(c: &str, value: &str) -> (r: bool)
    ensures
        r == candidate_matches(c@, value@),
{
    proof {
        reveal_strlit(".*");
    }
    if crate::text::starts_with(c, ".*") {
        let cc = crate::text::chars_of(c);
        let rest = crate::text::substring(cc.as_slice(), 2, cc.len());
        assert(rest@ =~= c@.skip(2));
        if crate::text::ends_with(rest.as_str(), ".*") {
            let rc = crate::text::chars_of(rest.as_str());
            let inner = crate::text::substring(rc.as_slice(), 0, rc.len() - 2);
            assert(inner@ =~= c@.skip(2).take(c@.len() - 4));
            return crate::text::contains(value, inner.as_str());
        }
    }
    str_eq(value, c)
}

/// Whether a value matches an optional simple pattern: some candidate of the pattern matches.
pub fn regex_matches(pattern: &Option<String>, value: &str) -> (r: bool)
    ensures
        r == regex_matches_spec(opt_view(*pattern), value@),
{
    let p = match pattern {
        Some(p) => p,
        None => return true,
    };
    let candidates = expand_single_char_classes(p.as_str());
    let ghost cs = expand_from(seq![Seq::<char>::empty()], p@);
    let mut i: usize = 0;
    while i < candidates.len()
        invariant
            i <= candidates@.len(),
            views(candidates@) == cs,
            cs == expand_from(seq![Seq::<char>::empty()], p@),
            opt_view(*pattern) == Some(p@),
            forall|k: int| 0 <= k < i ==> !candidate_matches(#[trigger] cs[k], value@),
        decreases candidates.len() - i,
    {
        assert(cs[i as int] == candidates@[i as int]@);
        if candidate_matches_exec(candidates[i].as_str(), value) {
            proof {
                assert(cs.take(i + 1).last() == cs[i as int]);
                lemma_some_candidate_prefix(cs, value@, i + 1);
            }
            return true;
        }
        i = i + 1;
    }
    proof {
        lemma_some_candidate_prefix(cs, value@, 0);
    }
    false
}


fn alternative_allowed_exec(d: &str, auths: &Vec<String>) -> (r: bool)
    ensures
        r == alternative_ok(d@, views(auths@)),
{
    let terms = crate::text::split_char(d, '&');
    let ghost ts = crate::text::split_spec(d@, '&');
    let mut j: usize = 0;
    while j < terms.len()
        invariant
            j <= terms@.len(),
            views(terms@) == ts,
            ts == crate::text::split_spec(d@, '&'),
            forall|k: int| 0 <= k < j ==> (clean_term(#[trigger] ts[k]).len() == 0 || views(auths@).contains(clean_term(ts[k]))),
        decreases terms.len() - j,
    {
        assert(terms@[j as int]@ == ts[j as int]);
        let t = crate::pcj::clean_visibility_term_pub(terms[j].as_str());
        if t.unicode_len() != 0 && !crate::pcj::contains_string_pub(auths, t.as_str()) {
            return false;
        }
        j = j + 1;
    }
    true
}

/// Whether a reader with the authorizations may see a statement with this column visibility.
pub fn visibility_allowed(column_visibility: &Option<Vec<u8>>, auths: &Vec<String>) -> (r: bool)
    ensures
        r == statement_visible(crate::domain::opt_bytes_view(*column_visibility), views(auths@)),
{
    let cv = match column_visibility {
        Some(cv) => cv,
        None => return true,
    };
    if cv.len() == 0 {
        return true;
    }
    if auths.len() == 0 {
        assert(views(auths@).len() == 0);
        return false;
    }
    assert(views(auths@).len() != 0);
    let expression = crate::bytes::utf8_lossy(cv.as_slice());
    let alternatives = crate::text::split_char(expression.as_str(), '|');
    let ghost alts = crate::text::split_spec(expression@, '|');
    let mut i: usize = 0;
    while i < alternatives.len()
        invariant
            i <= alternatives@.len(),
            views(alternatives@) == alts,
            alts == crate::text::split_spec(expression@, '|'),
            expression@ == crate::bytes::utf8_lossy_text(cv@),
            cv@.len() != 0,
            views(auths@).len() != 0,
            *column_visibility == Some(*cv),
            forall|k: int| 0 <= k < i ==> !alternative_ok(#[trigger] alts[k], views(auths@)),
        decreases alternatives.len() - i,
    {
        assert(alts[i as int] == alternatives@[i as int]@);
        if alternative_allowed_exec(alternatives[i].as_str(), auths) {
            assert(alternative_ok(alts[i as int], views(auths@)));
            return true;
        }
        i = i + 1;
    }
    false
}

fn opt_iri_matches(p: &Option<RyaIri>, v: &RyaIri) -> (r: bool)
    ensures
        r == (p matches Some(x) ==> x@ == v@),
{
    match p {
        Some(x) => x.same_as(v),
        None => true,
    }
}

/// Whether a statement matches each present part of the pattern.
pub fn matches_pattern(statement: &RyaStatement, pattern: &StatementPattern) -> (r: bool)
    ensures
        r == matches_pattern_spec(statement@, pattern_model(*pattern)),
{
    let s = opt_iri_matches(&pattern.subject, &statement.subject);
    let p = opt_iri_matches(&pattern.predicate, &statement.predicate);
    let o = match &pattern.object {
        Some(v) => v.same_as(&statement.object),
        None => true,
    };
    let c = match &pattern.context {
        Some(v) => match &statement.context {
            Some(ctx) => ctx.same_as(v),
            None => false,
        },
        None => true,
    };
    let q = match &pattern.qualifier {
        Some(v) => match &statement.qualifier {
            Some(sq) => str_eq(sq.as_str(), v.as_str()),
            None => false,
        },
        None => true,
    };
    s && p && o && c && q
}

/// Whether a statement's parts match the options' patterns.
pub fn matches_regexes(statement: &RyaStatement, options: &QueryOptions) -> (r: bool)
    ensures
        r == matches_regexes_spec(statement@, *options),
{
    regex_matches(&options.regex_subject, statement.subject.data())
        && regex_matches(&options.regex_predicate, statement.predicate.data())
        && regex_matches(&options.regex_object, statement.object.data())
}

/// The latest timestamp of the statements.
pub open spec fn max_timestamp(sts: Seq<RyaStatementModel>) -> Option<u64>
    decreases sts.len(),
{
    if sts.len() == 0 {
        None
    } else {
        match max_timestamp(sts.drop_last()) {
            Some(m) => if sts.last().timestamp > m {
                Some(sts.last().timestamp)
            } else {
                Some(m)
            },
            None => Some(sts.last().timestamp),
        }
    }
}

/// Whether a stored statement is selected by a query.
pub open spec fn selected(p: PatternModel, o: QueryOptions, now: Option<u64>) -> spec_fn(RyaStatementModel) -> bool {
    |st: RyaStatementModel| matches_pattern_spec(st, p) && matches_regexes_spec(st, o) && statement_visible(
        st.column_visibility,
        views(o.auths@),
    ) && ttl_allowed_spec(st.timestamp, o.ttl_millis, now, o.start_time_millis, o.end_time_millis)
}

/// The results of a query: the selected statements in stored order, cut at the limit when
/// the limit is positive.
pub open spec fn query_spec(sts: Seq<RyaStatementModel>, p: PatternModel, o: QueryOptions) -> Seq<RyaStatementModel> {
    let now = match o.current_time_millis {
        Some(t) => Some(t),
        None => max_timestamp(sts),
    };
    let all = sts.filter(selected(p, o, now));
    match o.limit {
        Some(l) => if l >= 1 && l < all.len() {
            all.take(l as int)
        } else {
            all
        },
        None => all,
    }
}

pub open spec fn statement_views(v: Seq<RyaStatement>) -> Seq<RyaStatementModel> {
    v.map_values(|s: RyaStatement| s@)
}

/// An in-memory store of statements and namespaces.
pub struct InMemoryRyaDao {
    statements: Vec<RyaStatement>,
    namespaces: StrMap,
    initialized: bool,
}

impl InMemoryRyaDao {
    pub closed spec fn stored(self) -> Seq<RyaStatementModel> {
        statement_views(self.statements@)
    }

    pub closed spec fn namespace_map(self) -> Map<Seq<char>, Seq<char>> {
        self.namespaces@
    }

    pub closed spec fn initialized_spec(self) -> bool {
        self.initialized
    }

    /// An empty, initialized store.
    pub fn new() -> (r: Self)
        ensures
            r.stored() == Seq::<RyaStatementModel>::empty(),
            r.namespace_map() == Map::<Seq<char>, Seq<char>>::empty(),
            r.initialized_spec(),
    {
        let r = InMemoryRyaDao { statements: Vec::new(), namespaces: StrMap::new(), initialized: true };
        assert(r.stored() =~= Seq::<RyaStatementModel>::empty());
        r
    }

    /// Stores a statement after the others.
    pub fn add(&mut self, statement: RyaStatement)
        ensures
            final(self).stored() == old(self).stored().push(statement@),
            final(self).namespace_map() == old(self).namespace_map(),
            final(self).initialized_spec() == old(self).initialized_spec(),
    {
        let ghost sv = statement@;
        self.statements.push(statement);
        assert(statement_views(self.statements@) =~= old(self).stored().push(sv));
    }

    /// Removes every stored copy of the statement.
    pub fn delete_exact(&mut self, statement: &RyaStatement)
        ensures
            final(self).stored() == old(self).stored().filter(other_statement(statement@)),
            final(self).namespace_map() == old(self).namespace_map(),
            final(self).initialized_spec() == old(self).initialized_spec(),
    {
        let ghost pred = other_statement(statement@);
        let ghost orig = statement_views(self.statements@);
        let mut kept: Vec<RyaStatement> = Vec::new();
        let mut i: usize = 0;
        proof {
            crate::seqs::lemma_filter_take_zero(orig, pred);
        }
        while i < self.statements.len()
            invariant
                i <= self.statements@.len(),
                orig == statement_views(self.statements@),
                pred == other_statement(statement@),
                statement_views(kept@) == orig.take(i as int).filter(pred),
            decreases self.statements.len() - i,
        {
            proof {
                crate::seqs::lemma_filter_take_step(orig, pred, i as int);
            }
            if !self.statements[i].same_as(statement) {
                let c = self.statements[i].clone();
                let ghost before = kept@;
                let ghost cv = c@;
                kept.push(c);
                assert(statement_views(kept@) =~= statement_views(before).push(cv));
            }
            i = i + 1;
        }
        proof {
            crate::seqs::lemma_take_full(orig);
        }
        self.statements = kept;
    }

    /// The statements that a query selects: matching the pattern and the options' patterns,
    /// visible to the options' authorizations and within the time window and time-to-live
    /// (measured from the options' current time, or else the latest stored timestamp), in
    /// stored order, at most `limit` of them when the limit is positive.
    pub fn query(&self, pattern: &StatementPattern, options: &QueryOptions) -> (r: Vec<RyaStatement>)
        ensures
            statement_views(r@) == query_spec(self.stored(), pattern_model(*pattern), *options),
    {
        let ghost sts = self.stored();
        let current_time: Option<u64> = match options.current_time_millis {
            Some(t) => Some(t),
            None => self.max_timestamp_exec(),
        };
        let ghost pred = selected(pattern_model(*pattern), *options, current_time);
        let mut results: Vec<RyaStatement> = Vec::new();
        let mut i: usize = 0;
        proof {
            crate::seqs::lemma_filter_take_zero(sts, pred);
        }
        while i < self.statements.len()
            invariant
                i <= self.statements@.len(),
                sts == statement_views(self.statements@),
                pred == selected(pattern_model(*pattern), *options, current_time),
                current_time == match options.current_time_millis {
                    Some(t) => Some(t),
                    None => max_timestamp(sts),
                },
                statement_views(results@) == sts.take(i as int).filter(pred),
                options.limit matches Some(l) ==> results@.len() < l || l == 0,
            decreases self.statements.len() - i,
        {
            proof {
                crate::seqs::lemma_filter_take_step(sts, pred, i as int);
            }
            let st = &self.statements[i];
            assert(sts[i as int] == st@);
            let ok = matches_pattern(st, pattern) && matches_regexes(st, options) && visibility_allowed(&st.column_visibility, &options.auths)
                && ttl_allowed(st.timestamp, options.ttl_millis, current_time, options.start_time_millis, options.end_time_millis);
            if ok {
                let c = st.clone();
                let ghost before = results@;
                let ghost cv = c@;
                results.push(c);
                assert(statement_views(results@) =~= statement_views(before).push(cv));
                match options.limit {
                    Some(l) => {
                        if l == results.len() {
                            proof {
                                lemma_filter_limit(sts, pred, i + 1, l as int);
                            }
                            return results;
                        }
                    },
                    None => {},
                }
            }
            i = i + 1;
        }
        proof {
            crate::seqs::lemma_take_full(sts);
        }
        results
    }

    fn max_timestamp_exec(&self) -> (r: Option<u64>)
        ensures
            r == max_timestamp(self.stored()),
    {
        let mut best: Option<u64> = None;
        let mut i: usize = 0;
        assert(self.stored().take(0) =~= Seq::<RyaStatementModel>::empty());
        while i < self.statements.len()
            invariant
                i <= self.statements@.len(),
                best == max_timestamp(self.stored().take(i as int)),
            decreases self.statements.len() - i,
        {
            assert(self.stored().take(i + 1).drop_last() =~= self.stored().take(i as int));
            assert(self.stored().take(i + 1).last() == self.statements@[i as int]@);
            let t = self.statements[i].timestamp;
            best = match best {
                Some(m) => if t > m {
                    Some(t)
                } else {
                    Some(m)
                },
                None => Some(t),
            };
            i = i + 1;
        }
        assert(self.stored().take(i as int) =~= self.stored());
        best
    }

    /// Records a namespace under a prefix.
    pub fn add_namespace(&mut self, prefix: &str, namespace: &str)
        ensures
            final(self).namespace_map() == old(self).namespace_map().insert(prefix@, namespace@),
            final(self).stored() == old(self).stored(),
            final(self).initialized_spec() == old(self).initialized_spec(),
    {
        self.namespaces.insert(to_owned(prefix), to_owned(namespace));
    }

    /// The namespace recorded under a prefix.
    pub fn get_namespace(&self, prefix: &str) -> (r: Option<&String>)
        ensures
            match r {
                Some(v) => self.namespace_map().contains_key(prefix@) && self.namespace_map()[prefix@] == v@,
                None => !self.namespace_map().contains_key(prefix@),
            },
    {
        self.namespaces.get(prefix)
    }

    /// Forgets the namespace of a prefix.
    pub fn remove_namespace(&mut self, prefix: &str)
        ensures
            final(self).namespace_map() == old(self).namespace_map().remove(prefix@),
            final(self).stored() == old(self).stored(),
            final(self).initialized_spec() == old(self).initialized_spec(),
    {
        self.namespaces.remove(prefix);
    }

    /// Forgets every statement and namespace; the store is no longer initialized.
    pub fn drop_and_destroy(&mut self)
        ensures
            final(self).stored() == Seq::<RyaStatementModel>::empty(),
            final(self).namespace_map() == Map::<Seq<char>, Seq<char>>::empty(),
            !final(self).initialized_spec(),
    {
        self.statements = Vec::new();
        self.namespaces.clear();
        self.initialized = false;
        assert(self.stored() =~= Seq::<RyaStatementModel>::empty());
    }

    pub fn is_initialized(&self) -> (r: bool)
        ensures
            r == self.initialized_spec(),
    {
        self.initialized
    }
}

/// Holds of the statements other than `s`.
pub open spec fn other_statement(s: RyaStatementModel) -> spec_fn(RyaStatementModel) -> bool {
    |x: RyaStatementModel| x != s
}

/// Cutting the filtered sequence when the `l`-th match is found at position `i - 1`.
pub proof fn lemma_filter_limit(s: Seq<RyaStatementModel>, p: spec_fn(RyaStatementModel) -> bool, i: int, l: int)
    requires
        0 < i <= s.len(),
        l >= 1,
        s.take(i).filter(p).len() == l,
        p(s[i - 1]),
    ensures
        s.filter(p).len() >= l,
        s.filter(p).take(l) == s.take(i).filter(p),
    decreases s.len() - i,
{
    if i == s.len() {
        assert(s.take(i) =~= s);
    } else {
        assert(s.drop_last().take(i) =~= s.take(i));
        assert(s.drop_last()[i - 1] == s[i - 1]);
        lemma_filter_limit(s.drop_last(), p, i, l);
        crate::seqs::lemma_filter_take_step(s, p, s.len() - 1);
        assert(s.take(s.len() - 1) =~= s.drop_last());
        assert(s.take(s.len() as int) =~= s);
        if p(s.last()) {
            assert(s.filter(p) == s.drop_last().filter(p).push(s.last()));
            assert(s.filter(p).take(l) =~= s.drop_last().filter(p).take(l));
        } else {
            assert(s.filter(p) == s.drop_last().filter(p));
        }
    }
}


/// The subjects' texts of some statements, as a set.
pub open spec fn subjects_data(rs: Seq<RyaStatementModel>) -> Set<Seq<char>> {
    rs.map_values(|s: RyaStatementModel| s.subject.data).to_set()
}

/// The pattern of a predicate and an optional object.
pub open spec fn pair_pattern(pred: RyaTypeModel, obj: Option<RyaTypeModel>) -> PatternModel {
    PatternModel { subject: None, predicate: Some(pred), object: obj, context: None, qualifier: None }
}

/// The subjects that match every predicate-object pair of the list.
pub open spec fn join_subjects(sts: Seq<RyaStatementModel>, pairs: Seq<(RyaTypeModel, Option<RyaTypeModel>)>, o: QueryOptions) -> Set<Seq<char>>
    decreases pairs.len(),
{
    if pairs.len() == 0 {
        Set::empty()
    } else if pairs.len() == 1 {
        subjects_data(query_spec(sts, pair_pattern(pairs[0].0, pairs[0].1), o))
    } else {
        join_subjects(sts, pairs.drop_last(), o).intersect(subjects_data(query_spec(sts, pair_pattern(pairs.last().0, pairs.last().1), o)))
    }
}

impl InMemoryRyaDao {
    fn subject_texts(&self, pattern: &StatementPattern, options: &QueryOptions) -> (r: Vec<String>)
        ensures
            crate::sorted::strictly_sorted(views(r@)),
            views(r@).to_set() == subjects_data(query_spec(self.stored(), pattern_model(*pattern), *options)),
            forall|k: int| 0 <= k < r@.len() ==> crate::domain::valid_iri_spec(#[trigger] r@[k]@),
    {
        let results = self.query(pattern, options);
        let ghost rs = statement_views(results@);
        let mut out: Vec<String> = Vec::new();
        let mut i: usize = 0;
        assert(views(out@).to_set() =~= rs.take(0).map_values(|s: RyaStatementModel| s.subject.data).to_set());
        while i < results.len()
            invariant
                i <= results@.len(),
                rs == statement_views(results@),
                crate::sorted::strictly_sorted(views(out@)),
                views(out@).to_set() == rs.take(i as int).map_values(|s: RyaStatementModel| s.subject.data).to_set(),
                forall|k: int| 0 <= k < out@.len() ==> crate::domain::valid_iri_spec(#[trigger] out@[k]@),
            decreases results.len() - i,
        {
            results[i].subject.check_wf();
            let d = to_owned(results[i].subject.data());
            let ghost dm = d@;
            let ghost before = out@;
            crate::sorted::insert_sorted_string(&mut out, d);
            proof {
                assert(rs.take(i + 1).map_values(|s: RyaStatementModel| s.subject.data) =~= rs.take(i as int).map_values(|s: RyaStatementModel| s.subject.data).push(dm));
                crate::pcj::lemma_push_to_set(rs.take(i as int).map_values(|s: RyaStatementModel| s.subject.data), dm);
                assert forall|k: int| 0 <= k < out@.len() implies crate::domain::valid_iri_spec(#[trigger] out@[k]@) by {
                    assert(views(out@).to_set().contains(out@[k]@)) by {
                        assert(views(out@)[k] == out@[k]@);
                    }
                    if out@[k]@ != dm {
                        assert(views(before).to_set().contains(out@[k]@));
                        let j = choose|j: int| 0 <= j < views(before).len() && views(before)[j] == out@[k]@;
                        assert(before[j]@ == out@[k]@);
                    }
                }
            }
            i = i + 1;
        }
        assert(rs.take(i as int) =~= rs);
        out
    }
}

/// The strings of `a` that are in `b`, in increasing order.
fn intersect_sorted(a: &Vec<String>, b: &Vec<String>) -> (r: Vec<String>)
    requires
        forall|k: int| 0 <= k < a@.len() ==> crate::domain::valid_iri_spec(#[trigger] a@[k]@),
    ensures
        crate::sorted::strictly_sorted(views(r@)),
        views(r@).to_set() == views(a@).to_set().intersect(views(b@).to_set()),
        forall|k: int| 0 <= k < r@.len() ==> crate::domain::valid_iri_spec(#[trigger] r@[k]@),
{
    let mut out: Vec<String> = Vec::new();
    let mut i: usize = 0;
    assert(views(out@).to_set() =~= views(a@).take(0).to_set().intersect(views(b@).to_set()));
    while i < a.len()
        invariant
            i <= a@.len(),
            forall|k: int| 0 <= k < a@.len() ==> crate::domain::valid_iri_spec(#[trigger] a@[k]@),
            crate::sorted::strictly_sorted(views(out@)),
            views(out@).to_set() == views(a@).take(i as int).to_set().intersect(views(b@).to_set()),
            forall|k: int| 0 <= k < out@.len() ==> crate::domain::valid_iri_spec(#[trigger] out@[k]@),
        decreases a.len() - i,
    {
        let ghost am = a@[i as int]@;
        proof {
            assert(views(a@).take(i + 1) =~= views(a@).take(i as int).push(am));
            crate::pcj::lemma_push_to_set(views(a@).take(i as int), am);
        }
        if crate::pcj::contains_string_pub(b, a[i].as_str()) {
            let ghost before = out@;
            crate::sorted::insert_sorted_string(&mut out, a[i].clone());
            proof {
                assert(views(out@).to_set() =~= views(a@).take(i + 1).to_set().intersect(views(b@).to_set()));
                assert forall|k: int| 0 <= k < out@.len() implies crate::domain::valid_iri_spec(#[trigger] out@[k]@) by {
                    assert(views(out@)[k] == out@[k]@);
                    assert(views(out@).to_set().contains(out@[k]@));
                    if out@[k]@ != am {
                        let j = choose|j: int| 0 <= j < views(before).len() && views(before)[j] == out@[k]@;
                        assert(before[j]@ == out@[k]@);
                    }
                }
            }
        } else {
            assert(views(out@).to_set() =~= views(a@).take(i + 1).to_set().intersect(views(b@).to_set()));
        }
        i = i + 1;
    }
    assert(views(a@).take(i as int) =~= views(a@));
    out
}

/// The predicate-object pairs as values.
pub open spec fn pairs_view(pairs: Seq<(RyaIri, RyaType)>) -> Seq<(RyaTypeModel, Option<RyaTypeModel>)> {
    pairs.map_values(|p: (RyaIri, RyaType)| (p.0@, Some(p.1@)))
}

/// The predicates, each with no object, as values.
pub open spec fn preds_view(preds: Seq<RyaIri>) -> Seq<(RyaTypeModel, Option<RyaTypeModel>)> {
    preds.map_values(|p: RyaIri| (p@, None::<RyaTypeModel>))
}

impl InMemoryRyaDao {
    fn joined_subjects(&self, pairs: &Vec<StatementPattern>, options: &QueryOptions, ghost_pairs: Ghost<Seq<(RyaTypeModel, Option<RyaTypeModel>)>>) -> (r: Vec<String>)
        requires
            pairs@.len() == ghost_pairs@.len(),
            pairs@.len() > 0,
            forall|k: int| 0 <= k < pairs@.len() ==> pattern_model(#[trigger] pairs@[k]) == pair_pattern(ghost_pairs@[k].0, ghost_pairs@[k].1),
        ensures
            crate::sorted::strictly_sorted(views(r@)),
            views(r@).to_set() == join_subjects(self.stored(), ghost_pairs@, *options),
            forall|k: int| 0 <= k < r@.len() ==> crate::domain::valid_iri_spec(#[trigger] r@[k]@),
    {
        let ghost gp = ghost_pairs@;
        let mut subjects = self.subject_texts(&pairs[0], options);
        assert(gp.take(1).len() == 1);
        assert(gp.take(1)[0] == gp[0]);
        let mut i: usize = 1;
        while i < pairs.len()
            invariant
                1 <= i <= pairs@.len(),
                pairs@.len() == gp.len(),
                gp == ghost_pairs@,
                forall|k: int| 0 <= k < pairs@.len() ==> pattern_model(#[trigger] pairs@[k]) == pair_pattern(gp[k].0, gp[k].1),
                crate::sorted::strictly_sorted(views(subjects@)),
                views(subjects@).to_set() == join_subjects(self.stored(), gp.take(i as int), *options),
                forall|k: int| 0 <= k < subjects@.len() ==> crate::domain::valid_iri_spec(#[trigger] subjects@[k]@),
            decreases pairs.len() - i,
        {
            let matching = self.subject_texts(&pairs[i], options);
            subjects = intersect_sorted(&subjects, &matching);
            assert(gp.take(i + 1).drop_last() =~= gp.take(i as int));
            assert(gp.take(i + 1).last() == gp[i as int]);
            i = i + 1;
        }
        assert(gp.take(i as int) =~= gp);
        subjects
    }

    /// The subjects that have every predicate-object pair, in increasing order of their text.
    pub fn property_object_join(&self, pairs: &[(RyaIri, RyaType)], options: &QueryOptions, strategy: JoinStrategy) -> (r: Vec<RyaIri>)
        ensures
            pairs@.len() == 0 ==> r@.len() == 0,
            crate::sorted::strictly_sorted(r@.map_values(|i: RyaIri| i@.data)),
            r@.map_values(|i: RyaIri| i@.data).to_set() == join_subjects(self.stored(), pairs_view(pairs@), *options),
            forall|k: int| 0 <= k < r@.len() ==> (#[trigger] r@[k])@ == crate::domain::iri_model(r@[k]@.data),
    {
        if pairs.len() == 0 {
            let r: Vec<RyaIri> = Vec::new();
            assert(r@.map_values(|i: RyaIri| i@.data) =~= Seq::<Seq<char>>::empty());
            assert(Seq::<Seq<char>>::empty().to_set() =~= Set::<Seq<char>>::empty());
            return r;
        }
        let mut patterns: Vec<StatementPattern> = Vec::new();
        let mut i: usize = 0;
        while i < pairs.len()
            invariant
                i <= pairs@.len(),
                patterns@.len() == i,
                forall|k: int| 0 <= k < i ==> pattern_model(#[trigger] patterns@[k]) == pair_pattern(pairs_view(pairs@)[k].0, pairs_view(pairs@)[k].1),
            decreases pairs.len() - i,
        {
            let p = StatementPattern::new(None, Some(pairs[i].0.clone()), Some(pairs[i].1.clone()));
            patterns.push(p);
            i = i + 1;
        }
        let subjects = self.joined_subjects(&patterns, options, Ghost(pairs_view(pairs@)));
        iris_of(&subjects)
    }

    /// The statements of the first predicate whose subjects have every predicate.
    pub fn predicate_join(&self, predicates: &[RyaIri], options: &QueryOptions, strategy: JoinStrategy) -> (r: Vec<RyaStatement>)
        ensures
            predicates@.len() == 0 ==> r@.len() == 0,
            predicates@.len() > 0 ==> statement_views(r@) == query_spec(self.stored(), pair_pattern(predicates@[0]@, None), *options).filter(
                subject_in(join_subjects(self.stored(), preds_view(predicates@), *options)),
            ),
    {
        if predicates.len() == 0 {
            return Vec::new();
        }
        let mut patterns: Vec<StatementPattern> = Vec::new();
        let mut i: usize = 0;
        while i < predicates.len()
            invariant
                i <= predicates@.len(),
                patterns@.len() == i,
                forall|k: int| 0 <= k < i ==> pattern_model(#[trigger] patterns@[k]) == pair_pattern(preds_view(predicates@)[k].0, preds_view(predicates@)[k].1),
            decreases predicates.len() - i,
        {
            let p = StatementPattern::new(None, Some(predicates[i].clone()), None);
            patterns.push(p);
            i = i + 1;
        }
        let subjects = self.joined_subjects(&patterns, options, Ghost(preds_view(predicates@)));
        let first = self.query(&patterns[0], options);
        let ghost fs = statement_views(first@);
        let ghost set = join_subjects(self.stored(), preds_view(predicates@), *options);
        let ghost pred = subject_in(set);
        let mut out: Vec<RyaStatement> = Vec::new();
        let mut k: usize = 0;
        proof {
            crate::seqs::lemma_filter_take_zero(fs, pred);
        }
        while k < first.len()
            invariant
                k <= first@.len(),
                fs == statement_views(first@),
                pred == subject_in(set),
                views(subjects@).to_set() == set,
                statement_views(out@) == fs.take(k as int).filter(pred),
            decreases first.len() - k,
        {
            proof {
                crate::seqs::lemma_filter_take_step(fs, pred, k as int);
            }
            if crate::pcj::contains_string_pub(&subjects, first[k].subject.data()) {
                let c = first[k].clone();
                let ghost before = out@;
                let ghost cv = c@;
                out.push(c);
                assert(statement_views(out@) =~= statement_views(before).push(cv));
            }
            k = k + 1;
        }
        proof {
            crate::seqs::lemma_take_full(fs);
        }
        out
    }
}

/// Holds of the statements whose subject's text is in the set.
pub open spec fn subject_in(set: Set<Seq<char>>) -> spec_fn(RyaStatementModel) -> bool {
    |s: RyaStatementModel| set.contains(s.subject.data)
}

fn iris_of(texts: &Vec<String>) -> (r: Vec<RyaIri>)
    requires
        forall|k: int| 0 <= k < texts@.len() ==> crate::domain::valid_iri_spec(#[trigger] texts@[k]@),
    ensures
        r@.map_values(|i: RyaIri| i@.data) == views(texts@),
        forall|k: int| 0 <= k < r@.len() ==> (#[trigger] r@[k])@ == crate::domain::iri_model(r@[k]@.data),
{
    let mut out: Vec<RyaIri> = Vec::new();
    let mut i: usize = 0;
    while i < texts.len()
        invariant
            i <= texts@.len(),
            forall|k: int| 0 <= k < texts@.len() ==> crate::domain::valid_iri_spec(#[trigger] texts@[k]@),
            out@.map_values(|i: RyaIri| i@.data) == views(texts@).take(i as int),
            forall|k: int| 0 <= k < out@.len() ==> (#[trigger] out@[k])@ == crate::domain::iri_model(out@[k]@.data),
        decreases texts.len() - i,
    {
        assert(crate::domain::valid_iri_spec(texts@[i as int]@));
        match RyaIri::new(texts[i].as_str()) {
            Ok(iri) => {
                let ghost before = out@;
                out.push(iri);
                assert(out@.map_values(|i: RyaIri| i@.data) =~= before.map_values(|i: RyaIri| i@.data).push(texts@[i as int]@));
                assert(views(texts@).take(i + 1) =~= views(texts@).take(i as int).push(texts@[i as int]@));
            },
            Err(_) => {
                assert(false);
            },
        }
        i = i + 1;
    }
    assert(views(texts@).take(i as int) =~= views(texts@));
    out
}

/// Every statement a query returns is a stored statement that agrees with each part the
/// pattern names: its subject, predicate and object equal the pattern's when given, and its
/// context and qualifier are the pattern's when given.
pub proof fn law_query_results_match_pattern(sts: Seq<RyaStatementModel>, p: PatternModel, o: QueryOptions, i: int)
    requires
        0 <= i < query_spec(sts, p, o).len(),
    ensures
        ({
            let st = query_spec(sts, p, o)[i];
            &&& sts.contains(st)
            &&& (p.subject matches Some(v) ==> st.subject == v)
            &&& (p.predicate matches Some(v) ==> st.predicate == v)
            &&& (p.object matches Some(v) ==> st.object == v)
            &&& (p.context matches Some(v) ==> st.context == Some(v))
            &&& (p.qualifier matches Some(v) ==> st.qualifier == Some(v))
        }),
{
    let now = match o.current_time_millis {
        Some(t) => Some(t),
        None => max_timestamp(sts),
    };
    let pred = selected(p, o, now);
    let all = sts.filter(pred);
    assert(i < all.len());
    assert(query_spec(sts, p, o)[i] == all[i]);
    sts.lemma_filter_pred(pred, i);
    assert(all.contains(all[i]));
    sts.lemma_filter_contains_rev(pred, all[i]);
}

/// A statement's column visibility over plain terms means what it says: a single term admits
/// a reader exactly when it is one of the reader's authorizations, `a&b` only when both are,
/// and `a|b` when either is.
pub proof fn law_statement_visibility_and_or(cv: Seq<u8>, a: Seq<char>, b: Seq<char>, auths: Seq<Seq<char>>)
    requires
        cv.len() > 0,
        crate::pcj::laws::plain_term(a),
        crate::pcj::laws::plain_term(b),
    ensures
        crate::bytes::utf8_lossy_text(cv) == a ==> statement_visible(Some(cv), auths) == auths.contains(a),
        crate::bytes::utf8_lossy_text(cv) == a + seq!['&'] + b ==> statement_visible(Some(cv), auths) == (
            auths.contains(a) && auths.contains(b)),
        crate::bytes::utf8_lossy_text(cv) == a + seq!['|'] + b ==> statement_visible(Some(cv), auths) == (
            auths.contains(a) || auths.contains(b)),
{
    crate::pcj::laws::lemma_plain_clean(a);
    crate::pcj::laws::lemma_plain_clean(b);
    crate::pcj::laws::lemma_split_single(a, '|');
    crate::pcj::laws::lemma_split_single(a, '&');
    crate::pcj::laws::lemma_split_single(b, '&');
    if auths.len() == 0 {
        assert(!auths.contains(a));
        assert(!auths.contains(b));
    }
    assert(alternative_ok(a, auths) == auths.contains(a)) by {
        assert(crate::text::split_spec(a, '&')[0] == a);
    }
    assert(alternative_ok(b, auths) == auths.contains(b)) by {
        assert(crate::text::split_spec(b, '&')[0] == b);
    }
    assert(crate::text::split_spec(a, '|')[0] == a);
    let c = a + seq!['&'] + b;
    assert forall|i: int| 0 <= i < c.len() implies c[i] != '|' by {
        if i < a.len() {
            assert(c[i] == a[i]);
        } else if i > a.len() {
            assert(c[i] == b[i - a.len() - 1]);
        }
    }
    crate::pcj::laws::lemma_split_single(c, '|');
    crate::pcj::laws::lemma_split_pair(a, b, '&');
    let ts = crate::text::split_spec(c, '&');
    assert(ts[0] == a && ts[1] == b);
    assert(alternative_ok(c, auths) == (auths.contains(a) && auths.contains(b)));
    assert(crate::text::split_spec(c, '|')[0] == c);
    let d = a + seq!['|'] + b;
    crate::pcj::laws::lemma_split_pair(a, b, '|');
    let ds = crate::text::split_spec(d, '|');
    assert(ds[0] == a && ds[1] == b);
}

/// The time window is open at its start and closed at its end, and a time-to-live keeps
/// statements no later than the current time and younger than the time-to-live.
pub proof fn law_time_window(ts: u64, s: u64, e: u64, ttl: u64, now: u64)
    ensures
        ttl_allowed_spec(ts, None, None, Some(s), None) <==> ts > s,
        ttl_allowed_spec(ts, None, None, None, Some(e)) <==> ts <= e,
        ttl_allowed_spec(ts, Some(ttl), Some(now), None, None) <==> (ts <= now && now - ts < ttl),
        ttl_allowed_spec(ts, None, Some(now), None, None),
        ttl_allowed_spec(ts, Some(ttl), None, None, None),
{
}

/// A query returns at most its positive limit of statements, and without a limit it
/// returns every stored statement it selects.
pub proof fn law_query_limit_and_completeness(sts: Seq<RyaStatementModel>, p: PatternModel, o: QueryOptions, j: int)
    ensures
        (o.limit matches Some(l) && l >= 1) ==> query_spec(sts, p, o).len() <= o.limit->0,
        o.limit is None && 0 <= j < sts.len() && selected(
            p,
            o,
            match o.current_time_millis {
                Some(t) => Some(t),
                None => max_timestamp(sts),
            },
        )(sts[j]) ==> query_spec(sts, p, o).contains(sts[j]),
{
    let now = match o.current_time_millis {
        Some(t) => Some(t),
        None => max_timestamp(sts),
    };
    let pred = selected(p, o, now);
    if o.limit is None && 0 <= j < sts.len() && pred(sts[j]) {
        sts.lemma_filter_contains(pred, j);
    }
}


/// The time from which a query measures time-to-live: the given current time, else the
/// latest stored timestamp.
pub open spec fn query_now(sts: Seq<RyaStatementModel>, o: QueryOptions) -> Option<u64> {
    match o.current_time_millis {
        Some(t) => Some(t),
        None => max_timestamp(sts),
    }
}

/// Every statement a query returns passes its options: the subject, predicate and object
/// patterns, the reader's authorizations, and the time window and time-to-live.
pub proof fn law_query_results_pass_options(sts: Seq<RyaStatementModel>, p: PatternModel, o: QueryOptions, i: int)
    requires
        0 <= i < query_spec(sts, p, o).len(),
    ensures
        matches_regexes_spec(query_spec(sts, p, o)[i], o),
        statement_visible(query_spec(sts, p, o)[i].column_visibility, views(o.auths@)),
        ttl_allowed_spec(
            query_spec(sts, p, o)[i].timestamp,
            o.ttl_millis,
            query_now(sts, o),
            o.start_time_millis,
            o.end_time_millis,
        ),
{
    let pred = selected(p, o, query_now(sts, o));
    let all = sts.filter(pred);
    assert(query_spec(sts, p, o)[i] == all[i]);
    sts.lemma_filter_pred(pred, i);
}

/// Without a limit, a query returns every stored statement that agrees with each part the
/// pattern names and passes the options.
pub proof fn law_query_returns_every_match(sts: Seq<RyaStatementModel>, p: PatternModel, o: QueryOptions, j: int)
    requires
        o.limit is None,
        0 <= j < sts.len(),
        p.subject matches Some(v) ==> sts[j].subject == v,
        p.predicate matches Some(v) ==> sts[j].predicate == v,
        p.object matches Some(v) ==> sts[j].object == v,
        p.context matches Some(v) ==> sts[j].context == Some(v),
        p.qualifier matches Some(v) ==> sts[j].qualifier == Some(v),
        matches_regexes_spec(sts[j], o),
        statement_visible(sts[j].column_visibility, views(o.auths@)),
        ttl_allowed_spec(sts[j].timestamp, o.ttl_millis, query_now(sts, o), o.start_time_millis, o.end_time_millis),
    ensures
        query_spec(sts, p, o).contains(sts[j]),
{
    law_query_limit_and_completeness(sts, p, o, j);
}

/// A positive limit keeps the first statements the same query returns without a limit, as
/// many as the limit or all of them when there are fewer.
pub proof fn law_query_limit_prefix(sts: Seq<RyaStatementModel>, p: PatternModel, o: QueryOptions)
    requires
        o.limit matches Some(l) && l >= 1,
    ensures
        ({
            let all = query_spec(sts, p, QueryOptions { limit: None, ..o });
            let l = o.limit->0 as int;
            query_spec(sts, p, o) == all.take(if l < all.len() { l } else { all.len() as int })
        }),
{
    let o2 = QueryOptions { limit: None, ..o };
    let now = query_now(sts, o);
    assert(query_now(sts, o2) == now);
    assert(selected(p, o2, now) =~= selected(p, o, now));
    let all = query_spec(sts, p, o2);
    assert(all == sts.filter(selected(p, o, now)));
    assert(all.take(all.len() as int) =~= all);
}


/// A pattern without `[` expands to itself, appended to each prefix.
proof fn lemma_expand_plain(out: Seq<Seq<char>>, rest: Seq<char>)
    requires
        forall|i: int| 0 <= i < rest.len() ==> rest[i] != '[',
    ensures
        expand_from(out, rest) =~= out.map_values(|q: Seq<char>| q + rest),
    decreases rest.len(),
{
    if rest.len() == 0 {
        assert forall|k: int| 0 <= k < out.len() implies out[k] + rest =~= out[k] by {}
    } else {
        let out2 = out.map_values(|q: Seq<char>| q.push(rest[0]));
        let tail = rest.skip(1);
        assert forall|i: int| 0 <= i < tail.len() implies tail[i] != '[' by {
            assert(tail[i] == rest[i + 1]);
        }
        lemma_expand_plain(out2, tail);
        assert forall|k: int| 0 <= k < out.len() implies out2[k] + tail =~= out[k] + rest by {
            assert(rest =~= seq![rest[0]] + tail);
        }
    }
}

proof fn lemma_single_candidate(c: Seq<char>, value: Seq<char>)
    ensures
        some_candidate(seq![c], value) == candidate_matches(c, value),
{
    assert(seq![c].drop_last() =~= Seq::<Seq<char>>::empty());
    assert(!some_candidate(Seq::<Seq<char>>::empty(), value));
    assert(seq![c].last() == c);
    assert(some_candidate(seq![c], value) == (some_candidate(seq![c].drop_last(), value) || candidate_matches(seq![c].last(), value)));
}

/// A pattern with no character class matches in one of two ways: written `.*x.*` it matches
/// exactly the values in which `x` occurs; any other pattern that does not begin with `.`
/// matches only the value equal to it. No pattern matches every value.
pub proof fn law_regex_plain(x: Seq<char>, p: Seq<char>, value: Seq<char>)
    requires
        forall|i: int| 0 <= i < x.len() ==> x[i] != '[',
        forall|i: int| 0 <= i < p.len() ==> p[i] != '[',
        p.len() > 0 && p[0] != '.',
    ensures
        regex_matches_spec(None, value),
        regex_matches_spec(Some(seq!['.', '*'] + x + seq!['.', '*']), value) <==> exists|i: int|
            0 <= i && i + x.len() <= value.len() && #[trigger] value.subrange(i, i + x.len()) == x,
        regex_matches_spec(Some(p), value) <==> value == p,
{
    reveal_strlit(".*");
    let c = seq!['.', '*'] + x + seq!['.', '*'];
    assert forall|i: int| 0 <= i < c.len() implies c[i] != '[' by {
        if 2 <= i < 2 + x.len() {
            assert(c[i] == x[i - 2]);
        }
    }
    lemma_expand_plain(seq![Seq::<char>::empty()], c);
    assert(expand_from(seq![Seq::<char>::empty()], c) =~= seq![c]) by {
        assert(Seq::<char>::empty() + c =~= c);
    }
    lemma_single_candidate(c, value);
    assert(c.subrange(0, 2) =~= ".*"@);
    assert(c.skip(2) =~= x + seq!['.', '*']);
    let t = c.skip(2);
    assert(t.subrange(t.len() - 2, t.len() as int) =~= ".*"@);
    assert(t.take(c.len() - 4) =~= x);
    if regex_matches_spec(Some(c), value) {
        let i = choose|i: int| crate::text::occurs_at(value, x, i);
        assert(value.subrange(i, i + x.len()) == x);
    }
    if exists|i: int| 0 <= i && i + x.len() <= value.len() && #[trigger] value.subrange(i, i + x.len()) == x {
        let i = choose|i: int| 0 <= i && i + x.len() <= value.len() && #[trigger] value.subrange(i, i + x.len()) == x;
        assert(crate::text::occurs_at(value, x, i));
    }
    lemma_expand_plain(seq![Seq::<char>::empty()], p);
    assert(expand_from(seq![Seq::<char>::empty()], p) =~= seq![p]) by {
        assert(Seq::<char>::empty() + p =~= p);
    }
    lemma_single_candidate(p, value);
    assert(".*"@[0] == '.');
    assert(!starts_with_seq(p, ".*"@)) by {
        if starts_with_seq(p, ".*"@) {
            assert(p.subrange(0, 2)[0] == p[0]);
        }
    }
}


/// Characters without `[` before the rest are appended to each prefix first.
proof fn lemma_expand_prefix(out: Seq<Seq<char>>, a: Seq<char>, rest: Seq<char>)
    requires
        forall|i: int| 0 <= i < a.len() ==> a[i] != '[',
    ensures
        expand_from(out, a + rest) == expand_from(out.map_values(|q: Seq<char>| q + a), rest),
    decreases a.len(),
{
    if a.len() == 0 {
        assert(a + rest =~= rest);
        assert(out.map_values(|q: Seq<char>| q + a) =~= out) by {
            assert forall|k: int| 0 <= k < out.len() implies out[k] + a =~= out[k] by {}
        }
    } else {
        let out2 = out.map_values(|q: Seq<char>| q.push(a[0]));
        let a1 = a.skip(1);
        assert forall|i: int| 0 <= i < a1.len() implies a1[i] != '[' by {
            assert(a1[i] == a[i + 1]);
        }
        assert((a + rest)[0] == a[0]);
        assert((a + rest).skip(1) =~= a1 + rest);
        lemma_expand_prefix(out2, a1, rest);
        assert(out2.map_values(|q: Seq<char>| q + a1) =~= out.map_values(|q: Seq<char>| q + a)) by {
            assert forall|k: int| 0 <= k < out.len() implies out2[k] + a1 =~= out[k] + a by {
                assert(a =~= seq![a[0]] + a1);
            }
        }
    }
}

proof fn lemma_first_index_at(s: Seq<char>, c: char, from: int, n: int)
    requires
        0 <= from <= n < s.len(),
        s[n] == c,
        forall|i: int| from <= i < n ==> s[i] != c,
    ensures
        crate::text::first_index_from(s, c, from) == Some(n),
    decreases n - from,
{
    if from < n {
        lemma_first_index_at(s, c, from + 1, n);
    }
}

proof fn lemma_some_candidate_exists(cs: Seq<Seq<char>>, value: Seq<char>)
    ensures
        some_candidate(cs, value) <==> exists|k: int| 0 <= k < cs.len() && #[trigger] candidate_matches(cs[k], value),
{
    if exists|k: int| 0 <= k < cs.len() && #[trigger] candidate_matches(cs[k], value) {
        let k = choose|k: int| 0 <= k < cs.len() && #[trigger] candidate_matches(cs[k], value);
        let t = cs.take(k + 1);
        assert(t.last() == cs[k]);
        assert(some_candidate(t, value) == (some_candidate(t.drop_last(), value) || candidate_matches(t.last(), value)));
        lemma_some_candidate_prefix(cs, value, k + 1);
    } else {
        lemma_some_candidate_prefix(cs, value, 0);
    }
}

/// A pattern with one character class `[...]` stands for one character of the class: for
/// literal parts `pre` (not beginning with `.`) and `post`, `pre[class]post` matches exactly
/// the values made of `pre`, one character of the class, and `post`.
pub proof fn law_regex_class(pre: Seq<char>, class: Seq<char>, post: Seq<char>, value: Seq<char>)
    requires
        pre.len() > 0 && pre[0] != '.',
        class.len() > 0,
        forall|i: int| 0 <= i < pre.len() ==> pre[i] != '[',
        forall|i: int| 0 <= i < class.len() ==> class[i] != ']',
        forall|i: int| 0 <= i < post.len() ==> post[i] != '[',
    ensures
        regex_matches_spec(Some(pre + seq!['['] + class + seq![']'] + post), value) <==> exists|k: int|
            0 <= k < class.len() && value == #[trigger] pre.push(class[k]) + post,
{
    reveal_strlit(".*");
    let rest = seq!['['] + class + seq![']'] + post;
    assert(pre + seq!['['] + class + seq![']'] + post =~= pre + rest);
    lemma_expand_prefix(seq![Seq::<char>::empty()], pre, rest);
    let out1 = seq![Seq::<char>::empty()].map_values(|q: Seq<char>| q + pre);
    assert(out1 =~= seq![pre]) by {
        assert(Seq::<char>::empty() + pre =~= pre);
    }
    let body = rest.skip(1);
    assert(body =~= class + seq![']'] + post);
    assert forall|i: int| 0 <= i < class.len() implies body[i] != ']' by {
        assert(body[i] == class[i]);
    }
    assert(body[class.len() as int] == ']');
    lemma_first_index_at(body, ']', 0, class.len() as int);
    assert(body.take(class.len() as int) =~= class);
    assert(body.skip(class.len() as int + 1) =~= post);
    let pm = class.map_values(|c: char| pre.push(c));
    assert(product(seq![pre], class) =~= pm) by {
        assert(seq![pre].drop_last() =~= Seq::<Seq<char>>::empty());
        assert(product(Seq::<Seq<char>>::empty(), class) =~= Seq::<Seq<char>>::empty());
        assert(seq![pre].last() == pre);
    }
    assert(expand_from(out1, rest) == expand_from(pm, post));
    lemma_expand_plain(pm, post);
    let cs = pm.map_values(|q: Seq<char>| q + post);
    assert(expand_from(seq![Seq::<char>::empty()], pre + rest) == cs);
    lemma_some_candidate_exists(cs, value);
    assert forall|k: int| 0 <= k < cs.len() implies (#[trigger] candidate_matches(cs[k], value) <==> value == cs[k]) by {
        assert(cs[k] == pre.push(class[k]) + post);
        assert(cs[k][0] == pre[0]);
        assert(".*"@[0] == '.');
        if starts_with_seq(cs[k], ".*"@) {
            assert(cs[k].subrange(0, 2)[0] == cs[k][0]);
        }
    }
    if regex_matches_spec(Some(pre + seq!['['] + class + seq![']'] + post), value) {
        let k = choose|k: int| 0 <= k < cs.len() && #[trigger] candidate_matches(cs[k], value);
        assert(cs[k] == pre.push(class[k]) + post);
    }
    if exists|k: int| 0 <= k < class.len() && value == #[trigger] pre.push(class[k]) + post {
        let k = choose|k: int| 0 <= k < class.len() && value == #[trigger] pre.push(class[k]) + post;
        assert(cs[k] == pre.push(class[k]) + post);
        assert(candidate_matches(cs[k], value));
    }
}

} // verus!
