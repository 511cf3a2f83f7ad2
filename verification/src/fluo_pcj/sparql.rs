use vstd::prelude::*;

use crate::domain::{iri_model, valid_iri_spec, RyaIri, RyaType, RyaTypeModel, XSD_STRING};
use crate::fjall::codec::iri_error_text;
use crate::fluo_pcj::{
    fluo_pattern_model, FluoPatternModel, FluoStatementPattern, FluoTerm, FluoTermModel, term_model,
    XSD_INTEGER,
};
use crate::pcj::binding::BindingSet;
use crate::text::{
    chars_of, concat, ends_with_seq, has_char, parse_i64, parse_in_range, parse_signed_spec,
    push_char, push_str, split_once_spec, first_index, last_index, find_char_from, rfind_char,
    lemma_first_index_from, to_ascii_uppercase, to_ascii_uppercase_spec, to_ascii_lowercase_spec,
    eq_ignore_ascii_case, occurs_at, split_once_char, starts_with_seq, substring, to_owned,
    trim_end_non_ident, trim_end_non_ident_spec, views, split_spec, split_char,
};
use crate::words::{
    first_occurrence, find_from, lemma_first_occurrence, lemma_shift_occurrence, split_whitespace, ws_tokens, is_whitespace, is_ws, trim, trim_end_char, trim_end_char_spec, trim_spec, trim_start_char,
    trim_start_char_spec, trim_end_spec, trim_end,
};

verus! {

/// A variable name cleaned of surrounding space, leading `?` and trailing punctuation.
pub open spec fn clean_var_spec(v: Seq<char>) -> Seq<char> {
    trim_end_non_ident_spec(trim_start_char_spec(trim_spec(v), '?'))
}

/// A variable name cleaned of surrounding space, leading `?` and trailing punctuation.
pub fn clean_var(value: &str) -> (r: String)
    ensures
        r@ == clean_var_spec(value@),
{
    let t = trim(value);
    let u = trim_start_char(t.as_str(), '?');
    trim_end_non_ident(u.as_str())
}

/// The IRI of a text, or why it is none.
pub fn iri(value: &str) -> (r: Result<RyaIri, String>)
    ensures
        r is Ok <==> valid_iri_spec(value@),
        r matches Ok(i) ==> i@ == iri_model(value@),
        r matches Err(e) ==> e@ == iri_error_text(value@),
{
    RyaIri::new(value)
}

pub open spec fn string_model(t: Seq<char>) -> RyaTypeModel {
    RyaTypeModel { data_type: Some(XSD_STRING@), data: t, language: None }
}

/// The term a query token names: `?name` a variable, `<iri>` an IRI, `"text"` a string, an
/// integer an `xsd:integer`, anything else a string.
pub open spec fn query_term_spec(token: Seq<char>) -> Result<FluoTermModel, Seq<char>> {
    let t = trim_spec(token);
    if t.len() > 0 && t[0] == '?' {
        Ok(FluoTermModel::Var(clean_var_spec(t.drop_first())))
    } else if t.len() > 0 && t[0] == '<' && t.last() == '>' {
        let d = trim_end_char_spec(trim_start_char_spec(t, '<'), '>');
        if valid_iri_spec(d) {
            Ok(FluoTermModel::Constant(iri_model(d)))
        } else {
            Err(iri_error_text(d))
        }
    } else if t.len() > 0 && t[0] == '"' && t.last() == '"' {
        Ok(FluoTermModel::Constant(string_model(trim_end_char_spec(trim_start_char_spec(t, '"'), '"'))))
    } else if parse_in_range(parse_signed_spec(t), i64::MIN as int, i64::MAX as int) is Some {
        Ok(
            FluoTermModel::Constant(
                RyaTypeModel { data_type: Some(XSD_INTEGER@), data: t, language: None },
            ),
        )
    } else {
        Ok(FluoTermModel::Constant(string_model(t)))
    }
}

/// The term a query token names.
pub fn parse_query_term(token: &str) -> (r: Result<FluoTerm, String>)
    ensures
        match query_term_spec(token@) {
            Ok(m) => r matches Ok(x) && term_model(x) == m,
            Err(e) => r matches Err(x) && x@ == e,
        },
{
    let t = trim(token);
    let cs = chars_of(t.as_str());
    let n = cs.len();
    if n > 0 && cs[0] == '?' {
        let rest = substring(cs.as_slice(), 1, n);
        assert(rest@ =~= t@.drop_first());
        Ok(FluoTerm::Var(clean_var(rest.as_str())))
    } else if n > 0 && cs[0] == '<' && cs[n - 1] == '>' {
        let a = trim_start_char(t.as_str(), '<');
        let d = trim_end_char(a.as_str(), '>');
        match iri(d.as_str()) {
            Ok(i) => Ok(FluoTerm::Constant(i.into_type())),
            Err(e) => Err(e),
        }
    } else if n > 0 && cs[0] == '"' && cs[n - 1] == '"' {
        let a = trim_start_char(t.as_str(), '"');
        let d = trim_end_char(a.as_str(), '"');
        Ok(FluoTerm::Constant(RyaType::new(d.as_str())))
    } else if parse_i64(t.as_str()).is_some() {
        Ok(FluoTerm::Constant(RyaType::custom(XSD_INTEGER, t.as_str())))
    } else {
        Ok(FluoTerm::Constant(RyaType::new(t.as_str())))
    }
}

/// The tokens of a pattern read from `s` on, with `cur` pending and `in_quotes` the quoting
/// state: white space outside quotes separates tokens, a `"` toggles quoting and is kept.
pub open spec fn tokens_from(s: Seq<char>, cur: Seq<char>, in_quotes: bool) -> Seq<Seq<char>>
    decreases s.len(),
{
    if s.len() == 0 {
        if cur.len() > 0 {
            seq![cur]
        } else {
            Seq::empty()
        }
    } else {
        let c = s[0];
        if c == '"' {
            tokens_from(s.drop_first(), cur.push(c), !in_quotes)
        } else if is_ws(c) && !in_quotes {
            (if cur.len() > 0 {
                seq![cur]
            } else {
                Seq::empty()
            }) + tokens_from(s.drop_first(), Seq::empty(), in_quotes)
        } else {
            tokens_from(s.drop_first(), cur.push(c), in_quotes)
        }
    }
}

/// Splits a pattern into its terms at white space outside double quotes.
pub fn tokenize_pattern(part: &str) -> (r: Vec<String>)
    ensures
        views(r@) == tokens_from(part@, Seq::empty(), false),
{
    let cs = chars_of(part);
    let mut tokens: Vec<String> = Vec::new();
    let mut current = String::new();
    let mut in_quotes = false;
    let mut i: usize = 0;
    assert(cs@.skip(0) =~= cs@);
    while i < cs.len()
        invariant
            i <= cs.len(),
            cs@ == part@,
            views(tokens@) + tokens_from(cs@.skip(i as int), current@, in_quotes) == tokens_from(
                part@,
                Seq::empty(),
                false,
            ),
        decreases cs.len() - i,
    {
        let ch = cs[i];
        let ghost rest = cs@.skip(i as int);
        assert(rest[0] == ch);
        assert(rest.drop_first() =~= cs@.skip(i + 1));
        if ch == '"' {
            in_quotes = !in_quotes;
            push_char(&mut current, ch);
        } else if is_whitespace(ch) && !in_quotes {
            if current.unicode_len() > 0 {
                let ghost before = tokens@;
                let tok = current;
                current = String::new();
                tokens.push(tok);
                assert(views(tokens@) =~= views(before).push(tok@));
                assert(views(tokens@) + tokens_from(cs@.skip(i + 1), current@, in_quotes) =~= views(
                    before,
                ) + (seq![tok@] + tokens_from(cs@.skip(i + 1), Seq::empty(), in_quotes)));
            } else {
                assert(current@ =~= Seq::<char>::empty());
                assert(Seq::<Seq<char>>::empty() + tokens_from(cs@.skip(i + 1), Seq::empty(), in_quotes)
                    =~= tokens_from(cs@.skip(i + 1), Seq::empty(), in_quotes));
            }
        } else {
            push_char(&mut current, ch);
        }
        i = i + 1;
    }
    if current.unicode_len() > 0 {
        let ghost before = tokens@;
        let tok = current;
        tokens.push(tok);
        assert(views(tokens@) =~= views(before) + seq![tok@]);
    } else {
        assert(views(tokens@) + Seq::<Seq<char>>::empty() =~= views(tokens@));
    }
    tokens
}

pub open spec fn term_count_text(part: Seq<char>) -> Seq<char> {
    "Statement pattern must contain 3 terms: "@ + part
}

/// The statement pattern of three tokens.
pub open spec fn pattern_spec(part: Seq<char>) -> Result<FluoPatternModel, Seq<char>> {
    let tokens = tokens_from(part, Seq::empty(), false);
    if tokens.len() != 3 {
        Err(term_count_text(part))
    } else {
        match query_term_spec(tokens[0]) {
            Err(e) => Err(e),
            Ok(s) => match query_term_spec(tokens[1]) {
                Err(e) => Err(e),
                Ok(p) => match query_term_spec(tokens[2]) {
                    Err(e) => Err(e),
                    Ok(o) => Ok(FluoPatternModel { subject: s, predicate: p, object: o }),
                },
            },
        }
    }
}

/// The statement pattern of three tokens.
pub fn parse_pattern(part: &str) -> (r: Result<FluoStatementPattern, String>)
    ensures
        match pattern_spec(part@) {
            Ok(m) => r matches Ok(x) && fluo_pattern_model(x) == m,
            Err(e) => r matches Err(x) && x@ == e,
        },
{
    let tokens = tokenize_pattern(part);
    if tokens.len() != 3 {
        return Err(concat("Statement pattern must contain 3 terms: ", part));
    }
    let s = parse_query_term(tokens[0].as_str())?;
    let p = parse_query_term(tokens[1].as_str())?;
    let o = parse_query_term(tokens[2].as_str())?;
    Ok(FluoStatementPattern::new(s, p, o))
}

pub open spec fn pattern_models(v: Seq<FluoStatementPattern>) -> Seq<FluoPatternModel> {
    v.map_values(|p: FluoStatementPattern| fluo_pattern_model(p))
}

/// The patterns of the non-blank parts among the first `n` pieces.
pub open spec fn patterns_of_parts(parts: Seq<Seq<char>>, n: nat) -> Result<Seq<FluoPatternModel>, Seq<char>>
    decreases n,
{
    if n == 0 || n > parts.len() {
        Ok(Seq::empty())
    } else {
        match patterns_of_parts(parts, (n - 1) as nat) {
            Err(e) => Err(e),
            Ok(acc) => {
                let part = trim_spec(parts[n - 1]);
                if part.len() == 0 {
                    Ok(acc)
                } else {
                    match pattern_spec(part) {
                        Err(e) => Err(e),
                        Ok(p) => Ok(acc.push(p)),
                    }
                }
            },
        }
    }
}

/// The patterns of a body: its `.`-separated, non-blank parts.
pub open spec fn patterns_spec(body: Seq<char>) -> Result<Seq<FluoPatternModel>, Seq<char>> {
    patterns_of_parts(split_spec(body, '.'), split_spec(body, '.').len())
}

proof fn lemma_patterns_err(parts: Seq<Seq<char>>, n: nat, total: nat)
    requires
        n <= total <= parts.len(),
        patterns_of_parts(parts, n) is Err,
    ensures
        patterns_of_parts(parts, total) == patterns_of_parts(parts, n),
    decreases total - n,
{
    if n < total {
        lemma_patterns_err(parts, n, (total - 1) as nat);
    }
}

/// The patterns of a body: its `.`-separated, non-blank parts; the first bad part is the error.
pub fn parse_patterns(body: &str) -> (r: Result<Vec<FluoStatementPattern>, String>)
    ensures
        match patterns_spec(body@) {
            Ok(m) => r matches Ok(v) && pattern_models(v@) == m,
            Err(e) => r matches Err(x) && x@ == e,
        },
{
    let parts = split_char(body, '.');
    let ghost ps = split_spec(body@, '.');
    let mut out: Vec<FluoStatementPattern> = Vec::new();
    let mut i: usize = 0;
    assert(pattern_models(out@) =~= Seq::<FluoPatternModel>::empty());
    while i < parts.len()
        invariant
            i <= parts.len(),
            views(parts@) == ps,
            ps == split_spec(body@, '.'),
            patterns_of_parts(ps, i as nat) == Ok::<Seq<FluoPatternModel>, Seq<char>>(pattern_models(out@)),
        decreases parts.len() - i,
    {
        let part = trim(parts[i].as_str());
        assert(part@ == trim_spec(ps[i as int]));
        if part.unicode_len() != 0 {
            match parse_pattern(part.as_str()) {
                Ok(p) => {
                    let ghost before = out@;
                    out.push(p);
                    assert(pattern_models(out@) =~= pattern_models(before).push(fluo_pattern_model(p)));
                },
                Err(e) => {
                    proof {
                        lemma_patterns_err(ps, (i + 1) as nat, ps.len());
                    }
                    return Err(e);
                },
            }
        }
        i = i + 1;
    }
    Ok(out)
}

// ---------------------------------------------------------------------------
// Filters
// ---------------------------------------------------------------------------

/// A filter of a query: a variable equal to a value, or a variable's integer value below a
/// bound.
pub enum FilterExpression {
    Eq(String, RyaType),
    Lt(String, i64),
}

pub enum FilterModel {
    Eq(Seq<char>, RyaTypeModel),
    Lt(Seq<char>, int),
}

pub open spec fn filter_model(f: FilterExpression) -> FilterModel {
    match f {
        FilterExpression::Eq(n, v) => FilterModel::Eq(n@, v@),
        FilterExpression::Lt(n, m) => FilterModel::Lt(n@, m as int),
    }
}

impl Clone for FilterExpression {
    fn clone(&self) -> (r: Self)
        ensures
            filter_model(r) == filter_model(*self),
    {
        match self {
            FilterExpression::Eq(n, v) => FilterExpression::Eq(n.clone(), v.clone()),
            FilterExpression::Lt(n, m) => FilterExpression::Lt(n.clone(), *m),
        }
    }
}

/// Whether a row passes a filter.
pub open spec fn accepts_spec(f: FilterModel, row: Map<Seq<char>, RyaTypeModel>) -> bool {
    match f {
        FilterModel::Eq(name, expected) => row.contains_key(name) && row[name] == expected,
        FilterModel::Lt(name, max) => row.contains_key(name) && match parse_in_range(
            parse_signed_spec(row[name].data),
            i64::MIN as int,
            i64::MAX as int,
        ) {
            Some(v) => v < max,
            None => false,
        },
    }
}

impl FilterExpression {
    /// Whether a row passes the filter.
    pub fn accepts(&self, row: &BindingSet) -> (r: bool)
        ensures
            r == accepts_spec(filter_model(*self), row@),
    {
        match self {
            FilterExpression::Eq(name, expected) => match row.get(name.as_str()) {
                Some(v) => v.same_as(expected),
                None => false,
            },
            FilterExpression::Lt(name, max) => match row.get(name.as_str()) {
                Some(v) => match parse_i64(v.data()) {
                    Some(x) => x < *max,
                    None => false,
                },
                None => false,
            },
        }
    }
}

/// The constant of a filter's right-hand side; a variable there is an error.
pub open spec fn filter_value_spec(token: Seq<char>) -> Result<RyaTypeModel, Seq<char>> {
    match query_term_spec(token) {
        Err(e) => Err(e),
        Ok(FluoTermModel::Constant(v)) => Ok(v),
        Ok(FluoTermModel::Var(n)) => Err("FILTER value must be constant, found variable "@ + n),
    }
}

/// The constant of a filter's right-hand side; a variable there is an error.
pub fn parse_filter_value(token: &str) -> (r: Result<RyaType, String>)
    ensures
        match filter_value_spec(token@) {
            Ok(m) => r matches Ok(v) && v@ == m,
            Err(e) => r matches Err(x) && x@ == e,
        },
{
    match parse_query_term(token)? {
        FluoTerm::Constant(v) => Ok(v),
        FluoTerm::Var(n) => Err(concat("FILTER value must be constant, found variable ", n.as_str())),
    }
}

/// A filter's variable name from its left-hand side.
pub open spec fn filter_name(left: Seq<char>) -> Seq<char> {
    clean_var_spec(trim_start_char_spec(trim_spec(left), '?'))
}

/// The filter an expression states: `?x = <iri>`, `?x = value` or `?x < integer`.
pub open spec fn filter_expr_spec(expr: Seq<char>) -> Result<FilterModel, Seq<char>> {
    let e = trim_spec(expr);
    let uri_form = match split_once_spec(e, '<') {
        Some((left, right)) => has_char(left, '?') && {
            let l = trim_end_spec(left);
            l.len() > 0 && l.last() == '='
        },
        None => false,
    };
    if uri_form {
        let (left, right) = split_once_spec(e, '<')->Some_0;
        let name = clean_var_spec(trim_start_char_spec(trim_end_char_spec(trim_spec(left), '='), '?'));
        match split_once_spec(right, '>') {
            None => Err("URI filter is missing '>'"@),
            Some((value, _)) => if valid_iri_spec(value) {
                Ok(FilterModel::Eq(name, iri_model(value)))
            } else {
                Err(iri_error_text(value))
            },
        }
    } else {
        match split_once_spec(e, '=') {
            Some((left, right)) => match filter_value_spec(trim_spec(right)) {
                Err(err) => Err(err),
                Ok(v) => Ok(FilterModel::Eq(filter_name(left), v)),
            },
            None => match split_once_spec(e, '<') {
                Some((left, right)) => match parse_in_range(
                    parse_signed_spec(trim_spec(right)),
                    i64::MIN as int,
                    i64::MAX as int,
                ) {
                    None => Err("Numeric FILTER threshold must be an integer"@),
                    Some(max) => Ok(FilterModel::Lt(filter_name(left), max)),
                },
                None => Err("Unsupported FILTER expression: "@ + e),
            },
        }
    }
}

/// The filter an expression states: `?x = <iri>`, `?x = value` or `?x < integer`.
pub fn parse_filter_expr(expr: &str) -> (r: Result<FilterExpression, String>)
    ensures
        match filter_expr_spec(expr@) {
            Ok(m) => r matches Ok(f) && filter_model(f) == m,
            Err(e) => r matches Err(x) && x@ == e,
        },
{
    let e = trim(expr);
    match split_once_char(e.as_str(), '<') {
        Some((left, right)) => {
            let l = trim_end(left.as_str());
            let lc = chars_of(l.as_str());
            if crate::text::contains(left.as_str(), "?") && lc.len() > 0 && lc[lc.len() - 1] == '=' {
                proof {
                    reveal_strlit("?");
                    assert(crate::text::contains_seq(left@, "?"@) == has_char(left@, '?')) by {
                        if has_char(left@, '?') {
                            let k = choose|k: int| 0 <= k < left@.len() && left@[k] == '?';
                            assert(crate::text::occurs_at(left@, "?"@, k)) by {
                                assert(left@.subrange(k, k + 1) =~= "?"@);
                            }
                        }
                        if crate::text::contains_seq(left@, "?"@) {
                            let k = choose|k: int| crate::text::occurs_at(left@, "?"@, k);
                            assert(left@.subrange(k, k + 1)[0] == left@[k]);
                        }
                    }
                }
                let t = trim(left.as_str());
                let u = trim_end_char(t.as_str(), '=');
                let w = trim_start_char(u.as_str(), '?');
                let name = clean_var(w.as_str());
                let value = match split_once_char(right.as_str(), '>') {
                    Some((v, _)) => v,
                    None => {
                        return Err(to_owned("URI filter is missing '>'"));
                    },
                };
                return match iri(value.as_str()) {
                    Ok(i) => Ok(FilterExpression::Eq(name, i.into_type())),
                    Err(err) => Err(err),
                };
            }
            proof {
                reveal_strlit("?");
                if has_char(left@, '?') {
                    let k = choose|k: int| 0 <= k < left@.len() && left@[k] == '?';
                    assert(crate::text::occurs_at(left@, "?"@, k)) by {
                        assert(left@.subrange(k, k + 1) =~= "?"@);
                    }
                }
            }
        },
        None => {},
    }
    match split_once_char(e.as_str(), '=') {
        Some((left, right)) => {
            let t = trim(left.as_str());
            let w = trim_start_char(t.as_str(), '?');
            let name = clean_var(w.as_str());
            let rt = trim(right.as_str());
            let v = parse_filter_value(rt.as_str())?;
            return Ok(FilterExpression::Eq(name, v));
        },
        None => {},
    }
    match split_once_char(e.as_str(), '<') {
        Some((left, right)) => {
            let t = trim(left.as_str());
            let w = trim_start_char(t.as_str(), '?');
            let name = clean_var(w.as_str());
            let rt = trim(right.as_str());
            match parse_i64(rt.as_str()) {
                Some(max) => Ok(FilterExpression::Lt(name, max)),
                None => Err(to_owned("Numeric FILTER threshold must be an integer")),
            }
        },
        None => Err(concat("Unsupported FILTER expression: ", e.as_str())),
    }
}

// ---------------------------------------------------------------------------
// The query text
// ---------------------------------------------------------------------------

/// The text between the first `{` and the last `}`.
pub open spec fn body_spec(q: Seq<char>) -> Result<Seq<char>, Seq<char>> {
    match first_index(q, '{') {
        None => Err("SPARQL query is missing '{'"@),
        Some(start) => match last_index(q, '}') {
            None => Err("SPARQL query is missing '}'"@),
            Some(end) => if start >= end {
                Err("SPARQL query body is malformed"@)
            } else {
                Ok(q.subrange(start + 1, end))
            },
        },
    }
}

/// The text between the first `{` and the last `}`.
pub fn sparql_body(sparql: &str) -> (r: Result<String, String>)
    ensures
        match body_spec(sparql@) {
            Ok(b) => r matches Ok(x) && x@ == b,
            Err(e) => r matches Err(x) && x@ == e,
        },
{
    let cs = chars_of(sparql);
    let start = match find_char_from(cs.as_slice(), '{', 0) {
        Some(i) => i,
        None => {
            return Err(to_owned("SPARQL query is missing '{'"));
        },
    };
    let end = match rfind_char(cs.as_slice(), '}') {
        Some(i) => i,
        None => {
            return Err(to_owned("SPARQL query is missing '}'"));
        },
    };
    proof {
        lemma_first_index_from(sparql@, '{', 0);
        crate::text::lemma_last_index_before(sparql@, '}', sparql@.len() as int);
    }
    if start >= end {
        return Err(to_owned("SPARQL query body is malformed"));
    }
    Ok(substring(cs.as_slice(), start + 1, end))
}

/// Whether a projected word is kept: any but `DISTINCT`.
pub open spec fn not_distinct(t: Seq<char>) -> bool {
    to_ascii_lowercase_spec(t) != to_ascii_lowercase_spec("DISTINCT"@)
}

/// The projected variables of the first `n` words of a SELECT clause.
pub open spec fn select_vars_upto(words: Seq<Seq<char>>, n: nat) -> Seq<Seq<char>>
    decreases n,
{
    if n == 0 || n > words.len() {
        Seq::empty()
    } else {
        let acc = select_vars_upto(words, (n - 1) as nat);
        let w = words[n - 1];
        if not_distinct(w) && w.len() > 0 && w[0] == '?' && clean_var_spec(w.drop_first()).len() > 0 {
            acc.push(clean_var_spec(w.drop_first()))
        } else {
            acc
        }
    }
}

/// Where the SELECT clause ends: at the first `WHERE` after `SELECT`, or else at the first
/// `{` after it.
pub open spec fn clause_end(q: Seq<char>, select: int) -> Option<int> {
    match first_occurrence(to_ascii_uppercase_spec(q), "WHERE"@, select) {
        Some(k) => Some(k),
        None => crate::text::first_index_from(q, '{', select),
    }
}

/// The variables a SELECT query projects.
pub open spec fn select_vars_spec(q: Seq<char>) -> Result<Seq<Seq<char>>, Seq<char>> {
    match first_occurrence(to_ascii_uppercase_spec(q), "SELECT"@, 0) {
        None => Err("Only SELECT query fixtures are supported"@),
        Some(select) => match clause_end(q, select) {
            None => Err("SELECT query fixture is missing WHERE"@),
            Some(end) => {
                let words = ws_tokens(trim_spec(q.subrange(select + 6, end)));
                let vars = select_vars_upto(words, words.len());
                if vars.len() == 0 {
                    Err("SELECT query fixture does not project any variables"@)
                } else {
                    Ok(vars)
                }
            },
        },
    }
}

/// No `WHERE` and no `{` starts inside the `SELECT` keyword.
proof fn lemma_end_after_select(q: Seq<char>, select: int)
    requires
        occurs_at(to_ascii_uppercase_spec(q), "SELECT"@, select),
    ensures
        clause_end(q, select) matches Some(end) ==> end >= select + 6,
{
    reveal_strlit("SELECT");
    reveal_strlit("WHERE");
    let u = to_ascii_uppercase_spec(q);
    lemma_first_occurrence(u, "WHERE"@, select);
    lemma_first_index_from(q, '{', select);
    assert forall|k: int| select <= k < select + 6 implies u[k] != 'W' && q[k] != '{' by {
        assert(u[k] == u.subrange(select, select + 6)[k - select]);
        assert(u[k] == crate::text::upper_char(q[k]));
    }
    match first_occurrence(u, "WHERE"@, select) {
        Some(k) => {
            if k < select + 6 {
                assert(u.subrange(k, k + 5)[0] == u[k]);
            }
        },
        None => {},
    }
}

/// The variables a SELECT query projects.
pub fn parse_select_vars(sparql: &str) -> (r: Result<Vec<String>, String>)
    ensures
        match select_vars_spec(sparql@) {
            Ok(v) => r matches Ok(x) && views(x@) == v,
            Err(e) => r matches Err(x) && x@ == e,
        },
{
    let upper = to_ascii_uppercase(sparql);
    let uc = chars_of(upper.as_str());
    let cs = chars_of(sparql);
    let sel = chars_of("SELECT");
    let wh = chars_of("WHERE");
    let select = match find_from(&uc, &sel, 0) {
        Some(k) => k,
        None => {
            return Err(to_owned("Only SELECT query fixtures are supported"));
        },
    };
    proof {
        lemma_first_occurrence(uc@, sel@, 0);
        lemma_end_after_select(sparql@, select as int);
    }
    let end = match find_from(&uc, &wh, select) {
        Some(k) => k,
        None => match find_char_from(cs.as_slice(), '{', select) {
            Some(k) => k,
            None => {
                return Err(to_owned("SELECT query fixture is missing WHERE"));
            },
        },
    };
    proof {
        lemma_first_occurrence(uc@, wh@, select as int);
        lemma_first_index_from(sparql@, '{', select as int);
    }
    let clause_text = substring(cs.as_slice(), select + 6, end);
    let clause = trim(clause_text.as_str());
    let words = split_whitespace(clause.as_str());
    let mut vars: Vec<String> = Vec::new();
    let mut i: usize = 0;
    assert(views(vars@) =~= Seq::<Seq<char>>::empty());
    while i < words.len()
        invariant
            i <= words.len(),
            views(vars@) == select_vars_upto(views(words@), i as nat),
        decreases words.len() - i,
    {
        let w = &words[i];
        assert(views(words@)[i as int] == w@);
        if !eq_ignore_ascii_case(w.as_str(), "DISTINCT") {
            let wc = chars_of(w.as_str());
            if wc.len() > 0 && wc[0] == '?' {
                let rest = substring(wc.as_slice(), 1, wc.len());
                assert(rest@ =~= w@.drop_first());
                let name = clean_var(rest.as_str());
                if name.unicode_len() > 0 {
                    let ghost before = vars@;
                    vars.push(name);
                    assert(views(vars@) =~= views(before).push(name@));
                }
            }
        }
        i = i + 1;
    }
    if vars.len() == 0 {
        return Err(to_owned("SELECT query fixture does not project any variables"));
    }
    Ok(vars)
}

/// The filters of a body from `rest` on, and the body without them; `FILTER(` is found
/// without regard to case and runs to the next `)`.
pub open spec fn filters_spec(rest: Seq<char>) -> Result<(Seq<FilterModel>, Seq<char>), Seq<char>>
    decreases rest.len(),
{
    match first_occurrence(to_ascii_uppercase_spec(rest), "FILTER("@, 0) {
        None => Ok((Seq::empty(), rest)),
        Some(k) => {
            let es = k + 7;
            match crate::text::first_index_from(rest, ')', es) {
                None => Err("FILTER expression is missing ')'"@),
                Some(ee) => if ee + 1 > rest.len() || ee + 1 <= 0 {
                    Err("FILTER expression is missing ')'"@)
                } else {
                    match filter_expr_spec(rest.subrange(es, ee)) {
                        Err(e) => Err(e),
                        Ok(f) => match filters_spec(rest.skip(ee + 1)) {
                            Err(e) => Err(e),
                            Ok((fs, tail)) => Ok((seq![f] + fs, rest.take(k) + tail)),
                        },
                    }
                },
            }
        },
    }
}

pub open spec fn filter_models(v: Seq<FilterExpression>) -> Seq<FilterModel> {
    v.map_values(|f: FilterExpression| filter_model(f))
}



/// The first `c` in a suffix is the first in the whole from the suffix's start, shifted.
proof fn lemma_shift_index(s: Seq<char>, c: char, i: int, j: int)
    requires
        0 <= i <= s.len(),
        0 <= j,
    ensures
        crate::text::first_index_from(s.skip(i), c, j) == match crate::text::first_index_from(s, c, i + j) {
            Some(k) => Some(k - i),
            None => None::<int>,
        },
    decreases s.len() - i - j,
{
    if i + j < s.len() {
        assert(s.skip(i)[j] == s[i + j]);
        if s[i + j] != c {
            lemma_shift_index(s, c, i, j + 1);
        }
    }
}

proof fn lemma_upper_skip(s: Seq<char>, i: int)
    requires
        0 <= i <= s.len(),
    ensures
        to_ascii_uppercase_spec(s.skip(i)) == to_ascii_uppercase_spec(s).skip(i),
{
    assert(to_ascii_uppercase_spec(s.skip(i)) =~= to_ascii_uppercase_spec(s).skip(i));
}

/// The filters of a body, and the body without them.
pub fn extract_filters(body: &str) -> (r: Result<(Vec<FilterExpression>, String), String>)
    ensures
        match filters_spec(body@) {
            Ok((fs, rest)) => r matches Ok((v, t)) && filter_models(v@) == fs && t@ == rest,
            Err(e) => r matches Err(x) && x@ == e,
        },
{
    let bc = chars_of(body);
    let upper = to_ascii_uppercase(body);
    let ub = chars_of(upper.as_str());
    let pat = chars_of("FILTER(");
    proof {
        reveal_strlit("FILTER(");
    }
    let mut filters: Vec<FilterExpression> = Vec::new();
    let mut stripped = String::new();
    let mut index: usize = 0;
    assert(body@.skip(0) =~= body@);
    assert(filter_models(filters@) =~= Seq::<FilterModel>::empty());
    loop
        invariant
            index <= bc.len(),
            bc@ == body@,
            ub@ == to_ascii_uppercase_spec(body@),
            pat@ == "FILTER("@,
            pat@.len() == 7,
            filters_spec(body@) == match filters_spec(body@.skip(index as int)) {
                Err(e) => Err(e),
                Ok((fs, tail)) => Ok((filter_models(filters@) + fs, stripped@ + tail)),
            },
        decreases bc.len() - index,
    {
        let ghost rest = body@.skip(index as int);
        proof {
            lemma_upper_skip(body@, index as int);
            lemma_shift_occurrence(ub@, pat@, index as int);
            lemma_first_occurrence(ub@, pat@, index as int);
        }
        match find_from(&ub, &pat, index) {
            None => {
                let tail = substring(bc.as_slice(), index, bc.len());
                assert(tail@ =~= rest);
                push_str(&mut stripped, tail.as_str());
                assert(filter_models(filters@) + Seq::<FilterModel>::empty() =~= filter_models(filters@));
                return Ok((filters, stripped));
            },
            Some(start) => {
                let expr_start = start + 7;
                proof {
                    lemma_shift_index(body@, ')', index as int, (expr_start - index) as int);
                }
                let expr_end = match find_char_from(bc.as_slice(), ')', expr_start) {
                    Some(e) => e,
                    None => {
                        return Err(to_owned("FILTER expression is missing ')'"));
                    },
                };
                proof {
                    lemma_first_index_from(body@, ')', expr_start as int);
                }
                let head = substring(bc.as_slice(), index, start);
                let expr = substring(bc.as_slice(), expr_start, expr_end);
                assert(head@ =~= rest.take(start - index));
                assert(expr@ =~= rest.subrange(expr_start - index, expr_end - index));
                let f = parse_filter_expr(expr.as_str())?;
                assert(rest.skip(expr_end - index + 1) =~= body@.skip(expr_end + 1));
                let ghost before_f = filters@;
                let ghost before_s = stripped@;
                push_str(&mut stripped, head.as_str());
                filters.push(f);
                assert(filter_models(filters@) =~= filter_models(before_f).push(filter_model(f)));
                proof {
                    match filters_spec(body@.skip(expr_end + 1)) {
                        Ok((fs, tail)) => {
                            assert(filter_models(before_f) + (seq![filter_model(f)] + fs) =~= filter_models(
                                filters@,
                            ) + fs);
                            assert(before_s + (head@ + tail) =~= stripped@ + tail);
                        },
                        Err(_) => {},
                    }
                }
                index = expr_end + 1;
            },
        }
    }
}

/// Where the block opened at `i` closes, counting nested braces from `depth`.
pub open spec fn close_of(s: Seq<char>, i: int, depth: int) -> Option<int>
    decreases s.len() - i,
{
    if i < 0 || i >= s.len() {
        None
    } else if s[i] == '{' {
        close_of(s, i + 1, depth + 1)
    } else if s[i] == '}' {
        if depth <= 1 {
            Some(i)
        } else {
            close_of(s, i + 1, depth - 1)
        }
    } else {
        close_of(s, i + 1, depth)
    }
}

/// The first index from `i` on that is not white space.
pub open spec fn skip_ws(s: Seq<char>, i: int) -> int
    decreases s.len() - i,
{
    if 0 <= i < s.len() && is_ws(s[i]) {
        skip_ws(s, i + 1)
    } else {
        i
    }
}

/// The body without its `OPTIONAL { ... }` blocks (found without regard to case), and the
/// patterns of those blocks.
pub open spec fn optionals_spec(rest: Seq<char>) -> Result<(Seq<char>, Seq<FluoPatternModel>), Seq<char>>
    decreases rest.len(),
{
    match first_occurrence(to_ascii_uppercase_spec(rest), "OPTIONAL"@, 0) {
        None => Ok((rest, Seq::empty())),
        Some(k) => {
            let cur = skip_ws(rest, k + 8);
            if !(0 <= cur < rest.len() && rest[cur] == '{') {
                Err("OPTIONAL block is missing '{'"@)
            } else {
                match close_of(rest, cur, 0) {
                    None => Err("OPTIONAL block is missing '}'"@),
                    Some(close) => if close + 1 > rest.len() || close + 1 <= 0 || close <= cur {
                        Err("OPTIONAL block is missing '}'"@)
                    } else {
                        match patterns_spec(rest.subrange(cur + 1, close)) {
                            Err(e) => Err(e),
                            Ok(ps) => match optionals_spec(rest.skip(close + 1)) {
                                Err(e) => Err(e),
                                Ok((req, ops)) => Ok((rest.take(k) + req, ps + ops)),
                            },
                        }
                    },
                }
            }
        },
    }
}

proof fn lemma_skip_ws_shift(s: Seq<char>, i: int, j: int)
    requires
        0 <= i <= s.len(),
        0 <= j,
    ensures
        skip_ws(s.skip(i), j) == skip_ws(s, i + j) - i,
    decreases s.len() - i - j,
{
    if i + j < s.len() {
        assert(s.skip(i)[j] == s[i + j]);
        if is_ws(s[i + j]) {
            lemma_skip_ws_shift(s, i, j + 1);
        }
    }
}

proof fn lemma_close_shift(s: Seq<char>, i: int, j: int, depth: int)
    requires
        0 <= i <= s.len(),
        0 <= j,
    ensures
        close_of(s.skip(i), j, depth) == match close_of(s, i + j, depth) {
            Some(k) => Some(k - i),
            None => None::<int>,
        },
    decreases s.len() - i - j,
{
    if i + j < s.len() {
        assert(s.skip(i)[j] == s[i + j]);
        lemma_close_shift(s, i, j + 1, depth + 1);
        lemma_close_shift(s, i, j + 1, depth - 1);
        lemma_close_shift(s, i, j + 1, depth);
    }
}

proof fn lemma_close_after(s: Seq<char>, i: int, depth: int)
    ensures
        close_of(s, i, depth) matches Some(k) ==> i <= k < s.len() && s[k] == '}',
    decreases s.len() - i,
{
    if 0 <= i < s.len() {
        lemma_close_after(s, i + 1, depth + 1);
        lemma_close_after(s, i + 1, depth - 1);
        lemma_close_after(s, i + 1, depth);
    }
}

fn find_close(bc: &Vec<char>, open: usize) -> (r: Option<usize>)
    requires
        open < bc.len(),
    ensures
        r == match close_of(bc@, open as int, 0) {
            Some(k) => Some(k as usize),
            None => None::<usize>,
        },
{
    let mut depth: usize = 0;
    let mut i: usize = open;
    while i < bc.len()
        invariant
            open <= i <= bc.len(),
            depth <= i - open,
            close_of(bc@, open as int, 0) == close_of(bc@, i as int, depth as int),
        decreases bc.len() - i,
    {
        let ch = bc[i];
        if ch == '{' {
            depth = depth + 1;
        } else if ch == '}' {
            if depth <= 1 {
                return Some(i);
            }
            depth = depth - 1;
        }
        i = i + 1;
    }
    None
}

/// The body without its `OPTIONAL` blocks, and the patterns of those blocks.
pub fn extract_optional_patterns(body: &str) -> (r: Result<(String, Vec<FluoStatementPattern>), String>)
    ensures
        match optionals_spec(body@) {
            Ok((req, ps)) => r matches Ok((t, v)) && t@ == req && pattern_models(v@) == ps,
            Err(e) => r matches Err(x) && x@ == e,
        },
{
    let bc = chars_of(body);
    let upper = to_ascii_uppercase(body);
    let ub = chars_of(upper.as_str());
    let pat = chars_of("OPTIONAL");
    proof {
        reveal_strlit("OPTIONAL");
    }
    let mut patterns: Vec<FluoStatementPattern> = Vec::new();
    let mut required = String::new();
    let mut index: usize = 0;
    assert(body@.skip(0) =~= body@);
    assert(pattern_models(patterns@) =~= Seq::<FluoPatternModel>::empty());
    loop
        invariant
            index <= bc.len(),
            bc@ == body@,
            ub@ == to_ascii_uppercase_spec(body@),
            pat@ == "OPTIONAL"@,
            pat@.len() == 8,
            optionals_spec(body@) == match optionals_spec(body@.skip(index as int)) {
                Err(e) => Err(e),
                Ok((req, ps)) => Ok((required@ + req, pattern_models(patterns@) + ps)),
            },
        decreases bc.len() - index,
    {
        let ghost rest = body@.skip(index as int);
        proof {
            lemma_upper_skip(body@, index as int);
            lemma_shift_occurrence(ub@, pat@, index as int);
            lemma_first_occurrence(ub@, pat@, index as int);
        }
        match find_from(&ub, &pat, index) {
            None => {
                let tail = substring(bc.as_slice(), index, bc.len());
                assert(tail@ =~= rest);
                push_str(&mut required, tail.as_str());
                assert(pattern_models(patterns@) + Seq::<FluoPatternModel>::empty() =~= pattern_models(
                    patterns@,
                ));
                return Ok((required, patterns));
            },
            Some(start) => {
                let mut cursor = start + 8;
                proof {
                    lemma_skip_ws_shift(body@, index as int, (cursor - index) as int);
                }
                while cursor < bc.len() && is_whitespace(bc[cursor])
                    invariant
                        start + 8 <= cursor <= bc.len(),
                        bc@ == body@,
                        skip_ws(body@, start + 8) == skip_ws(body@, cursor as int),
                    decreases bc.len() - cursor,
                {
                    cursor = cursor + 1;
                }
                if !(cursor < bc.len() && bc[cursor] == '{') {
                    return Err(to_owned("OPTIONAL block is missing '{'"));
                }
                let open = cursor;
                proof {
                    lemma_close_shift(body@, index as int, (open - index) as int, 0);
                    lemma_close_after(body@, open as int, 0);
                }
                let close = match find_close(&bc, open) {
                    Some(c) => c,
                    None => {
                        return Err(to_owned("OPTIONAL block is missing '}'"));
                    },
                };
                if close <= open {
                    assert(bc@[open as int] == '{');
                    return Err(to_owned("OPTIONAL block is missing '}'"));
                }
                let head = substring(bc.as_slice(), index, start);
                let inner = substring(bc.as_slice(), open + 1, close);
                assert(head@ =~= rest.take(start - index));
                assert(inner@ =~= rest.subrange(open - index + 1, close - index));
                let block = parse_patterns(inner.as_str())?;
                assert(rest.skip(close - index + 1) =~= body@.skip(close + 1));
                let ghost before_p = patterns@;
                let ghost before_r = required@;
                push_str(&mut required, head.as_str());
                let mut j: usize = 0;
                while j < block.len()
                    invariant
                        j <= block.len(),
                        pattern_models(patterns@) == pattern_models(before_p) + pattern_models(block@).take(
                            j as int,
                        ),
                    decreases block.len() - j,
                {
                    let ghost b = patterns@;
                    patterns.push(block[j].clone());
                    assert(pattern_models(patterns@) =~= pattern_models(b).push(fluo_pattern_model(block@[j as int])));
                    assert(pattern_models(block@).take(j + 1) =~= pattern_models(block@).take(j as int).push(
                        fluo_pattern_model(block@[j as int]),
                    ));
                    j = j + 1;
                }
                assert(pattern_models(block@).take(j as int) =~= pattern_models(block@));
                proof {
                    match optionals_spec(body@.skip(close + 1)) {
                        Ok((req, ops)) => {
                            assert(before_r + (head@ + req) =~= required@ + req);
                            assert(pattern_models(before_p) + (pattern_models(block@) + ops) =~= pattern_models(
                                patterns@,
                            ) + ops);
                        },
                        Err(_) => {},
                    }
                }
                index = close + 1;
            },
        }
    }
}

} // verus!
