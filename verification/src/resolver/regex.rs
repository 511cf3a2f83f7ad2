use vstd::prelude::*;

use crate::text::{all_digits, digits_value, is_digit, starts_with_seq};

verus! {

/// The pattern that matches any run of characters.
pub const ALL_REGEX: &'static str = "([\\s\\S]*)";

/// A token of the limited regular expressions that row patterns are written in.
pub enum TokenModel {
    Literal(char),
    AnySequence,
    ClassRepeat(Seq<(char, char)>, nat),
}

/// A parsed token: a literal character, any run of characters, or a fixed number of
/// characters each in a class given as inclusive ranges.
pub enum RegexToken {
    Literal(char),
    AnySequence,
    ClassRepeat(Vec<(char, char)>, usize),
}

pub open spec fn token_view(t: RegexToken) -> TokenModel {
    match t {
        RegexToken::Literal(c) => TokenModel::Literal(c),
        RegexToken::AnySequence => TokenModel::AnySequence,
        RegexToken::ClassRepeat(cl, n) => TokenModel::ClassRepeat(cl@, n as nat),
    }
}

pub open spec fn tokens_view(ts: Seq<RegexToken>) -> Seq<TokenModel> {
    ts.map_values(|t: RegexToken| token_view(t))
}

/// The ranges of a character class body from `i` up to its closing `]` or the end, and the
/// index where the body stops.
pub open spec fn class_items(p: Seq<char>, i: int) -> (Seq<(char, char)>, int)
    decreases p.len() - i,
{
    if i < 0 || i >= p.len() || p[i] == ']' {
        (Seq::empty(), i)
    } else if p.len() - i > 2 && p[i + 1] == '-' && p[i + 2] != ']' {
        let (r, e) = class_items(p, i + 3);
        (seq![(p[i], p[i + 2])] + r, e)
    } else {
        let (r, e) = class_items(p, i + 1);
        (seq![(p[i], p[i])] + r, e)
    }
}

/// Some range of the class holds at least one character.
pub open spec fn class_nonempty(cl: Seq<(char, char)>) -> bool {
    exists|k: int| 0 <= k < cl.len() && (#[trigger] cl[k].0 as u32) <= (cl[k].1 as u32)
}

/// A character class `[...]` starting at `start`, with the index after its `]`.
pub open spec fn parse_class(p: Seq<char>, start: int) -> Option<(Seq<(char, char)>, int)> {
    if !(0 <= start < p.len() && p[start] == '[') {
        None
    } else {
        let (r, e) = class_items(p, start + 1);
        if e >= p.len() || p[e] != ']' || !class_nonempty(r) {
            None
        } else {
            Some((r, e + 1))
        }
    }
}

/// The end of the run of decimal digits starting at `i`.
pub open spec fn digit_run_end(p: Seq<char>, i: int) -> int
    decreases p.len() - i,
{
    if i < 0 || i >= p.len() || !is_digit(p[i]) {
        i
    } else {
        digit_run_end(p, i + 1)
    }
}

/// A repeat count `{n}` starting at `start`, with the index after its `}`.
pub open spec fn parse_repeat(p: Seq<char>, start: int) -> Option<(nat, int)> {
    if !(0 <= start < p.len() && p[start] == '{') {
        None
    } else {
        let e = digit_run_end(p, start + 1);
        let d = p.subrange(start + 1, e);
        if d.len() == 0 || !(e < p.len() && p[e] == '}') || digits_value(d) > usize::MAX {
            None
        } else {
            Some((digits_value(d) as nat, e + 1))
        }
    }
}

/// A grouped class repeat `([...]{n})` starting at `start`, with the index after its `)`.
pub open spec fn parse_grouped(p: Seq<char>, start: int) -> Option<(TokenModel, int)> {
    if !(0 <= start && start + 1 < p.len() && p[start] == '(' && p[start + 1] == '[') {
        None
    } else {
        match parse_class(p, start + 1) {
            None => None,
            Some((cl, after_class)) => match parse_repeat(p, after_class) {
                None => None,
                Some((n, after_count)) => if after_count < p.len() && p[after_count] == ')' {
                    Some((TokenModel::ClassRepeat(cl, n), after_count + 1))
                } else {
                    None
                },
            },
        }
    }
}

/// The token that starts at index `i` of the pattern, and the index after it.
pub open spec fn next_token_spec(p: Seq<char>, i: int) -> (TokenModel, int) {
    if starts_with_seq(p.skip(i), ALL_REGEX@) {
        (TokenModel::AnySequence, i + ALL_REGEX@.len())
    } else if p[i] == '(' && parse_grouped(p, i) is Some {
        parse_grouped(p, i)->0
    } else if p[i] == '[' && parse_class(p, i) is Some {
        let (cl, n) = parse_class(p, i)->0;
        match parse_repeat(p, n) {
            Some((c, after)) => (TokenModel::ClassRepeat(cl, c), after),
            None => (TokenModel::ClassRepeat(cl, 1), n),
        }
    } else {
        (TokenModel::Literal(p[i]), i + 1)
    }
}

/// The tokens of the pattern from index `i` on.
pub open spec fn parse_tokens(p: Seq<char>, i: int) -> Seq<TokenModel>
    decreases p.len() - i,
{
    if i < 0 || i >= p.len() {
        Seq::empty()
    } else {
        let (t, n) = next_token_spec(p, i);
        if n > i {
            seq![t] + parse_tokens(p, n)
        } else {
            Seq::empty()
        }
    }
}

/// `c` lies in one of the ranges of the class.
pub open spec fn class_has(cl: Seq<(char, char)>, c: char) -> bool {
    exists|k: int| 0 <= k < cl.len() && (#[trigger] cl[k].0 as u32) <= (c as u32) <= (cl[k].1 as u32)
}

/// The tokens from `ti` on match the characters from `ci` to the end.
pub open spec fn tokens_match(t: Seq<TokenModel>, s: Seq<char>, ti: int, ci: int) -> bool
    decreases t.len() - ti, s.len() + 2 - ci,
{
    if ti < 0 || ci < 0 || ci > s.len() {
        false
    } else if ti >= t.len() {
        ci == s.len()
    } else {
        match t[ti] {
            TokenModel::Literal(c) => ci < s.len() && s[ci] == c && tokens_match(t, s, ti + 1, ci + 1),
            TokenModel::ClassRepeat(cl, n) => ci + n <= s.len() && (forall|k: int|
                ci <= k < ci + n ==> class_has(cl, #[trigger] s[k])) && tokens_match(t, s, ti + 1, ci + n),
            TokenModel::AnySequence => some_rest_matches(t, s, ti, ci),
        }
    }
}

/// The tokens after `ti` match the characters from some index `nx`, `nx` at least `from`.
pub open spec fn some_rest_matches(t: Seq<TokenModel>, s: Seq<char>, ti: int, from: int) -> bool
    decreases t.len() - ti, s.len() + 1 - from,
{
    if ti < 0 || ti >= t.len() || from < 0 || from > s.len() {
        false
    } else {
        tokens_match(t, s, ti + 1, from) || some_rest_matches(t, s, ti, from + 1)
    }
}

/// The whole of `value` matches the limited regular expression `pattern`.
pub open spec fn regex_matches(pattern: Seq<char>, value: Seq<char>) -> bool {
    tokens_match(parse_tokens(pattern, 0), value, 0, 0)
}

fn class_items_exec(p: &[char], i: usize) -> (r: (Vec<(char, char)>, usize))
    requires
        i <= p@.len(),
    ensures
        r.0@ == class_items(p@, i as int).0,
        r.1 == class_items(p@, i as int).1,
        i <= r.1 <= p@.len(),
    decreases p@.len() - i,
{
    if i >= p.len() || p[i] == ']' {
        (Vec::new(), i)
    } else if p.len() - i > 2 && p[i + 1] == '-' && p[i + 2] != ']' {
        let (rest, e) = class_items_exec(p, i + 3);
        let mut out: Vec<(char, char)> = Vec::new();
        out.push((p[i], p[i + 2]));
        let mut rest = rest;
        out.append(&mut rest);
        (out, e)
    } else {
        let (rest, e) = class_items_exec(p, i + 1);
        let mut out: Vec<(char, char)> = Vec::new();
        out.push((p[i], p[i]));
        let mut rest = rest;
        out.append(&mut rest);
        (out, e)
    }
}

fn has_nonempty_range(cl: &Vec<(char, char)>) -> (r: bool)
    ensures
        r == class_nonempty(cl@),
{
    let mut k: usize = 0;
    while k < cl.len()
        invariant
            k <= cl@.len(),
            forall|j: int| 0 <= j < k ==> !((#[trigger] cl@[j].0 as u32) <= (cl@[j].1 as u32)),
        decreases cl.len() - k,
    {
        if (cl[k].0 as u32) <= (cl[k].1 as u32) {
            return true;
        }
        k = k + 1;
    }
    false
}

fn parse_class_exec(p: &[char], start: usize) -> (r: Option<(Vec<(char, char)>, usize)>)
    ensures
        match r {
            Some((cl, e)) => parse_class(p@, start as int) == Some((cl@, e as int)) && start < e
                <= p@.len(),
            None => parse_class(p@, start as int) is None,
        },
{
    if start >= p.len() || p[start] != '[' {
        return None;
    }
    let (cl, e) = class_items_exec(p, start + 1);
    if e >= p.len() || p[e] != ']' || !has_nonempty_range(&cl) {
        return None;
    }
    Some((cl, e + 1))
}

fn digit_run_end_exec(p: &[char], i: usize) -> (r: usize)
    requires
        i <= p@.len(),
    ensures
        r as int == digit_run_end(p@, i as int),
        i <= r <= p@.len(),
        all_digits(p@.subrange(i as int, r as int)),
    decreases p@.len() - i,
{
    if i >= p.len() || !('0' <= p[i] && p[i] <= '9') {
        i
    } else {
        let r = digit_run_end_exec(p, i + 1);
        assert forall|k: int| 0 <= k < p@.subrange(i as int, r as int).len() implies is_digit(
            #[trigger] p@.subrange(i as int, r as int)[k],
        ) by {
            if k > 0 {
                assert(p@.subrange(i as int, r as int)[k] == p@.subrange(i + 1, r as int)[k - 1]);
            }
        }
        r
    }
}

fn parse_repeat_exec(p: &[char], start: usize) -> (r: Option<(usize, usize)>)
    ensures
        match r {
            Some((n, e)) => parse_repeat(p@, start as int) == Some((n as nat, e as int)) && start
                < e <= p@.len(),
            None => parse_repeat(p@, start as int) is None,
        },
{
    if start >= p.len() || p[start] != '{' {
        return None;
    }
    let e = digit_run_end_exec(p, start + 1);
    if e == start + 1 || e >= p.len() || p[e] != '}' {
        return None;
    }
    let digits = &p[start + 1..e];
    assert(digits@ == p@.subrange(start + 1, e as int));
    assert(all_digits(digits@));
    proof {
        crate::text::lemma_digits_value_nonneg(digits@);
    }
    match crate::text::parse_digits_u64(digits) {
        Some(v) => {
            if v > usize::MAX as u64 {
                None
            } else {
                assert((v as usize) as nat == v as nat);
                Some((v as usize, e + 1))
            }
        },
        None => None,
    }
}

fn parse_grouped_exec(p: &[char], start: usize) -> (r: Option<(RegexToken, usize)>)
    ensures
        match r {
            Some((t, e)) => parse_grouped(p@, start as int) == Some((token_view(t), e as int))
                && start < e <= p@.len(),
            None => parse_grouped(p@, start as int) is None,
        },
{
    if start >= p.len() || start + 1 >= p.len() || p[start] != '(' || p[start + 1] != '[' {
        return None;
    }
    match parse_class_exec(p, start + 1) {
        None => None,
        Some((cl, after_class)) => match parse_repeat_exec(p, after_class) {
            None => None,
            Some((n, after_count)) => {
                if after_count < p.len() && p[after_count] == ')' {
                    Some((RegexToken::ClassRepeat(cl, n), after_count + 1))
                } else {
                    None
                }
            },
        },
    }
}

fn starts_with_all_regex(p: &[char], i: usize, all: &[char]) -> (r: bool)
    requires
        i <= p@.len(),
        all@ == ALL_REGEX@,
    ensures
        r == starts_with_seq(p@.skip(i as int), ALL_REGEX@),
{
    let n = p.len();
    if n - i < all.len() {
        return false;
    }
    let mut k: usize = 0;
    while k < all.len()
        invariant
            n == p@.len(),
            k <= all@.len(),
            i + all@.len() <= p@.len(),
            all@ == ALL_REGEX@,
            forall|j: int| 0 <= j < k ==> p@.skip(i as int)[j] == all@[j],
        decreases all.len() - k,
    {
        if p[i + k] != all[k] {
            assert(p@.skip(i as int)[k as int] != all@[k as int]);
            assert(p@.skip(i as int).take(all@.len() as int)[k as int] != all@[k as int]);
            return false;
        }
        k = k + 1;
    }
    assert(p@.skip(i as int).take(all@.len() as int) =~= all@);
    true
}

fn next_token(p: &Vec<char>, all: &Vec<char>, index: usize) -> (r: (RegexToken, usize))
    requires
        index < p@.len(),
        all@ == ALL_REGEX@,
    ensures
        index < r.1 <= p@.len(),
        (token_view(r.0), r.1 as int) == next_token_spec(p@, index as int),
{
    proof {
        reveal_strlit("([\\s\\S]*)");
    }
    let n = p.len();
    assert(index + 1 <= n);
    if starts_with_all_regex(p.as_slice(), index, all.as_slice()) {
        assert(all@.len() == 9);
        assert(n - index >= 9) by {
            assert(p@.skip(index as int).len() >= all@.len());
        }
        return (RegexToken::AnySequence, index + all.len());
    }
    if p[index] == '(' {
        match parse_grouped_exec(p.as_slice(), index) {
            Some((token, next)) => (token, next),
            None => (RegexToken::Literal(p[index]), index + 1),
        }
    } else if p[index] == '[' {
        match parse_class_exec(p.as_slice(), index) {
            Some((class, next)) => {
                match parse_repeat_exec(p.as_slice(), next) {
                    Some((count, after)) => (RegexToken::ClassRepeat(class, count), after),
                    None => (RegexToken::ClassRepeat(class, 1), next),
                }
            },
            None => (RegexToken::Literal(p[index]), index + 1),
        }
    } else {
        (RegexToken::Literal(p[index]), index + 1)
    }
}

/// Parses a limited regular expression into tokens.
pub fn parse_limited_regex(pattern: &str) -> (r: Vec<RegexToken>)
    ensures
        tokens_view(r@) == parse_tokens(pattern@, 0),
{
    let p = crate::text::chars_of(pattern);
    let all = crate::text::chars_of(ALL_REGEX);
    let mut tokens: Vec<RegexToken> = Vec::new();
    let mut index: usize = 0;
    assert(tokens_view(tokens@) + parse_tokens(p@, 0) =~= parse_tokens(p@, 0));
    while index < p.len()
        invariant
            index <= p@.len(),
            p@ == pattern@,
            all@ == ALL_REGEX@,
            tokens_view(tokens@) + parse_tokens(p@, index as int) == parse_tokens(p@, 0),
        decreases p.len() - index,
    {
        let ghost before = tokens@;
        let (token, next) = next_token(&p, &all, index);
        let ghost tv = token_view(token);
        tokens.push(token);
        assert(tokens_view(tokens@) =~= tokens_view(before).push(tv));
        assert(tokens_view(tokens@) + parse_tokens(p@, next as int) =~= tokens_view(before)
            + parse_tokens(p@, index as int));
        index = next;
    }
    assert(parse_tokens(p@, index as int) =~= Seq::<TokenModel>::empty());
    assert(tokens_view(tokens@) + Seq::<TokenModel>::empty() =~= tokens_view(tokens@));
    tokens
}

fn in_class(cl: &Vec<(char, char)>, c: char) -> (r: bool)
    ensures
        r == class_has(cl@, c),
{
    let mut k: usize = 0;
    while k < cl.len()
        invariant
            k <= cl@.len(),
            forall|j: int|
                0 <= j < k ==> !((#[trigger] cl@[j].0 as u32) <= (c as u32) <= (cl@[j].1 as u32)),
        decreases cl.len() - k,
    {
        if (cl[k].0 as u32) <= (c as u32) && (c as u32) <= (cl[k].1 as u32) {
            return true;
        }
        k = k + 1;
    }
    false
}

/// Whether the tokens from `ti` on match the characters from `ci` to the end.
pub fn match_tokens(tokens: &Vec<RegexToken>, chars: &[char], ti: usize, ci: usize) -> (r: bool)
    requires
        ti <= tokens@.len(),
        ci <= chars@.len(),
    ensures
        r == tokens_match(tokens_view(tokens@), chars@, ti as int, ci as int),
    decreases tokens@.len() - ti,
{
    let ghost t = tokens_view(tokens@);
    let tn = tokens.len();
    if ti == tn {
        return ci == chars.len();
    }
    assert(t[ti as int] == token_view(tokens@[ti as int]));
    match &tokens[ti] {
        RegexToken::Literal(c) => {
            ci < chars.len() && chars[ci] == *c && match_tokens(tokens, chars, ti + 1, ci + 1)
        },
        RegexToken::ClassRepeat(class, count) => {
            let n = chars.len();
            if *count > n - ci {
                return false;
            }
            let end = ci + *count;
            let mut k: usize = ci;
            while k < end
                invariant
                    n == chars@.len(),
                    end == ci + *count,
                    ci <= k <= end <= n,
                    ti < tokens@.len(),
                    t == tokens_view(tokens@),
                    t[ti as int] == TokenModel::ClassRepeat(class@, *count as nat),
                    forall|j: int| ci <= j < k ==> class_has(class@, #[trigger] chars@[j]),
                decreases end - k,
            {
                if !in_class(class, chars[k]) {
                    return false;
                }
                k = k + 1;
            }
            match_tokens(tokens, chars, ti + 1, ci + *count)
        },
        RegexToken::AnySequence => {
            let n = chars.len();
            let mut next: usize = ci;
            loop
                invariant
                    ci <= next <= n,
                    n == chars@.len(),
                    ti < tn,
                    tn == tokens@.len(),
                    t == tokens_view(tokens@),
                    t[ti as int] == TokenModel::AnySequence,
                    some_rest_matches(t, chars@, ti as int, ci as int) == some_rest_matches(
                        t,
                        chars@,
                        ti as int,
                        next as int,
                    ),
                decreases n - next,
            {
                let found = match_tokens(tokens, chars, ti + 1, next);
                assert(found == tokens_match(t, chars@, ti + 1, next as int));
                if found {
                    assert(tokens_match(t, chars@, ti as int, ci as int));
                    return true;
                }
                if next == n {
                    assert(!some_rest_matches(t, chars@, ti as int, next + 1));
                    assert(!tokens_match(t, chars@, ti as int, ci as int));
                    return false;
                }
                next = next + 1;
            }
        },
    }
}

/// Whether the whole of `value` matches the limited regular expression `pattern`.
pub fn limited_regex_matches(pattern: &str, value: &str) -> (r: bool)
    ensures
        r == regex_matches(pattern@, value@),
{
    let tokens = parse_limited_regex(pattern);
    let chars = crate::text::chars_of(value);
    match_tokens(&tokens, chars.as_slice(), 0, 0)
}

} // verus!
