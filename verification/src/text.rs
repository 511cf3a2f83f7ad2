use vstd::prelude::*;

verus! {

// ---------------------------------------------------------------------------
// Specifications over character sequences
// ---------------------------------------------------------------------------

/// `p` is a prefix of `s`.
pub open spec fn starts_with_seq(s: Seq<char>, p: Seq<char>) -> bool {
    p.len() <= s.len() && s.subrange(0, p.len() as int) == p
}

/// `p` is a suffix of `s`.
pub open spec fn ends_with_seq(s: Seq<char>, p: Seq<char>) -> bool {
    p.len() <= s.len() && s.subrange(s.len() - p.len(), s.len() as int) == p
}

/// `p` occurs in `s` starting at index `i`.
pub open spec fn occurs_at(s: Seq<char>, p: Seq<char>, i: int) -> bool {
    0 <= i && i + p.len() <= s.len() && s.subrange(i, i + p.len()) == p
}

/// `p` occurs somewhere in `s`.
pub open spec fn contains_seq(s: Seq<char>, p: Seq<char>) -> bool {
    exists|i: int| occurs_at(s, p, i)
}

/// `c` occurs in `s`.
pub open spec fn has_char(s: Seq<char>, c: char) -> bool {
    exists|i: int| 0 <= i < s.len() && s[i] == c
}

/// Index of the first `c` in `s` at or after `from`, if any.
pub open spec fn first_index_from(s: Seq<char>, c: char, from: int) -> Option<int>
    decreases s.len() - from,
{
    if from < 0 || from >= s.len() {
        None
    } else if s[from] == c {
        Some(from)
    } else {
        first_index_from(s, c, from + 1)
    }
}

/// Index of the first `c` in `s`, if any.
pub open spec fn first_index(s: Seq<char>, c: char) -> Option<int> {
    first_index_from(s, c, 0)
}

/// Index of the last `c` in `s` before `upto`, if any.
pub open spec fn last_index_before(s: Seq<char>, c: char, upto: int) -> Option<int>
    decreases upto,
{
    if upto <= 0 || upto > s.len() {
        None
    } else if s[upto - 1] == c {
        Some(upto - 1)
    } else {
        last_index_before(s, c, upto - 1)
    }
}

/// Index of the last `c` in `s`, if any.
pub open spec fn last_index(s: Seq<char>, c: char) -> Option<int> {
    last_index_before(s, c, s.len() as int)
}

pub proof fn lemma_first_index_from(s: Seq<char>, c: char, from: int)
    requires
        0 <= from <= s.len(),
    ensures
        match first_index_from(s, c, from) {
            Some(i) => from <= i < s.len() && s[i] == c && forall|j: int|
                from <= j < i ==> s[j] != c,
            None => forall|j: int| from <= j < s.len() ==> s[j] != c,
        },
    decreases s.len() - from,
{
    if from < s.len() && s[from] != c {
        lemma_first_index_from(s, c, from + 1);
    }
}

pub proof fn lemma_last_index_before(s: Seq<char>, c: char, upto: int)
    requires
        0 <= upto <= s.len(),
    ensures
        match last_index_before(s, c, upto) {
            Some(i) => 0 <= i < upto && s[i] == c && forall|j: int| i < j < upto ==> s[j] != c,
            None => forall|j: int| 0 <= j < upto ==> s[j] != c,
        },
    decreases upto,
{
    if upto > 0 && s[upto - 1] != c {
        lemma_last_index_before(s, c, upto - 1);
    }
}

/// Decimal digit character for `d < 10`.
pub open spec fn digit_char(d: int) -> char {
    ((d + 48) as u8) as char
}

/// `c` is an ASCII decimal digit.
pub open spec fn is_digit(c: char) -> bool {
    '0' <= c <= '9'
}

/// Every character of `s` is an ASCII decimal digit.
pub open spec fn all_digits(s: Seq<char>) -> bool {
    forall|i: int| 0 <= i < s.len() ==> is_digit(#[trigger] s[i])
}

/// The numeric value of a string of decimal digits.
pub open spec fn digits_value(s: Seq<char>) -> int
    decreases s.len(),
{
    if s.len() == 0 {
        0
    } else {
        digits_value(s.drop_last()) * 10 + (s.last() as int - 48)
    }
}

/// The decimal spelling of a natural number, without leading zeros.
pub open spec fn decimal(n: nat) -> Seq<char>
    decreases n,
{
    if n < 10 {
        seq![digit_char(n as int)]
    } else {
        decimal(n / 10).push(digit_char((n % 10) as int))
    }
}

/// The decimal spelling of an integer, with a leading `-` when negative.
pub open spec fn signed_decimal(n: int) -> Seq<char> {
    if n < 0 {
        seq!['-'] + decimal((-n) as nat)
    } else {
        decimal(n as nat)
    }
}

/// The value that Rust's `str::parse` gives for an unsigned integer: an optional `+`
/// followed by at least one decimal digit.
pub open spec fn parse_unsigned_spec(s: Seq<char>) -> Option<int> {
    let body = if s.len() > 0 && s[0] == '+' {
        s.drop_first()
    } else {
        s
    };
    if body.len() > 0 && all_digits(body) {
        Some(digits_value(body))
    } else {
        None
    }
}

/// The value that Rust's `str::parse` gives for a signed integer: an optional `+` or `-`
/// followed by at least one decimal digit.
pub open spec fn parse_signed_spec(s: Seq<char>) -> Option<int> {
    if s.len() > 0 && s[0] == '-' {
        let body = s.drop_first();
        if body.len() > 0 && all_digits(body) {
            Some(-digits_value(body))
        } else {
            None
        }
    } else {
        parse_unsigned_spec(s)
    }
}

/// The result of parsing `s` as a value in `[lo, hi]`.
pub open spec fn parse_in_range(v: Option<int>, lo: int, hi: int) -> Option<int> {
    match v {
        Some(x) => if lo <= x <= hi {
            Some(x)
        } else {
            None
        },
        None => None,
    }
}

// ---------------------------------------------------------------------------
// Lemmas
// ---------------------------------------------------------------------------

pub proof fn lemma_digits_value_nonneg(s: Seq<char>)
    requires
        all_digits(s),
    ensures
        digits_value(s) >= 0,
    decreases s.len(),
{
    if s.len() > 0 {
        assert(all_digits(s.drop_last())) by {
            assert forall|i: int| 0 <= i < s.drop_last().len() implies is_digit(
                #[trigger] s.drop_last()[i],
            ) by {
                assert(s.drop_last()[i] == s[i]);
            }
        }
        lemma_digits_value_nonneg(s.drop_last());
        assert(is_digit(s[s.len() - 1]));
    }
}

pub proof fn lemma_digits_value_take_mono(s: Seq<char>, i: int, j: int)
    requires
        all_digits(s),
        0 <= i <= j <= s.len(),
    ensures
        digits_value(s.take(i)) <= digits_value(s.take(j)),
    decreases j - i,
{
    if i < j {
        lemma_digits_value_take_mono(s, i, j - 1);
        let t = s.take(j);
        assert(t.drop_last() =~= s.take(j - 1));
        assert(all_digits(s.take(j - 1))) by {
            assert forall|k: int| 0 <= k < s.take(j - 1).len() implies is_digit(
                #[trigger] s.take(j - 1)[k],
            ) by {
                assert(s.take(j - 1)[k] == s[k]);
            }
        }
        lemma_digits_value_nonneg(s.take(j - 1));
        assert(is_digit(s[j - 1]));
    }
}

pub proof fn lemma_decimal_len(n: nat)
    ensures
        decimal(n).len() >= 1,
    decreases n,
{
    if n >= 10 {
        lemma_decimal_len(n / 10);
    }
}

/// Appending `c` to a sequence without `c` moves the first occurrence nowhere.
pub proof fn lemma_first_index_none(s: Seq<char>, c: char)
    requires
        !has_char(s, c),
    ensures
        first_index(s, c) is None,
{
    lemma_first_index_from(s, c, 0);
    if first_index(s, c) is Some {
        let i = first_index(s, c)->0;
        assert(s[i] == c);
    }
}

// ---------------------------------------------------------------------------
// Executable helpers
// ---------------------------------------------------------------------------

/// Appends one character to a string (`String::push`); the new contents are the old ones followed by `c`.
#[verifier::external_body]
pub fn push_char(s: &mut String, c: char)
    ensures
        final(s)@ == old(s)@.push(c),
{
    s.push(c);
}

/// Appends a string slice to a string (`String::push_str`).
#[verifier::external_body]
pub fn push_str(s: &mut String, t: &str)
    ensures
        final(s)@ == old(s)@ + t@,
{
    s.push_str(t);
}

/// The characters of a string slice, in order.
pub fn chars_of(s: &str) -> (r: Vec<char>)
    ensures
        r@ == s@,
{
    let mut out: Vec<char> = Vec::new();
    for c in it: s.chars()
        invariant
            out@ == it.seq().take(it.index() as int),
            it.seq() == s@,
    {
        out.push(c);
    }
    out
}

/// A string holding the given characters.
pub fn string_from_chars(cs: &[char]) -> (r: String)
    ensures
        r@ == cs@,
{
    let mut out = String::new();
    let mut i: usize = 0;
    while i < cs.len()
        invariant
            i <= cs.len(),
            out@ == cs@.take(i as int),
        decreases cs.len() - i,
    {
        push_char(&mut out, cs[i]);
        i = i + 1;
        assert(out@ =~= cs@.take(i as int));
    }
    assert(cs@.take(i as int) =~= cs@);
    out
}

/// An owned copy of a string slice.
pub fn to_owned(s: &str) -> (r: String)
    ensures
        r@ == s@,
{
    s.to_owned()
}

/// `a` followed by `b`.
pub fn concat(a: &str, b: &str) -> (r: String)
    ensures
        r@ == a@ + b@,
{
    let mut out = a.to_owned();
    push_str(&mut out, b);
    out
}

/// `a`, `b` and `c` one after another.
pub fn concat3(a: &str, b: &str, c: &str) -> (r: String)
    ensures
        r@ == a@ + b@ + c@,
{
    let mut out = a.to_owned();
    push_str(&mut out, b);
    push_str(&mut out, c);
    out
}

/// Whether two string slices hold the same characters.
pub fn str_eq(a: &str, b: &str) -> (r: bool)
    ensures
        r == (a@ == b@),
{
    let x = a.to_owned();
    let y = b.to_owned();
    x == y
}

/// Whether `p` occurs in `s` at index `i`.
pub fn chars_occur_at(s: &[char], p: &[char], i: usize) -> (r: bool)
    ensures
        r == occurs_at(s@, p@, i as int),
{
    if i > s.len() || p.len() > s.len() - i {
        return false;
    }
    let mut k: usize = 0;
    while k < p.len()
        invariant
            i + p.len() <= s.len(),
            k <= p.len(),
            forall|m: int| 0 <= m < k ==> s@[i + m] == p@[m],
        decreases p.len() - k,
    {
        if s[i + k] != p[k] {
            assert(s@.subrange(i as int, i + p.len())[k as int] != p@[k as int]);
            return false;
        }
        k = k + 1;
    }
    assert(s@.subrange(i as int, i + p.len()) =~= p@);
    true
}

/// Whether `s` starts with `p`.
pub fn starts_with(s: &str, p: &str) -> (r: bool)
    ensures
        r == starts_with_seq(s@, p@),
{
    let sc = chars_of(s);
    let pc = chars_of(p);
    chars_occur_at(sc.as_slice(), pc.as_slice(), 0)
}

/// Whether `s` ends with `p`.
pub fn ends_with(s: &str, p: &str) -> (r: bool)
    ensures
        r == ends_with_seq(s@, p@),
{
    let sc = chars_of(s);
    let pc = chars_of(p);
    if pc.len() > sc.len() {
        return false;
    }
    chars_occur_at(sc.as_slice(), pc.as_slice(), sc.len() - pc.len())
}

/// Index of the first occurrence of `p` in `s` at or after `from`.
pub fn find_chars_from(s: &[char], p: &[char], from: usize) -> (r: Option<usize>)
    ensures
        match r {
            Some(i) => from <= i && occurs_at(s@, p@, i as int) && forall|j: int|
                from <= j < i ==> !occurs_at(s@, p@, j),
            None => forall|j: int| from <= j ==> !occurs_at(s@, p@, j),
        },
{
    if from > s.len() || p.len() > s.len() {
        return None;
    }
    let last = s.len() - p.len();
    let mut i = from;
    while i <= last
        invariant
            from <= i,
            last + p.len() == s.len(),
            forall|j: int| from <= j < i ==> !occurs_at(s@, p@, j),
        decreases last + 1 - i,
    {
        if chars_occur_at(s, p, i) {
            return Some(i);
        }
        if i == last {
            assert forall|j: int| from <= j implies !occurs_at(s@, p@, j) by {
                if j > last as int {
                    assert(j + p@.len() > s@.len());
                }
            }
            return None;
        }
        i = i + 1;
    }
    assert forall|j: int| from <= j implies !occurs_at(s@, p@, j) by {
        if j > last as int {
            assert(j + p@.len() > s@.len());
        }
    }
    None
}

/// Whether `p` occurs in `s`.
pub fn contains(s: &str, p: &str) -> (r: bool)
    ensures
        r == contains_seq(s@, p@),
{
    let sc = chars_of(s);
    let pc = chars_of(p);
    match find_chars_from(sc.as_slice(), pc.as_slice(), 0) {
        Some(_) => true,
        None => false,
    }
}

/// Index of the first `c` in `s` at or after `from`.
pub fn find_char_from(s: &[char], c: char, from: usize) -> (r: Option<usize>)
    requires
        from <= s.len(),
    ensures
        r == (match first_index_from(s@, c, from as int) {
            Some(i) => Some(i as usize),
            None => None,
        }),
{
    let mut i = from;
    while i < s.len()
        invariant
            from <= i <= s.len(),
            first_index_from(s@, c, from as int) == first_index_from(s@, c, i as int),
        decreases s.len() - i,
    {
        if s[i] == c {
            return Some(i);
        }
        i = i + 1;
    }
    None
}

/// Index of the last `c` in `s`.
pub fn rfind_char(s: &[char], c: char) -> (r: Option<usize>)
    ensures
        r == (match last_index(s@, c) {
            Some(i) => Some(i as usize),
            None => None,
        }),
{
    let mut i = s.len();
    while i > 0
        invariant
            i <= s.len(),
            last_index(s@, c) == last_index_before(s@, c, i as int),
        decreases i,
    {
        if s[i - 1] == c {
            return Some(i - 1);
        }
        i = i - 1;
    }
    None
}

/// Characters `from..to` of `s` as a string.
pub fn substring(s: &[char], from: usize, to: usize) -> (r: String)
    requires
        from <= to <= s.len(),
    ensures
        r@ == s@.subrange(from as int, to as int),
{
    let mut out = String::new();
    let mut i = from;
    while i < to
        invariant
            from <= i <= to <= s.len(),
            out@ == s@.subrange(from as int, i as int),
        decreases to - i,
    {
        push_char(&mut out, s[i]);
        i = i + 1;
        assert(out@ =~= s@.subrange(from as int, i as int));
    }
    out
}

/// The decimal digit character for `d`.
pub fn digit_to_char(d: u64) -> (c: char)
    requires
        d < 10,
    ensures
        c == digit_char(d as int),
        is_digit(c),
{
    let b: u8 = (d as u8) + 48;
    b as char
}

/// The decimal spelling of `n`.
pub fn u64_to_string(n: u64) -> (r: String)
    ensures
        r@ == decimal(n as nat),
    decreases n,
{
    if n < 10 {
        let mut out = String::new();
        push_char(&mut out, digit_to_char(n));
        assert(out@ =~= decimal(n as nat));
        out
    } else {
        let mut out = u64_to_string(n / 10);
        push_char(&mut out, digit_to_char(n % 10));
        out
    }
}

/// The decimal spelling of `n`, with a `-` for negative values.
pub fn i64_to_string(n: i64) -> (r: String)
    ensures
        r@ == signed_decimal(n as int),
{
    if n < 0 {
        let magnitude: u64 = if n == i64::MIN {
            9223372036854775808u64
        } else {
            (-n) as u64
        };
        let digits = u64_to_string(magnitude);
        let mut out = String::new();
        push_char(&mut out, '-');
        push_str(&mut out, digits.as_str());
        assert(out@ =~= seq!['-'] + decimal((-(n as int)) as nat));
        out
    } else {
        u64_to_string(n as u64)
    }
}

/// Parses a run of decimal digits, `None` unless every character is a digit, the run is
/// non-empty and the value fits in a `u64`.
pub fn parse_digits_u64(s: &[char]) -> (r: Option<u64>)
    ensures
        r == (if s@.len() > 0 && all_digits(s@) && digits_value(s@) <= u64::MAX {
            Some(digits_value(s@) as u64)
        } else {
            None::<u64>
        }),
{
    if s.len() == 0 {
        return None;
    }
    let mut acc: u64 = 0;
    let mut i: usize = 0;
    while i < s.len()
        invariant
            0 < s.len(),
            i <= s.len(),
            all_digits(s@.take(i as int)),
            acc as int == digits_value(s@.take(i as int)),
        decreases s.len() - i,
    {
        let c = s[i];
        if !('0' <= c && c <= '9') {
            assert(!is_digit(s@[i as int]));
            return None;
        }
        let d: u64 = ((c as u32) - 48) as u64;
        assert(s@.take(i + 1).drop_last() =~= s@.take(i as int));
        assert(all_digits(s@.take(i + 1))) by {
            assert forall|k: int| 0 <= k < s@.take(i + 1).len() implies is_digit(
                #[trigger] s@.take(i + 1)[k],
            ) by {
                if k < i {
                    assert(s@.take(i + 1)[k] == s@.take(i as int)[k]);
                }
            }
        }
        match acc.checked_mul(10) {
            Some(m) => match m.checked_add(d) {
                Some(v) => {
                    acc = v;
                },
                None => {
                    proof {
                        lemma_all_digits_from_prefix_failure(s@, i as int);
                    }
                    return None;
                },
            },
            None => {
                proof {
                    lemma_all_digits_from_prefix_failure(s@, i as int);
                }
                return None;
            },
        }
        i = i + 1;
    }
    assert(s@.take(s.len() as int) =~= s@);
    Some(acc)
}

/// When the value of the first `i + 1` digits overflows, either some later character is not a
/// digit or the whole value overflows too.
proof fn lemma_all_digits_from_prefix_failure(s: Seq<char>, i: int)
    requires
        0 <= i < s.len(),
        all_digits(s.take(i + 1)),
        digits_value(s.take(i + 1)) > u64::MAX,
    ensures
        !(all_digits(s) && digits_value(s) <= u64::MAX),
{
    if all_digits(s) {
        lemma_digits_value_take_mono(s, i + 1, s.len() as int);
        assert(s.take(s.len() as int) =~= s);
    }
}

} // verus!

verus! {

/// Lexicographic order on character sequences (the order of `str` comparison in std,
/// since UTF-8 keeps code point order).
pub open spec fn lex_lt(a: Seq<char>, b: Seq<char>) -> bool
    decreases a.len(),
{
    if a.len() == 0 {
        b.len() > 0
    } else if b.len() == 0 {
        false
    } else if a[0] != b[0] {
        a[0] < b[0]
    } else {
        lex_lt(a.drop_first(), b.drop_first())
    }
}

pub proof fn lemma_lex_lt_irreflexive(a: Seq<char>)
    ensures
        !lex_lt(a, a),
    decreases a.len(),
{
    if a.len() > 0 {
        lemma_lex_lt_irreflexive(a.drop_first());
    }
}

pub proof fn lemma_lex_lt_total(a: Seq<char>, b: Seq<char>)
    ensures
        a == b || lex_lt(a, b) || lex_lt(b, a),
        !(lex_lt(a, b) && lex_lt(b, a)),
    decreases a.len(),
{
    if a.len() > 0 && b.len() > 0 {
        lemma_lex_lt_total(a.drop_first(), b.drop_first());
        if a[0] == b[0] && a.drop_first() == b.drop_first() {
            assert(a =~= seq![a[0]] + a.drop_first());
            assert(b =~= seq![b[0]] + b.drop_first());
        }
    } else if a.len() == 0 && b.len() == 0 {
        assert(a =~= b);
    }
}

pub proof fn lemma_lex_lt_transitive(a: Seq<char>, b: Seq<char>, c: Seq<char>)
    requires
        lex_lt(a, b),
        lex_lt(b, c),
    ensures
        lex_lt(a, c),
    decreases a.len(),
{
    if a.len() > 0 && b.len() > 0 && c.len() > 0 {
        if a[0] == b[0] && b[0] == c[0] {
            lemma_lex_lt_transitive(a.drop_first(), b.drop_first(), c.drop_first());
        }
    }
}

/// Whether `a` sorts strictly before `b`.
pub fn chars_lt(a: &[char], b: &[char]) -> (r: bool)
    ensures
        r == lex_lt(a@, b@),
{
    let mut i: usize = 0;
    assert(a@.skip(0) =~= a@);
    assert(b@.skip(0) =~= b@);
    while i < a.len() && i < b.len()
        invariant
            i <= a.len(),
            i <= b.len(),
            forall|k: int| 0 <= k < i ==> a@[k] == b@[k],
            lex_lt(a@, b@) == lex_lt(a@.skip(i as int), b@.skip(i as int)),
        decreases a.len() - i,
    {
        if a[i] != b[i] {
            return a[i] < b[i];
        }
        assert(a@.skip(i as int).drop_first() =~= a@.skip(i + 1));
        assert(b@.skip(i as int).drop_first() =~= b@.skip(i + 1));
        i = i + 1;
    }
    i == a.len() && i < b.len()
}

/// Whether string `a` sorts strictly before string `b`.
pub fn str_lt(a: &str, b: &str) -> (r: bool)
    ensures
        r == lex_lt(a@, b@),
{
    let x = chars_of(a);
    let y = chars_of(b);
    chars_lt(x.as_slice(), y.as_slice())
}

} // verus!

verus! {

/// The texts of a sequence of strings.
pub open spec fn views(v: Seq<String>) -> Seq<Seq<char>> {
    v.map_values(|s: String| s@)
}

/// The pieces of `s` between occurrences of `c` (what `str::split` with a character yields).
pub open spec fn split_spec(s: Seq<char>, c: char) -> Seq<Seq<char>>
    decreases s.len(),
{
    match first_index(s, c) {
        Some(i) => {
            if 0 <= i < s.len() {
                seq![s.take(i)] + split_spec(s.subrange(i + 1, s.len() as int), c)
            } else {
                seq![s]
            }
        },
        None => seq![s],
    }
}

/// `s` split at its first `c`, as `str::split_once` does.
pub open spec fn split_once_spec(s: Seq<char>, c: char) -> Option<(Seq<char>, Seq<char>)> {
    match first_index(s, c) {
        Some(i) => Some((s.take(i), s.subrange(i + 1, s.len() as int))),
        None => None,
    }
}

/// `s` split at its last `c`, as `str::rsplit_once` does.
pub open spec fn rsplit_once_spec(s: Seq<char>, c: char) -> Option<(Seq<char>, Seq<char>)> {
    match last_index(s, c) {
        Some(i) => Some((s.take(i), s.subrange(i + 1, s.len() as int))),
        None => None,
    }
}

proof fn lemma_first_index_at(t: Seq<char>, c: char, k: int)
    requires
        0 <= k < t.len(),
        t[k] == c,
        forall|j: int| 0 <= j < k ==> t[j] != c,
    ensures
        first_index(t, c) == Some(k),
{
    lemma_first_index_from(t, c, 0);
    match first_index(t, c) {
        Some(i) => {
            if i < k {
                assert(t[i] != c);
            }
            if i > k {
                assert(t[k] != c);
            }
        },
        None => {
            assert(t[k] != c);
        },
    }
}

proof fn lemma_first_index_absent(t: Seq<char>, c: char)
    requires
        forall|j: int| 0 <= j < t.len() ==> t[j] != c,
    ensures
        first_index(t, c) is None,
{
    lemma_first_index_from(t, c, 0);
    if let Some(i) = first_index(t, c) {
        assert(t[i] == c);
    }
}

/// The pieces of `s` between occurrences of `c`.
pub fn split_char(s: &str, c: char) -> (r: Vec<String>)
    ensures
        views(r@) == split_spec(s@, c),
{
    let cs = chars_of(s);
    let n = cs.len();
    let mut out: Vec<String> = Vec::new();
    let mut start: usize = 0;
    let mut i: usize = 0;
    assert(cs@.skip(0) =~= cs@);
    while i < n
        invariant
            n == cs@.len(),
            cs@ == s@,
            start <= i <= n,
            forall|j: int| start <= j < i ==> cs@[j] != c,
            split_spec(s@, c) == views(out@) + split_spec(cs@.skip(start as int), c),
        decreases n - i,
    {
        if cs[i] == c {
            let piece = substring(cs.as_slice(), start, i);
            let ghost t = cs@.skip(start as int);
            proof {
                lemma_first_index_at(t, c, (i - start) as int);
                assert(t.take((i - start) as int) =~= piece@);
                assert(t.subrange((i - start) + 1, t.len() as int) =~= cs@.skip(i + 1));
            }
            let ghost before = out@;
            out.push(piece);
            assert(views(out@) =~= views(before).push(piece@));
            assert(views(out@) + split_spec(cs@.skip(i + 1), c) =~= views(before) + split_spec(
                t,
                c,
            ));
            start = i + 1;
        }
        i = i + 1;
    }
    let piece = substring(cs.as_slice(), start, n);
    let ghost t = cs@.skip(start as int);
    proof {
        lemma_first_index_absent(t, c);
        assert(t =~= piece@);
    }
    let ghost before = out@;
    out.push(piece);
    assert(views(out@) =~= views(before).push(piece@));
    assert(views(out@) =~= views(before) + split_spec(t, c));
    out
}

/// `s` split at its first `c`.
pub fn split_once_char(s: &str, c: char) -> (r: Option<(String, String)>)
    ensures
        match r {
            Some((a, b)) => split_once_spec(s@, c) == Some((a@, b@)),
            None => split_once_spec(s@, c) is None,
        },
{
    let cs = chars_of(s);
    match find_char_from(cs.as_slice(), c, 0) {
        Some(i) => {
            proof {
                lemma_first_index_from(s@, c, 0);
            }
            let a = substring(cs.as_slice(), 0, i);
            let b = substring(cs.as_slice(), i + 1, cs.len());
            assert(a@ =~= s@.take(i as int));
            Some((a, b))
        },
        None => None,
    }
}

/// `s` split at its last `c`.
pub fn rsplit_once_char(s: &str, c: char) -> (r: Option<(String, String)>)
    ensures
        match r {
            Some((a, b)) => rsplit_once_spec(s@, c) == Some((a@, b@)),
            None => rsplit_once_spec(s@, c) is None,
        },
{
    let cs = chars_of(s);
    match rfind_char(cs.as_slice(), c) {
        Some(i) => {
            proof {
                lemma_last_index_before(s@, c, s@.len() as int);
            }
            let a = substring(cs.as_slice(), 0, i);
            let b = substring(cs.as_slice(), i + 1, cs.len());
            assert(a@ =~= s@.take(i as int));
            Some((a, b))
        },
        None => None,
    }
}

/// `s` without the prefix `p`, when it has that prefix.
pub fn strip_prefix(s: &str, p: &str) -> (r: Option<String>)
    ensures
        match r {
            Some(t) => starts_with_seq(s@, p@) && t@ == s@.skip(p@.len() as int),
            None => !starts_with_seq(s@, p@),
        },
{
    if starts_with(s, p) {
        let cs = chars_of(s);
        let pl = chars_of(p).len();
        let t = substring(cs.as_slice(), pl, cs.len());
        assert(t@ =~= s@.skip(p@.len() as int));
        Some(t)
    } else {
        None
    }
}

/// `s` without the suffix `p`, when it has that suffix.
pub fn strip_suffix(s: &str, p: &str) -> (r: Option<String>)
    ensures
        match r {
            Some(t) => ends_with_seq(s@, p@) && t@ == s@.take(s@.len() - p@.len()),
            None => !ends_with_seq(s@, p@),
        },
{
    if ends_with(s, p) {
        let cs = chars_of(s);
        let pl = chars_of(p).len();
        let t = substring(cs.as_slice(), 0, cs.len() - pl);
        assert(t@ =~= s@.take(s@.len() - p@.len()));
        Some(t)
    } else {
        None
    }
}

/// Parses an unsigned integer as `str::parse::<u64>` does.
pub fn parse_u64(s: &str) -> (r: Option<u64>)
    ensures
        r == (match parse_in_range(parse_unsigned_spec(s@), 0, u64::MAX as int) {
            Some(v) => Some(v as u64),
            None => None::<u64>,
        }),
{
    let cs = chars_of(s);
    let body: Vec<char> = if cs.len() > 0 && cs[0] == '+' {
        let mut v: Vec<char> = Vec::new();
        let mut i: usize = 1;
        while i < cs.len()
            invariant
                1 <= i <= cs.len(),
                v@ == cs@.subrange(1, i as int),
            decreases cs.len() - i,
        {
            v.push(cs[i]);
            i = i + 1;
            assert(v@ =~= cs@.subrange(1, i as int));
        }
        assert(v@ =~= s@.drop_first());
        v
    } else {
        cs
    };
    let r = parse_digits_u64(body.as_slice());
    proof {
        if body@.len() > 0 && all_digits(body@) {
            lemma_digits_value_nonneg(body@);
        }
    }
    r
}

/// Parses a signed integer as `str::parse::<i64>` does.
pub fn parse_i64(s: &str) -> (r: Option<i64>)
    ensures
        r == (match parse_in_range(parse_signed_spec(s@), i64::MIN as int, i64::MAX as int) {
            Some(v) => Some(v as i64),
            None => None::<i64>,
        }),
{
    let cs = chars_of(s);
    if cs.len() > 0 && cs[0] == '-' {
        let rest = substring(cs.as_slice(), 1, cs.len());
        assert(rest@ =~= s@.drop_first());
        let rc = chars_of(rest.as_str());
        assert(rc@ == s@.drop_first());
        match parse_digits_u64(rc.as_slice()) {
            Some(v) => {
                proof {
                    lemma_digits_value_nonneg(rc@);
                }
                if v <= 9223372036854775808u64 {
                    if v == 9223372036854775808u64 {
                        Some(i64::MIN)
                    } else {
                        Some(-(v as i64))
                    }
                } else {
                    None
                }
            },
            None => {
                proof {
                    if rc@.len() > 0 && all_digits(rc@) {
                        lemma_digits_value_nonneg(rc@);
                    }
                }
                None
            },
        }
    } else {
        match parse_u64(s) {
            Some(v) => {
                if v <= 9223372036854775807u64 {
                    Some(v as i64)
                } else {
                    None
                }
            },
            None => {
                proof {
                    let body = if s@.len() > 0 && s@[0] == '+' { s@.drop_first() } else { s@ };
                    if body.len() > 0 && all_digits(body) {
                        lemma_digits_value_nonneg(body);
                    }
                }
                None
            },
        }
    }
}

/// Parses a signed 32-bit integer as `str::parse::<i32>` does.
pub fn parse_i32(s: &str) -> (r: Option<i32>)
    ensures
        r == (match parse_in_range(parse_signed_spec(s@), i32::MIN as int, i32::MAX as int) {
            Some(v) => Some(v as i32),
            None => None::<i32>,
        }),
{
    match parse_i64(s) {
        Some(v) => if -2147483648 <= v && v <= 2147483647 {
            Some(v as i32)
        } else {
            None
        },
        None => None,
    }
}

/// Parses an unsigned 8-bit integer as `str::parse::<u8>` does.
pub fn parse_u8(s: &str) -> (r: Option<u8>)
    ensures
        r == (match parse_in_range(parse_unsigned_spec(s@), 0, u8::MAX as int) {
            Some(v) => Some(v as u8),
            None => None::<u8>,
        }),
{
    match parse_u64(s) {
        Some(v) => if v <= 255 {
            Some(v as u8)
        } else {
            None
        },
        None => {
            proof {
                let body = if s@.len() > 0 && s@[0] == '+' { s@.drop_first() } else { s@ };
                if body.len() > 0 && all_digits(body) {
                    lemma_digits_value_nonneg(body);
                }
            }
            None
        },
    }
}

} // verus!

verus! {

/// `s` with every `from` replaced by `to`.
pub open spec fn replace_char_spec(s: Seq<char>, from: char, to: char) -> Seq<char> {
    s.map_values(|c: char| if c == from { to } else { c })
}

/// `s` with every leading copy of `p` removed (what `str::trim_start_matches` does).
pub open spec fn trim_start_matches_spec(s: Seq<char>, p: Seq<char>) -> Seq<char>
    decreases s.len(),
{
    if p.len() > 0 && starts_with_seq(s, p) {
        trim_start_matches_spec(s.skip(p.len() as int), p)
    } else {
        s
    }
}

/// The ASCII lower-case form of a character.
pub open spec fn lower_char(c: char) -> char {
    if 'A' <= c <= 'Z' {
        (((c as u8) + 32) as u8) as char
    } else {
        c
    }
}

/// `s` with ASCII upper-case letters turned to lower case.
pub open spec fn to_ascii_lowercase_spec(s: Seq<char>) -> Seq<char> {
    s.map_values(|c: char| lower_char(c))
}

/// `s` with every `from` replaced by `to`.
pub fn replace_char(s: &str, from: char, to: char) -> (r: String)
    ensures
        r@ == replace_char_spec(s@, from, to),
{
    let cs = chars_of(s);
    let mut out = String::new();
    let mut i: usize = 0;
    while i < cs.len()
        invariant
            cs@ == s@,
            i <= cs.len(),
            out@ == replace_char_spec(s@.take(i as int), from, to),
        decreases cs.len() - i,
    {
        let c = cs[i];
        if c == from {
            push_char(&mut out, to);
        } else {
            push_char(&mut out, c);
        }
        i = i + 1;
        assert(out@ =~= replace_char_spec(s@.take(i as int), from, to));
    }
    assert(s@.take(i as int) =~= s@);
    out
}

/// The ASCII lower-case form of a character.
pub fn to_lower_char(c: char) -> (r: char)
    ensures
        r == lower_char(c),
{
    if 'A' <= c && c <= 'Z' {
        (((c as u8) + 32) as u8) as char
    } else {
        c
    }
}

/// `s` with ASCII upper-case letters turned to lower case.
pub fn to_ascii_lowercase(s: &str) -> (r: String)
    ensures
        r@ == to_ascii_lowercase_spec(s@),
{
    let cs = chars_of(s);
    let mut out = String::new();
    let mut i: usize = 0;
    while i < cs.len()
        invariant
            cs@ == s@,
            i <= cs.len(),
            out@ == to_ascii_lowercase_spec(s@.take(i as int)),
        decreases cs.len() - i,
    {
        push_char(&mut out, to_lower_char(cs[i]));
        i = i + 1;
        assert(out@ =~= to_ascii_lowercase_spec(s@.take(i as int)));
    }
    assert(s@.take(i as int) =~= s@);
    out
}

/// `s` with every leading copy of `p` removed.
pub fn trim_start_matches(s: &str, p: &str) -> (r: String)
    ensures
        r@ == trim_start_matches_spec(s@, p@),
{
    let pc = chars_of(p);
    let mut cur = to_owned(s);
    if pc.len() == 0 {
        return cur;
    }
    loop
        invariant
            pc@ == p@,
            pc@.len() > 0,
            trim_start_matches_spec(cur@, p@) == trim_start_matches_spec(s@, p@),
        decreases cur@.len(),
    {
        match strip_prefix(cur.as_str(), p) {
            Some(rest) => {
                cur = rest;
            },
            None => {
                return cur;
            },
        }
    }
}

/// `s` without one leading `p`, or `s` itself.
pub open spec fn strip_prefix_or_self(s: Seq<char>, p: Seq<char>) -> Seq<char> {
    if starts_with_seq(s, p) {
        s.skip(p.len() as int)
    } else {
        s
    }
}

/// `s` without one leading `p`, or `s` itself.
pub fn strip_prefix_or_keep(s: &str, p: &str) -> (r: String)
    ensures
        r@ == strip_prefix_or_self(s@, p@),
{
    match strip_prefix(s, p) {
        Some(t) => t,
        None => to_owned(s),
    }
}


/// `s` with every `c` removed.
pub open spec fn remove_char_spec(s: Seq<char>, c: char) -> Seq<char> {
    s.filter(other_than(c))
}

/// Holds of the characters other than `c`.
pub open spec fn other_than(c: char) -> spec_fn(char) -> bool {
    |x: char| x != c
}

/// `s` with every `c` removed.
pub fn remove_char(s: &str, c: char) -> (r: String)
    ensures
        r@ == remove_char_spec(s@, c),
{
    let cs = chars_of(s);
    let mut out = String::new();
    let mut i: usize = 0;
    proof {
        crate::seqs::lemma_filter_take_zero(cs@, other_than(c));
    }
    while i < cs.len()
        invariant
            i <= cs@.len(),
            out@ == cs@.take(i as int).filter(other_than(c)),
        decreases cs.len() - i,
    {
        proof {
            crate::seqs::lemma_filter_take_step(cs@, other_than(c), i as int);
        }
        if cs[i] != c {
            push_char(&mut out, cs[i]);
        }
        i = i + 1;
    }
    assert(cs@.take(i as int) =~= cs@);
    out
}


/// Holds of the texts that start with `p`.
pub open spec fn starts_with_pred(p: Seq<char>) -> spec_fn(Seq<char>) -> bool {
    |s: Seq<char>| starts_with_seq(s, p)
}


/// The ASCII upper-case form of a character.
pub open spec fn upper_char(c: char) -> char {
    if 'a' <= c <= 'z' {
        (((c as u8) - 32) as u8) as char
    } else {
        c
    }
}

/// `s` with ASCII lower-case letters turned to upper case.
pub open spec fn to_ascii_uppercase_spec(s: Seq<char>) -> Seq<char> {
    s.map_values(|c: char| upper_char(c))
}

/// The ASCII upper-case form of a character.
pub fn to_upper_char(c: char) -> (r: char)
    ensures
        r == upper_char(c),
{
    if 'a' <= c && c <= 'z' {
        (((c as u8) - 32) as u8) as char
    } else {
        c
    }
}

/// `s` with ASCII lower-case letters turned to upper case.
pub fn to_ascii_uppercase(s: &str) -> (r: String)
    ensures
        r@ == to_ascii_uppercase_spec(s@),
{
    let cs = chars_of(s);
    let mut out = String::new();
    let mut i: usize = 0;
    while i < cs.len()
        invariant
            cs@ == s@,
            i <= cs.len(),
            out@ == to_ascii_uppercase_spec(s@.take(i as int)),
        decreases cs.len() - i,
    {
        push_char(&mut out, to_upper_char(cs[i]));
        i = i + 1;
        assert(out@ =~= to_ascii_uppercase_spec(s@.take(i as int)));
    }
    assert(s@.take(i as int) =~= s@);
    out
}

/// Whether two texts are equal when ASCII letters are compared without case.
pub fn eq_ignore_ascii_case(a: &str, b: &str) -> (r: bool)
    ensures
        r == (to_ascii_lowercase_spec(a@) == to_ascii_lowercase_spec(b@)),
{
    let x = to_ascii_lowercase(a);
    let y = to_ascii_lowercase(b);
    str_eq(x.as_str(), y.as_str())
}

/// `c` is an ASCII letter or digit or `_`.
pub open spec fn is_ident_char(c: char) -> bool {
    ('a' <= c <= 'z') || ('A' <= c <= 'Z') || ('0' <= c <= '9') || c == '_'
}

/// `s` without trailing characters that are not ASCII letters, digits or `_`.
pub open spec fn trim_end_non_ident_spec(s: Seq<char>) -> Seq<char>
    decreases s.len(),
{
    if s.len() > 0 && !is_ident_char(s.last()) {
        trim_end_non_ident_spec(s.drop_last())
    } else {
        s
    }
}

/// `s` without trailing characters that are not ASCII letters, digits or `_`.
pub fn trim_end_non_ident(s: &str) -> (r: String)
    ensures
        r@ == trim_end_non_ident_spec(s@),
{
    let cs = chars_of(s);
    let n = cs.len();
    let mut b: usize = n;
    assert(cs@.take(n as int) =~= cs@);
    while b > 0 && !(('a' <= cs[b - 1] && cs[b - 1] <= 'z') || ('A' <= cs[b - 1] && cs[b - 1] <= 'Z') || ('0' <= cs[b - 1] && cs[b - 1] <= '9') || cs[b - 1] == '_')
        invariant
            n == cs@.len(),
            b <= n,
            trim_end_non_ident_spec(cs@) == trim_end_non_ident_spec(cs@.take(b as int)),
        decreases b,
    {
        assert(cs@.take(b as int).drop_last() =~= cs@.take(b - 1));
        b = b - 1;
    }
    let r = substring(cs.as_slice(), 0, b);
    assert(r@ =~= cs@.take(b as int));
    r
}

} // verus!
