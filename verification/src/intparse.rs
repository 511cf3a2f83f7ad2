use vstd::prelude::*;

use crate::text::{
    all_digits, chars_of, digits_value, is_digit, lemma_digits_value_nonneg, parse_i64,
    parse_in_range, parse_signed_spec, parse_u64, parse_unsigned_spec, to_owned,
};

verus! {

/// The message of an integer parse of an empty string.
pub open spec fn empty_text() -> Seq<char> {
    "cannot parse integer from empty string"@
}

/// The message of an integer parse that meets a character that is not a digit.
pub open spec fn invalid_digit_text() -> Seq<char> {
    "invalid digit found in string"@
}

/// The message of an integer parse whose value is above the type's range.
pub open spec fn too_large_text() -> Seq<char> {
    "number too large to fit in target type"@
}

/// The message of an integer parse whose value is below the type's range.
pub open spec fn too_small_text() -> Seq<char> {
    "number too small to fit in target type"@
}

/// The first failure met when the digits of `body` are read from index `i` on: a character
/// that is not a digit, or a prefix whose value is above `limit`.
pub open spec fn scan_error(body: Seq<char>, i: int, limit: int, overflow: Seq<char>) -> Option<
    Seq<char>,
>
    decreases body.len() - i,
{
    if i < 0 || i >= body.len() {
        None
    } else if !is_digit(body[i]) {
        Some(invalid_digit_text())
    } else if digits_value(body.take(i + 1)) > limit {
        Some(overflow)
    } else {
        scan_error(body, i + 1, limit, overflow)
    }
}

/// The message with which `str::parse` refuses `s` as an integer in `[lo, hi]` (the text of
/// std's `ParseIntError`), `None` where it accepts it.
pub open spec fn int_parse_error(s: Seq<char>, signed: bool, lo: int, hi: int) -> Option<Seq<char>> {
    if s.len() == 0 {
        Some(empty_text())
    } else if (s[0] == '+' || s[0] == '-') && s.len() == 1 {
        Some(invalid_digit_text())
    } else if s[0] == '+' {
        scan_error(s.drop_first(), 0, hi, too_large_text())
    } else if s[0] == '-' && signed {
        scan_error(s.drop_first(), 0, -lo, too_small_text())
    } else {
        scan_error(s, 0, hi, too_large_text())
    }
}

/// When no failure is met from `i` on, and none before it, every character is a digit and
/// the value is within the limit.
proof fn lemma_scan_none(body: Seq<char>, i: int, limit: int, overflow: Seq<char>)
    requires
        0 <= i <= body.len(),
        scan_error(body, i, limit, overflow) is None,
        all_digits(body.take(i)),
        i > 0 ==> digits_value(body.take(i)) <= limit,
        limit >= 0,
    ensures
        all_digits(body),
        digits_value(body) <= limit,
    decreases body.len() - i,
{
    if i == body.len() {
        assert(body.take(i) =~= body);
    } else {
        assert(all_digits(body.take(i + 1))) by {
            assert forall|k: int| 0 <= k < i + 1 implies is_digit(#[trigger] body.take(i + 1)[k]) by {
                if k < i {
                    assert(body.take(i + 1)[k] == body.take(i)[k]);
                }
            }
        }
        lemma_scan_none(body, i + 1, limit, overflow);
    }
}

/// A failure is met whenever the digits do not make a value within the limit.
proof fn lemma_scan_some(body: Seq<char>, limit: int, overflow: Seq<char>)
    requires
        body.len() > 0,
        limit >= 0,
        !(all_digits(body) && digits_value(body) <= limit),
    ensures
        scan_error(body, 0, limit, overflow) is Some,
{
    if scan_error(body, 0, limit, overflow) is None {
        assert(body.take(0) =~= Seq::<char>::empty());
        lemma_scan_none(body, 0, limit, overflow);
    }
}

/// The first failure met in `body`, computed.
fn scan_error_text(body: &[char], limit: u64, overflow: &str) -> (r: String)
    requires
        scan_error(body@, 0, limit as int, overflow@) is Some,
    ensures
        scan_error(body@, 0, limit as int, overflow@) == Some(r@),
{
    let mut acc: u128 = 0;
    let mut i: usize = 0;
    while i < body.len()
        invariant
            i <= body.len(),
            all_digits(body@.take(i as int)),
            acc as int == digits_value(body@.take(i as int)),
            acc <= limit,
            scan_error(body@, 0, limit as int, overflow@) == scan_error(body@, i as int, limit as int, overflow@),
            scan_error(body@, i as int, limit as int, overflow@) is Some,
        decreases body.len() - i,
    {
        let c = body[i];
        if !('0' <= c && c <= '9') {
            return to_owned("invalid digit found in string");
        }
        let d: u128 = ((c as u32) - 48) as u128;
        assert(body@.take(i + 1).drop_last() =~= body@.take(i as int));
        let next: u128 = acc * 10 + d;
        assert(next as int == digits_value(body@.take(i + 1)));
        if next > limit as u128 {
            return to_owned(overflow);
        }
        assert(all_digits(body@.take(i + 1))) by {
            assert forall|k: int| 0 <= k < i + 1 implies is_digit(#[trigger] body@.take(i + 1)[k]) by {
                if k < i {
                    assert(body@.take(i + 1)[k] == body@.take(i as int)[k]);
                }
            }
        }
        acc = next;
        i = i + 1;
    }
    to_owned(overflow)
}

/// Parses `s` as `str::parse::<usize>` does, with std's message on failure.
pub fn parse_usize_text(s: &str) -> (r: Result<usize, String>)
    ensures
        match parse_in_range(parse_unsigned_spec(s@), 0, usize::MAX as int) {
            Some(v) => r == Ok::<usize, String>(v as usize),
            None => r matches Err(e) && int_parse_error(s@, false, 0, usize::MAX as int) == Some(e@),
        },
{
    match parse_u64(s) {
        Some(v) => {
            if v <= usize::MAX as u64 {
                return Ok(v as usize);
            }
        },
        None => {},
    }
    let cs = chars_of(s);
    if cs.len() == 0 {
        return Err(to_owned("cannot parse integer from empty string"));
    }
    if (cs[0] == '+' || cs[0] == '-') && cs.len() == 1 {
        return Err(to_owned("invalid digit found in string"));
    }
    let body: Vec<char> = if cs[0] == '+' {
        crate::text::chars_of(crate::text::substring(cs.as_slice(), 1, cs.len()).as_str())
    } else {
        cs
    };
    assert(cs[0] == '+' ==> body@ =~= s@.drop_first());
    proof {
        let b = if s@[0] == '+' { s@.drop_first() } else { s@ };
        assert(body@ == b);
        if all_digits(b) {
            lemma_digits_value_nonneg(b);
        }
        lemma_scan_some(b, usize::MAX as int, too_large_text());
    }
    Err(scan_error_text(body.as_slice(), usize::MAX as u64, "number too large to fit in target type"))
}

/// Parses `s` as `str::parse::<i32>` does, with std's message on failure.
pub fn parse_i32_text(s: &str) -> (r: Result<i32, String>)
    ensures
        match parse_in_range(parse_signed_spec(s@), i32::MIN as int, i32::MAX as int) {
            Some(v) => r == Ok::<i32, String>(v as i32),
            None => r matches Err(e) && int_parse_error(s@, true, i32::MIN as int, i32::MAX as int)
                == Some(e@),
        },
{
    match parse_i64(s) {
        Some(v) => {
            if -2147483648 <= v && v <= 2147483647 {
                return Ok(v as i32);
            }
        },
        None => {},
    }
    let cs = chars_of(s);
    if cs.len() == 0 {
        return Err(to_owned("cannot parse integer from empty string"));
    }
    if (cs[0] == '+' || cs[0] == '-') && cs.len() == 1 {
        return Err(to_owned("invalid digit found in string"));
    }
    if cs[0] == '-' {
        let body = chars_of(crate::text::substring(cs.as_slice(), 1, cs.len()).as_str());
        assert(body@ =~= s@.drop_first());
        proof {
            if all_digits(body@) {
                lemma_digits_value_nonneg(body@);
            }
            lemma_scan_some(body@, 2147483648, too_small_text());
        }
        Err(scan_error_text(body.as_slice(), 2147483648, "number too small to fit in target type"))
    } else {
        let body: Vec<char> = if cs[0] == '+' {
            chars_of(crate::text::substring(cs.as_slice(), 1, cs.len()).as_str())
        } else {
            cs
        };
        assert(cs[0] == '+' ==> body@ =~= s@.drop_first());
        proof {
            let b = if s@[0] == '+' { s@.drop_first() } else { s@ };
            assert(body@ == b);
            if all_digits(b) {
                lemma_digits_value_nonneg(b);
            }
            lemma_scan_some(b, 2147483647, too_large_text());
        }
        Err(scan_error_text(body.as_slice(), 2147483647, "number too large to fit in target type"))
    }
}


/// Parses `s` as `str::parse::<i64>` does, with std's message on failure.
pub fn parse_i64_text(s: &str) -> (r: Result<i64, String>)
    ensures
        match parse_in_range(parse_signed_spec(s@), i64::MIN as int, i64::MAX as int) {
            Some(v) => r == Ok::<i64, String>(v as i64),
            None => r matches Err(e) && int_parse_error(s@, true, i64::MIN as int, i64::MAX as int)
                == Some(e@),
        },
{
    match parse_i64(s) {
        Some(v) => {
            return Ok(v);
        },
        None => {},
    }
    let cs = chars_of(s);
    if cs.len() == 0 {
        return Err(to_owned("cannot parse integer from empty string"));
    }
    if (cs[0] == '+' || cs[0] == '-') && cs.len() == 1 {
        return Err(to_owned("invalid digit found in string"));
    }
    if cs[0] == '-' {
        let body = chars_of(crate::text::substring(cs.as_slice(), 1, cs.len()).as_str());
        assert(body@ =~= s@.drop_first());
        proof {
            if all_digits(body@) {
                lemma_digits_value_nonneg(body@);
            }
            lemma_scan_some(body@, 9223372036854775808, too_small_text());
        }
        Err(scan_error_text(body.as_slice(), 9223372036854775808, "number too small to fit in target type"))
    } else {
        let body: Vec<char> = if cs[0] == '+' {
            chars_of(crate::text::substring(cs.as_slice(), 1, cs.len()).as_str())
        } else {
            cs
        };
        assert(cs[0] == '+' ==> body@ =~= s@.drop_first());
        proof {
            let b = if s@[0] == '+' { s@.drop_first() } else { s@ };
            assert(body@ == b);
            if all_digits(b) {
                lemma_digits_value_nonneg(b);
            }
            lemma_scan_some(b, 9223372036854775807, too_large_text());
        }
        Err(scan_error_text(body.as_slice(), 9223372036854775807, "number too large to fit in target type"))
    }
}

} // verus!
