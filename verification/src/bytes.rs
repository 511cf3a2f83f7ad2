use vstd::prelude::*;

verus! {

/// Index of the first `x` in `b` at or after `from`, if any.
pub open spec fn first_byte_from(b: Seq<u8>, x: u8, from: int) -> Option<int>
    decreases b.len() - from,
{
    if from < 0 || from >= b.len() {
        None
    } else if b[from] == x {
        Some(from)
    } else {
        first_byte_from(b, x, from + 1)
    }
}

/// Index of the last `x` in `b` before `upto`, if any.
pub open spec fn last_byte_before(b: Seq<u8>, x: u8, upto: int) -> Option<int>
    decreases upto,
{
    if upto <= 0 || upto > b.len() {
        None
    } else if b[upto - 1] == x {
        Some(upto - 1)
    } else {
        last_byte_before(b, x, upto - 1)
    }
}

pub proof fn lemma_first_byte_from(b: Seq<u8>, x: u8, from: int)
    requires
        0 <= from <= b.len(),
    ensures
        match first_byte_from(b, x, from) {
            Some(i) => from <= i < b.len() && b[i] == x && forall|j: int|
                from <= j < i ==> b[j] != x,
            None => forall|j: int| from <= j < b.len() ==> b[j] != x,
        },
    decreases b.len() - from,
{
    if from < b.len() && b[from] != x {
        lemma_first_byte_from(b, x, from + 1);
    }
}

pub proof fn lemma_last_byte_before(b: Seq<u8>, x: u8, upto: int)
    requires
        0 <= upto <= b.len(),
    ensures
        match last_byte_before(b, x, upto) {
            Some(i) => 0 <= i < upto && b[i] == x && forall|j: int| i < j < upto ==> b[j] != x,
            None => forall|j: int| 0 <= j < upto ==> b[j] != x,
        },
    decreases upto,
{
    if upto > 0 && b[upto - 1] != x {
        lemma_last_byte_before(b, x, upto - 1);
    }
}

/// If `x` first occurs in `a` at `i`, then it first occurs at `i` in `a + c` too; if `x` does
/// not occur in `a`, its first occurrence in `a + c` is the one in `c`, shifted.
pub proof fn lemma_first_byte_concat(a: Seq<u8>, c: Seq<u8>, x: u8)
    ensures
        first_byte_from(a + c, x, 0) == (match first_byte_from(a, x, 0) {
            Some(i) => Some(i),
            None => match first_byte_from(c, x, 0) {
                Some(j) => Some(a.len() + j),
                None => None,
            },
        }),
{
    lemma_first_byte_from(a, x, 0);
    lemma_first_byte_from(c, x, 0);
    lemma_first_byte_from(a + c, x, 0);
    let ac = a + c;
    match first_byte_from(a, x, 0) {
        Some(i) => {
            assert(ac[i] == x);
            match first_byte_from(ac, x, 0) {
                Some(k) => {
                    if k < i {
                        assert(ac[k] == a[k]);
                    }
                    if k > i {
                        assert(ac[i] != x);
                    }
                },
                None => {
                    assert(ac[i] != x);
                },
            }
        },
        None => {
            match first_byte_from(c, x, 0) {
                Some(j) => {
                    assert(ac[a.len() + j] == x);
                    match first_byte_from(ac, x, 0) {
                        Some(k) => {
                            if k < a.len() {
                                assert(ac[k] == a[k]);
                            } else if k < a.len() + j {
                                assert(ac[k] == c[k - a.len()]);
                            } else if k > a.len() + j {
                                assert(ac[a.len() + j] != x);
                            }
                        },
                        None => {
                            assert(ac[a.len() + j] != x);
                        },
                    }
                },
                None => {
                    match first_byte_from(ac, x, 0) {
                        Some(k) => {
                            if k < a.len() {
                                assert(ac[k] == a[k]);
                            } else {
                                assert(ac[k] == c[k - a.len()]);
                            }
                        },
                        None => {},
                    }
                },
            }
        },
    }
}

/// Index of the first `x` in `b` at or after `from`.
pub fn find_byte_from(b: &[u8], x: u8, from: usize) -> (r: Option<usize>)
    requires
        from <= b.len(),
    ensures
        r == (match first_byte_from(b@, x, from as int) {
            Some(i) => Some(i as usize),
            None => None,
        }),
{
    let mut i = from;
    while i < b.len()
        invariant
            from <= i <= b.len(),
            first_byte_from(b@, x, from as int) == first_byte_from(b@, x, i as int),
        decreases b.len() - i,
    {
        if b[i] == x {
            return Some(i);
        }
        i = i + 1;
    }
    None
}

/// Index of the last `x` in `b`.
pub fn rfind_byte(b: &[u8], x: u8) -> (r: Option<usize>)
    ensures
        r == (match last_byte_before(b@, x, b@.len() as int) {
            Some(i) => Some(i as usize),
            None => None,
        }),
{
    let mut i = b.len();
    while i > 0
        invariant
            i <= b.len(),
            last_byte_before(b@, x, b@.len() as int) == last_byte_before(b@, x, i as int),
        decreases i,
    {
        if b[i - 1] == x {
            return Some(i - 1);
        }
        i = i - 1;
    }
    None
}

/// Bytes `from..to` of `b`, copied.
pub fn sub_bytes(b: &[u8], from: usize, to: usize) -> (r: Vec<u8>)
    requires
        from <= to <= b.len(),
    ensures
        r@ == b@.subrange(from as int, to as int),
{
    let mut out: Vec<u8> = Vec::new();
    let mut i = from;
    while i < to
        invariant
            from <= i <= to <= b.len(),
            out@ == b@.subrange(from as int, i as int),
        decreases to - i,
    {
        out.push(b[i]);
        i = i + 1;
        assert(out@ =~= b@.subrange(from as int, i as int));
    }
    out
}

/// Appends all of `src` to `dst`.
pub fn extend_bytes(dst: &mut Vec<u8>, src: &[u8])
    ensures
        final(dst)@ == old(dst)@ + src@,
{
    let mut i: usize = 0;
    while i < src.len()
        invariant
            i <= src.len(),
            dst@ == old(dst)@ + src@.take(i as int),
        decreases src.len() - i,
    {
        dst.push(src[i]);
        i = i + 1;
        assert(dst@ =~= old(dst)@ + src@.take(i as int));
    }
    assert(src@.take(src.len() as int) =~= src@);
}

/// The UTF-8 encoding of a string slice, copied into a vector.
pub fn str_bytes(s: &str) -> (r: Vec<u8>)
    ensures
        r@ == vstd::utf8::encode_utf8(s@),
{
    let b = s.as_bytes();
    let mut out: Vec<u8> = Vec::new();
    extend_bytes(&mut out, b);
    assert(out@ =~= b@);
    out
}

/// What std's `Utf8Error` says of invalid bytes (the length and position of the first
/// invalid sequence): a function of the bytes alone.
pub uninterp spec fn utf8_error_text(b: Seq<u8>) -> Seq<char>;

/// Decodes UTF-8 bytes (`std::str::from_utf8`): `Ok` with the decoded characters exactly when
/// the bytes are valid UTF-8; otherwise std's description of the fault, left to the name
/// `utf8_error_text`.
#[verifier::external_body]
pub fn utf8_decode(b: &[u8]) -> (r: Result<String, String>)
    ensures
        r is Ok <==> vstd::utf8::valid_utf8(b@),
        r matches Ok(s) ==> s@ == vstd::utf8::decode_utf8(b@),
        r matches Err(e) ==> e@ == utf8_error_text(b@),
{
    match std::str::from_utf8(b) {
        Ok(s) => Ok(s.to_string()),
        Err(e) => Err(e.to_string()),
    }
}

/// The UTF-8 encoding of `a + b` is the encoding of `a` followed by that of `b`.
pub proof fn lemma_encode_utf8_concat(a: Seq<char>, b: Seq<char>)
    ensures
        vstd::utf8::encode_utf8(a + b) == vstd::utf8::encode_utf8(a) + vstd::utf8::encode_utf8(b),
    decreases a.len(),
{
    if a.len() == 0 {
        assert(a + b =~= b);
        assert(vstd::utf8::encode_utf8(a) =~= Seq::<u8>::empty());
        assert(Seq::<u8>::empty() + vstd::utf8::encode_utf8(b) =~= vstd::utf8::encode_utf8(b));
    } else {
        lemma_encode_utf8_concat(a.drop_first(), b);
        assert((a + b).drop_first() =~= a.drop_first() + b);
        assert((a + b)[0] == a[0]);
    }
}

} // verus!

verus! {

/// The encoding of a scalar with a 1-byte encoding is the scalar itself; longer encodings only
/// hold bytes with the high bit set.
pub proof fn lemma_encode_scalar_bytes(v: u32)
    requires
        vstd::utf8::is_scalar(v),
    ensures
        vstd::utf8::has_width_1_encoding(v) ==> vstd::utf8::encode_scalar(v) == seq![v as u8],
        !vstd::utf8::has_width_1_encoding(v) ==> forall|i: int|
            0 <= i < vstd::utf8::encode_scalar(v).len() ==> vstd::utf8::encode_scalar(v)[i]
                >= 0x80,
{
    if vstd::utf8::has_width_1_encoding(v) {
        assert((v & 0x7F) as u8 == v as u8) by (bit_vector)
            requires
                v <= 0x7F,
        ;
    } else {
        assert(forall|w: u32| #![auto] (0xC0u8 | ((w >> 6) & 0x1F) as u8) >= 0x80) by (bit_vector);
        assert(forall|w: u32| #![auto] (0xE0u8 | ((w >> 12) & 0x0F) as u8) >= 0x80) by (bit_vector);
        assert(forall|w: u32| #![auto] (0xF0u8 | ((w >> 18) & 0x7) as u8) >= 0x80) by (bit_vector);
        assert(forall|w: u32| #![auto] (0x80u8 | (w & 0x3F) as u8) >= 0x80) by (bit_vector);
        assert(forall|w: u32| #![auto] (0x80u8 | ((w >> 6) & 0x3F) as u8) >= 0x80) by (bit_vector);
        assert(forall|w: u32| #![auto] (0x80u8 | ((w >> 12) & 0x3F) as u8) >= 0x80) by (bit_vector);
    }
}

/// An ASCII byte occurs in the UTF-8 encoding of `s` only where the matching character occurs in `s`.
pub proof fn lemma_encode_lacks_ascii_byte(s: Seq<char>, x: u8)
    requires
        x < 0x80,
        forall|i: int| 0 <= i < s.len() ==> s[i] as u32 != x as u32,
    ensures
        forall|i: int|
            0 <= i < vstd::utf8::encode_utf8(s).len() ==> vstd::utf8::encode_utf8(s)[i] != x,
    decreases s.len(),
{
    if s.len() > 0 {
        let v = s[0] as u32;
        vstd::utf8::char_is_scalar(s[0]);
        lemma_encode_scalar_bytes(v);
        lemma_encode_lacks_ascii_byte(s.drop_first(), x);
        let head = vstd::utf8::encode_scalar(v);
        let tail = vstd::utf8::encode_utf8(s.drop_first());
        assert(vstd::utf8::encode_utf8(s) == head + tail);
        assert forall|i: int| 0 <= i < (head + tail).len() implies (head + tail)[i] != x by {
            if i < head.len() {
                if vstd::utf8::has_width_1_encoding(v) {
                    assert(v as u8 != x) by (bit_vector)
                        requires
                            v <= 0x7F,
                            v != x as u32,
                    ;
                }
            } else {
                assert((head + tail)[i] == tail[i - head.len()]);
            }
        }
    }
}

/// The encoding of an ASCII character is that character's byte.
pub proof fn lemma_encode_ascii_char(c: char)
    requires
        (c as u32) < 0x80,
    ensures
        vstd::utf8::encode_utf8(seq![c]) == seq![c as u32 as u8],
{
    vstd::utf8::char_is_scalar(c);
    lemma_encode_scalar_bytes(c as u32);
    assert(seq![c].drop_first() =~= Seq::<char>::empty());
    assert(vstd::utf8::encode_utf8(Seq::<char>::empty()) =~= Seq::<u8>::empty());
    assert(vstd::utf8::encode_scalar(c as u32) + Seq::<u8>::empty() =~= vstd::utf8::encode_scalar(
        c as u32,
    ));
}


/// What `String::from_utf8_lossy` makes of a byte sequence: a function of the bytes alone.
pub uninterp spec fn utf8_lossy_text(b: Seq<u8>) -> Seq<char>;

/// Decodes bytes with `String::from_utf8_lossy`: valid UTF-8 decodes to its characters; the
/// replacement characters that std puts in place of invalid sequences are left to the name
/// `utf8_lossy_text`.
#[verifier::external_body]
pub fn utf8_lossy(b: &[u8]) -> (r: String)
    ensures
        r@ == utf8_lossy_text(b@),
        vstd::utf8::valid_utf8(b@) ==> r@ == vstd::utf8::decode_utf8(b@),
{
    String::from_utf8_lossy(b).into_owned()
}

} // verus!
