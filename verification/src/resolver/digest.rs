use vstd::prelude::*;

use vstd::wrapping::u32_specs::wrapping_add;

verus! {

/// The per-round left-rotation amounts of MD5.
pub open spec fn shift_table() -> Seq<u32> {
    seq![
        7u32, 12, 17, 22, 7, 12, 17, 22, 7, 12, 17, 22, 7, 12, 17, 22, 5, 9, 14, 20, 5, 9, 14, 20, 5,
        9, 14, 20, 5, 9, 14, 20, 4, 11, 16, 23, 4, 11, 16, 23, 4, 11, 16, 23, 4, 11, 16, 23, 6, 10,
        15, 21, 6, 10, 15, 21, 6, 10, 15, 21, 6, 10, 15, 21,
    ]
}

/// The per-round additive constants of MD5.
pub open spec fn constant_table() -> Seq<u32> {
    seq![
        0xd76aa478u32, 0xe8c7b756, 0x242070db, 0xc1bdceee, 0xf57c0faf, 0x4787c62a, 0xa8304613,
        0xfd469501, 0x698098d8, 0x8b44f7af, 0xffff5bb1, 0x895cd7be, 0x6b901122, 0xfd987193,
        0xa679438e, 0x49b40821, 0xf61e2562, 0xc040b340, 0x265e5a51, 0xe9b6c7aa, 0xd62f105d,
        0x02441453, 0xd8a1e681, 0xe7d3fbc8, 0x21e1cde6, 0xc33707d6, 0xf4d50d87, 0x455a14ed,
        0xa9e3e905, 0xfcefa3f8, 0x676f02d9, 0x8d2a4c8a, 0xfffa3942, 0x8771f681, 0x6d9d6122,
        0xfde5380c, 0xa4beea44, 0x4bdecfa9, 0xf6bb4b60, 0xbebfbc70, 0x289b7ec6, 0xeaa127fa,
        0xd4ef3085, 0x04881d05, 0xd9d4d039, 0xe6db99e5, 0x1fa27cf8, 0xc4ac5665, 0xf4292244,
        0x432aff97, 0xab9423a7, 0xfc93a039, 0x655b59c3, 0x8f0ccc92, 0xffeff47d, 0x85845dd1,
        0x6fa87e4f, 0xfe2ce6e0, 0xa3014314, 0x4e0811a1, 0xf7537e82, 0xbd3af235, 0x2ad7d2bb,
        0xeb86d391,
    ]
}

/// Left rotation of a 32-bit word by `s` bits, `0 < s < 32`.
pub open spec fn rotl(x: u32, s: u32) -> u32 {
    ((x << s) | (x >> ((32 - s) as u32))) as u32
}

/// The number of zero bytes MD5 puts after the `0x80` byte of a message of `n` bytes.
pub open spec fn zero_count(n: nat) -> nat {
    ((56 + 64 - ((n + 1) % 64)) % 64) as nat
}

/// The eight little-endian bytes of `x`.
pub open spec fn le_u64_bytes(x: u64) -> Seq<u8> {
    Seq::new(8, |i: int| ((x >> ((8 * i) as u64)) & 0xffu64) as u8)
}

/// The message length in bits, modulo 2^64.
pub open spec fn bit_length(n: nat) -> u64 {
    ((n * 8) % 0x1_0000_0000_0000_0000) as u64
}

/// The padded MD5 message.
pub open spec fn padded(m: Seq<u8>) -> Seq<u8> {
    m + seq![0x80u8] + Seq::new(zero_count(m.len()), |i: int| 0u8) + le_u64_bytes(
        bit_length(m.len()),
    )
}

/// The little-endian word at byte offset `at`.
pub open spec fn word_at(m: Seq<u8>, at: int) -> u32 {
    ((m[at] as u32) | ((m[at + 1] as u32) << 8u32) | ((m[at + 2] as u32) << 16u32) | ((
    m[at + 3] as u32) << 24u32)) as u32
}

/// The sixteen words of the chunk at byte offset `base`.
pub open spec fn chunk_words(m: Seq<u8>, base: int) -> Seq<u32> {
    Seq::new(16, |w: int| word_at(m, base + 4 * w))
}

/// The mixing value and word index of round `i`.
pub open spec fn round_fg(b: u32, c: u32, d: u32, i: int) -> (u32, int) {
    if i < 16 {
        (((b & c) | ((!b) & d)) as u32, i)
    } else if i < 32 {
        (((d & b) | ((!d) & c)) as u32, (5 * i + 1) % 16)
    } else if i < 48 {
        ((b ^ c ^ d) as u32, (3 * i + 5) % 16)
    } else {
        ((c ^ (b | (!d))) as u32, (7 * i) % 16)
    }
}

/// One MD5 round on the state `(a, b, c, d)`.
pub open spec fn round(st: (u32, u32, u32, u32), words: Seq<u32>, i: int) -> (u32, u32, u32, u32) {
    let (a, b, c, d) = st;
    let (f, g) = round_fg(b, c, d, i);
    let x = wrapping_add(wrapping_add(wrapping_add(a, f), constant_table()[i]), words[g]);
    (d, wrapping_add(b, rotl(x, shift_table()[i])), b, c)
}

/// The state after the first `n` rounds.
pub open spec fn rounds(st: (u32, u32, u32, u32), words: Seq<u32>, n: int) -> (u32, u32, u32, u32)
    decreases n,
{
    if n <= 0 {
        st
    } else {
        round(rounds(st, words, n - 1), words, n - 1)
    }
}

/// The state after one chunk.
pub open spec fn chunk_step(st: (u32, u32, u32, u32), words: Seq<u32>) -> (u32, u32, u32, u32) {
    let r = rounds(st, words, 64);
    (
        wrapping_add(st.0, r.0),
        wrapping_add(st.1, r.1),
        wrapping_add(st.2, r.2),
        wrapping_add(st.3, r.3),
    )
}

pub open spec fn initial_state() -> (u32, u32, u32, u32) {
    (0x67452301u32, 0xefcdab89u32, 0x98badcfeu32, 0x10325476u32)
}

/// The state after the first `k` chunks of the padded message `p`.
pub open spec fn chunks_state(p: Seq<u8>, k: int) -> (u32, u32, u32, u32)
    decreases k,
{
    if k <= 0 {
        initial_state()
    } else {
        chunk_step(chunks_state(p, k - 1), chunk_words(p, 64 * (k - 1)))
    }
}

/// The four little-endian bytes of a word.
pub open spec fn le_u32_bytes(x: u32) -> Seq<u8> {
    Seq::new(4, |i: int| ((x >> ((8 * i) as u32)) & 0xffu32) as u8)
}

/// The MD5 digest of `m`.
pub open spec fn md5_spec(m: Seq<u8>) -> Seq<u8> {
    let p = padded(m);
    let st = chunks_state(p, (p.len() / 64) as int);
    le_u32_bytes(st.0) + le_u32_bytes(st.1) + le_u32_bytes(st.2) + le_u32_bytes(st.3)
}

/// The lower-case hexadecimal digit of a nibble.
pub open spec fn hex_digit(n: u8) -> char {
    if n < 10 {
        (48u8 + n) as char
    } else {
        (97u8 + n - 10) as char
    }
}

/// Two lower-case hexadecimal digits per byte.
pub open spec fn hex_spec(b: Seq<u8>) -> Seq<char>
    decreases b.len(),
{
    if b.len() == 0 {
        Seq::empty()
    } else {
        seq![hex_digit(b[0] >> 4u8), hex_digit(b[0] & 0x0fu8)] + hex_spec(b.drop_first())
    }
}

/// The MD5 digest of `m` in lower-case hexadecimal.
pub open spec fn md5_hex_spec(m: Seq<u8>) -> Seq<char> {
    hex_spec(md5_spec(m))
}

proof fn lemma_padded_len(m: Seq<u8>)
    ensures
        padded(m).len() % 64 == 0,
        padded(m).len() == m.len() + 1 + zero_count(m.len()) + 8,
{
}

fn rotate(x: u32, s: u32) -> (r: u32)
    requires
        0 < s < 32,
    ensures
        r == rotl(x, s),
{
    (x << s) | (x >> (32 - s))
}

fn hex_char(nibble: u8) -> (r: char)
    requires
        nibble < 16,
    ensures
        r == hex_digit(nibble),
{
    if nibble < 10 {
        (48u8 + nibble) as char
    } else {
        (97u8 + nibble - 10) as char
    }
}

fn pad_message(input: &[u8]) -> (r: Vec<u8>)
    requires
        input@.len() + 73 < usize::MAX,
    ensures
        r@ == padded(input@),
{
    let mut message: Vec<u8> = Vec::new();
    crate::bytes::extend_bytes(&mut message, input);
    let n = input.len();
    let bit_len = (n as u64).wrapping_mul(8);
    assert(bit_len == bit_length(input@.len())) by {
        assert(n as u64 == n);
    }
    message.push(0x80);
    let z = (56 + 64 - (n + 1) % 64) % 64;
    let mut k: usize = 0;
    while k < z
        invariant
            k <= z,
            z == zero_count(input@.len()),
            message@ == input@ + seq![0x80u8] + Seq::new(k as nat, |i: int| 0u8),
        decreases z - k,
    {
        message.push(0);
        k = k + 1;
        assert(message@ =~= input@ + seq![0x80u8] + Seq::new(k as nat, |i: int| 0u8));
    }
    let ghost before = message@;
    let mut i: u64 = 0;
    while i < 8
        invariant
            i <= 8,
            message@ == before + le_u64_bytes(bit_len).take(i as int),
        decreases 8 - i,
    {
        let sh: u64 = 8 * i;
        message.push(((bit_len >> sh) & 0xff) as u8);
        i = i + 1;
        assert(message@ =~= before + le_u64_bytes(bit_len).take(i as int));
    }
    assert(le_u64_bytes(bit_len).take(8) =~= le_u64_bytes(bit_len));
    message
}

fn chunk_words_of(p: &Vec<u8>, base: usize) -> (r: Vec<u32>)
    requires
        base + 64 <= p@.len(),
    ensures
        r@ == chunk_words(p@, base as int),
{
    let mut words: Vec<u32> = Vec::new();
    let n = p.len();
    let mut w: usize = 0;
    while w < 16
        invariant
            w <= 16,
            n == p@.len(),
            base + 64 <= n,
            words@ == chunk_words(p@, base as int).take(w as int),
        decreases 16 - w,
    {
        let at = base + 4 * w;
        let word: u32 = (p[at] as u32) | ((p[at + 1] as u32) << 8u32) | ((p[at + 2] as u32) << 16u32)
            | ((p[at + 3] as u32) << 24u32);
        words.push(word);
        w = w + 1;
        assert(words@ =~= chunk_words(p@, base as int).take(w as int));
    }
    assert(chunk_words(p@, base as int).take(16) =~= chunk_words(p@, base as int));
    words
}

fn shifts() -> (r: Vec<u32>)
    ensures
        r@ == shift_table(),
{
    let r: Vec<u32> = vec![
        7, 12, 17, 22, 7, 12, 17, 22, 7, 12, 17, 22, 7, 12, 17, 22, 5, 9, 14, 20, 5, 9, 14, 20, 5,
        9, 14, 20, 5, 9, 14, 20, 4, 11, 16, 23, 4, 11, 16, 23, 4, 11, 16, 23, 4, 11, 16, 23, 6, 10,
        15, 21, 6, 10, 15, 21, 6, 10, 15, 21, 6, 10, 15, 21,
    ];
    assert(r@ =~= shift_table());
    r
}

fn constants() -> (r: Vec<u32>)
    ensures
        r@ == constant_table(),
{
    let r: Vec<u32> = vec![
        0xd76aa478, 0xe8c7b756, 0x242070db, 0xc1bdceee, 0xf57c0faf, 0x4787c62a, 0xa8304613,
        0xfd469501, 0x698098d8, 0x8b44f7af, 0xffff5bb1, 0x895cd7be, 0x6b901122, 0xfd987193,
        0xa679438e, 0x49b40821, 0xf61e2562, 0xc040b340, 0x265e5a51, 0xe9b6c7aa, 0xd62f105d,
        0x02441453, 0xd8a1e681, 0xe7d3fbc8, 0x21e1cde6, 0xc33707d6, 0xf4d50d87, 0x455a14ed,
        0xa9e3e905, 0xfcefa3f8, 0x676f02d9, 0x8d2a4c8a, 0xfffa3942, 0x8771f681, 0x6d9d6122,
        0xfde5380c, 0xa4beea44, 0x4bdecfa9, 0xf6bb4b60, 0xbebfbc70, 0x289b7ec6, 0xeaa127fa,
        0xd4ef3085, 0x04881d05, 0xd9d4d039, 0xe6db99e5, 0x1fa27cf8, 0xc4ac5665, 0xf4292244,
        0x432aff97, 0xab9423a7, 0xfc93a039, 0x655b59c3, 0x8f0ccc92, 0xffeff47d, 0x85845dd1,
        0x6fa87e4f, 0xfe2ce6e0, 0xa3014314, 0x4e0811a1, 0xf7537e82, 0xbd3af235, 0x2ad7d2bb,
        0xeb86d391,
    ];
    assert(r@ =~= constant_table());
    r
}

fn process_chunk(st: (u32, u32, u32, u32), words: &Vec<u32>, s: &Vec<u32>, k: &Vec<u32>) -> (r: (
    u32,
    u32,
    u32,
    u32,
))
    requires
        words@.len() == 16,
        s@ == shift_table(),
        k@ == constant_table(),
    ensures
        r == chunk_step(st, words@),
{
    let (mut a, mut b, mut c, mut d) = st;
    let mut i: usize = 0;
    while i < 64
        invariant
            i <= 64,
            words@.len() == 16,
            s@ == shift_table(),
            k@ == constant_table(),
            (a, b, c, d) == rounds(st, words@, i as int),
        decreases 64 - i,
    {
        let (f, g): (u32, usize) = if i < 16 {
            ((b & c) | ((!b) & d), i)
        } else if i < 32 {
            ((d & b) | ((!d) & c), (5 * i + 1) % 16)
        } else if i < 48 {
            (b ^ c ^ d, (3 * i + 5) % 16)
        } else {
            (c ^ (b | (!d)), (7 * i) % 16)
        };
        assert((f, g as int) == round_fg(b, c, d, i as int));
        assert(0 < shift_table()[i as int] < 32);
        let x = a.wrapping_add(f).wrapping_add(k[i]).wrapping_add(words[g]);
        let next = d;
        d = c;
        c = b;
        b = b.wrapping_add(rotate(x, s[i]));
        a = next;
        i = i + 1;
    }
    (st.0.wrapping_add(a), st.1.wrapping_add(b), st.2.wrapping_add(c), st.3.wrapping_add(d))
}

fn push_le_u32(out: &mut Vec<u8>, x: u32)
    ensures
        final(out)@ == old(out)@ + le_u32_bytes(x),
{
    let ghost before = out@;
    let mut i: u32 = 0;
    while i < 4
        invariant
            i <= 4,
            out@ == before + le_u32_bytes(x).take(i as int),
        decreases 4 - i,
    {
        let sh: u32 = 8 * i;
        out.push(((x >> sh) & 0xff) as u8);
        i = i + 1;
        assert(out@ =~= before + le_u32_bytes(x).take(i as int));
    }
    assert(le_u32_bytes(x).take(4) =~= le_u32_bytes(x));
}

/// The MD5 digest of `input`.
pub(crate) fn md5_digest(input: &[u8]) -> (r: Vec<u8>)
    requires
        input@.len() + 73 < usize::MAX,
    ensures
        r@ == md5_spec(input@),
{
    let message = pad_message(input);
    proof {
        lemma_padded_len(input@);
    }
    let s = shifts();
    let k = constants();
    let n_chunks = message.len() / 64;
    let mut st: (u32, u32, u32, u32) = (0x67452301, 0xefcdab89, 0x98badcfe, 0x10325476);
    let mut j: usize = 0;
    while j < n_chunks
        invariant
            j <= n_chunks,
            n_chunks == message@.len() / 64,
            message@ == padded(input@),
            s@ == shift_table(),
            k@ == constant_table(),
            st == chunks_state(message@, j as int),
        decreases n_chunks - j,
    {
        let words = chunk_words_of(&message, 64 * j);
        st = process_chunk(st, &words, &s, &k);
        j = j + 1;
    }
    let mut out: Vec<u8> = Vec::new();
    push_le_u32(&mut out, st.0);
    push_le_u32(&mut out, st.1);
    push_le_u32(&mut out, st.2);
    push_le_u32(&mut out, st.3);
    assert(out@ =~= le_u32_bytes(st.0) + le_u32_bytes(st.1) + le_u32_bytes(st.2) + le_u32_bytes(
        st.3,
    ));
    out
}

/// Two lower-case hexadecimal digits per byte.
pub fn hex_string(b: &[u8]) -> (r: String)
    ensures
        r@ == hex_spec(b@),
{
    let mut i: usize = 0;
    let mut chars: Vec<char> = Vec::new();
    assert(b@.skip(0) =~= b@);
    assert(chars@ + hex_spec(b@) =~= hex_spec(b@));
    while i < b.len()
        invariant
            i <= b@.len(),
            hex_spec(b@) == chars@ + hex_spec(b@.skip(i as int)),
        decreases b.len() - i,
    {
        assert(b@.skip(i as int).drop_first() =~= b@.skip(i + 1));
        assert(b@.skip(i as int)[0] == b@[i as int]);
        let byte = b[i];
        assert(byte >> 4u8 < 16) by (bit_vector);
        assert(byte & 0x0fu8 < 16) by (bit_vector);
        chars.push(hex_char(byte >> 4));
        chars.push(hex_char(byte & 0x0f));
        i = i + 1;
        assert(hex_spec(b@) =~= chars@ + hex_spec(b@.skip(i as int)));
    }
    assert(hex_spec(b@.skip(i as int)) =~= Seq::<char>::empty());
    assert(chars@ =~= hex_spec(b@));
    crate::text::string_from_chars(chars.as_slice())
}

/// The MD5 digest of `input` in lower-case hexadecimal.
pub(crate) fn md5_hex(input: &[u8]) -> (r: String)
    requires
        input@.len() + 73 < usize::MAX,
    ensures
        r@ == md5_hex_spec(input@),
{
    let digest = md5_digest(input);
    hex_string(digest.as_slice())
}

} // verus!
