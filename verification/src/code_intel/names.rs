use vstd::prelude::*;

use crate::text::{
    chars_of, contains, contains_seq, ends_with, ends_with_seq, lower_char, push_char, push_str,
    rsplit_once_char, rsplit_once_spec, split_char, split_spec, str_eq, substring,
    to_ascii_lowercase, to_ascii_lowercase_spec, to_lower_char, to_upper_char, upper_char, views,
};
use crate::words::{trim_end_char, trim_end_char_spec, trim_start_char, trim_start_char_spec};

verus! {

/// `c` is an ASCII letter or digit.
pub open spec fn ascii_alnum(c: char) -> bool {
    ('a' <= c <= 'z') || ('A' <= c <= 'Z') || ('0' <= c <= '9')
}

/// Whether `c` is an ASCII letter or digit.
pub fn is_ascii_alnum(c: char) -> (r: bool)
    ensures
        r == ascii_alnum(c),
{
    ('a' <= c && c <= 'z') || ('A' <= c && c <= 'Z') || ('0' <= c && c <= '9')
}

// ---------------------------------------------------------------------------
// Slugs
// ---------------------------------------------------------------------------

/// Letters and digits of `s` in lower case, each run of other characters one `-`.
pub open spec fn slug_raw(s: Seq<char>) -> Seq<char>
    decreases s.len(),
{
    if s.len() == 0 {
        Seq::empty()
    } else {
        let p = slug_raw(s.drop_last());
        let c = s.last();
        if ascii_alnum(c) {
            p.push(lower_char(c))
        } else if p.len() > 0 && p.last() == '-' {
            p
        } else {
            p.push('-')
        }
    }
}

/// The hash that `std`'s `DefaultHasher`, made by `new`, gives a string slice.
pub uninterp spec fn default_hash(value: Seq<char>) -> u64;

/// Hashes a string slice with a fresh `std::hash::DefaultHasher` (through
/// `BuildHasher::hash_one`). That hasher is made with fixed keys, never seeded per process,
/// so the result is named as a function of the text.
#[verifier::external_body]
pub(crate) fn str_default_hash(value: &str) -> (r: u64)
    ensures
        r == default_hash(value@),
{
    std::hash::BuildHasher::hash_one(
        &std::hash::BuildHasherDefault::<std::hash::DefaultHasher>::default(),
        value,
    )
}

/// The lower-case hexadecimal digit for `d < 16`.
pub open spec fn hex_digit(d: u64) -> char {
    if d < 10 {
        ((48 + d) as u8) as char
    } else {
        ((87 + d) as u8) as char
    }
}

/// The last `k` hexadecimal digits of `n`, most significant first.
pub open spec fn hex_digits(n: u64, k: nat) -> Seq<char>
    decreases k,
{
    if k == 0 {
        Seq::empty()
    } else {
        hex_digits(n / 16, (k - 1) as nat).push(hex_digit(n % 16))
    }
}

pub(crate) fn hex_digits_exec(n: u64, k: usize) -> (r: String)
    ensures
        r@ == hex_digits(n, k as nat),
    decreases k,
{
    if k == 0 {
        String::new()
    } else {
        let mut s = hex_digits_exec(n / 16, k - 1);
        let d = n % 16;
        let c = if d < 10 {
            ((48 + d) as u8) as char
        } else {
            ((87 + d) as u8) as char
        };
        push_char(&mut s, c);
        s
    }
}

/// The slug of a text without letters or digits, from its hash: `item-` and the hash's 16
/// hexadecimal digits.
pub fn hash_slug(hash: u64) -> (r: String)
    ensures
        r@ == "item-"@ + hex_digits(hash, 16),
{
    let mut out = String::new();
    push_str(&mut out, "item-");
    let h = hex_digits_exec(hash, 16);
    push_str(&mut out, h.as_str());
    out
}

/// The slug of a text: its letters and digits in lower case, other runs as one `-`, no `-`
/// at either end, at most 96 characters; a text with no letter or digit gets `item-` and the
/// 16 hexadecimal digits of its hash.
pub open spec fn slug_spec(s: Seq<char>) -> Seq<char> {
    let t = trim_end_char_spec(trim_start_char_spec(slug_raw(s), '-'), '-');
    if t.len() == 0 {
        "item-"@ + hex_digits(default_hash(s), 16)
    } else if t.len() <= 96 {
        t
    } else {
        t.take(96)
    }
}

/// The letters and digits of a text in lower case, each other run one `-`, with no `-` at
/// either end.
pub open spec fn slug_trimmed_spec(s: Seq<char>) -> Seq<char> {
    trim_end_char_spec(trim_start_char_spec(slug_raw(s), '-'), '-')
}

/// The trimmed slug text of `value`, as `slug_trimmed_spec` states it.
pub fn slug_trimmed(value: &str) -> (r: String)
    ensures
        r@ == slug_trimmed_spec(value@),
{
    let cs = chars_of(value);
    let mut raw = String::new();
    let mut dash = false;
    let mut i: usize = 0;
    while i < cs.len()
        invariant
            cs@ == value@,
            i <= cs.len(),
            raw@ == slug_raw(cs@.take(i as int)),
            dash == (raw@.len() > 0 && raw@.last() == '-'),
        decreases cs.len() - i,
    {
        let c = cs[i];
        assert(cs@.take(i + 1).drop_last() =~= cs@.take(i as int));
        if is_ascii_alnum(c) {
            push_char(&mut raw, to_lower_char(c));
            dash = false;
        } else if !dash {
            push_char(&mut raw, '-');
            dash = true;
        }
        i = i + 1;
    }
    assert(cs@.take(i as int) =~= value@);
    trim_end_char(trim_start_char(raw.as_str(), '-').as_str(), '-')
}

/// The slug of a text, as `slug_spec` states it.
pub fn slug(value: &str) -> (r: String)
    ensures
        r@ == slug_spec(value@),
{
    let t = slug_trimmed(value);
    let tc = chars_of(t.as_str());
    if tc.len() == 0 {
        hash_slug(str_default_hash(value))
    } else if tc.len() <= 96 {
        t
    } else {
        substring(tc.as_slice(), 0, 96)
    }
}

/// The short slug of a text: as `slug_spec`, but `item` for a text with no letter or digit.
pub open spec fn short_slug_spec(s: Seq<char>) -> Seq<char> {
    let t = slug_trimmed_spec(s);
    if t.len() == 0 {
        "item"@
    } else if t.len() <= 96 {
        t
    } else {
        t.take(96)
    }
}

/// The short slug of a text, as `short_slug_spec` states it.
pub fn short_slug(value: &str) -> (r: String)
    ensures
        r@ == short_slug_spec(value@),
{
    let t = slug_trimmed(value);
    let tc = chars_of(t.as_str());
    if tc.len() == 0 {
        crate::text::to_owned("item")
    } else if tc.len() <= 96 {
        t
    } else {
        substring(tc.as_slice(), 0, 96)
    }
}

/// The pascal-case state after `s`: the output so far and whether the next letter is raised.
pub open spec fn pascal_state(s: Seq<char>) -> (Seq<char>, bool)
    decreases s.len(),
{
    if s.len() == 0 {
        (Seq::empty(), true)
    } else {
        let st = pascal_state(s.drop_last());
        let c = s.last();
        if ascii_alnum(c) {
            if st.1 {
                (st.0.push(upper_char(c)), false)
            } else {
                (st.0.push(c), false)
            }
        } else {
            (st.0, true)
        }
    }
}

/// The letters and digits of a text, each first one after a start or another character
/// raised to upper case.
pub open spec fn pascal_case_spec(s: Seq<char>) -> Seq<char> {
    pascal_state(s).0
}

/// `value` in pascal case, as `pascal_case_spec` states it.
pub fn pascal_case(value: &str) -> (r: String)
    ensures
        r@ == pascal_case_spec(value@),
{
    let cs = chars_of(value);
    let mut out = String::new();
    let mut upper = true;
    let mut i: usize = 0;
    while i < cs.len()
        invariant
            cs@ == value@,
            i <= cs.len(),
            (out@, upper) == pascal_state(cs@.take(i as int)),
        decreases cs.len() - i,
    {
        let c = cs[i];
        assert(cs@.take(i + 1).drop_last() =~= cs@.take(i as int));
        if is_ascii_alnum(c) {
            if upper {
                push_char(&mut out, to_upper_char(c));
                upper = false;
            } else {
                push_char(&mut out, c);
            }
        } else {
            upper = true;
        }
        i = i + 1;
    }
    assert(cs@.take(i as int) =~= value@);
    out
}

// ---------------------------------------------------------------------------
// Names made of others
// ---------------------------------------------------------------------------

/// `a`, `b` and `c` one after another.
fn join3(a: &str, b: &str, c: &str) -> (r: String)
    ensures
        r@ == a@ + b@ + c@,
{
    let mut out = String::new();
    push_str(&mut out, a);
    push_str(&mut out, b);
    push_str(&mut out, c);
    out
}

/// The name of a file of a repository.
pub open spec fn file_uri_spec(repo_uri: Seq<char>, path: Seq<char>) -> Seq<char> {
    repo_uri + "/file/"@ + slug_spec(path)
}

/// The name of a file of a repository: the repository's name, `/file/` and the path's slug.
pub fn file_uri(repo_uri: &str, path_text: &str) -> (r: String)
    ensures
        r@ == file_uri_spec(repo_uri@, path_text@),
{
    let s = slug(path_text);
    join3(repo_uri, "/file/", s.as_str())
}

/// The name of a symbol defined in a file.
pub open spec fn symbol_uri_spec(file_uri: Seq<char>, name: Seq<char>) -> Seq<char> {
    file_uri + "/symbol/"@ + slug_spec(name)
}

/// The name of a symbol defined in a file: the file's name, `/symbol/` and the slug.
pub fn symbol_uri_for_file(file_uri: &str, name: &str) -> (r: String)
    ensures
        r@ == symbol_uri_spec(file_uri@, name@),
{
    let s = slug(name);
    join3(file_uri, "/symbol/", s.as_str())
}

/// The key under which a package is kept: manager, `:`, name.
pub open spec fn package_key_spec(manager: Seq<char>, name: Seq<char>) -> Seq<char> {
    manager + ":"@ + name
}

/// The key under which a package is kept.
pub fn package_key(manager: &str, name: &str) -> (r: String)
    ensures
        r@ == package_key_spec(manager@, name@),
{
    join3(manager, ":", name)
}

// ---------------------------------------------------------------------------
// Paths
// ---------------------------------------------------------------------------

/// The last of `parts[..n]` that is neither empty nor `.`.
pub open spec fn last_component(parts: Seq<Seq<char>>, n: int) -> Option<Seq<char>>
    decreases n,
{
    if n <= 0 || n > parts.len() {
        None
    } else if parts[n - 1].len() > 0 && parts[n - 1] != "."@ {
        Some(parts[n - 1])
    } else {
        last_component(parts, n - 1)
    }
}

/// The file name of a `/`-separated path, as `Path::file_name` gives it.
pub open spec fn file_name_spec(path: Seq<char>) -> Option<Seq<char>> {
    let parts = split_spec(path, '/');
    match last_component(parts, parts.len() as int) {
        Some(c) => if c == ".."@ {
            None
        } else {
            Some(c)
        },
        None => None,
    }
}

/// The extension of a path, as `Path::extension` gives it: what follows the last `.` of
/// the file name, unless that `.` starts the name.
pub open spec fn extension_spec(path: Seq<char>) -> Option<Seq<char>> {
    match file_name_spec(path) {
        Some(name) => match rsplit_once_spec(name, '.') {
            Some((before, after)) => if before.len() == 0 {
                None
            } else {
                Some(after)
            },
            None => None,
        },
        None => None,
    }
}

/// The extension of a path, as `extension_spec` states it.
pub fn path_extension(path: &str) -> (r: Option<String>)
    ensures
        match extension_spec(path@) {
            Some(e) => r matches Some(x) && x@ == e,
            None => r is None,
        },
{
    let parts = split_char(path, '/');
    let ghost ps = views(parts@);
    let mut n = parts.len();
    while n > 0 && (parts[n - 1].unicode_len() == 0 || str_eq(parts[n - 1].as_str(), "."))
        invariant
            ps == views(parts@),
            n <= parts@.len(),
            last_component(ps, ps.len() as int) == last_component(ps, n as int),
        decreases n,
    {
        n = n - 1;
    }
    if n == 0 {
        return None;
    }
    let name = parts[n - 1].as_str();
    if str_eq(name, "..") {
        return None;
    }
    match rsplit_once_char(name, '.') {
        Some((before, after)) => {
            if before.unicode_len() == 0 {
                None
            } else {
                Some(after)
            }
        },
        None => None,
    }
}

/// `e` is one of the texts of `names`.
pub open spec fn one_of(e: Seq<char>, names: Seq<Seq<char>>) -> bool {
    names.contains(e)
}

/// The extensions of JavaScript-like sources.
pub open spec fn script_extensions() -> Seq<Seq<char>> {
    seq!["js"@, "jsx"@, "ts"@, "tsx"@, "mjs"@, "cjs"@]
}

/// The path names a JavaScript or TypeScript source by its extension.
pub open spec fn is_javascript_like_spec(path: Seq<char>) -> bool {
    match extension_spec(path) {
        Some(e) => script_extensions().contains(e),
        None => false,
    }
}

/// Whether the path names a JavaScript or TypeScript source.
pub fn is_javascript_like(path: &str) -> (r: bool)
    ensures
        r == is_javascript_like_spec(path@),
{
    match path_extension(path) {
        Some(e) => {
            let e = e.as_str();
            let r = str_eq(e, "js") || str_eq(e, "jsx") || str_eq(e, "ts") || str_eq(e, "tsx")
                || str_eq(e, "mjs") || str_eq(e, "cjs");
            proof {
                let s = script_extensions();
                assert(s[0] == "js"@ && s[1] == "jsx"@ && s[2] == "ts"@ && s[3] == "tsx"@ && s[4]
                    == "mjs"@ && s[5] == "cjs"@);
                if s.contains(e@) {
                    let k = choose|k: int| 0 <= k < s.len() && s[k] == e@;
                    assert(r);
                }
            }
            r
        },
        None => false,
    }
}

/// The language named for a path by its extension.
pub open spec fn language_spec(path: Seq<char>) -> Seq<char> {
    let e = match extension_spec(path) {
        Some(e) => e,
        None => Seq::empty(),
    };
    if e == "rs"@ {
        "Rust"@
    } else if e == "js"@ || e == "mjs"@ || e == "cjs"@ {
        "JavaScript"@
    } else if e == "jsx"@ {
        "JSX"@
    } else if e == "ts"@ {
        "TypeScript"@
    } else if e == "tsx"@ {
        "TSX"@
    } else if e == "toml"@ {
        "TOML"@
    } else if e == "json"@ {
        "JSON"@
    } else if e == "md"@ {
        "Markdown"@
    } else {
        "Text"@
    }
}

/// The language of a path, as `language_spec` states it.
pub fn language_for_path(path: &str) -> (r: &'static str)
    ensures
        r@ == language_spec(path@),
{
    let e = match path_extension(path) {
        Some(e) => e,
        None => String::new(),
    };
    let e = e.as_str();
    if str_eq(e, "rs") {
        "Rust"
    } else if str_eq(e, "js") || str_eq(e, "mjs") || str_eq(e, "cjs") {
        "JavaScript"
    } else if str_eq(e, "jsx") {
        "JSX"
    } else if str_eq(e, "ts") {
        "TypeScript"
    } else if str_eq(e, "tsx") {
        "TSX"
    } else if str_eq(e, "toml") {
        "TOML"
    } else if str_eq(e, "json") {
        "JSON"
    } else if str_eq(e, "md") {
        "Markdown"
    } else {
        "Text"
    }
}

/// The path is a package manifest of the repository's root.
pub open spec fn is_manifest_path_spec(path: Seq<char>) -> bool {
    path == "Cargo.toml"@ || path == "package.json"@
}

/// Whether the path is `Cargo.toml` or `package.json`.
pub fn is_manifest_path(path: &str) -> (r: bool)
    ensures
        r == is_manifest_path_spec(path@),
{
    str_eq(path, "Cargo.toml") || str_eq(path, "package.json")
}

/// The package manager of a manifest path.
pub open spec fn manifest_manager_spec(path: Seq<char>) -> Option<Seq<char>> {
    if path == "Cargo.toml"@ {
        Some("cargo"@)
    } else if path == "package.json"@ {
        Some("npm"@)
    } else {
        None
    }
}

/// The package manager of a manifest path: `cargo`, `npm`, or none.
pub fn manifest_manager(path: &str) -> (r: Option<&'static str>)
    ensures
        match manifest_manager_spec(path@) {
            Some(m) => r matches Some(x) && x@ == m,
            None => r is None,
        },
{
    if str_eq(path, "Cargo.toml") {
        Some("cargo")
    } else if str_eq(path, "package.json") {
        Some("npm")
    } else {
        None
    }
}

/// The path names JSON data about vulnerabilities: an SBOM, a BOM, an audit or a
/// vulnerability report, by its name in lower case.
pub open spec fn is_vulnerability_data_path_spec(path: Seq<char>) -> bool {
    let lower = to_ascii_lowercase_spec(path);
    ends_with_seq(lower, ".json"@) && (contains_seq(lower, "sbom"@) || ends_with_seq(
        lower,
        "bom.json"@,
    ) || contains_seq(lower, "audit"@) || contains_seq(lower, "vulnerab"@))
}

/// Whether the path names JSON vulnerability data.
pub fn is_vulnerability_data_path(path: &str) -> (r: bool)
    ensures
        r == is_vulnerability_data_path_spec(path@),
{
    let lower = to_ascii_lowercase(path);
    let l = lower.as_str();
    ends_with(l, ".json") && (contains(l, "sbom") || ends_with(l, "bom.json") || contains(
        l,
        "audit",
    ) || contains(l, "vulnerab"))
}

/// The class of a syntax node kind that defines a symbol.
pub open spec fn rust_symbol_kind_spec(kind: Seq<char>) -> Seq<char> {
    if kind == "function_item"@ {
        "Function"@
    } else if kind == "struct_item"@ {
        "Struct"@
    } else if kind == "enum_item"@ {
        "Enum"@
    } else if kind == "trait_item"@ {
        "Trait"@
    } else if kind == "impl_item"@ {
        "Impl"@
    } else {
        "Symbol"@
    }
}

/// The class of a syntax node kind that defines a symbol.
pub fn rust_symbol_kind(kind: &str) -> (r: &'static str)
    ensures
        r@ == rust_symbol_kind_spec(kind@),
{
    if str_eq(kind, "function_item") {
        "Function"
    } else if str_eq(kind, "struct_item") {
        "Struct"
    } else if str_eq(kind, "enum_item") {
        "Enum"
    } else if str_eq(kind, "trait_item") {
        "Trait"
    } else if str_eq(kind, "impl_item") {
        "Impl"
    } else {
        "Symbol"
    }
}

} // verus!
