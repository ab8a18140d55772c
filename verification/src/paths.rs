//! File-name rules: lower-cased extensions and the engine cache name.
use vstd::prelude::*;
use crate::text::{ascii_lower, to_ascii_lowercase};

verus! {

/// Index of the last `c` in `s`, or -1 when there is none.
pub open spec fn last_index_of(s: Seq<char>, c: char) -> int
    decreases s.len(),
{
    if s.len() == 0 {
        -1
    } else if s.last() == c {
        s.len() - 1
    } else {
        last_index_of(s.drop_last(), c)
    }
}

pub proof fn lemma_last_index_of(s: Seq<char>, c: char)
    ensures
        -1 <= last_index_of(s, c) < s.len(),
        last_index_of(s, c) >= 0 ==> s[last_index_of(s, c)] == c,
        forall|j: int| last_index_of(s, c) < j < s.len() ==> s[j] != c,
    decreases s.len(),
{
    if s.len() > 0 && s.last() != c {
        lemma_last_index_of(s.drop_last(), c);
        assert forall|j: int| last_index_of(s, c) < j < s.len() implies s[j] != c by {
            if j < s.len() - 1 {
                assert(s[j] == s.drop_last()[j]);
            }
        }
    }
}

/// Whether a character is an ASCII letter.
pub open spec fn is_ascii_letter(c: char) -> bool {
    ('a' <= c && c <= 'z') || ('A' <= c && c <= 'Z')
}

/// A path that std's `Path` splits the same way on every platform: it holds
/// no `\` (a separator on Windows only), does not start with `//` (a UNC or
/// device prefix on Windows) and does not start with a letter and `:` (a
/// drive prefix on Windows). Such a path is a sequence of components
/// separated by `/`.
pub open spec fn portable_path(p: Seq<char>) -> bool {
    &&& !p.contains('\\')
    &&& !(p.len() >= 2 && p[0] == '/' && p[1] == '/')
    &&& !(p.len() >= 2 && is_ascii_letter(p[0]) && p[1] == ':')
}

/// The file name of a `/`-separated path, as std's `Path::file_name`
/// documents it: the last component, once empty components and `.`
/// components are dropped; none when there is no component left or the last
/// one is `..`.
pub open spec fn file_name_of(p: Seq<char>) -> Option<Seq<char>>
    decreases p.len(),
{
    let i = last_index_of(p, '/');
    proof {
        lemma_last_index_of(p, '/');
    }
    let seg = p.skip(i + 1);
    if seg.len() == 0 || seg == seq!['.'] {
        if i < 0 {
            None
        } else {
            file_name_of(p.take(i))
        }
    } else if seg == seq!['.', '.'] {
        None
    } else {
        Some(seg)
    }
}

/// The extension of a file name, as the std documentation of
/// `Path::extension` describes it: the part after the final `.`, unless the
/// name has no `.` or its only `.` is its first character.
pub open spec fn extension_of(name: Seq<char>) -> Option<Seq<char>> {
    let i = last_index_of(name, '.');
    if i > 0 {
        Some(name.skip(i + 1))
    } else {
        None
    }
}

/// The stem of a file name, as the std documentation of `Path::file_stem`
/// describes it: the whole name if it has no `.` or its only `.` is its
/// first character, otherwise the part before the final `.`.
pub open spec fn stem_of(name: Seq<char>) -> Seq<char> {
    let i = last_index_of(name, '.');
    if i > 0 {
        name.take(i)
    } else {
        name
    }
}

/// The extension of the file named by a `/`-separated path.
pub open spec fn path_extension(p: Seq<char>) -> Option<Seq<char>> {
    match file_name_of(p) {
        Some(n) => extension_of(n),
        None => None,
    }
}

/// The stem of the file named by a `/`-separated path.
pub open spec fn path_stem(p: Seq<char>) -> Option<Seq<char>> {
    match file_name_of(p) {
        Some(n) => Some(stem_of(n)),
        None => None,
    }
}

/// Whether `c` ends a name on some platform: `/` everywhere, `\\` and the
/// `:` of a drive prefix on Windows.
pub open spec fn is_name_break(c: char) -> bool {
    c == '/' || c == '\\' || c == ':'
}

/// Index of the last name break in `s`, or -1 when there is none.
pub open spec fn last_break(s: Seq<char>) -> int
    decreases s.len(),
{
    if s.len() == 0 {
        -1
    } else if is_name_break(s.last()) {
        s.len() - 1
    } else {
        last_break(s.drop_last())
    }
}

/// What follows the last name break of `p` (all of `p` when it has none).
pub open spec fn name_tail(p: Seq<char>) -> Seq<char> {
    p.skip(last_break(p) + 1)
}

/// Whether `p` starts with two separators (`/` or `\\`), which Windows reads
/// as a UNC, verbatim or device prefix.
pub open spec fn starts_with_two_separators(p: Seq<char>) -> bool {
    p.len() >= 2 && (p[0] == '/' || p[0] == '\\') && (p[1] == '/' || p[1] == '\\')
}

/// A path whose last part, after its last `/`, `\\` or `:`, holds a `.`
/// after its first character and is not `..`, and which does not start with
/// two separators. Every platform takes that last part for the file name,
/// or for the end of it, so the extension is what follows its last `.`.
pub open spec fn dotted_tail(p: Seq<char>) -> bool {
    &&& !starts_with_two_separators(p)
    &&& name_tail(p) != seq!['.', '.']
    &&& last_index_of(name_tail(p), '.') > 0
}

proof fn lemma_last_break(s: Seq<char>)
    ensures
        -1 <= last_break(s) < s.len(),
        last_break(s) >= 0 ==> is_name_break(s[last_break(s)]),
        forall|j: int| last_break(s) < j < s.len() ==> !is_name_break(s[j]),
    decreases s.len(),
{
    if s.len() > 0 && !is_name_break(s.last()) {
        lemma_last_break(s.drop_last());
        assert forall|j: int| last_break(s) < j < s.len() implies !is_name_break(s[j]) by {
            if j < s.len() - 1 {
                assert(s[j] == s.drop_last()[j]);
            }
        }
    }
}

/// The last `c` of a suffix of `s` is the last `c` of `s`, shifted.
proof fn lemma_last_index_of_suffix(s: Seq<char>, k: int, c: char)
    requires
        0 <= k <= s.len(),
        last_index_of(s.skip(k), c) >= 0,
    ensures
        last_index_of(s, c) == k + last_index_of(s.skip(k), c),
{
    let t = s.skip(k);
    let j = last_index_of(t, c);
    lemma_last_index_of(t, c);
    lemma_last_index_of(s, c);
    let l = last_index_of(s, c);
    assert(s[k + j] == t[j]);
    if l > k + j {
        assert(t[l - k] == s[l]);
    }
}

/// For a path with a dotted tail, the `/`-separated reading of the path
/// finds the same extension as the part after the last `/`, `\\` or `:`.
pub proof fn lemma_dotted_tail_extension(p: Seq<char>)
    requires
        dotted_tail(p),
    ensures
        path_extension(p) == extension_of(name_tail(p)),
        extension_of(name_tail(p)) is Some,
{
    let b = last_break(p);
    let i = last_index_of(p, '/');
    lemma_last_break(p);
    lemma_last_index_of(p, '/');
    if i > b {
        assert(is_name_break(p[i]));
    }
    let seg = p.skip(i + 1);
    let tail = name_tail(p);
    assert(tail =~= seg.skip(b - i));
    let lt = last_index_of(tail, '.');
    lemma_last_index_of(tail, '.');
    lemma_last_index_of_suffix(seg, b - i, '.');
    assert(seg.len() >= 2);
    if seg == seq!['.', '.'] {
        assert(b - i == 0);
        assert(tail =~= seg);
    }
    assert(seg != seq!['.']) by {
        if seg == seq!['.'] {
            assert(seg.len() == 1);
        }
    }
    assert(file_name_of(p) == Some(seg));
    assert(seg.skip(last_index_of(seg, '.') + 1) =~= tail.skip(lt + 1));
}

pub open spec fn opt_chars(r: Option<String>) -> Option<Seq<char>> {
    match r {
        Some(s) => Some(s@),
        None => None,
    }
}

/// `std::path::Path::extension` of `path`, kept when it is valid UTF-8.
/// The contract claims what the std documentation promises: the extension is
/// the part of the file name after its final `.`, so it holds no `.`; and,
/// for a path that every platform splits at `/` alone (`portable_path`), the
/// extension is `path_extension` of it (always valid UTF-8, as the path is a
/// `str`). For any path with a `dotted_tail`, on Unix (where `\\` and `:` are
/// ordinary characters) and on Windows (where they end a prefix or a
/// component) alike, the extension is what follows the last `.` of the part
/// after the last `/`, `\\` or `:`. For other paths, whose reading depends on
/// the platform's path syntax, it is not stated which extension is found.
#[verifier::external_body]
fn raw_extension(path: &str) -> (r: Option<String>)
    ensures
        r matches Some(e) ==> !e@.contains('.'),
        portable_path(path@) ==> opt_chars(r) == path_extension(path@),
        dotted_tail(path@) ==> opt_chars(r) == extension_of(name_tail(path@)),
{
    std::path::Path::new(path).extension().and_then(|e| e.to_str()).map(|e| e.to_owned())
}

/// `std::path::Path::file_stem` of `path`, kept when it is valid UTF-8.
/// The contract claims what the std documentation promises for a path that
/// every platform splits at `/` alone (`portable_path`): the stem is
/// `path_stem` of it (always valid UTF-8, as the path is a `str`). For other
/// paths, whose reading depends on the platform's path syntax, nothing is
/// stated.
#[verifier::external_body]
fn raw_file_stem(path: &str) -> (r: Option<String>)
    ensures
        portable_path(path@) ==> opt_chars(r) == path_stem(path@),
{
    std::path::Path::new(path).file_stem().and_then(|s| s.to_str()).map(|s| s.to_owned())
}

/// Lower-cases an extension, if there is one.
pub fn lowercase_extension(raw: Option<&str>) -> (r: Option<String>)
    ensures
        raw is None ==> r is None,
        raw matches Some(e) ==> r matches Some(l) && l@ == ascii_lower(e@),
{
    match raw {
        None => None,
        Some(e) => Some(to_ascii_lowercase(e)),
    }
}

/// The extension of `path` in ASCII lower case, or `None` when the path has
/// no extension or it is not valid UTF-8.
pub fn extension(path: &str) -> (r: Option<String>)
    ensures
        r matches Some(l) ==> !l@.contains('.') && l@ == ascii_lower(l@),
        portable_path(path@) ==> match path_extension(path@) {
            Some(e) => r matches Some(l) && l@ == ascii_lower(e),
            None => r is None,
        },
        dotted_tail(path@) ==> (r matches Some(l) && l@ == ascii_lower(
            name_tail(path@).skip(last_index_of(name_tail(path@), '.') + 1),
        )),
{
    let raw = raw_extension(path);
    match raw {
        None => None,
        Some(e) => {
            let l = to_ascii_lowercase(e.as_str());
            proof {
                lemma_ascii_lower_keeps_dots(e@);
                lemma_ascii_lower_idempotent(e@);
            }
            Some(l)
        },
    }
}

proof fn lemma_ascii_lower_keeps_dots(s: Seq<char>)
    ensures
        s.contains('.') == ascii_lower(s).contains('.'),
{
    if s.contains('.') {
        let i = choose|i: int| 0 <= i < s.len() && s[i] == '.';
        assert(ascii_lower(s)[i] == '.');
    }
    if ascii_lower(s).contains('.') {
        let i = choose|i: int| 0 <= i < ascii_lower(s).len() && ascii_lower(s)[i] == '.';
        assert(s[i] == '.');
    }
}

/// Lower-casing twice is lower-casing once.
pub proof fn lemma_ascii_lower_idempotent(s: Seq<char>)
    ensures
        ascii_lower(ascii_lower(s)) == ascii_lower(s),
{
    assert(ascii_lower(ascii_lower(s)) =~= ascii_lower(s));
}

/// The suffix of every cached engine file name.
pub open spec fn engine_suffix() -> Seq<char> {
    seq!['.', 't', 'r', 't', '1', '1', '.', 'e', 'n', 'g', 'i', 'n', 'e']
}

/// The stem used when the model path has none.
pub open spec fn default_stem() -> Seq<char> {
    seq!['m', 'o', 'd', 'e', 'l']
}

/// The cache file name for a model with the given file stem:
/// the stem (or `model`) followed by `.trt11.engine`.
pub fn engine_file_name(stem: Option<&str>) -> (r: String)
    ensures
        r@ == match stem {
            Some(s) => s@,
            None => default_stem(),
        } + engine_suffix(),
{
    let mut name = match stem {
        Some(s) => String::from_str(s),
        None => String::from_str("model"),
    };
    proof {
        reveal_strlit("model");
        reveal_strlit(".trt11.engine");
    }
    name.append(".trt11.engine");
    name
}

/// The cache file name for the model at path `p`: the stem of its file
/// name, or `model` when it has none, followed by `.trt11.engine`.
pub open spec fn engine_name_of(p: Seq<char>) -> Seq<char> {
    let stem = match path_stem(p) {
        Some(s) => s,
        None => default_stem(),
    };
    stem + engine_suffix()
}

/// The file name of a path holds no `/`.
proof fn lemma_file_name_has_no_slash(p: Seq<char>)
    ensures
        file_name_of(p) matches Some(n) ==> !n.contains('/'),
    decreases p.len(),
{
    let i = last_index_of(p, '/');
    lemma_last_index_of(p, '/');
    let seg = p.skip(i + 1);
    if seg.len() == 0 || seg == seq!['.'] {
        if i >= 0 {
            lemma_file_name_has_no_slash(p.take(i));
        }
    } else if seg.contains('/') {
        let j = choose|j: int| 0 <= j < seg.len() && seg[j] == '/';
        assert(p[i + 1 + j] == '/');
    }
}

/// The stem of a file name holds no `/` when the name holds none.
proof fn lemma_stem_has_no_slash(n: Seq<char>)
    requires
        !n.contains('/'),
    ensures
        !stem_of(n).contains('/'),
{
    let st = stem_of(n);
    if st.contains('/') {
        let j = choose|j: int| 0 <= j < st.len() && st[j] == '/';
        lemma_last_index_of(n, '.');
        assert(n[j] == '/');
    }
}

/// The stem used in the engine name of a path holds no `/`.
proof fn lemma_engine_stem_has_no_slash(p: Seq<char>)
    ensures
        !(match path_stem(p) {
            Some(s) => s,
            None => default_stem(),
        }).contains('/'),
{
    assert(!default_stem().contains('/')) by {
        if default_stem().contains('/') {
            let i = choose|i: int| 0 <= i < 5 && default_stem()[i] == '/';
            assert(false);
        }
    }
    lemma_file_name_has_no_slash(p);
    match file_name_of(p) {
        Some(n) => lemma_stem_has_no_slash(n),
        None => {},
    }
}

/// Models whose paths name the same file share their engine cache file.
pub proof fn lemma_engine_name_by_file_name(p: Seq<char>, q: Seq<char>)
    requires
        file_name_of(p) == file_name_of(q),
    ensures
        engine_name_of(p) == engine_name_of(q),
{
}

/// The cache file name of the TensorRT engine built from the model at
/// `model`. It always ends with `.trt11.engine`; for a path that every
/// platform splits at `/` alone, it is the stem of the model's file name (or
/// `model`) followed by that suffix, and so holds no `/`.
pub fn engine_name(model: &str) -> (r: String)
    ensures
        r@.len() >= engine_suffix().len(),
        r@.subrange(r@.len() - engine_suffix().len(), r@.len() as int) == engine_suffix(),
        portable_path(model@) ==> r@ == engine_name_of(model@),
        portable_path(model@) ==> !r@.take(r@.len() - engine_suffix().len()).contains('/'),
{
    let stem = raw_file_stem(model);
    let r = match &stem {
        Some(s) => engine_file_name(Some(s.as_str())),
        None => engine_file_name(None),
    };
    proof {
        let p = r@.len() - engine_suffix().len();
        assert(r@.subrange(p, r@.len() as int) =~= engine_suffix());
        let chosen = match stem {
            Some(s) => s@,
            None => default_stem(),
        };
        assert(r@.take(p) =~= chosen);
        if portable_path(model@) {
            lemma_engine_stem_has_no_slash(model@);
        }
    }
    r
}

} // verus!
