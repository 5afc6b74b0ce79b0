//! The key an uploaded file is stored under, and the URL it is reached at.
use vstd::prelude::*;
use vstd::string::{StrSliceExecFns, StringExecFns};
use crate::encoding::{percent_encode, url_encode};

verus! {

/// A character of the Unicode White_Space property.
pub open spec fn is_white_space(c: char) -> bool {
    let v = c as u32;
    ||| 0x9 <= v <= 0xD
    ||| v == 0x20 || v == 0x85 || v == 0xA0 || v == 0x1680
    ||| 0x2000 <= v <= 0x200A
    ||| v == 0x2028 || v == 0x2029 || v == 0x202F || v == 0x205F || v == 0x3000
}

/// The text without white space at its start.
pub open spec fn trim_start(s: Seq<char>) -> Seq<char>
    decreases s.len(),
{
    if s.len() > 0 && is_white_space(s[0]) {
        trim_start(s.drop_first())
    } else {
        s
    }
}

/// The text without white space at its end.
pub open spec fn trim_end(s: Seq<char>) -> Seq<char>
    decreases s.len(),
{
    if s.len() > 0 && is_white_space(s.last()) {
        trim_end(s.drop_last())
    } else {
        s
    }
}

/// The text left once leading and trailing white space is cut off.
pub open spec fn trimmed(s: Seq<char>) -> Seq<char> {
    trim_end(trim_start(s))
}

/// A path that is one plain name: not empty, not `.` or `..`, and with no
/// character that some platform reads as a separator or a drive prefix.
pub open spec fn is_bare_name(p: Seq<char>) -> bool {
    &&& p.len() > 0
    &&& p != seq!['.']
    &&& p != seq!['.', '.']
    &&& forall|i: int| 0 <= i < p.len() ==> #[trigger] p[i] != '/' && p[i] != '\\' && p[i] != ':'
}

/// The text after the last `/` of a path (all of it where there is none).
pub open spec fn last_slash_part(p: Seq<char>) -> Seq<char>
    decreases p.len(),
{
    if p.len() == 0 {
        p
    } else if p.last() == '/' {
        seq![]
    } else {
        last_slash_part(p.drop_last()).push(p.last())
    }
}

/// A path whose parts are separated by `/` alone, read the same way on every
/// platform: no `\` or `:`, no leading `//`, and a plain name after the
/// last `/`.
pub open spec fn slash_path(p: Seq<char>) -> bool {
    &&& forall|i: int| 0 <= i < p.len() ==> #[trigger] p[i] != '\\' && p[i] != ':'
    &&& !(p.len() >= 2 && p[0] == '/' && p[1] == '/')
    &&& is_bare_name(last_slash_part(p))
}

/// What holds of the key of a file on every platform: a path of `/`-separated
/// parts gets the name after its last `/`, a plain name is its own key, an
/// empty path gets the fallback, and a key is never empty and holds no `/`.
pub open spec fn key_fits(path: Seq<char>, key: Seq<char>) -> bool {
    &&& slash_path(path) ==> key == last_slash_part(path)
    &&& is_bare_name(path) ==> key == path
    &&& path.len() == 0 ==> key == fallback_key()
    &&& key.len() > 0
    &&& forall|i: int| 0 <= i < key.len() ==> #[trigger] key[i] != '/'
}

fn white_space(c: char) -> (r: bool)
    ensures
        r == is_white_space(c),
{
    let v = c as u32;
    (0x9 <= v && v <= 0xD) || v == 0x20 || v == 0x85 || v == 0xA0 || v == 0x1680 || (0x2000 <= v
        && v <= 0x200A) || v == 0x2028 || v == 0x2029 || v == 0x202F || v == 0x205F || v == 0x3000
}

/// The text without leading and trailing Unicode white space.
pub fn trim_text(s: &str) -> (r: String)
    ensures
        r@ == trimmed(s@),
{
    let n = s.unicode_len();
    let mut start: usize = 0;
    assert(s@.subrange(0, n as int) =~= s@);
    while start < n && white_space(s.get_char(start))
        invariant
            start <= n == s@.len(),
            trim_start(s@) == trim_start(s@.subrange(start as int, n as int)),
        decreases n - start,
    {
        assert(s@.subrange(start as int, n as int).drop_first() =~= s@.subrange(
            start + 1,
            n as int,
        ));
        start = start + 1;
    }
    let mut end: usize = n;
    assert(s@.subrange(start as int, n as int).subrange(0, (n - start) as int) =~= s@.subrange(
        start as int,
        n as int,
    ));
    while end > start && white_space(s.get_char(end - 1))
        invariant
            start <= end <= n == s@.len(),
            trim_start(s@) == s@.subrange(start as int, n as int),
            trimmed(s@) == trim_end(s@.subrange(start as int, end as int)),
        decreases end,
    {
        assert(s@.subrange(start as int, end as int).drop_last() =~= s@.subrange(
            start as int,
            end - 1,
        ));
        end = end - 1;
    }
    String::from_str(s.substring_char(start, end))
}

/// Relies on `Path::file_name`: the last component of a path, where there is
/// one. What counts as a separator or a prefix depends on the platform, so
/// only what holds on all of them is stated: every platform splits on `/`,
/// so a path of `/`-separated parts ends in the name after its last `/`; a
/// plain name is its own last component; the empty path has none; and a
/// component is never empty and holds no `/`.
#[verifier::external_body]
fn path_file_name(path: &str) -> (r: Option<String>)
    ensures
        slash_path(path@) ==> r is Some && r->0@ == last_slash_part(path@),
        is_bare_name(path@) ==> r is Some && r->0@ == path@,
        path@.len() == 0 ==> r is None,
        r is Some ==> r->0@.len() > 0,
        r is Some ==> forall|i: int| 0 <= i < r->0@.len() ==> #[trigger] r->0@[i] != '/',
{
    std::path::Path::new(path).file_name().and_then(|n| n.to_str()).map(|n| n.to_string())
}

/// The text without any `/` at its end.
pub open spec fn strip_trailing_slashes(s: Seq<char>) -> Seq<char>
    decreases s.len(),
{
    if s.len() > 0 && s.last() == '/' {
        strip_trailing_slashes(s.drop_last())
    } else {
        s
    }
}

/// The key used when a path has no final component.
pub open spec fn fallback_key() -> Seq<char> {
    seq!['u', 'n', 'k', 'n', 'o', 'w', 'n', '_', 'f', 'i', 'l', 'e']
}

/// The key of an object, from the file name of its path if there is one.
pub open spec fn key_of(file_name: Option<Seq<char>>) -> Seq<char> {
    match file_name {
        Some(n) => n,
        None => fallback_key(),
    }
}

/// The public URL of an object: the endpoint trimmed and without trailing
/// slashes, the bucket, and the percent-encoded key, joined by `/`.
pub open spec fn url_of(endpoint: Seq<char>, bucket: Seq<char>, key: Seq<char>) -> Seq<char> {
    strip_trailing_slashes(trimmed(endpoint)) + seq!['/'] + bucket + seq!['/'] + percent_encode(
        key,
    )
}

/// Removes every `/` from the end of a text.
pub fn trim_trailing_slashes(s: &str) -> (r: String)
    ensures
        r@ == strip_trailing_slashes(s@),
{
    let len = s.unicode_len();
    let mut n: usize = len;
    assert(s@.subrange(0, len as int) =~= s@);
    while n > 0 && s.get_char(n - 1) == '/'
        invariant
            n <= len == s@.len(),
            strip_trailing_slashes(s@) == strip_trailing_slashes(s@.subrange(0, n as int)),
        decreases n,
    {
        let ghost t = s@.subrange(0, n as int);
        assert(t.drop_last() =~= s@.subrange(0, n - 1));
        n = n - 1;
    }
    String::from_str(s.substring_char(0, n))
}

/// The key an uploaded file is stored under: its file name, or
/// `unknown_file` where the path has none.
pub fn object_key(file_name: Option<String>) -> (r: String)
    ensures
        r@ == key_of(
            match file_name {
                Some(n) => Some(n@),
                None => None,
            },
        ),
{
    match file_name {
        Some(n) => n,
        None => {
            let r = String::from_str("unknown_file");
            proof {
                reveal_strlit("unknown_file");
            }
            assert(r@ =~= fallback_key());
            r
        },
    }
}

/// The key the file at `path` is stored under: its file name, or
/// `unknown_file` where the path has none.
pub fn key_for_path(path: &str) -> (r: String)
    ensures
        key_fits(path@, r@),
{
    let name = path_file_name(path);
    let r = object_key(name);
    assert(forall|i: int| 0 <= i < fallback_key().len() ==> #[trigger] fallback_key()[i] != '/');
    r
}

/// The public URL of the object stored under `key` in `bucket`.
pub fn object_url(endpoint: &str, bucket: &str, key: &str) -> (r: String)
    ensures
        r@ == url_of(endpoint@, bucket@, key@),
{
    let trimmed_endpoint = trim_text(endpoint);
    let mut url = trim_trailing_slashes(trimmed_endpoint.as_str());
    let encoded = url_encode(key);
    proof {
        reveal_strlit("/");
    }
    url.append("/");
    url.append(bucket);
    url.append("/");
    url.append(encoded.as_str());
    assert(url@ =~= url_of(endpoint@, bucket@, key@));
    url
}

} // verus!
