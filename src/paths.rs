//! Paths of the files an extractor lays out in its working directory.

use vstd::prelude::*;
use vstd::string::{StringExecFns, StringSliceAdditionalSpecFns};
use vstd::utf8::encode_utf8;

verus! {

/// The lexically cleaned form of the path `s` (`.` and `..` resolved,
/// repeated separators merged), as the `path-clean` crate computes it.
pub uninterp spec fn cleaned_path(s: Seq<char>) -> Seq<char>;

/// Relies on path_clean::clean: the cleaned path, which depends on the text
/// of `p` alone. The result of cleaning UTF-8 text is UTF-8, so the
/// conversion back to a string loses nothing.
#[verifier::external_body]
fn clean(p: &str) -> (r: String)
    ensures
        r@ == cleaned_path(p@),
{
    path_clean::clean(p).to_string_lossy().into_owned()
}

/// `dir`, a `/`, then `rel`.
fn join(dir: &str, rel: &str) -> (r: String)
    ensures
        r@ == dir@ + seq!['/'] + rel@,
{
    proof {
        reveal_strlit("/");
    }
    let mut p = <String as StringExecFns>::from_str(dir);
    p.append("/");
    p.append(rel);
    p
}

/// Relies on std's `str` slicing by a byte range: `s[..end]` as a new
/// string. An ASCII byte such as `/` never lies inside a multi-byte
/// character, so `end` is a character boundary.
#[verifier::external_body]
fn prefix_before(s: &str, end: usize) -> (r: String)
    requires
        end < s.spec_bytes().len(),
        s.spec_bytes()[end as int] == 47,
    ensures
        encode_utf8(r@) == s.spec_bytes().subrange(0, end as int),
{
    s[..end].to_string()
}

/// The position of the last `/` byte in `b`, if any.
pub open spec fn last_slash(b: Seq<u8>) -> Option<int>
    decreases b.len(),
{
    if b.len() == 0 {
        None
    } else if b[b.len() - 1] == 47 {
        Some(b.len() - 1)
    } else {
        last_slash(b.drop_last())
    }
}

/// The directory part of the path bytes `b`: everything before the last
/// `/`, or all of `b` when it holds none.
pub open spec fn dir_part(b: Seq<u8>) -> Seq<u8> {
    match last_slash(b) {
        Some(k) => b.subrange(0, k),
        None => b,
    }
}

/// Finds the last `/` byte.
fn find_last_slash(b: &[u8]) -> (r: Option<usize>)
    ensures
        r matches Some(k) ==> last_slash(b@) == Some(k as int) && k < b@.len() && b@[k as int] == 47,
        r is None ==> last_slash(b@) is None,
{
    let mut i: usize = b.len();
    assert(b@.subrange(0, i as int) =~= b@);
    while i > 0
        invariant
            i <= b@.len(),
            last_slash(b@) == last_slash(b@.subrange(0, i as int)),
        decreases i,
    {
        if b[i - 1] == 47 {
            return Some(i - 1);
        }
        assert(b@.subrange(0, i as int).drop_last() =~= b@.subrange(0, i - 1));
        i = i - 1;
    }
    None
}

/// The absolute path of `relative_file_path` placed under `tempdir`, and its
/// parent directory: `/tmp/t` and `dir1/file` give `/tmp/t/dir1/file` and
/// `/tmp/t/dir1`.
pub fn get_file_path(tempdir: &str, relative_file_path: &str) -> (r: (String, String))
    ensures
        r.0@ == cleaned_path(tempdir@ + seq!['/'] + relative_file_path@),
        encode_utf8(r.1@) == dir_part(encode_utf8(r.0@)),
{
    let joined = join(tempdir, relative_file_path);
    let abs_path = clean(joined.as_str());
    let b = abs_path.as_str().as_bytes();
    match find_last_slash(b) {
        Some(k) => {
            let dir = prefix_before(abs_path.as_str(), k);
            (abs_path, dir)
        },
        None => {
            let dir = abs_path.clone();
            (abs_path, dir)
        },
    }
}

/// `b` ends with `suffix`.
pub open spec fn has_suffix(b: Seq<u8>, suffix: Seq<u8>) -> bool {
    b.len() >= suffix.len() && b.subrange(b.len() - suffix.len(), b.len() as int) == suffix
}

/// The bytes of `.layout`.
pub open spec fn layout_suffix() -> Seq<u8> {
    seq![46u8, 108u8, 97u8, 121u8, 111u8, 117u8, 116u8]
}

/// The bytes of `.pub`.
pub open spec fn pub_suffix() -> Seq<u8> {
    seq![46u8, 112u8, 117u8, 98u8]
}

/// Whether the bytes of `s` end with `suffix`.
fn ends_with_bytes(s: &str, suffix: &[u8]) -> (r: bool)
    ensures
        r == has_suffix(s.spec_bytes(), suffix@),
{
    let b = s.as_bytes();
    let n: usize = b.len();
    let m: usize = suffix.len();
    if n < m {
        return false;
    }
    let mut i: usize = 0;
    while i < m
        invariant
            n == b@.len(),
            m == suffix@.len(),
            m <= n,
            b@ == s.spec_bytes(),
            i <= m,
            forall|j: int| 0 <= j < i ==> b@[n - m + j] == suffix@[j],
        decreases m - i,
    {
        if b[n - m + i] != suffix[i] {
            assert(b@.subrange(n - m, n as int)[i as int] != suffix@[i as int]);
            return false;
        }
        i = i + 1;
    }
    assert(b@.subrange(n - m, n as int) =~= suffix@);
    true
}

/// Whether the path names a layout file.
pub fn is_layout_path(s: &str) -> (r: bool)
    ensures
        r == has_suffix(s.spec_bytes(), layout_suffix()),
{
    let suffix: [u8; 7] = [46, 108, 97, 121, 111, 117, 116];
    assert(suffix@ =~= layout_suffix());
    ends_with_bytes(s, &suffix)
}

/// Whether the path names a public key file.
pub fn is_pub_key_path(s: &str) -> (r: bool)
    ensures
        r == has_suffix(s.spec_bytes(), pub_suffix()),
{
    let suffix: [u8; 4] = [46, 112, 117, 98];
    assert(suffix@ =~= pub_suffix());
    ends_with_bytes(s, &suffix)
}

} // verus!
