//! Path normalization for building the storage connection locator.
//!
//! Some operating systems hand out absolute paths carrying a verbose
//! extended-length prefix (`\\?\`) and backslash separators. The storage
//! connection string wants neither, so a path is normalized before it is
//! embedded in the locator: the prefix is stripped when present, and every
//! backslash becomes a forward slash. Normalization never fails.

use vstd::prelude::*;
use vstd::string::*;

verus! {

/// True when the path carries the extended-length verbose prefix `\\?\`.
pub open spec fn has_verbose_prefix(s: Seq<char>) -> bool {
    s.len() >= 4 && s[0] == '\\' && s[1] == '\\' && s[2] == '?' && s[3] == '\\'
}

/// The path with the verbose prefix removed when present; otherwise the
/// path itself.
pub open spec fn strip_verbose_prefix(s: Seq<char>) -> Seq<char> {
    if has_verbose_prefix(s) {
        s.subrange(4, s.len() as int)
    } else {
        s
    }
}

/// Every backslash separator replaced by a forward slash; all other
/// characters kept as they are.
pub open spec fn with_forward_slashes(s: Seq<char>) -> Seq<char> {
    s.map_values(|c: char| if c == '\\' { '/' } else { c })
}

/// The normal form of a path: verbose prefix stripped, separators forward.
pub open spec fn normalized(s: Seq<char>) -> Seq<char> {
    with_forward_slashes(strip_verbose_prefix(s))
}

/// Strips the verbose extended-length prefix from a path, if it is there.
/// Absence of the prefix is a no-op; the function never fails.
pub fn clean_windows_path(path: &String) -> (r: String)
    ensures
        r@ == strip_verbose_prefix(path@),
{
    let n = path.as_str().unicode_len();
    if n >= 4 {
        let c0 = path.as_str().get_char(0);
        let c1 = path.as_str().get_char(1);
        let c2 = path.as_str().get_char(2);
        let c3 = path.as_str().get_char(3);
        if c0 == '\\' && c1 == '\\' && c2 == '?' && c3 == '\\' {
            let tail = path.as_str().substring_char(4, n);
            return tail.to_owned();
        }
    }
    path.clone()
}

/// Converts every backslash in the path to a forward slash.
pub fn to_forward_slashes(path: &String) -> (r: String)
    ensures
        r@ == with_forward_slashes(path@),
{
    let n = path.as_str().unicode_len();
    let mut r = String::new();
    let mut i: usize = 0;
    while i < n
        invariant
            i <= n,
            n == path@.len(),
            r@ == with_forward_slashes(path@.subrange(0, i as int)),
        decreases n - i,
    {
        let c = path.as_str().get_char(i);
        if c == '\\' {
            r.append("/");
            proof {
                reveal_strlit("/");
            }
        } else {
            let piece = path.as_str().substring_char(i, i + 1);
            r.append(piece);
        }
        proof {
            assert(path@.subrange(0, i + 1 as int)
                =~= path@.subrange(0, i as int).push(path@[i as int]));
            assert(r@ =~= with_forward_slashes(path@.subrange(0, i + 1 as int)));
        }
        i = i + 1;
    }
    proof {
        assert(path@.subrange(0, n as int) =~= path@);
    }
    r
}

/// Builds the storage connection locator for the database file at
/// `db_path`: the normalized path wrapped in a `file:` locator with a
/// mode flag requesting read/write/create semantics.
pub fn db_connection_url(db_path: &String) -> (r: String)
    ensures
        r@ == "file:"@ + normalized(db_path@) + "?mode=rwc"@,
{
    let cleaned = clean_windows_path(db_path);
    let fwd = to_forward_slashes(&cleaned);
    let head = String::from_str("file:");
    let mid = head.concat(fwd.as_str());
    let r = mid.concat("?mode=rwc");
    r
}

/// Joins a directory and an entry name with a forward-slash separator.
pub fn push_component(dir: &String, name: &String) -> (r: String)
    ensures
        r@ == dir@ + seq!['/'] + name@,
{
    let head = dir.clone();
    let mid = head.concat("/");
    let r = mid.concat(name.as_str());
    proof {
        reveal_strlit("/");
        assert(r@ =~= dir@ + seq!['/'] + name@);
    }
    r
}

/// Normalization removes exactly the verbose prefix and leaves the
/// remainder, converting separators to forward slashes; on a path without
/// the prefix it is the identity up to separator conversion.
pub proof fn lemma_normalization(s: Seq<char>)
    ensures
        has_verbose_prefix(s) ==> normalized(s) == with_forward_slashes(s.subrange(4, s.len() as int)),
        !has_verbose_prefix(s) ==> normalized(s) == with_forward_slashes(s),
        normalized(s).len() == strip_verbose_prefix(s).len(),
        forall|i: int|
            0 <= i < strip_verbose_prefix(s).len() ==> normalized(s)[i] == (
            if strip_verbose_prefix(s)[i] == '\\' {
                '/'
            } else {
                strip_verbose_prefix(s)[i]
            }),
{
}

} // verus!
