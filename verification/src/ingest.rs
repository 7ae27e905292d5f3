//! The ingestion pipeline's decisions.
//!
//! One ingestion turns a user selection into a stored copy plus a record.
//! The surrounding process performs the I/O — it shows the picker, reads
//! the filesystem, copies bytes, talks to the store — and hands the plain
//! values to `plan_ingestion`, which decides the whole request: cancel
//! quietly, reject the selection, or name the destination and the title.
//! A cancelled selection is a successful no-op, not an error; only a
//! non-local reference or an unnameable source is rejected here.

use crate::naming::{allocate_name, allocated, name_views};
use vstd::prelude::*;
use vstd::string::*;

verus! {

/// True for the path separators recognized in a source path.
pub open spec fn is_sep(c: char) -> bool {
    c == '/' || c == '\\'
}

/// The file-name component: what follows the last path separator.
pub open spec fn after_last_sep(s: Seq<char>) -> Seq<char>
    decreases s.len(),
{
    if s.len() == 0 {
        s
    } else if is_sep(s.last()) {
        Seq::empty()
    } else {
        after_last_sep(s.drop_last()).push(s.last())
    }
}

proof fn lemma_after_last_sep(s: Seq<char>, cut: int)
    requires
        0 <= cut <= s.len(),
        forall|i: int| cut <= i < s.len() ==> !is_sep(s[i]),
        cut == 0 || is_sep(s[cut - 1]),
    ensures
        after_last_sep(s) =~= s.subrange(cut, s.len() as int),
    decreases s.len(),
{
    if s.len() == 0 {
    } else if cut == s.len() {
        assert(is_sep(s.last()));
    } else {
        assert(!is_sep(s.last()));
        lemma_after_last_sep(s.drop_last(), cut);
        assert(after_last_sep(s) =~= s.subrange(cut, s.len() as int));
    }
}

/// The source file's name component, when it has one: the non-empty part
/// after the last path separator. A path that is empty or ends in a
/// separator has no name component.
pub fn file_name_of(path: &String) -> (r: Option<String>)
    ensures
        after_last_sep(path@).len() > 0 ==> r is Some && r->0@ == after_last_sep(path@),
        after_last_sep(path@).len() == 0 ==> r is None,
{
    let n = path.as_str().unicode_len();
    let mut cut: usize = n;
    while cut > 0
        invariant
            cut <= n,
            n == path@.len(),
            forall|i: int| cut <= i < n ==> !is_sep(path@[i]),
        ensures
            cut <= n,
            forall|i: int| cut <= i < n ==> !is_sep(path@[i]),
            cut == 0 || is_sep(path@[cut - 1]),
        decreases cut,
    {
        let c = path.as_str().get_char(cut - 1);
        if c == '/' || c == '\\' {
            break;
        }
        cut = cut - 1;
    }
    proof {
        lemma_after_last_sep(path@, cut as int);
    }
    if cut == n {
        None
    } else {
        let name = path.as_str().substring_char(cut, n);
        Some(name.to_owned())
    }
}

/// Position of the last dot in the name, or `-1` when there is none.
pub open spec fn last_dot(s: Seq<char>) -> int
    decreases s.len(),
{
    if s.len() == 0 {
        -1
    } else if s.last() == '.' {
        s.len() - 1
    } else {
        last_dot(s.drop_last())
    }
}

/// The name without its extension: what precedes the last dot, unless
/// that dot leads the name or there is none, in which case the whole
/// name stands.
pub open spec fn stem_of(name: Seq<char>) -> Seq<char> {
    let d = last_dot(name);
    if d > 0 {
        name.subrange(0, d)
    } else {
        name
    }
}

/// The fallback title used when no title can be derived.
pub open spec fn untitled() -> Seq<char> {
    seq!['U', 'n', 't', 'i', 't', 'l', 'e', 'd']
}

/// The title derived from a stored file's name: its stem, or the fixed
/// fallback when the name is empty.
pub open spec fn title_of_name(name: Seq<char>) -> Seq<char> {
    if name.len() == 0 {
        untitled()
    } else {
        stem_of(name)
    }
}

proof fn lemma_last_dot(s: Seq<char>, d: int)
    requires
        -1 <= d < s.len(),
        forall|i: int| d < i < s.len() ==> s[i] != '.',
        d == -1 || s[d] == '.',
    ensures
        last_dot(s) == d,
    decreases s.len(),
{
    if s.len() == 0 {
    } else if s.last() == '.' {
        assert(d == s.len() - 1);
    } else {
        assert(d < s.len() - 1);
        lemma_last_dot(s.drop_last(), d);
    }
}

/// Derives the title for a stored file named `name`.
pub fn derive_title(name: &String) -> (r: String)
    ensures
        r@ == title_of_name(name@),
{
    let n = name.as_str().unicode_len();
    if n == 0 {
        let r = String::from_str("Untitled");
        proof {
            reveal_strlit("Untitled");
            assert(r@ =~= untitled());
        }
        return r;
    }
    let mut i: usize = n;
    while i > 0
        invariant
            i <= n,
            n == name@.len(),
            forall|j: int| i <= j < n ==> name@[j] != '.',
        ensures
            i <= n,
            forall|j: int| i <= j < n ==> name@[j] != '.',
            i == 0 || name@[i - 1] == '.',
        decreases i,
    {
        let c = name.as_str().get_char(i - 1);
        if c == '.' {
            break;
        }
        i = i - 1;
    }
    if i > 1 {
        proof {
            lemma_last_dot(name@, i - 1);
        }
        let stem = name.as_str().substring_char(0, i - 1);
        stem.to_owned()
    } else {
        proof {
            if i == 0 {
                lemma_last_dot(name@, -1);
            } else {
                lemma_last_dot(name@, 0);
            }
        }
        name.clone()
    }
}

/// What the file picker yielded: a local file path, a non-local (URL)
/// reference, or cancellation.
pub enum Selection {
    Local(String),
    Url(String),
    Cancelled,
}

/// The pipeline's failure taxonomy.
#[derive(PartialEq, Eq, Structural, Clone, Copy, Debug)]
pub enum IngestError {
    /// A non-local (URL) reference was selected.
    UnsupportedSource,
    /// The source path has no representable file-name component.
    InvalidInput,
    /// The storage location could not be resolved or created.
    StorageInit,
    /// Copying the source's bytes failed.
    Copy,
    /// The store rejected the write.
    StorageWrite,
    /// The store rejected the read.
    StorageRead,
}

/// The fixed description of each failure.
pub open spec fn error_text(e: IngestError) -> Seq<char> {
    match e {
        IngestError::UnsupportedSource => "URL selection not supported"@,
        IngestError::InvalidInput => "Invalid file name"@,
        IngestError::StorageInit => "Failed to prepare storage"@,
        IngestError::Copy => "Copy failed"@,
        IngestError::StorageWrite => "Database insert failed"@,
        IngestError::StorageRead => "Failed to read from database"@,
    }
}

impl IngestError {
    /// The failure's description, surfaced to the caller.
    pub fn message(&self) -> (m: String)
        ensures
            m@ == error_text(*self),
    {
        match self {
            IngestError::UnsupportedSource => String::from_str("URL selection not supported"),
            IngestError::InvalidInput => String::from_str("Invalid file name"),
            IngestError::StorageInit => String::from_str("Failed to prepare storage"),
            IngestError::Copy => String::from_str("Copy failed"),
            IngestError::StorageWrite => String::from_str("Database insert failed"),
            IngestError::StorageRead => String::from_str("Failed to read from database"),
        }
    }
}

/// The decision taken for one ingestion request.
pub enum IngestPlan {
    /// The user declined: a successful no-op, nothing is copied or stored.
    NoFileSelected,
    /// The selection is rejected; nothing is copied or stored.
    Rejected(IngestError),
    /// Copy the source to `dest_path` and record it under `title`.
    Store { dest_name: String, dest_path: String, title: String },
}

/// What a decided copy-and-record plan promises: the destination name is
/// the allocated collision-free candidate for the source's name, the
/// destination path joins the papers directory and that name, and the
/// title is the destination name's stem.
pub open spec fn planned_store(
    source: Seq<char>,
    papers_dir: Seq<char>,
    taken: Seq<Seq<char>>,
    r: IngestPlan,
) -> bool {
    r matches IngestPlan::Store { dest_name, dest_path, title } && {
        &&& exists|k: nat| allocated(after_last_sep(source), taken, dest_name@, k)
        &&& dest_path@ == papers_dir + seq!['/'] + dest_name@
        &&& title@ == title_of_name(dest_name@)
    }
}

/// Decides one ingestion request from the selection, the resolved papers
/// directory, and the names already present there. Cancellation plans a
/// quiet no-op; a non-local reference or an unnameable source is
/// rejected; otherwise the destination is the first collision-free
/// candidate for the source's name, and the title is the destination
/// name's stem.
pub fn plan_ingestion(sel: &Selection, papers_dir: &String, taken: &Vec<String>) -> (r: IngestPlan)
    ensures
        (sel is Cancelled) ==> (r is NoFileSelected),
        (sel is Url) ==> (r matches IngestPlan::Rejected(e) && e == IngestError::UnsupportedSource),
        sel matches Selection::Local(p) ==> (after_last_sep(p@).len() == 0 ==> (r
            matches IngestPlan::Rejected(e) && e == IngestError::InvalidInput)),
        sel matches Selection::Local(p) ==> (after_last_sep(p@).len() > 0 ==> planned_store(
            p@,
            papers_dir@,
            name_views(taken@),
            r,
        )),
{
    match sel {
        Selection::Cancelled => IngestPlan::NoFileSelected,
        Selection::Url(_) => IngestPlan::Rejected(IngestError::UnsupportedSource),
        Selection::Local(p) => {
            let name = match file_name_of(p) {
                Some(name) => name,
                None => {
                    return IngestPlan::Rejected(IngestError::InvalidInput);
                },
            };
            let dest_name = allocate_name(&name, taken);
            let dest_path = crate::paths::push_component(papers_dir, &dest_name);
            let title = derive_title(&dest_name);
            let plan = IngestPlan::Store { dest_name, dest_path, title };
            proof {
                let k0 = choose|k: nat| allocated(name@, name_views(taken@), dest_name@, k);
                assert(allocated(after_last_sep(p@), name_views(taken@), dest_name@, k0));
                assert(exists|k: nat|
                    allocated(after_last_sep(p@), name_views(taken@), dest_name@, k));
                assert(plan matches IngestPlan::Store { dest_name: dn, dest_path: dp, title: t }
                    && dn == dest_name && dp == dest_path && t == title);
                assert(planned_store(p@, papers_dir@, name_views(taken@), plan));
            }
            plan
        },
    }
}

/// The success message for a completed ingestion, naming the title.
pub fn success_message(title: &String) -> (m: String)
    ensures
        m@ == "Paper added successfully: "@ + title@,
{
    let head = String::from_str("Paper added successfully: ");
    head.concat(title.as_str())
}

/// The health-check summary for a store holding `count` records.
pub fn health_message(count: u64) -> (m: String)
    ensures
        m@ == "Database connected. Papers stored: "@ + crate::naming::dec_of(count as nat),
{
    let head = String::from_str("Database connected. Papers stored: ");
    let digits = crate::naming::u64_to_dec(count);
    head.concat(digits.as_str())
}

} // verus!
