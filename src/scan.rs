//! Scanning one directory for markdown files.
//!
//! What the filesystem reported about the scanned path arrives as a
//! [`PathState`]; [`scan_directory_for_books`] turns it into a
//! [`ScanResult`] or a [`ScanError`].
use vstd::prelude::*;

use crate::extension::{is_markdown_file_name, is_markdown_name};

verus! {

/// What one scan found.
///
/// `added`, `skipped` and `errors` are reserved for a later step that
/// brings the files found into a library; a scan leaves them at zero and
/// empty.
pub struct ScanResult {
    pub total: usize,
    pub added: usize,
    pub skipped: usize,
    pub errors: Vec<String>,
}

/// Why a scan failed.
pub enum ScanError {
    /// The path does not exist.
    NotFound { path: String },
    /// The path exists and is not a directory.
    NotADirectory { path: String },
    /// The directory could not be listed; `reason` is the system's account.
    ReadError { reason: String },
}

impl ScanError {
    /// The sentence that reports this error, naming the path or carrying
    /// the system's account.
    pub fn message(&self) -> (r: String)
        ensures
            r@ == match self {
                ScanError::NotFound { path } => "Directory does not exist: "@ + path@,
                ScanError::NotADirectory { path } => "Path is not a directory: "@ + path@,
                ScanError::ReadError { reason } => "Failed to read directory: "@ + reason@,
            },
    {
        match self {
            ScanError::NotFound { path } => String::from_str("Directory does not exist: ").concat(
                path.as_str(),
            ),
            ScanError::NotADirectory { path } => String::from_str(
                "Path is not a directory: ",
            ).concat(path.as_str()),
            ScanError::ReadError { reason } => String::from_str(
                "Failed to read directory: ",
            ).concat(reason.as_str()),
        }
    }
}

/// What the filesystem reported about the path to scan.
pub enum PathState {
    /// Nothing exists at the path.
    Missing,
    /// Something that is not a directory exists at the path.
    NotADirectory,
    /// A directory exists at the path, and listing it gave either the
    /// system's account of the failure or its immediate entries, in the
    /// order the system gave them: the raw bytes of each entry's name, or
    /// `None` for an entry that could not be read.
    Directory { listing: Result<Vec<Option<Vec<u8>>>, String> },
}

/// Whether a listed entry counts: it was read, and its name is a markdown
/// file's.
pub open spec fn entry_is_markdown(entry: Option<Seq<u8>>) -> bool {
    match entry {
        Some(name) => is_markdown_name(name),
        None => false,
    }
}

/// How many of the listed entries count.
pub open spec fn markdown_count(entries: Seq<Option<Seq<u8>>>) -> nat
    decreases entries.len(),
{
    if entries.len() == 0 {
        0
    } else {
        markdown_count(entries.drop_last()) + if entry_is_markdown(entries.last()) {
            1nat
        } else {
            0nat
        }
    }
}

proof fn lemma_markdown_count_bound(entries: Seq<Option<Seq<u8>>>)
    ensures
        markdown_count(entries) <= entries.len(),
    decreases entries.len(),
{
    if entries.len() > 0 {
        lemma_markdown_count_bound(entries.drop_last());
    }
}

/// The number of entries of a listing that are readable and named as
/// markdown files.
pub fn count_markdown_entries(entries: &Vec<Option<Vec<u8>>>) -> (n: usize)
    ensures
        n == markdown_count(entries.deep_view()),
{
    let ghost all = entries.deep_view();
    let mut n: usize = 0;
    let mut i: usize = 0;
    while i < entries.len()
        invariant
            all == entries.deep_view(),
            i <= entries.len(),
            n == markdown_count(all.subrange(0, i as int)),
        decreases entries.len() - i,
    {
        let ghost seen = all.subrange(0, i as int);
        let ghost next = all.subrange(0, i + 1);
        assert(next.drop_last() =~= seen);
        assert(next.last() == entries@[i as int].deep_view());
        proof {
            lemma_markdown_count_bound(seen);
        }
        match &entries[i] {
            Some(name) => {
                assert(name.deep_view() =~= name@);
                if is_markdown_file_name(name.as_slice()) {
                    n = n + 1;
                }
            },
            None => {},
        }
        i = i + 1;
    }
    assert(all.subrange(0, i as int) =~= all);
    n
}

impl ScanResult {
    /// A result that has counted nothing yet.
    pub fn new() -> (r: ScanResult)
        ensures
            r.total == 0,
            r.added == 0,
            r.skipped == 0,
            r.errors@.len() == 0,
    {
        ScanResult { total: 0, added: 0, skipped: 0, errors: Vec::new() }
    }
}

/// Scans the directory at `dir_path`, of which the filesystem reported
/// `state`.
///
/// A path that does not exist fails with `NotFound`, one that is not a
/// directory with `NotADirectory`, a directory that could not be listed
/// with `ReadError`. Otherwise the result counts, in `total`, the readable
/// entries whose extension is exactly `md` or `markdown`; entries that
/// could not be read are passed over.
pub fn scan_directory_for_books(dir_path: String, state: PathState) -> (r: Result<
    ScanResult,
    ScanError,
>)
    ensures
        match state {
            PathState::Missing => r matches Err(ScanError::NotFound { path }) && path@ == dir_path@,
            PathState::NotADirectory => r matches Err(ScanError::NotADirectory { path }) && path@
                == dir_path@,
            PathState::Directory { listing: Err(why) } => r matches Err(
                ScanError::ReadError { reason },
            ) && reason@ == why@,
            PathState::Directory { listing: Ok(entries) } => r matches Ok(res) && res.total
                == markdown_count(entries.deep_view()) && res.added == 0 && res.skipped == 0
                && res.errors@.len() == 0,
        },
        state is Missing <==> r matches Err(ScanError::NotFound { .. }),
        state is NotADirectory <==> r matches Err(ScanError::NotADirectory { .. }),
        state matches PathState::Directory { listing: Ok(entries) } && entries@.len() == 0
            ==> (r matches Ok(res) && res.total == 0 && res.errors@.len() == 0),
{
    match state {
        PathState::Missing => Err(ScanError::NotFound { path: dir_path }),
        PathState::NotADirectory => Err(ScanError::NotADirectory { path: dir_path }),
        PathState::Directory { listing: Err(why) } => Err(ScanError::ReadError { reason: why }),
        PathState::Directory { listing: Ok(entries) } => {
            let mut result = ScanResult::new();
            result.total = count_markdown_entries(&entries);
            Ok(result)
        },
    }
}

} // verus!
