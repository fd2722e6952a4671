//! The decisions behind the repository commands: what a status listing adds
//! up to, when there is something to commit, which branches a cleanup keeps.
//!
//! The status of a file is the flag word that libgit2 reports for it.
use vstd::prelude::*;

use crate::config::same_text;
use crate::error::HelperError;

verus! {

/// A file added to the index.
pub const INDEX_NEW: u32 = 1;
/// A file changed in the index.
pub const INDEX_MODIFIED: u32 = 2;
/// A file removed in the index.
pub const INDEX_DELETED: u32 = 4;
/// A file renamed in the index.
pub const INDEX_RENAMED: u32 = 8;
/// A file whose type changed in the index.
pub const INDEX_TYPECHANGE: u32 = 16;
/// A file that is new in the working tree.
pub const WT_NEW: u32 = 128;
/// A file changed in the working tree.
pub const WT_MODIFIED: u32 = 256;
/// A file removed from the working tree.
pub const WT_DELETED: u32 = 512;
/// A file renamed in the working tree.
pub const WT_RENAMED: u32 = 2048;
/// A file in conflict.
pub const CONFLICTED: u32 = 32768;
/// Any change in the index: the file is staged.
pub const STAGED: u32 = 31;

/// Whether a status word holds any flag of `mask`.
pub open spec fn has_flag(status: u32, mask: u32) -> bool {
    status & mask != 0
}

/// How many of `statuses` hold a flag of `mask`.
pub open spec fn count_flag(statuses: Seq<u32>, mask: u32) -> nat
    decreases statuses.len(),
{
    if statuses.len() == 0 {
        0
    } else {
        count_flag(statuses.drop_last(), mask) + if has_flag(statuses.last(), mask) {
            1nat
        } else {
            0nat
        }
    }
}

proof fn lemma_count_flag_bound(statuses: Seq<u32>, mask: u32)
    ensures
        count_flag(statuses, mask) <= statuses.len(),
    decreases statuses.len(),
{
    if statuses.len() > 0 {
        lemma_count_flag_bound(statuses.drop_last(), mask);
    }
}

/// The files of a repository, counted by what happened to them.
#[derive(Debug, Clone)]
pub struct StatusSummary {
    pub branch: String,
    pub staged: usize,
    pub modified: usize,
    pub untracked: usize,
    pub deleted: usize,
    pub renamed: usize,
    pub conflicted: usize,
}

/// Adds one to `count` when `status` holds a flag of `mask`.
fn tally(count: usize, status: u32, mask: u32, seen: Ghost<Seq<u32>>) -> (r: usize)
    requires
        count == count_flag(seen@, mask),
        seen@.len() < usize::MAX,
    ensures
        r == count_flag(seen@.push(status), mask),
{
    proof {
        lemma_count_flag_bound(seen@, mask);
        assert(seen@.push(status).drop_last() =~= seen@);
    }
    if status & mask != 0 {
        count + 1
    } else {
        count
    }
}

/// The summary of the status words of a repository's files, on `branch`.
pub fn get_status_summary(branch: String, statuses: &Vec<u32>) -> (r: StatusSummary)
    ensures
        r.branch == branch,
        r.staged == count_flag(statuses@, STAGED),
        r.modified == count_flag(statuses@, WT_MODIFIED),
        r.untracked == count_flag(statuses@, WT_NEW),
        r.deleted == count_flag(statuses@, WT_DELETED),
        r.renamed == count_flag(statuses@, WT_RENAMED),
        r.conflicted == count_flag(statuses@, CONFLICTED),
{
    let mut r = StatusSummary {
        branch,
        staged: 0,
        modified: 0,
        untracked: 0,
        deleted: 0,
        renamed: 0,
        conflicted: 0,
    };
    let n = statuses.len();
    let mut i: usize = 0;
    while i < n
        invariant
            n == statuses@.len(),
            i <= n,
            r.branch == branch,
            r.staged == count_flag(statuses@.take(i as int), STAGED),
            r.modified == count_flag(statuses@.take(i as int), WT_MODIFIED),
            r.untracked == count_flag(statuses@.take(i as int), WT_NEW),
            r.deleted == count_flag(statuses@.take(i as int), WT_DELETED),
            r.renamed == count_flag(statuses@.take(i as int), WT_RENAMED),
            r.conflicted == count_flag(statuses@.take(i as int), CONFLICTED),
        decreases n - i,
    {
        let s = statuses[i];
        let ghost seen = statuses@.take(i as int);
        assert(statuses@.take(i + 1) =~= seen.push(s));
        r.staged = tally(r.staged, s, STAGED, Ghost(seen));
        r.modified = tally(r.modified, s, WT_MODIFIED, Ghost(seen));
        r.untracked = tally(r.untracked, s, WT_NEW, Ghost(seen));
        r.deleted = tally(r.deleted, s, WT_DELETED, Ghost(seen));
        r.renamed = tally(r.renamed, s, WT_RENAMED, Ghost(seen));
        r.conflicted = tally(r.conflicted, s, CONFLICTED, Ghost(seen));
        i = i + 1;
    }
    assert(statuses@.take(n as int) =~= statuses@);
    r
}

impl StatusSummary {
    /// Whether nothing at all was counted.
    pub fn is_clean(&self) -> (r: bool)
        ensures
            r == (self.staged == 0 && self.modified == 0 && self.untracked == 0 && self.deleted
                == 0 && self.renamed == 0 && self.conflicted == 0),
    {
        self.staged == 0 && self.modified == 0 && self.untracked == 0 && self.deleted == 0
            && self.renamed == 0 && self.conflicted == 0
    }
}

/// Whether some file is staged.
pub open spec fn any_staged(statuses: Seq<u32>) -> bool {
    exists|i: int| 0 <= i < statuses.len() && has_flag(#[trigger] statuses[i], STAGED)
}

/// Whether some file of `statuses` is staged.
pub fn has_staged_changes(statuses: &Vec<u32>) -> (r: bool)
    ensures
        r == any_staged(statuses@),
{
    let n = statuses.len();
    let mut i: usize = 0;
    while i < n
        invariant
            n == statuses@.len(),
            i <= n,
            forall|j: int| 0 <= j < i ==> !has_flag(#[trigger] statuses@[j], STAGED),
        decreases n - i,
    {
        if statuses[i] & STAGED != 0 {
            return true;
        }
        i = i + 1;
    }
    false
}

/// A commit needs something staged.
pub fn check_staged(statuses: &Vec<u32>) -> (r: Result<(), HelperError>)
    ensures
        r == if any_staged(statuses@) {
            Ok::<(), HelperError>(())
        } else {
            Err(HelperError::NothingStaged)
        },
{
    if has_staged_changes(statuses) {
        Ok(())
    } else {
        Err(HelperError::NothingStaged)
    }
}

/// Whether two byte strings are the same.
pub fn same_bytes(a: &Vec<u8>, b: &Vec<u8>) -> (r: bool)
    ensures
        r == (a@ == b@),
{
    let n = a.len();
    if n != b.len() {
        return false;
    }
    let mut i: usize = 0;
    while i < n
        invariant
            n == a@.len(),
            n == b@.len(),
            i <= n,
            forall|j: int| 0 <= j < i ==> a@[j] == b@[j],
        decreases n - i,
    {
        if a[i] != b[i] {
            return false;
        }
        i = i + 1;
    }
    assert(a@ =~= b@);
    true
}

/// A commit must change the tree of its parent, when it has one. Trees are
/// given by their object ids.
pub fn check_tree_changed(parent_tree: &Option<Vec<u8>>, tree: &Vec<u8>) -> (r: Result<
    (),
    HelperError,
>)
    ensures
        r == match parent_tree {
            Some(p) => if p@ == tree@ {
                Err(HelperError::NothingChanged)
            } else {
                Ok::<(), HelperError>(())
            },
            None => Ok(()),
        },
{
    match parent_tree {
        Some(p) => if same_bytes(p, tree) {
            Err(HelperError::NothingChanged)
        } else {
            Ok(())
        },
        None => Ok(()),
    }
}

/// The name of a branch, or `unknown` where the repository gives none.
pub fn name_or_unknown(name: Option<String>) -> (r: String)
    ensures
        r@ == match name {
            Some(n) => n@,
            None => "unknown"@,
        },
{
    match name {
        Some(n) => n,
        None => String::from_str("unknown"),
    }
}

/// The repository's default branch: `main` where it exists, else `master`
/// where it exists.
pub fn get_default_branch(has_main: bool, has_master: bool) -> (r: Result<String, HelperError>)
    ensures
        has_main ==> r is Ok && r->Ok_0@ == "main"@,
        !has_main && has_master ==> r is Ok && r->Ok_0@ == "master"@,
        !has_main && !has_master ==> r is Err && r->Err_0 is MissingReference,
{
    if has_main {
        Ok(String::from_str("main"))
    } else if has_master {
        Ok(String::from_str("master"))
    } else {
        Err(HelperError::MissingReference(String::from_str("Could not find default branch (main or master)")))
    }
}

/// Facts about a repository, for display.
#[derive(Debug, Clone)]
pub struct RepoInfo {
    pub current_branch: String,
    pub has_staged: bool,
    pub is_clean: bool,
}

/// The facts about a repository whose index holds `index_len` entries and
/// whose status lists `status_count` files.
pub fn get_repo_info(current_branch: String, index_len: usize, status_count: usize) -> (r: RepoInfo)
    ensures
        r.current_branch == current_branch,
        r.has_staged == (index_len > 0),
        r.is_clean == (status_count == 0),
{
    RepoInfo { current_branch, has_staged: index_len > 0, is_clean: status_count == 0 }
}

/// A cleanup never deletes the branch checked out nor the default branch.
pub fn is_protected_branch(name: &str, current: &str, default_branch: &str) -> (r: bool)
    ensures
        r == (name@ == current@ || name@ == default_branch@),
{
    same_text(name, current) || same_text(name, default_branch)
}

/// A branch is merged into the default branch when the merge base of the
/// two is the branch's own tip. Where no merge base was found it is not.
pub fn is_merged(merge_base: &Option<Vec<u8>>, branch_tip: &Vec<u8>) -> (r: bool)
    ensures
        r == match merge_base {
            Some(m) => m@ == branch_tip@,
            None => false,
        },
{
    match merge_base {
        Some(m) => same_bytes(m, branch_tip),
        None => false,
    }
}

} // verus!
