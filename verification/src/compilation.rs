//! Deciding when the code of a buffer needs compiling again.
use vstd::prelude::*;
use crate::project::{ancestor, elm_json_in, may_answer};

verus! {

/// Whether `revision` is newer than the last revision checked, `last`.
pub open spec fn revision_is_new(last: Option<usize>, revision: usize) -> bool {
    match last {
        None => true,
        Some(old_revision) => revision > old_revision,
    }
}

/// The last revision checked after checking `revision`.
pub open spec fn after_check(last: Option<usize>, revision: usize) -> Option<usize> {
    if revision_is_new(last, revision) {
        Some(revision)
    } else {
        last
    }
}

/// Whether the code at `revision` is newer than the last revision checked,
/// recording it as checked when it is.
pub fn is_new_revision(last_checked_revision: &mut Option<usize>, revision: usize) -> (r: bool)
    ensures
        r == revision_is_new(*old(last_checked_revision), revision),
        *final(last_checked_revision) == after_check(*old(last_checked_revision), revision),
{
    let is_new = match *last_checked_revision {
        None => true,
        Some(old_revision) => revision > old_revision,
    };
    if is_new {
        *last_checked_revision = Some(revision);
    }
    is_new
}

/// Checking the same revision twice in a row: the second check finds
/// nothing new, and changes nothing.
pub proof fn lemma_second_check_is_not_new(last: Option<usize>, revision: usize)
    ensures
        !revision_is_new(after_check(last, revision), revision),
        after_check(after_check(last, revision), revision) == after_check(last, revision),
{
}

/// The last revision checked never goes down.
pub proof fn lemma_checked_revision_grows(last: Option<usize>, revision: usize)
    ensures
        last matches Some(o) ==> (after_check(last, revision) matches Some(n) && n >= o),
        after_check(last, revision) is Some,
{
}

/// The root directory of the Elm project a buffer's file belongs to, when
/// it could be found.
#[derive(Debug, Clone, PartialEq, Eq)]
pub enum ElmProjectRoot {
    Known(String),
    Unknown,
}

/// What the compilation loop keeps of each buffer.
#[derive(Debug, Clone, PartialEq, Eq)]
pub struct BufferInfo {
    /// The last revision of the buffer's code that was compiled.
    pub last_checked_revision: Option<usize>,
    /// The root of the project the buffer's file belongs to.
    pub root: ElmProjectRoot,
}

impl BufferInfo {
    /// What to keep of a newly opened buffer of the file at `path`: nothing
    /// compiled yet, and the project root found from `path` with the
    /// existence check `has_file`, if any.
    pub fn new<F: Fn(&str) -> bool>(path: &str, has_file: F) -> (r: BufferInfo)
        requires
            forall|q: &str| call_requires(has_file, (q,)),
        ensures
            r.last_checked_revision is None,
            r.root matches ElmProjectRoot::Known(root) ==> exists|k: nat|
                ancestor(path@, k) == Some(root@) && may_answer(has_file, elm_json_in(root@), true),
            r.root is Unknown ==> forall|j: nat|
                #[trigger] ancestor(path@, j) is Some ==> may_answer(
                    has_file,
                    elm_json_in(ancestor(path@, j)->0),
                    false,
                ),
    {
        let root = match crate::project::root(path, has_file) {
            Ok(root_path) => ElmProjectRoot::Known(root_path.to_string()),
            Err(_) => ElmProjectRoot::Unknown,
        };
        BufferInfo { last_checked_revision: None, root }
    }

    /// The project root to compile the buffer's code at `revision` in, when
    /// it needs compiling: the root is known and the revision is newer than
    /// the last one compiled, which it then becomes.
    pub fn compilation_root(&mut self, revision: usize) -> (r: Option<String>)
        ensures
            match old(self).root {
                ElmProjectRoot::Unknown => r is None && *final(self) == *old(self),
                ElmProjectRoot::Known(root) => {
                    &&& final(self).root == old(self).root
                    &&& final(self).last_checked_revision == after_check(
                        old(self).last_checked_revision,
                        revision,
                    )
                    &&& if revision_is_new(old(self).last_checked_revision, revision) {
                        r matches Some(s) && s@ == root@
                    } else {
                        r is None
                    }
                },
            },
    {
        match &self.root {
            ElmProjectRoot::Unknown => None,
            ElmProjectRoot::Known(root) => {
                let root = root.clone();
                if is_new_revision(&mut self.last_checked_revision, revision) {
                    Some(root)
                } else {
                    None
                }
            },
        }
    }
}

/// How many buffers' code waits for compilation at most; older requests
/// are dropped.
pub const MAX_COMPILATION_CANDIDATES: usize = 10;

} // verus!
