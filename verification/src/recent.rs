//! The list of recently opened files.

use crate::seqs::{lemma_filter_take_none, lemma_filter_take_step};
use vstd::prelude::*;

verus! {

/// The number of files that the list remembers.
pub const RECENT_FILES_LIMIT: usize = 20;

/// The test that a path is not `path`.
pub open spec fn other_than(path: Seq<char>) -> spec_fn(String) -> bool {
    |p: String| p@ != path
}

/// The list after `path` was opened: `path` stands first, an older entry for
/// it is gone, and only the newest entries up to the limit stay.
pub open spec fn with_recent(files: Seq<String>, path: String) -> Seq<String> {
    let moved = seq![path] + files.filter(other_than(path@));
    if moved.len() > RECENT_FILES_LIMIT {
        moved.take(RECENT_FILES_LIMIT as int)
    } else {
        moved
    }
}

/// The files that were opened last, the newest first.
pub struct RecentFiles {
    pub files: Vec<String>,
}

impl RecentFiles {
    pub fn new() -> (r: RecentFiles)
        ensures
            r.files@.len() == 0,
    {
        RecentFiles { files: Vec::new() }
    }

    /// Notes that `path` was opened.
    pub fn add(&mut self, path: String)
        ensures
            final(self).files@ == with_recent(old(self).files@, path),
    {
        let ghost before = self.files@;
        let ghost keep = other_than(path@);
        let ghost mut seen: int = 0;
        let mut i: usize = 0;
        proof {
            lemma_filter_take_none(before, keep);
            assert(self.files@ =~= before.take(0).filter(keep) + before.skip(0));
        }
        while i < self.files.len()
            invariant
                keep == other_than(path@),
                0 <= seen <= before.len(),
                i == before.take(seen).filter(keep).len(),
                self.files@ == before.take(seen).filter(keep) + before.skip(seen),
            decreases before.len() - seen,
        {
            proof {
                lemma_filter_take_step(before, keep, seen);
                assert(self.files@[i as int] == before.skip(seen)[0]);
            }
            if self.files[i] == path {
                self.files.remove(i);
                assert(self.files@ =~= before.take(seen + 1).filter(keep) + before.skip(seen + 1));
            } else {
                i = i + 1;
                assert(self.files@ =~= before.take(seen + 1).filter(keep) + before.skip(seen + 1));
            }
            proof {
                seen = seen + 1;
            }
        }
        proof {
            assert(before.take(seen) =~= before);
            assert(self.files@ =~= before.filter(keep));
        }
        self.files.insert(0, path);
        assert(self.files@ =~= seq![path] + before.filter(keep));
        self.files.truncate(RECENT_FILES_LIMIT);
    }
}

} // verus!
