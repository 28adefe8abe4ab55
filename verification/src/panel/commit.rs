//! The commit to be made.

use vstd::prelude::*;

use crate::app::select::hashes_of;
use crate::app::state::{GitApp, GitAppModel};
use crate::git::log::{cuts_at, head_text, CommitModel};
use crate::number::{decimal, decimal_text};
use crate::panel::tone::Tone;
use crate::text::{cat2, chars_of, find, find_is, group_models, owned, trim, trim_chars};

verus! {

broadcast use group_models;

#[derive(Debug, PartialEq, Eq)]
pub struct CommitPanel {
    pub tag: String,
    pub tag_tone: Tone,
    pub can_commit: bool,
    pub branch: String,
    pub staged: String,
    pub unstaged: String,
    /// Hash and subject of the commit that is checked out.
    pub head: Option<(String, String)>,
}

/// A commit can be made: something is staged, there is a message, and no command is running.
pub open spec fn can_commit(m: GitAppModel) -> bool {
    m.git.running is None && m.staged.len() > 0 && trim(m.commit_msg).len() > 0
}

/// The commit that is checked out, where the history holds it.
pub open spec fn head_commit(m: GitAppModel) -> Option<CommitModel> {
    let i = find(hashes_of(m.commits), m.status.head);
    if i < m.commits.len() {
        Some(m.commits[i])
    } else {
        None
    }
}

impl GitApp {
    fn head_row(&self) -> (r: usize)
        ensures
            r == find(hashes_of(self@.commits), self@.status.head),
    {
        let ghost hashes = hashes_of(self@.commits);
        let mut i: usize = 0;
        while i < self.commits.len()
            invariant
                i <= self.commits@.len(),
                hashes == hashes_of(self@.commits),
                forall|k: int| 0 <= k < i ==> hashes[k] != self@.status.head,
            decreases self.commits@.len() - i,
        {
            assert(hashes[i as int] == self.commits@[i as int]@.hash);
            if self.commits[i].hash == self.status.head {
                proof {
                    find_is(hashes, self@.status.head, i as int);
                }
                return i;
            }
            i += 1;
        }
        proof {
            find_is(hashes, self@.status.head, i as int);
        }
        i
    }

    pub fn commit_panel(&self) -> (r: CommitPanel)
        requires
            head_commit(self@) is Some ==> cuts_at(head_commit(self@).unwrap().hash, 8),
        ensures
            r.tag@ == decimal(self@.staged.len()) + " staged"@,
            r.tag_tone == if self@.staged.len() > 0 {
                Tone::Good
            } else {
                Tone::Dim
            },
            r.can_commit == can_commit(self@),
            r.branch@ == self@.status.branch,
            r.staged@ == decimal(self@.staged.len()),
            r.unstaged@ == decimal(self@.unstaged.len()),
            match r.head {
                Some(h) => head_commit(self@) matches Some(c) && h.0@ == head_text(c.hash, 8)
                    && h.1@ == c.subject,
                None => head_commit(self@) is None,
            },
    {
        let n: usize = self.staged.len();
        let staged = decimal_text(n as u128);
        let message = chars_of(self.commit_msg.as_str());
        let row: usize = self.head_row();
        CommitPanel {
            tag: cat2(staged.as_str(), " staged"),
            tag_tone: if n > 0 {
                Tone::Good
            } else {
                Tone::Dim
            },
            can_commit: self.git.running().is_none() && n > 0 && trim_chars(
                message.as_slice(),
            ).len() > 0,
            branch: self.status.branch.clone(),
            staged,
            unstaged: decimal_text(self.unstaged.len() as u128),
            head: if row < self.commits.len() {
                let c = &self.commits[row];
                Some((owned(c.short()), c.subject.clone()))
            } else {
                None
            },
        }
    }
}

} // verus!
