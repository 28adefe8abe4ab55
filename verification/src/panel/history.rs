//! The history.

use vstd::prelude::*;

use crate::app::state::GitApp;
use crate::git::graph::GraphRowModel;
use crate::git::log::{cuts_at, head_text, CommitModel};
use crate::git::time::{fmt_ago, shows_ago};
use crate::number::{decimal, decimal_text};
use crate::panel::tone::Tone;
use crate::text::{cat2, cat4, group_models, owned};

verus! {

broadcast use group_models;

/// How many lanes of the graph are shown at most, so that a wild history cannot eat the subject.
pub const LANES_MAX: usize = 8;

/// A commit in the history.
#[derive(Debug, PartialEq, Eq)]
pub struct HistoryRow {
    pub hash: String,
    pub hash_tone: Tone,
    pub subject: String,
    pub subject_tone: Tone,
    pub author: String,
    pub when: String,
    /// The commit is the one that is checked out.
    pub is_head: bool,
}

/// The widest row of a graph.
pub open spec fn widest(rows: Seq<GraphRowModel>) -> int
    decreases rows.len(),
{
    if rows.len() == 0 {
        0
    } else {
        let before = widest(rows.drop_last());
        if rows.last().width > before {
            rows.last().width
        } else {
            before
        }
    }
}

/// How many lanes are shown: as many as the widest row has, at least one and not too many.
pub open spec fn lanes_shown(rows: Seq<GraphRowModel>) -> int {
    let w = widest(rows);
    if w < 1 {
        1
    } else if w > LANES_MAX {
        LANES_MAX as int
    } else {
        w
    }
}

/// The tone of a lane: they take turns.
pub open spec fn lane_tone_of(lane: int) -> Tone {
    if lane % 4 == 0 {
        Tone::Accent
    } else if lane % 4 == 1 {
        Tone::Good
    } else if lane % 4 == 2 {
        Tone::Warn
    } else {
        Tone::AccentDim
    }
}

/// The tone of a lane.
pub fn lane_tone(lane: usize) -> (r: Tone)
    ensures
        r == lane_tone_of(lane as int),
{
    match lane % 4 {
        0 => Tone::Accent,
        1 => Tone::Good,
        2 => Tone::Warn,
        _ => Tone::AccentDim,
    }
}

/// The subject of a commit, with what refers to it in front.
pub open spec fn subject_of(c: CommitModel) -> Seq<char> {
    if c.refs.len() == 0 {
        c.subject
    } else {
        "["@ + c.refs + "] "@ + c.subject
    }
}

impl GitApp {
    pub fn history_tag(&self) -> (r: String)
        ensures
            r@ == decimal(self@.commits.len()) + " commits"@,
    {
        cat2(decimal_text(self.commits.len() as u128).as_str(), " commits")
    }

    /// How many lanes of the graph are shown.
    pub fn lanes(&self) -> (r: usize)
        ensures
            r == lanes_shown(self@.graph),
            1 <= r <= LANES_MAX,
    {
        let mut w: usize = 0;
        let mut i: usize = 0;
        let ghost all = self@.graph;
        while i < self.graph.len()
            invariant
                i <= self.graph@.len(),
                all == self@.graph,
                w == widest(all.take(i as int)),
            decreases self.graph@.len() - i,
        {
            assert(all.take(i + 1).drop_last() =~= all.take(i as int));
            assert(all.take(i + 1).last() == self.graph@[i as int]@);
            if self.graph[i].width > w {
                w = self.graph[i].width;
            }
            i += 1;
        }
        assert(all.take(all.len() as int) =~= all);
        if w < 1 {
            1
        } else if w > LANES_MAX {
            LANES_MAX
        } else {
            w
        }
    }

    /// A row of the history.
    pub fn history_row(&self, row: usize) -> (r: HistoryRow)
        requires
            row < self@.commits.len(),
            cuts_at(self@.commits[row as int].hash, 8),
            i64::MIN <= self@.now - self@.commits[row as int].time <= i64::MAX,
        ensures
            r.hash@ == head_text(self@.commits[row as int].hash, 8),
            r.is_head == (self@.commits[row as int].hash == self@.status.head),
            r.hash_tone == if r.is_head {
                Tone::Accent
            } else {
                Tone::Dim
            },
            r.subject@ == subject_of(self@.commits[row as int]),
            r.subject_tone == if self@.commits[row as int].refs.len() == 0 {
                Tone::Text
            } else {
                Tone::Accent
            },
            r.author@ == self@.commits[row as int].author,
            shows_ago(self@.commits[row as int].time as int, self@.now as int, r.when@),
    {
        let c = &self.commits[row];
        let is_head = c.hash == self.status.head;
        let plain = c.refs.as_str().is_empty();
        HistoryRow {
            hash: owned(c.short()),
            hash_tone: if is_head {
                Tone::Accent
            } else {
                Tone::Dim
            },
            subject: if plain {
                c.subject.clone()
            } else {
                cat4("[", c.refs.as_str(), "] ", c.subject.as_str())
            },
            subject_tone: if plain {
                Tone::Text
            } else {
                Tone::Accent
            },
            author: c.author.clone(),
            when: fmt_ago(c.time, self.now),
            is_head,
        }
    }
}

} // verus!
