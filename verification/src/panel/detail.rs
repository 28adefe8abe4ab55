//! The commit that is selected in the history.

use vstd::prelude::*;

use crate::app::state::GitApp;
use crate::git::log::{cuts_at, head_bytes, head_text, CommitDetail, CommitDetailModel};
use crate::git::status::{status_tag, tag_of};
use crate::git::time::{fmt_time, shows_time};
use crate::panel::changes::{ChangeRow, ChangeRowModel};
use crate::panel::tone::Tone;
use crate::text::{
    chars_of, first_line, group_models, join, join_texts, lines, lines_of, models, opt_model, owned,
    pieces, text_of, texts_of, trim, trimmed,
};

verus! {

broadcast use group_models;

/// What is shown of a commit.
#[derive(Debug, PartialEq, Eq)]
pub struct DetailBody {
    /// First line of the message.
    pub title: String,
    /// The rest of the message.
    pub text: Option<String>,
    pub hash: String,
    pub author: String,
    pub date: String,
    pub parents: String,
    pub refs: Option<String>,
}

#[derive(Debug, PartialEq, Eq)]
pub struct DetailPanel {
    pub tag: String,
    /// None where no commit is selected, or it is not read yet.
    pub body: Option<DetailBody>,
}

/// The hash and the parents of a commit can be cut to their first bytes.
pub open spec fn cuts(d: CommitDetailModel) -> bool {
    &&& cuts_at(d.hash, 8)
    &&& cuts_at(d.hash, 12)
    &&& forall|i: int| 0 <= i < d.parents.len() ==> cuts_at(#[trigger] d.parents[i], 8)
}

/// The message without its first line and without white space at its ends.
pub open spec fn message_rest(message: Seq<char>) -> Seq<char> {
    let all = lines(message);
    let rest = if all.len() > 0 {
        all.skip(1)
    } else {
        all
    };
    trim(join(rest, "\n"@))
}

pub open spec fn short_parents(parents: Seq<Seq<char>>) -> Seq<char> {
    join(parents.map_values(|p: Seq<char>| head_text(p, 8)), " "@)
}

/// What is shown of a commit.
pub open spec fn shows_detail(d: CommitDetailModel, b: DetailBody) -> bool {
    &&& b.title@ == first_line(d.message)
    &&& opt_model(b.text) == if message_rest(d.message).len() > 0 {
        Some(message_rest(d.message))
    } else {
        None
    }
    &&& b.hash@ == head_text(d.hash, 12)
    &&& b.author@ == d.author
    &&& shows_time(d.time as int, b.date@)
    &&& b.parents@ == short_parents(d.parents)
    &&& opt_model(b.refs) == if d.refs.len() > 0 {
        Some(d.refs)
    } else {
        None
    }
}

/// How a changed file is shown.
pub open spec fn row_of_file(file: (char, Seq<char>)) -> ChangeRowModel {
    ChangeRowModel {
        path: file.1,
        tag: tag_of(file.0),
        tone: if file.0 == 'A' {
            Tone::Good
        } else if file.0 == 'D' {
            Tone::Danger
        } else {
            Tone::Warn
        },
    }
}

/// The first line of a message, and the rest of it.
fn split_message(message: &str) -> (r: (String, String))
    ensures
        r.0@ == first_line(message@),
        r.1@ == message_rest(message@),
{
    let chars = chars_of(message);
    let mut ls = lines_of(chars.as_slice());
    let ghost all = pieces(ls@);
    let title = if ls.len() > 0 {
        let first = ls.remove(0);
        assert(all[0] == first@);
        assert(pieces(ls@) =~= all.skip(1));
        text_of(first)
    } else {
        String::new()
    };
    let rest = texts_of(&ls);
    (title, trimmed(join_texts(&rest, "\n").as_str()))
}

fn parents_text(parents: &Vec<String>) -> (r: String)
    requires
        forall|i: int| 0 <= i < parents@.len() ==> cuts_at(#[trigger] models(parents@)[i], 8),
    ensures
        r@ == short_parents(models(parents@)),
{
    let mut out: Vec<String> = Vec::new();
    let mut i: usize = 0;
    while i < parents.len()
        invariant
            i <= parents@.len(),
            out@.len() == i,
            forall|k: int| 0 <= k < parents@.len() ==> cuts_at(#[trigger] models(parents@)[k], 8),
            forall|k: int|
                0 <= k < i ==> (#[trigger] out@[k])@ == head_text(models(parents@)[k], 8),
        decreases parents@.len() - i,
    {
        assert(cuts_at(models(parents@)[i as int], 8));
        out.push(owned(head_bytes(parents[i].as_str(), 8)));
        i += 1;
    }
    assert(models(out@) =~= models(parents@).map_values(|p: Seq<char>| head_text(p, 8)));
    join_texts(&out, " ")
}

fn body_of(d: &CommitDetail) -> (r: DetailBody)
    requires
        cuts(d@),
    ensures
        shows_detail(d@, r),
{
    let (title, rest) = split_message(d.message.as_str());
    assert(d@.parents == models(d.parents@));
    DetailBody {
        title,
        text: if rest.as_str().is_empty() {
            None
        } else {
            Some(rest)
        },
        hash: owned(head_bytes(d.hash.as_str(), 12)),
        author: d.author.clone(),
        date: fmt_time(d.time),
        parents: parents_text(&d.parents),
        refs: if d.refs.as_str().is_empty() {
            None
        } else {
            Some(d.refs.clone())
        },
    }
}

impl GitApp {
    pub fn detail_panel(&self) -> (r: DetailPanel)
        requires
            self@.detail matches Some(d) ==> cuts_at(d.hash, 8) && (d.author.len() > 0 ==> cuts(
                d,
            )),
        ensures
            r.tag@ == match self@.detail {
                Some(d) => head_text(d.hash, 8),
                None => "none"@,
            },
            match r.body {
                Some(b) => self@.detail matches Some(d) && d.author.len() > 0 && shows_detail(d, b),
                None => self@.detail matches Some(d) ==> d.author.len() == 0,
            },
    {
        match &self.detail {
            Some(d) => {
                let tag = owned(head_bytes(d.hash.as_str(), 8));
                let body = if d.author.as_str().is_empty() {
                    None
                } else {
                    Some(body_of(d))
                };
                DetailPanel { tag, body }
            },
            None => DetailPanel { tag: owned("none"), body: None },
        }
    }

    /// A changed file of the commit.
    pub fn detail_row(&self, row: usize) -> (r: Option<ChangeRow>)
        ensures
            opt_model(r) == match self@.detail {
                Some(d) => if row < d.files.len() {
                    Some(row_of_file(d.files[row as int]))
                } else {
                    None
                },
                None => None,
            },
    {
        match &self.detail {
            Some(d) => if row < d.files.len() {
                let letter = d.files[row].0;
                assert(d@.files[row as int] == (letter, d.files@[row as int].1@));
                Some(
                    ChangeRow {
                        path: d.files[row].1.clone(),
                        tag: owned(status_tag(letter)),
                        tone: match letter {
                            'A' => Tone::Good,
                            'D' => Tone::Danger,
                            _ => Tone::Warn,
                        },
                    },
                )
            } else {
                None
            },
            None => None,
        }
    }
}

} // verus!
