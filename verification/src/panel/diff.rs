//! The diff.

use vstd::prelude::*;

use crate::app::state::{Action, ActionModel, GitApp, GitAppModel};
use crate::git::command::{DiffKey, DiffKeyModel};
use crate::git::diff::{DiffLine, DiffLineModel, DiffModel, LineKind};
use crate::number::{decimal, decimal_text};
use crate::panel::tone::Tone;
use crate::text::{
    cat4, contains_text, group_models, has_text, opt_model, owned, replace_char, replaced,
};

verus! {

broadcast use group_models;

#[derive(Debug, PartialEq, Eq)]
pub struct DiffPanel {
    pub title: String,
    /// How many lines were added and deleted.
    pub tag: Option<String>,
    pub tag_tone: Tone,
    /// What stands in place of the lines, where there are none.
    pub message: Option<String>,
}

/// A button on the head of a hunk.
#[derive(Debug, PartialEq, Eq)]
pub struct HunkButton {
    pub label: String,
    pub enabled: bool,
    pub action: Action,
}

/// The contents of a [`HunkButton`].
pub struct HunkButtonModel {
    pub label: Seq<char>,
    pub enabled: bool,
    pub action: ActionModel,
}

impl View for HunkButton {
    type V = HunkButtonModel;

    open spec fn view(&self) -> HunkButtonModel {
        HunkButtonModel {
            label: self.label@,
            enabled: self.enabled,
            action: self.action@,
        }
    }
}

/// A line of the diff.
#[derive(Debug, PartialEq, Eq)]
pub struct DiffRow {
    pub tone: Tone,
    pub sign: String,
    /// The line has a background of its tone.
    pub shaded: bool,
    pub old_no: Option<String>,
    pub new_no: Option<String>,
    pub text: String,
    pub button: Option<HunkButton>,
}

/// Tone, sign and background of a kind of line.
pub open spec fn look_of(kind: LineKind) -> (Tone, Seq<char>, bool) {
    match kind {
        LineKind::Add => (Tone::Good, "+"@, true),
        LineKind::Del => (Tone::Danger, "-"@, true),
        LineKind::Context => (Tone::Text, " "@, false),
        LineKind::Hunk => (Tone::Accent, "@"@, true),
        LineKind::Meta => (Tone::Dim, " "@, false),
    }
}

/// The path that a diff is of.
pub open spec fn path_of_key(key: DiffKeyModel) -> Seq<char> {
    match key {
        DiffKeyModel::Unstaged(p) => p,
        DiffKeyModel::Staged(p) => p,
        DiffKeyModel::Commit(_, p) => p,
    }
}

/// What can be done with a hunk: staged, unless the file is new, or unstaged; nothing in a commit.
pub open spec fn verb_of(key: DiffKeyModel, d: DiffModel) -> Option<Seq<char>> {
    match key {
        DiffKeyModel::Unstaged(_) => if contains_text(d.header, "--- /dev/null"@) {
            None
        } else {
            Some("STAGE HUNK"@)
        },
        DiffKeyModel::Staged(_) => Some("UNSTAGE HUNK"@),
        DiffKeyModel::Commit(_, _) => None,
    }
}

/// What stands in place of the lines of the diff.
pub open spec fn no_lines(m: GitAppModel) -> Option<Seq<char>> {
    match m.diff {
        Some((_, d)) => if d.lines.len() == 0 {
            Some("NO TEXTUAL CHANGES"@)
        } else {
            None
        },
        None => if m.diff_want is Some {
            Some("READING DIFF"@)
        } else {
            Some("SELECT A FILE"@)
        },
    }
}

/// The button on a line: only the head of a hunk has one.
pub open spec fn button_of(m: GitAppModel, line: DiffLineModel) -> Option<HunkButtonModel> {
    match m.diff {
        Some((key, d)) => match (verb_of(key, d), line.hunk) {
            (Some(verb), Some(h)) => if line.kind == LineKind::Hunk {
                Some(
                    HunkButtonModel {
                        label: verb,
                        enabled: m.git.running is None,
                        action: if key is Staged {
                            ActionModel::UnstageHunk(h as usize)
                        } else {
                            ActionModel::StageHunk(h as usize)
                        },
                    },
                )
            } else {
                None
            },
            _ => None,
        },
        None => None,
    }
}

pub open spec fn number_text(n: Option<u32>) -> Option<Seq<char>> {
    match n {
        Some(n) => Some(decimal(n as nat)),
        None => None,
    }
}

/// What is shown of a line: a tab takes four columns.
pub open spec fn shows_line(m: GitAppModel, line: DiffLineModel, r: DiffRow) -> bool {
    &&& (r.tone, r.sign@, r.shaded) == look_of(line.kind)
    &&& opt_model(r.old_no) == number_text(line.old_no)
    &&& opt_model(r.new_no) == number_text(line.new_no)
    &&& r.text@ == replaced(line.text, '\t', "    "@)
    &&& opt_model(r.button) == button_of(m, line)
}

fn text_of_number(n: Option<u32>) -> (r: Option<String>)
    ensures
        opt_model(r) == number_text(n),
{
    match n {
        Some(n) => Some(decimal_text(n as u128)),
        None => None,
    }
}

impl GitApp {
    /// The head of the diff.
    pub fn diff_panel(&self) -> (r: DiffPanel)
        ensures
            r.title@ == match self@.diff {
                Some((key, _)) => path_of_key(key),
                None => "Diff"@,
            },
            opt_model(r.tag) == match self@.diff {
                Some((_, d)) => Some(
                    "+"@ + decimal(d.adds as nat) + " -"@ + decimal(d.dels as nat),
                ),
                None => None,
            },
            r.tag_tone == match self@.diff {
                Some((_, d)) => if d.adds >= d.dels {
                    Tone::Good
                } else {
                    Tone::Danger
                },
                None => Tone::Dim,
            },
            opt_model(r.message) == no_lines(self@),
    {
        match &self.diff {
            Some((key, d)) => {
                let path = match key {
                    DiffKey::Unstaged(p) => p,
                    DiffKey::Staged(p) => p,
                    DiffKey::Commit(_, p) => p,
                };
                let adds = decimal_text(d.adds as u128);
                let dels = decimal_text(d.dels as u128);
                DiffPanel {
                    title: path.clone(),
                    tag: Some(cat4("+", adds.as_str(), " -", dels.as_str())),
                    tag_tone: if d.adds >= d.dels {
                        Tone::Good
                    } else {
                        Tone::Danger
                    },
                    message: if d.lines.len() == 0 {
                        Some(owned("NO TEXTUAL CHANGES"))
                    } else {
                        None
                    },
                }
            },
            None => DiffPanel {
                title: owned("Diff"),
                tag: None,
                tag_tone: Tone::Dim,
                message: if self.diff_want.is_some() {
                    Some(owned("READING DIFF"))
                } else {
                    Some(owned("SELECT A FILE"))
                },
            },
        }
    }

    /// What can be done with a hunk of the diff on screen.
    pub fn hunk_verb(&self) -> (r: Option<String>)
        ensures
            opt_model(r) == match self@.diff {
                Some((key, d)) => verb_of(key, d),
                None => None,
            },
    {
        proof {
            reveal_strlit("--- /dev/null");
        }
        match &self.diff {
            Some((DiffKey::Unstaged(_), d)) => if has_text(d.header.as_str(), "--- /dev/null") {
                None
            } else {
                Some(owned("STAGE HUNK"))
            },
            Some((DiffKey::Staged(_), _)) => Some(owned("UNSTAGE HUNK")),
            Some((DiffKey::Commit(_, _), _)) => None,
            None => None,
        }
    }

    fn line_button(&self, line: &DiffLine) -> (r: Option<HunkButton>)
        ensures
            opt_model(r) == button_of(self@, line@),
    {
        if line.kind != LineKind::Hunk {
            return None;
        }
        match (self.hunk_verb(), line.hunk) {
            (Some(label), Some(h)) => {
                let staged = match &self.diff {
                    Some((DiffKey::Staged(_), _)) => true,
                    _ => false,
                };
                Some(
                    HunkButton {
                        label,
                        enabled: self.git.running().is_none(),
                        action: if staged {
                            Action::UnstageHunk(h)
                        } else {
                            Action::StageHunk(h)
                        },
                    },
                )
            },
            _ => None,
        }
    }

    /// A line of the diff on screen; none where there is no such line.
    pub fn diff_row(&self, i: usize) -> (r: Option<DiffRow>)
        ensures
            match r {
                Some(row) => self@.diff matches Some((_, d)) && i < d.lines.len() && shows_line(
                    self@,
                    d.lines[i as int],
                    row,
                ),
                None => self@.diff matches Some((_, d)) ==> i >= d.lines.len(),
            },
    {
        let d = match &self.diff {
            Some((_, d)) => d,
            None => return None,
        };
        if i >= d.lines.len() {
            return None;
        }
        let line = &d.lines[i];
        let (tone, sign, shaded) = match line.kind {
            LineKind::Add => (Tone::Good, "+", true),
            LineKind::Del => (Tone::Danger, "-", true),
            LineKind::Context => (Tone::Text, " ", false),
            LineKind::Hunk => (Tone::Accent, "@", true),
            LineKind::Meta => (Tone::Dim, " ", false),
        };
        Some(
            DiffRow {
                tone,
                sign: owned(sign),
                shaded,
                old_no: text_of_number(line.old_no),
                new_no: text_of_number(line.new_no),
                text: replace_char(line.text.as_str(), '\t', "    "),
                button: self.line_button(line),
            },
        )
    }
}

} // verus!
