//! The lists of unstaged and staged files.

use vstd::prelude::*;

use crate::app::state::{rows_facts, Action, ActionModel, Focus, GitApp, GitAppModel};
use crate::git::status::{status_tag, tag_of, ChangeModel};
use crate::number::{decimal, decimal_text};
use crate::panel::tone::{Button, ButtonModel, Tone};
use crate::text::{cat2, cat3, group_models, models, opt_model, owned};

verus! {

broadcast use group_models;

#[derive(Debug, PartialEq, Eq)]
pub struct ChangesPanel {
    pub title: String,
    pub tag: String,
    pub tag_tone: Tone,
    /// Stages or unstages all files.
    pub all: Button,
    /// Throws away the changes of the selected file.
    pub discard: Option<Button>,
}

/// A file in a list.
#[derive(Debug, PartialEq, Eq)]
pub struct ChangeRow {
    pub path: String,
    pub tag: String,
    pub tone: Tone,
}

/// The contents of a [`ChangeRow`].
pub struct ChangeRowModel {
    pub path: Seq<char>,
    pub tag: Seq<char>,
    pub tone: Tone,
}

impl View for ChangeRow {
    type V = ChangeRowModel;

    open spec fn view(&self) -> ChangeRowModel {
        ChangeRowModel { path: self.path@, tag: self.tag@, tone: self.tone }
    }
}

/// The tone of a status letter.
pub open spec fn letter_tone(c: char) -> Tone {
    if c == 'A' || c == '?' {
        Tone::Good
    } else if c == 'D' || c == 'U' {
        Tone::Danger
    } else {
        Tone::Warn
    }
}

/// How a change is shown: a renamed file by both of its paths, and the letter of the list.
pub open spec fn row_of_change(c: ChangeModel, unstaged: bool) -> ChangeRowModel {
    let letter = if unstaged {
        c.unstaged
    } else {
        c.staged
    };
    ChangeRowModel {
        path: match c.orig_path {
            Some(o) => o + " → "@ + c.path,
            None => c.path,
        },
        tag: tag_of(letter),
        tone: letter_tone(letter),
    }
}

/// The rows of the list of unstaged files, or else of staged ones.
pub open spec fn listed(m: GitAppModel, unstaged: bool) -> Seq<usize> {
    if unstaged {
        m.unstaged
    } else {
        m.staged
    }
}

fn tone_of_letter(c: char) -> (r: Tone)
    ensures
        r == letter_tone(c),
{
    match c {
        'A' | '?' => Tone::Good,
        'D' | 'U' => Tone::Danger,
        _ => Tone::Warn,
    }
}

impl GitApp {
    /// The head of a list.
    pub fn changes_panel(&self, unstaged: bool) -> (r: ChangesPanel)
        requires
            self@.valid(),
        ensures
            r.title@ == if unstaged {
                "Unstaged"@
            } else {
                "Staged"@
            },
            r.tag@ == decimal(listed(self@, unstaged).len()) + " files"@,
            r.tag_tone == if self@.focus == (if unstaged {
                Focus::Unstaged
            } else {
                Focus::Staged
            }) {
                Tone::Accent
            } else {
                Tone::Dim
            },
            r.all@ == (ButtonModel {
                label: if unstaged {
                    "STAGE ALL"@
                } else {
                    "UNSTAGE ALL"@
                },
                enabled: self@.git.running is None && listed(self@, unstaged).len() > 0,
                tone: Tone::Accent,
            }),
            opt_model(r.discard) == if unstaged {
                Some(
                    ButtonModel {
                        label: "DISCARD"@,
                        enabled: self@.git.running is None && self@.chosen(Focus::Unstaged) is Some,
                        tone: Tone::Danger,
                    },
                )
            } else {
                None
            },
    {
        let idle = self.git.running().is_none();
        let len: usize = if unstaged {
            self.unstaged.len()
        } else {
            self.staged.len()
        };
        let active = match self.focus {
            Focus::Unstaged => unstaged,
            Focus::Staged => !unstaged,
            Focus::History => false,
        };
        ChangesPanel {
            title: if unstaged {
                owned("Unstaged")
            } else {
                owned("Staged")
            },
            tag: cat2(decimal_text(len as u128).as_str(), " files"),
            tag_tone: if active {
                Tone::Accent
            } else {
                Tone::Dim
            },
            all: Button {
                label: if unstaged {
                    owned("STAGE ALL")
                } else {
                    owned("UNSTAGE ALL")
                },
                enabled: idle && len > 0,
                tone: Tone::Accent,
            },
            discard: if unstaged {
                Some(
                    Button {
                        label: owned("DISCARD"),
                        enabled: idle && self.selected_change(Focus::Unstaged).is_some(),
                        tone: Tone::Danger,
                    },
                )
            } else {
                None
            },
        }
    }

    /// What the button for all files asks for.
    pub fn all_clicked(&self, unstaged: bool) -> (r: Action)
        ensures
            r@ == if unstaged {
                ActionModel::StageAll
            } else {
                ActionModel::UnstageAll
            },
    {
        if unstaged {
            Action::StageAll
        } else {
            Action::UnstageAll
        }
    }

    /// What the button that throws away changes asks for.
    pub fn discard_clicked(&self) -> (r: Option<Action>)
        requires
            self@.valid(),
        ensures
            opt_model(r) == match self@.chosen(Focus::Unstaged) {
                Some(c) => Some(ActionModel::Discard(c.path, c.untracked())),
                None => None,
            },
    {
        match self.selected_change(Focus::Unstaged) {
            Some(c) => Some(Action::Discard(c.path.clone(), c.is_untracked())),
            None => None,
        }
    }

    /// A row of a list.
    pub fn change_row(&self, unstaged: bool, row: usize) -> (r: ChangeRow)
        requires
            self@.valid(),
            row < listed(self@, unstaged).len(),
        ensures
            r@ == row_of_change(
                self@.status.changes[listed(self@, unstaged)[row as int] as int],
                unstaged,
            ),
    {
        proof {
            rows_facts(self@.status.changes, false);
            rows_facts(self@.status.changes, true);
        }
        let i: usize = if unstaged {
            self.unstaged[row]
        } else {
            self.staged[row]
        };
        let c = &self.status.changes[i];
        let letter = if unstaged {
            c.unstaged
        } else {
            c.staged
        };
        ChangeRow {
            path: match &c.orig_path {
                Some(o) => cat3(o.as_str(), " → ", c.path.as_str()),
                None => c.path.clone(),
            },
            tag: owned(status_tag(letter)),
            tone: tone_of_letter(letter),
        }
    }

    /// What a double click on a row asks for: the file changes sides.
    pub fn change_double_clicked(&self, unstaged: bool, row: usize) -> (r: Option<Action>)
        requires
            self@.valid(),
        ensures
            opt_model(r) == match self@.row(
                if unstaged {
                    Focus::Unstaged
                } else {
                    Focus::Staged
                },
                row as int,
            ) {
                Some(c) => Some(
                    if unstaged {
                        ActionModel::Stage(seq![c.path])
                    } else {
                        ActionModel::Unstage(seq![c.path])
                    },
                ),
                None => None,
            },
    {
        let focus = if unstaged {
            Focus::Unstaged
        } else {
            Focus::Staged
        };
        match self.change_at(focus, row) {
            Some(c) => {
                let mut paths: Vec<String> = Vec::new();
                paths.push(c.path.clone());
                assert(models(paths@) =~= seq![c@.path]);
                if unstaged {
                    Some(Action::Stage(paths))
                } else {
                    Some(Action::Unstage(paths))
                }
            },
            None => None,
        }
    }
}

} // verus!
