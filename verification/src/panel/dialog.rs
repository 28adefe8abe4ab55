//! The dialogs.

use vstd::prelude::*;

use crate::app::state::{
    Action, ActionModel, DialogState, DialogStateModel, GitApp, GitAppModel, OpenDialog,
    OpenDialogModel,
};
use crate::panel::tone::Tone;
use crate::text::{
    cat2, chars_of, clone_opt, group_models, join, join_texts, models, opt_model, owned, pieces,
    split, split_chars, text_of, trim, trimmed, up_to,
};

verus! {

broadcast use group_models;

/// What happened to a dialog in a frame.
#[derive(Clone, Copy, Debug, PartialEq, Eq)]
pub struct DialogInput {
    /// Escape was pressed, or there was a click beside the dialog.
    pub should_close: bool,
    /// The button that was pressed: 0 cancels, 1 confirms.
    pub clicked: Option<usize>,
    /// A notice was acknowledged.
    pub acknowledged: bool,
    pub enter: bool,
    pub tab: bool,
    /// The text field takes the input.
    pub field_focused: bool,
    /// The text field does not take the input any more.
    pub field_left: bool,
    /// The text in the field changed.
    pub field_changed: bool,
}

/// What is shown of a dialog.
#[derive(Debug, PartialEq, Eq)]
pub enum DialogPanel {
    Confirm {
        title: String,
        tone: Tone,
        line: String,
        command: String,
        note: String,
        verb: String,
    },
    Notice { word: String, tone: Tone, line: String },
    Open { hint: String, tone: Tone },
    Branch { command: String, can_create: bool },
}

/// The contents of a [`DialogPanel`].
pub enum DialogPanelModel {
    Confirm {
        title: Seq<char>,
        tone: Tone,
        line: Seq<char>,
        command: Seq<char>,
        note: Seq<char>,
        verb: Seq<char>,
    },
    Notice { word: Seq<char>, tone: Tone, line: Seq<char> },
    Open { hint: Seq<char>, tone: Tone },
    Branch { command: Seq<char>, can_create: bool },
}

impl View for DialogPanel {
    type V = DialogPanelModel;

    open spec fn view(&self) -> DialogPanelModel {
        match self {
            DialogPanel::Confirm { title, tone, line, command, note, verb } =>
                DialogPanelModel::Confirm {
                    title: title@,
                    tone: *tone,
                    line: line@,
                    command: command@,
                    note: note@,
                    verb: verb@,
                },
            DialogPanel::Notice { word, tone, line } => DialogPanelModel::Notice {
                word: word@,
                tone: *tone,
                line: line@,
            },
            DialogPanel::Open { hint, tone } => DialogPanelModel::Open { hint: hint@, tone: *tone },
            DialogPanel::Branch { command, can_create } => DialogPanelModel::Branch {
                command: command@,
                can_create: *can_create,
            },
        }
    }
}

/// `s` without the slashes at its end.
pub open spec fn without_slashes(s: Seq<char>) -> Seq<char>
    decreases s.len(),
{
    if s.len() > 0 && s.last() == '/' {
        without_slashes(s.drop_last())
    } else {
        s
    }
}

/// The last name in a path.
pub open spec fn last_name(path: Seq<char>) -> Seq<char> {
    split(without_slashes(path), '/').last()
}

/// What is shown below the field: why the path was refused, or the names that complete it.
pub open spec fn hint_of(error: Option<Seq<char>>, suggestions: Seq<Seq<char>>) -> Seq<char> {
    match error {
        Some(e) => e,
        None => if suggestions.len() == 0 {
            "TAB COMPLETES DIRECTORY NAMES"@
        } else {
            join(suggestions.map_values(|s: Seq<char>| last_name(s)), "  "@)
        },
    }
}

pub open spec fn panel_of(state: DialogStateModel) -> DialogPanelModel {
    match state {
        DialogStateModel::Confirm(c) => DialogPanelModel::Confirm {
            title: c.title,
            tone: if c.danger {
                Tone::Danger
            } else {
                Tone::Warn
            },
            line: c.line,
            command: "git "@ + join(c.args, " "@),
            note: c.note,
            verb: c.verb,
        },
        DialogStateModel::Notice { success, line } => DialogPanelModel::Notice {
            word: if success {
                "Success"@
            } else {
                "Error"@
            },
            tone: if success {
                Tone::Good
            } else {
                Tone::Danger
            },
            line,
        },
        DialogStateModel::Open { error, suggestions, .. } => DialogPanelModel::Open {
            hint: hint_of(error, suggestions),
            tone: if error is Some {
                Tone::Danger
            } else {
                Tone::Dim
            },
        },
        DialogStateModel::Branch { input, .. } => DialogPanelModel::Branch {
            command: "git switch -c "@ + trim(input),
            can_create: trim(input).len() > 0,
        },
    }
}

/// Enter was pressed in the text field.
pub open spec fn submits(i: DialogInput) -> bool {
    i.field_left && i.enter
}

/// Tab was pressed in the text field.
pub open spec fn completes(i: DialogInput) -> bool {
    i.tab && (i.field_focused || i.field_left)
}

/// What the input to a dialog asks for: to close it goes before all else.
pub open spec fn action_of(state: DialogStateModel, i: DialogInput) -> Option<ActionModel> {
    let cancels = i.should_close || i.clicked == Some(0usize);
    let confirms = i.clicked == Some(1usize);
    match state {
        DialogStateModel::Confirm(_) => if cancels {
            Some(ActionModel::CloseDialog)
        } else if i.enter || confirms {
            Some(ActionModel::ConfirmDialog)
        } else {
            None
        },
        DialogStateModel::Notice { .. } => if i.should_close || i.acknowledged {
            Some(ActionModel::CloseDialog)
        } else {
            None
        },
        DialogStateModel::Open { .. } => if cancels {
            Some(ActionModel::CloseDialog)
        } else if submits(i) || confirms {
            Some(ActionModel::ConfirmOpen)
        } else if completes(i) {
            Some(ActionModel::CompleteOpen)
        } else {
            None
        },
        DialogStateModel::Branch { .. } => if cancels {
            Some(ActionModel::CloseDialog)
        } else if submits(i) || confirms {
            Some(ActionModel::ConfirmBranch)
        } else {
            None
        },
    }
}

impl GitAppModel {
    /// What the input to the dialog asks for; one that is closing takes none.
    pub open spec fn dialog_asks(self, i: DialogInput) -> Option<ActionModel> {
        match self.dialog {
            Some(d) => if d.closing {
                None
            } else {
                action_of(d.state, i)
            },
            None => None,
        }
    }

    /// The text field was shown: it has the focus that was asked for, and gets it again after a
    /// completion, unless the dialog is closing. A change of the text takes an error away.
    pub open spec fn field_seen(self, i: DialogInput) -> GitAppModel {
        match self.dialog {
            Some(d) => match d.state {
                DialogStateModel::Open { input, error, suggestions, suggested_for, .. } =>
                    GitAppModel {
                        dialog: Some(
                            OpenDialogModel {
                                state: DialogStateModel::Open {
                                    input,
                                    error: if i.field_changed {
                                        None
                                    } else {
                                        error
                                    },
                                    focus: !d.closing && completes(i),
                                    suggestions,
                                    suggested_for,
                                },
                                ..d
                            },
                        ),
                        ..self
                    },
                DialogStateModel::Branch { input, .. } => GitAppModel {
                    dialog: Some(
                        OpenDialogModel {
                            state: DialogStateModel::Branch { input, focus: false },
                            ..d
                        },
                    ),
                    ..self
                },
                _ => self,
            },
            None => self,
        }
    }

    /// What suggestions are to be looked for: those for what was typed, where it changed, in the
    /// directory of the repository that is open.
    pub open spec fn suggestions_wanted(self) -> Option<(Seq<char>, Option<Seq<char>>)> {
        match self.dialog {
            Some(d) => match d.state {
                DialogStateModel::Open { input, suggested_for, .. } => if suggested_for != input {
                    Some((input, self.repo))
                } else {
                    None
                },
                _ => None,
            },
            None => None,
        }
    }

    /// Suggestions for what was typed were found.
    pub open spec fn with_suggestions(self, found: Seq<Seq<char>>) -> GitAppModel {
        match self.dialog {
            Some(d) => match d.state {
                DialogStateModel::Open { input, error, focus, .. } => GitAppModel {
                    dialog: Some(
                        OpenDialogModel {
                            state: DialogStateModel::Open {
                                input,
                                error,
                                focus,
                                suggestions: found,
                                suggested_for: input,
                            },
                            ..d
                        },
                    ),
                    ..self
                },
                _ => self,
            },
            None => self,
        }
    }
}

fn name_at_end(path: &str) -> (r: String)
    ensures
        r@ == last_name(path@),
{
    let chars = chars_of(path);
    let s = chars.as_slice();
    let mut n: usize = s.len();
    assert(s@.take(n as int) =~= s@);
    while n > 0 && s[n - 1] == '/'
        invariant
            n <= s@.len(),
            without_slashes(s@) == without_slashes(s@.take(n as int)),
        decreases n,
    {
        assert(s@.take(n as int).drop_last() =~= s@.take(n - 1));
        n -= 1;
    }
    let parts = split_chars(up_to(s, n), '/');
    assert(pieces(parts@).last() == parts@[parts@.len() - 1]@);
    text_of(parts[parts.len() - 1])
}

fn hint(error: &Option<String>, suggestions: &Vec<String>) -> (r: String)
    ensures
        r@ == hint_of(opt_model(*error), models(suggestions@)),
{
    match error {
        Some(e) => e.clone(),
        None => {
            if suggestions.len() == 0 {
                return owned("TAB COMPLETES DIRECTORY NAMES");
            }
            let mut names: Vec<String> = Vec::new();
            let mut i: usize = 0;
            while i < suggestions.len()
                invariant
                    i <= suggestions@.len(),
                    names@.len() == i,
                    forall|k: int|
                        0 <= k < i ==> (#[trigger] names@[k])@ == last_name(suggestions@[k]@),
                decreases suggestions@.len() - i,
            {
                names.push(name_at_end(suggestions[i].as_str()));
                i += 1;
            }
            assert(models(names@) =~= models(suggestions@).map_values(
                |s: Seq<char>| last_name(s),
            ));
            join_texts(&names, "  ")
        },
    }
}

fn is_clicked(clicked: Option<usize>, button: usize) -> (r: bool)
    ensures
        r == (clicked == Some(button)),
{
    match clicked {
        Some(c) => c == button,
        None => false,
    }
}

impl GitApp {
    /// What is shown of the dialog.
    pub fn dialog_panel(&self) -> (r: Option<DialogPanel>)
        ensures
            opt_model(r) == match self@.dialog {
                Some(d) => Some(panel_of(d.state)),
                None => None,
            },
    {
        match &self.dialog {
            Some(d) => Some(
                match &d.state {
                    DialogState::Confirm(c) => DialogPanel::Confirm {
                        title: c.title.clone(),
                        tone: if c.danger {
                            Tone::Danger
                        } else {
                            Tone::Warn
                        },
                        line: c.line.clone(),
                        command: cat2("git ", join_texts(&c.args, " ").as_str()),
                        note: c.note.clone(),
                        verb: c.verb.clone(),
                    },
                    DialogState::Notice { success, line } => DialogPanel::Notice {
                        word: if *success {
                            owned("Success")
                        } else {
                            owned("Error")
                        },
                        tone: if *success {
                            Tone::Good
                        } else {
                            Tone::Danger
                        },
                        line: line.clone(),
                    },
                    DialogState::Open { error, suggestions, .. } => DialogPanel::Open {
                        hint: hint(error, suggestions),
                        tone: if error.is_some() {
                            Tone::Danger
                        } else {
                            Tone::Dim
                        },
                    },
                    DialogState::Branch { input, .. } => {
                        let name = trimmed(input.as_str());
                        DialogPanel::Branch {
                            command: cat2("git switch -c ", name.as_str()),
                            can_create: !name.as_str().is_empty(),
                        }
                    },
                },
            ),
            None => None,
        }
    }

    /// What the input to the dialog asks for.
    pub fn dialog_action(&self, i: DialogInput) -> (r: Option<Action>)
        ensures
            opt_model(r) == self@.dialog_asks(i),
    {
        let d = match &self.dialog {
            Some(d) => d,
            None => return None,
        };
        if d.closing {
            return None;
        }
        let cancels = i.should_close || is_clicked(i.clicked, 0);
        let confirms = is_clicked(i.clicked, 1);
        let submits = i.field_left && i.enter;
        let completes = i.tab && (i.field_focused || i.field_left);
        match &d.state {
            DialogState::Confirm(_) => if cancels {
                Some(Action::CloseDialog)
            } else if i.enter || confirms {
                Some(Action::ConfirmDialog)
            } else {
                None
            },
            DialogState::Notice { .. } => if i.should_close || i.acknowledged {
                Some(Action::CloseDialog)
            } else {
                None
            },
            DialogState::Open { .. } => if cancels {
                Some(Action::CloseDialog)
            } else if submits || confirms {
                Some(Action::ConfirmOpen)
            } else if completes {
                Some(Action::CompleteOpen)
            } else {
                None
            },
            DialogState::Branch { .. } => if cancels {
                Some(Action::CloseDialog)
            } else if submits || confirms {
                Some(Action::ConfirmBranch)
            } else {
                None
            },
        }
    }

    /// Takes note of what happened to the text field of the dialog.
    pub fn field_shown(&mut self, i: DialogInput)
        ensures
            final(self)@ == old(self)@.field_seen(i),
            old(self)@.valid() ==> final(self)@.valid(),
    {
        match self.dialog.take() {
            Some(
                OpenDialog {
                    state: DialogState::Open { input, error, suggestions, suggested_for, .. },
                    closing,
                },
            ) => {
                self.dialog = Some(
                    OpenDialog {
                        state: DialogState::Open {
                            input,
                            error: if i.field_changed {
                                None
                            } else {
                                error
                            },
                            focus: !closing && i.tab && (i.field_focused || i.field_left),
                            suggestions,
                            suggested_for,
                        },
                        closing,
                    },
                );
            },
            Some(OpenDialog { state: DialogState::Branch { input, .. }, closing }) => {
                self.dialog = Some(
                    OpenDialog { state: DialogState::Branch { input, focus: false }, closing },
                );
            },
            other => {
                self.dialog = other;
            },
        }
    }

    /// What suggestions are to be looked for, and the repository in whose directory; none where
    /// those at hand will do.
    pub fn wants_suggestions(&self) -> (r: Option<(String, Option<String>)>)
        ensures
            match r {
                Some(w) => self@.suggestions_wanted() == Some((w.0@, opt_model(w.1))),
                None => self@.suggestions_wanted() is None,
            },
    {
        match &self.dialog {
            Some(OpenDialog { state: DialogState::Open { input, suggested_for, .. }, .. }) => {
                if *suggested_for != *input {
                    Some((input.clone(), clone_opt(&self.repo)))
                } else {
                    None
                }
            },
            _ => None,
        }
    }

    /// Suggestions for what was typed were found.
    pub fn suggest(&mut self, found: Vec<String>)
        ensures
            final(self)@ == old(self)@.with_suggestions(models(found@)),
            old(self)@.valid() ==> final(self)@.valid(),
    {
        match self.dialog.take() {
            Some(
                OpenDialog { state: DialogState::Open { input, error, focus, .. }, closing },
            ) => {
                let suggested_for = input.clone();
                self.dialog = Some(
                    OpenDialog {
                        state: DialogState::Open {
                            input,
                            error,
                            focus,
                            suggestions: found,
                            suggested_for,
                        },
                        closing,
                    },
                );
            },
            other => {
                self.dialog = other;
            },
        }
    }

    /// The dialog goes once it has faded out.
    pub fn end_dialog(&mut self, finished: bool)
        ensures
            final(self)@ == if finished {
                GitAppModel { dialog: None, ..old(self)@ }
            } else {
                old(self)@
            },
            old(self)@.valid() ==> final(self)@.valid(),
    {
        if finished {
            self.dialog = None;
        }
    }
}

} // verus!
