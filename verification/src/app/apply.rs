//! What each action does.

use vstd::prelude::*;

use crate::app::open::open_steps_keep_it_valid;
use crate::app::run::{
    discard_question, push_args, running_keeps_it_valid, steps_keep_it_valid, still,
};
use crate::app::select::Step;
use crate::app::state::{
    Action, ActionModel, DialogState, DialogStateModel, Effect, EffectModel, Focus, GitApp,
    GitAppModel, Level, OpenDialog, Screen, TableState,
};
use crate::text::{group_models, models, owned};

verus! {

broadcast use group_models;

/// The list that the keys act on when a view comes on screen.
pub open spec fn focus_of(screen: Screen) -> Focus {
    match screen {
        Screen::Changes => Focus::Unstaged,
        Screen::History => Focus::History,
    }
}

/// The actions that only change what is on screen.
pub open spec fn on_screen(action: ActionModel) -> bool {
    match action {
        ActionModel::SetView(_)
        | ActionModel::OpenDialog
        | ActionModel::Select(_, _)
        | ActionModel::SelectDetailFile(_)
        | ActionModel::Discard(_, _)
        | ActionModel::BranchDialog
        | ActionModel::CloseDialog => true,
        _ => false,
    }
}

/// The actions that stage, unstage or commit.
pub open spec fn stages(action: ActionModel) -> bool {
    match action {
        ActionModel::ToggleSelected
        | ActionModel::Stage(_)
        | ActionModel::Unstage(_)
        | ActionModel::StageAll
        | ActionModel::UnstageAll
        | ActionModel::StageHunk(_)
        | ActionModel::UnstageHunk(_)
        | ActionModel::Commit => true,
        _ => false,
    }
}

impl GitAppModel {
    pub open spec fn shown(self, screen: Screen) -> GitAppModel {
        if self.screen == screen {
            self
        } else {
            GitAppModel { screen, focus: focus_of(screen), ..self }
        }
    }

    /// A row of a list is selected, and comes into view.
    pub open spec fn selecting(self, focus: Focus, row: Option<usize>) -> GitAppModel {
        let table = TableState { selected: row, scroll_to_selected: true };
        match focus {
            Focus::Unstaged => GitAppModel { focus, unstaged_table: table, ..self },
            Focus::Staged => GitAppModel { focus, staged_table: table, ..self },
            Focus::History => GitAppModel { focus, hist_table: table, ..self },
        }
    }

    /// The effect of an action.
    pub open spec fn applied(self, t: Seq<char>, action: ActionModel) -> Step {
        match action {
            ActionModel::SetView(screen) => still(self.shown(screen)),
            ActionModel::Open(path) => Step {
                app: self,
                effects: seq![EffectModel::FindTop(path)],
            },
            ActionModel::OpenDialog => still(self.open_dialog()),
            ActionModel::CompleteOpen => self.completing(),
            ActionModel::ConfirmOpen => self.confirming_open(),
            ActionModel::Select(focus, row) => still(self.selecting(focus, row)),
            ActionModel::SelectDetailFile(row) => still(
                GitAppModel {
                    detail_table: TableState { selected: row, ..self.detail_table },
                    ..self
                },
            ),
            ActionModel::ToggleSelected => self.toggled(t),
            ActionModel::Stage(paths) => self.staging(t, paths),
            ActionModel::Unstage(paths) => self.unstaging(t, paths),
            ActionModel::StageAll => self.ran(t, "stage // all"@, seq!["add"@, "-A"@], None),
            ActionModel::UnstageAll => self.ran(
                t,
                "unstage // all"@,
                seq!["reset"@, "-q"@],
                None,
            ),
            ActionModel::StageHunk(i) => self.hunk_moved(t, i as int),
            ActionModel::UnstageHunk(i) => self.hunk_moved(t, i as int),
            ActionModel::Discard(path, untracked) => still(
                self.with_dialog(DialogStateModel::Confirm(discard_question(path, untracked))),
            ),
            ActionModel::Commit => self.committed(t),
            ActionModel::Switch(name) => self.switched(t, name),
            ActionModel::BranchDialog => still(
                self.with_dialog(DialogStateModel::Branch { input: seq![], focus: true }),
            ),
            ActionModel::ConfirmBranch => self.branched(t),
            ActionModel::Fetch => self.ran(
                t,
                "fetch // all"@,
                seq!["fetch"@, "--all"@, "--prune"@],
                None,
            ),
            ActionModel::Pull => self.ran(t, "pull"@, seq!["pull"@, "--ff-only"@], None),
            ActionModel::Push => self.ran(
                t,
                "push"@,
                push_args(self.status.upstream, self.status.branch),
                None,
            ),
            ActionModel::Copy(text) => Step {
                app: self.logged(t, "copied to clipboard"@, Level::Info),
                effects: seq![EffectModel::CopyText(text)],
            },
            ActionModel::Refresh => self.logged(t, "refresh"@, Level::Info).refreshed(),
            ActionModel::Run(label, args, stdin) => self.ran(t, label, args, stdin),
            ActionModel::CloseDialog => still(self.dialog_closing()),
            ActionModel::ConfirmDialog => self.confirmed(t),
            ActionModel::OpenSettings => Step {
                app: self,
                effects: seq![EffectModel::OpenSettings],
            },
        }
    }
}

/// No action breaks what always holds.
pub proof fn actions_keep_it_valid(m: GitAppModel, t: Seq<char>, action: ActionModel)
    requires
        m.valid(),
    ensures
        m.applied(t, action).app.valid(),
{
    broadcast use running_keeps_it_valid;

    steps_keep_it_valid(m, t);
    open_steps_keep_it_valid(m);
}

/// A list with one effect.
fn one(e: Effect) -> (r: Vec<Effect>)
    ensures
        models(r@) == seq![e@],
{
    let mut out: Vec<Effect> = Vec::new();
    let ghost m = e@;
    out.push(e);
    assert(models(out@) =~= seq![m]);
    out
}

impl GitApp {
    fn show(&mut self, screen: Screen)
        ensures
            final(self)@ == old(self)@.shown(screen),
    {
        if self.screen != screen {
            self.screen = screen;
            self.focus = match screen {
                Screen::Changes => Focus::Unstaged,
                Screen::History => Focus::History,
            };
        }
    }

    fn ask_branch(&mut self)
        ensures
            final(self)@ == old(self)@.with_dialog(
                DialogStateModel::Branch { input: seq![], focus: true },
            ),
    {
        self.dialog = Some(
            OpenDialog {
                state: DialogState::Branch { input: String::new(), focus: true },
                closing: false,
            },
        );
    }

    fn select(&mut self, focus: Focus, row: Option<usize>)
        ensures
            final(self)@ == old(self)@.selecting(focus, row),
    {
        self.focus = focus;
        let table = TableState { selected: row, scroll_to_selected: true };
        match focus {
            Focus::Unstaged => {
                self.unstaged_table = table;
            },
            Focus::Staged => {
                self.staged_table = table;
            },
            Focus::History => {
                self.hist_table = table;
            },
        }
    }

    /// Does what an action asks for, and says what is to be done outside. `t` is how long the
    /// application has been up, as text.
    pub fn apply(&mut self, t: &str, action: Action) -> (r: Vec<Effect>)
        requires
            old(self)@.valid(),
            action@ is Refresh ==> old(self).git.pending + 3 <= usize::MAX,
        ensures
            final(self)@ == old(self)@.applied(t@, action@).app,
            models(r@) == old(self)@.applied(t@, action@).effects,
            final(self)@.valid(),
    {
        proof {
            actions_keep_it_valid(self@, t@, action@);
        }
        self.perform(t, action)
    }

    /// The actions that change what is on screen.
    fn perform_on_screen(&mut self, action: Action)
        requires
            on_screen(action@),
        ensures
            forall|t: Seq<char>| still(final(self)@) == #[trigger] old(self)@.applied(t, action@),
    {
        match action {
            Action::SetView(v) => self.show(v),
            Action::OpenDialog => self.ask_path(),
            Action::Select(focus, row) => self.select(focus, row),
            Action::SelectDetailFile(row) => {
                self.detail_table.selected = row;
            },
            Action::Discard(path, untracked) => self.ask_discard(path, untracked),
            Action::BranchDialog => self.ask_branch(),
            Action::CloseDialog => self.close_dialog(),
            _ => {},
        }
    }

    /// The actions that stage, unstage or commit.
    fn perform_staging(&mut self, t: &str, action: Action) -> (r: Vec<Effect>)
        requires
            old(self)@.valid(),
            stages(action@),
        ensures
            final(self)@ == old(self)@.applied(t@, action@).app,
            models(r@) == old(self)@.applied(t@, action@).effects,
    {
        match action {
            Action::ToggleSelected => self.toggle_selected(t),
            Action::Stage(paths) => self.stage(t, paths),
            Action::Unstage(paths) => self.unstage(t, paths),
            Action::StageAll => self.stage_all(t),
            Action::UnstageAll => self.unstage_all(t),
            Action::StageHunk(i) => self.move_hunk(t, i),
            Action::UnstageHunk(i) => self.move_hunk(t, i),
            Action::Commit => self.commit(t),
            _ => Vec::new(),
        }
    }

    fn perform(&mut self, t: &str, action: Action) -> (r: Vec<Effect>)
        requires
            old(self)@.valid(),
            action@ is Refresh ==> old(self).git.pending + 3 <= usize::MAX,
        ensures
            final(self)@ == old(self)@.applied(t@, action@).app,
            models(r@) == old(self)@.applied(t@, action@).effects,
    {
        match action {
            Action::Open(path) => one(Effect::FindTop(path)),
            Action::CompleteOpen => self.complete_open(),
            Action::ConfirmOpen => self.confirm_open(),
            Action::ToggleSelected
            | Action::Stage(_)
            | Action::Unstage(_)
            | Action::StageAll
            | Action::UnstageAll
            | Action::StageHunk(_)
            | Action::UnstageHunk(_)
            | Action::Commit => self.perform_staging(t, action),
            Action::Switch(name) => self.switch(t, name),
            Action::ConfirmBranch => self.create_branch(t),
            Action::Fetch => self.fetch(t),
            Action::Pull => self.pull(t),
            Action::Push => self.push(t),
            Action::Copy(text) => {
                self.push_log(t, owned("copied to clipboard"), Level::Info);
                one(Effect::CopyText(text))
            },
            Action::Refresh => {
                self.push_log(t, owned("refresh"), Level::Info);
                self.refresh()
            },
            Action::Run(label, args, stdin) => self.run_git(t, label, args, stdin),
            Action::ConfirmDialog => self.run_confirmed(t),
            Action::OpenSettings => one(Effect::OpenSettings),
            Action::SetView(_)
            | Action::OpenDialog
            | Action::Select(_, _)
            | Action::SelectDetailFile(_)
            | Action::Discard(_, _)
            | Action::BranchDialog
            | Action::CloseDialog => {
                let ghost before = self@;
                self.perform_on_screen(action);
                assert(still(self@) == before.applied(t@, action@));
                Vec::new()
            },
        }
    }
}

} // verus!
