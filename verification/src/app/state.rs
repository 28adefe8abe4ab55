//! The state of the application.

use vstd::prelude::*;

use crate::git::command::{DiffKey, DiffKeyModel, Job, JobModel, Query, QueryModel};
use crate::git::diff::{Diff, DiffModel};
use crate::git::graph::{graph_rows, GraphRow, GraphRowModel};
use crate::git::log::{Commit, CommitDetail, CommitDetailModel, CommitModel};
use crate::git::refs::{Ref, RefModel};
use crate::git::status::{ChangeModel, Status, StatusModel};
use crate::git::worker::{Git, GitModel};
use crate::text::{clone_texts, group_models, models, opt_model};

verus! {

broadcast use group_models;

/// Commits read per `git log` (older history is not loaded yet).
pub const LOG_LIMIT: usize = 500;

/// How many repositories are remembered.
pub const RECENT_MAX: usize = 8;

/// How many log lines are kept at most.
pub const LOG_MAX: usize = 2000;

/// How many of the oldest log lines are dropped when there are too many.
pub const LOG_DROP: usize = 500;

/// Which of the two views is on screen.
#[derive(Clone, Copy, Debug, PartialEq, Eq, Structural)]
pub enum Screen {
    Changes,
    History,
}

/// Which list the arrow keys / Space act on.
#[derive(Clone, Copy, Debug, PartialEq, Eq, Structural)]
pub enum Focus {
    Unstaged,
    Staged,
    History,
}

#[derive(Clone, Copy, Debug, PartialEq, Eq, Structural)]
pub enum Level {
    Info,
    Good,
    Warn,
    Danger,
}

/// One line of the log.
#[derive(Debug, PartialEq, Eq)]
pub struct Event {
    pub time: String,
    pub text: String,
    pub level: Level,
}

/// The contents of an [`Event`].
pub struct EventModel {
    pub time: Seq<char>,
    pub text: Seq<char>,
    pub level: Level,
}

impl View for Event {
    type V = EventModel;

    open spec fn view(&self) -> EventModel {
        EventModel { time: self.time@, text: self.text@, level: self.level }
    }
}

/// A confirmation before a git command that changes something the user may not expect.
#[derive(Debug, PartialEq, Eq)]
pub struct Confirm {
    pub title: String,
    pub line: String,
    pub note: String,
    pub verb: String,
    pub danger: bool,
    pub label: String,
    pub args: Vec<String>,
}

/// The contents of a [`Confirm`].
pub struct ConfirmModel {
    pub title: Seq<char>,
    pub line: Seq<char>,
    pub note: Seq<char>,
    pub verb: Seq<char>,
    pub danger: bool,
    pub label: Seq<char>,
    pub args: Seq<Seq<char>>,
}

impl View for Confirm {
    type V = ConfirmModel;

    open spec fn view(&self) -> ConfirmModel {
        ConfirmModel {
            title: self.title@,
            line: self.line@,
            note: self.note@,
            verb: self.verb@,
            danger: self.danger,
            label: self.label@,
            args: models(self.args@),
        }
    }
}

#[derive(Debug, PartialEq, Eq)]
pub enum DialogState {
    Confirm(Confirm),
    Notice { success: bool, line: String },
    /// Open a repository by path (Tab completes directory names).
    Open {
        input: String,
        error: Option<String>,
        focus: bool,
        suggestions: Vec<String>,
        suggested_for: String,
    },
    /// Create a branch at HEAD and switch to it.
    Branch { input: String, focus: bool },
}

/// The contents of a [`DialogState`].
pub enum DialogStateModel {
    Confirm(ConfirmModel),
    Notice { success: bool, line: Seq<char> },
    Open {
        input: Seq<char>,
        error: Option<Seq<char>>,
        focus: bool,
        suggestions: Seq<Seq<char>>,
        suggested_for: Seq<char>,
    },
    Branch { input: Seq<char>, focus: bool },
}

impl View for DialogState {
    type V = DialogStateModel;

    open spec fn view(&self) -> DialogStateModel {
        match self {
            DialogState::Confirm(c) => DialogStateModel::Confirm(c@),
            DialogState::Notice { success, line } => DialogStateModel::Notice {
                success: *success,
                line: line@,
            },
            DialogState::Open { input, error, focus, suggestions, suggested_for } =>
                DialogStateModel::Open {
                    input: input@,
                    error: opt_model(*error),
                    focus: *focus,
                    suggestions: models(suggestions@),
                    suggested_for: suggested_for@,
                },
            DialogState::Branch { input, focus } => DialogStateModel::Branch {
                input: input@,
                focus: *focus,
            },
        }
    }
}

/// The dialog on screen. One that is closing fades out and takes no more input.
#[derive(Debug, PartialEq, Eq)]
pub struct OpenDialog {
    pub state: DialogState,
    pub closing: bool,
}

/// The contents of an [`OpenDialog`].
pub struct OpenDialogModel {
    pub state: DialogStateModel,
    pub closing: bool,
}

impl View for OpenDialog {
    type V = OpenDialogModel;

    open spec fn view(&self) -> OpenDialogModel {
        OpenDialogModel { state: self.state@, closing: self.closing }
    }
}

/// What the user asks for.
#[derive(Debug, PartialEq, Eq)]
pub enum Action {
    SetView(Screen),
    Open(String),
    OpenDialog,
    CompleteOpen,
    ConfirmOpen,
    Select(Focus, Option<usize>),
    SelectDetailFile(Option<usize>),
    ToggleSelected,
    Stage(Vec<String>),
    Unstage(Vec<String>),
    StageAll,
    UnstageAll,
    StageHunk(usize),
    UnstageHunk(usize),
    Discard(String, bool),
    Commit,
    Switch(String),
    BranchDialog,
    ConfirmBranch,
    Fetch,
    Pull,
    Push,
    Copy(String),
    Refresh,
    Run(String, Vec<String>, Option<String>),
    CloseDialog,
    ConfirmDialog,
    OpenSettings,
}

/// The contents of an [`Action`].
pub enum ActionModel {
    SetView(Screen),
    Open(Seq<char>),
    OpenDialog,
    CompleteOpen,
    ConfirmOpen,
    Select(Focus, Option<usize>),
    SelectDetailFile(Option<usize>),
    ToggleSelected,
    Stage(Seq<Seq<char>>),
    Unstage(Seq<Seq<char>>),
    StageAll,
    UnstageAll,
    StageHunk(usize),
    UnstageHunk(usize),
    Discard(Seq<char>, bool),
    Commit,
    Switch(Seq<char>),
    BranchDialog,
    ConfirmBranch,
    Fetch,
    Pull,
    Push,
    Copy(Seq<char>),
    Refresh,
    Run(Seq<char>, Seq<Seq<char>>, Option<Seq<char>>),
    CloseDialog,
    ConfirmDialog,
    OpenSettings,
}

impl View for Action {
    type V = ActionModel;

    open spec fn view(&self) -> ActionModel {
        match self {
            Action::SetView(v) => ActionModel::SetView(*v),
            Action::Open(path) => ActionModel::Open(path@),
            Action::OpenDialog => ActionModel::OpenDialog,
            Action::CompleteOpen => ActionModel::CompleteOpen,
            Action::ConfirmOpen => ActionModel::ConfirmOpen,
            Action::Select(focus, row) => ActionModel::Select(*focus, *row),
            Action::SelectDetailFile(row) => ActionModel::SelectDetailFile(*row),
            Action::ToggleSelected => ActionModel::ToggleSelected,
            Action::Stage(paths) => ActionModel::Stage(models(paths@)),
            Action::Unstage(paths) => ActionModel::Unstage(models(paths@)),
            Action::StageAll => ActionModel::StageAll,
            Action::UnstageAll => ActionModel::UnstageAll,
            Action::StageHunk(i) => ActionModel::StageHunk(*i),
            Action::UnstageHunk(i) => ActionModel::UnstageHunk(*i),
            Action::Discard(path, untracked) => ActionModel::Discard(path@, *untracked),
            Action::Commit => ActionModel::Commit,
            Action::Switch(name) => ActionModel::Switch(name@),
            Action::BranchDialog => ActionModel::BranchDialog,
            Action::ConfirmBranch => ActionModel::ConfirmBranch,
            Action::Fetch => ActionModel::Fetch,
            Action::Pull => ActionModel::Pull,
            Action::Push => ActionModel::Push,
            Action::Copy(text) => ActionModel::Copy(text@),
            Action::Refresh => ActionModel::Refresh,
            Action::Run(label, args, stdin) => ActionModel::Run(
                label@,
                models(args@),
                opt_model(*stdin),
            ),
            Action::CloseDialog => ActionModel::CloseDialog,
            Action::ConfirmDialog => ActionModel::ConfirmDialog,
            Action::OpenSettings => ActionModel::OpenSettings,
        }
    }
}

/// What is to be done outside, in the order in which it was asked for.
pub enum Effect {
    /// Run a read, and hand its answer to `poll`.
    Ask(Query),
    /// Run a command, and hand its messages to `poll`.
    Start(Job),
    /// Find the repository around a path, and hand it to `opened`.
    FindTop(String),
    /// Expand what was typed (in the directory of the repository that is open, where one is),
    /// find the repository around it, and hand it to `confirm_opened`.
    Expand { input: String, cwd: Option<String> },
    /// Find the longest common start of the texts, and hand it to `completed`.
    CommonPrefix(Vec<String>),
    /// Write the list of recent repositories.
    SaveRecent(String),
    CopyText(String),
    OpenSettings,
}

/// The contents of an [`Effect`].
pub enum EffectModel {
    Ask(QueryModel),
    Start(JobModel),
    FindTop(Seq<char>),
    Expand { input: Seq<char>, cwd: Option<Seq<char>> },
    CommonPrefix(Seq<Seq<char>>),
    SaveRecent(Seq<char>),
    CopyText(Seq<char>),
    OpenSettings,
}

impl View for Effect {
    type V = EffectModel;

    open spec fn view(&self) -> EffectModel {
        match self {
            Effect::Ask(q) => EffectModel::Ask(q@),
            Effect::Start(j) => EffectModel::Start(j@),
            Effect::FindTop(path) => EffectModel::FindTop(path@),
            Effect::Expand { input, cwd } => EffectModel::Expand {
                input: input@,
                cwd: opt_model(*cwd),
            },
            Effect::CommonPrefix(texts) => EffectModel::CommonPrefix(models(texts@)),
            Effect::SaveRecent(text) => EffectModel::SaveRecent(text@),
            Effect::CopyText(text) => EffectModel::CopyText(text@),
            Effect::OpenSettings => EffectModel::OpenSettings,
        }
    }
}

/// The selection of a table.
#[derive(Clone, Copy, Debug, PartialEq, Eq)]
pub struct TableState {
    pub selected: Option<usize>,
    pub scroll_to_selected: bool,
}

/// Nothing selected.
pub open spec fn no_selection() -> TableState {
    TableState { selected: None, scroll_to_selected: false }
}

impl Default for TableState {
    fn default() -> (r: TableState)
        ensures
            r == no_selection(),
    {
        TableState { selected: None, scroll_to_selected: false }
    }
}

/// The settings that the application reads.
#[derive(Debug, PartialEq, Eq)]
pub struct Settings {
    /// Name of the palette.
    pub palette: String,
    pub chamfer: bool,
    pub compact: bool,
    pub transparent: bool,
    /// The agent interface is on.
    pub agent: bool,
    /// The agent may press the confirming button of a dialog.
    pub agent_confirm: bool,
    pub log_open: bool,
}

/// The contents of a [`Settings`].
pub struct SettingsModel {
    pub palette: Seq<char>,
    pub chamfer: bool,
    pub compact: bool,
    pub transparent: bool,
    pub agent: bool,
    pub agent_confirm: bool,
    pub log_open: bool,
}

impl View for Settings {
    type V = SettingsModel;

    open spec fn view(&self) -> SettingsModel {
        SettingsModel {
            palette: self.palette@,
            chamfer: self.chamfer,
            compact: self.compact,
            transparent: self.transparent,
            agent: self.agent,
            agent_confirm: self.agent_confirm,
            log_open: self.log_open,
        }
    }
}

/// The application.
pub struct GitApp {
    pub git: Git,
    pub repo: Option<String>,
    pub recent: Vec<String>,
    pub status: Status,
    pub commits: Vec<Commit>,
    /// Lane layout of `commits` (`git::graph`), rebuilt with the log.
    pub graph: Vec<GraphRow>,
    pub refs: Vec<Ref>,
    pub screen: Screen,
    pub focus: Focus,
    /// Indices into `status.changes` with something in the worktree / in the index.
    pub unstaged: Vec<usize>,
    pub staged: Vec<usize>,
    pub unstaged_table: TableState,
    pub staged_table: TableState,
    pub hist_table: TableState,
    pub detail: Option<CommitDetail>,
    pub detail_table: TableState,
    /// The diff on screen and the key it was requested for.
    pub diff: Option<(DiffKey, Diff)>,
    pub diff_want: Option<DiffKey>,
    pub commit_msg: String,
    pub log: Vec<Event>,
    pub dialog: Option<OpenDialog>,
    pub notice_queue: Vec<(bool, String)>,
    pub last_error: Option<String>,
    pub dev_dialog: Option<String>,
    pub dev_frame: u32,
    pub dev_close_frame: Option<u32>,
    pub settings: Settings,
    /// Unix seconds.
    pub now: i64,
}

/// The contents of a [`GitApp`].
pub struct GitAppModel {
    pub git: GitModel,
    pub repo: Option<Seq<char>>,
    pub recent: Seq<Seq<char>>,
    pub status: StatusModel,
    pub commits: Seq<CommitModel>,
    pub graph: Seq<GraphRowModel>,
    pub refs: Seq<RefModel>,
    pub screen: Screen,
    pub focus: Focus,
    pub unstaged: Seq<usize>,
    pub staged: Seq<usize>,
    pub unstaged_table: TableState,
    pub staged_table: TableState,
    pub hist_table: TableState,
    pub detail: Option<CommitDetailModel>,
    pub detail_table: TableState,
    pub diff: Option<(DiffKeyModel, DiffModel)>,
    pub diff_want: Option<DiffKeyModel>,
    pub commit_msg: Seq<char>,
    pub log: Seq<EventModel>,
    pub dialog: Option<OpenDialogModel>,
    pub notice_queue: Seq<(bool, Seq<char>)>,
    pub last_error: Option<Seq<char>>,
    pub dev_dialog: Option<Seq<char>>,
    pub dev_frame: u32,
    pub dev_close_frame: Option<u32>,
    pub settings: SettingsModel,
    pub now: i64,
}

/// The contents of a queue of notices.
pub open spec fn notices(queue: Seq<(bool, String)>) -> Seq<(bool, Seq<char>)> {
    queue.map_values(|n: (bool, String)| (n.0, n.1@))
}

/// The contents of a diff with its key.
pub open spec fn diff_model(d: Option<(DiffKey, Diff)>) -> Option<(DiffKeyModel, DiffModel)> {
    match d {
        Some((key, diff)) => Some((key@, diff@)),
        None => None,
    }
}

impl View for GitApp {
    type V = GitAppModel;

    open spec fn view(&self) -> GitAppModel {
        GitAppModel {
            git: self.git@,
            repo: opt_model(self.repo),
            recent: models(self.recent@),
            status: self.status@,
            commits: models(self.commits@),
            graph: models(self.graph@),
            refs: models(self.refs@),
            screen: self.screen,
            focus: self.focus,
            unstaged: self.unstaged@,
            staged: self.staged@,
            unstaged_table: self.unstaged_table,
            staged_table: self.staged_table,
            hist_table: self.hist_table,
            detail: opt_model(self.detail),
            detail_table: self.detail_table,
            diff: diff_model(self.diff),
            diff_want: opt_model(self.diff_want),
            commit_msg: self.commit_msg@,
            log: models(self.log@),
            dialog: opt_model(self.dialog),
            notice_queue: notices(self.notice_queue@),
            last_error: opt_model(self.last_error),
            dev_dialog: opt_model(self.dev_dialog),
            dev_frame: self.dev_frame,
            dev_close_frame: self.dev_close_frame,
            settings: self.settings@,
            now: self.now,
        }
    }
}

/// Whether a change belongs to the list of staged files, or to that of unstaged ones.
pub open spec fn belongs(c: ChangeModel, staged: bool) -> bool {
    if staged {
        c.in_index()
    } else {
        c.in_worktree()
    }
}

/// The numbers of the changes that belong to a list, in order.
pub open spec fn rows(changes: Seq<ChangeModel>, staged: bool) -> Seq<usize>
    decreases changes.len(),
{
    if changes.len() == 0 {
        Seq::empty()
    } else {
        let before = rows(changes.drop_last(), staged);
        if belongs(changes.last(), staged) {
            before.push((changes.len() - 1) as usize)
        } else {
            before
        }
    }
}

impl GitAppModel {
    /// What always holds: the two lists are those of the changes, the graph is that of the
    /// commits, and the log is not too long.
    pub open spec fn valid(self) -> bool {
        &&& self.unstaged == rows(self.status.changes, false)
        &&& self.staged == rows(self.status.changes, true)
        &&& self.status.changes.len() <= usize::MAX
        &&& self.graph == graph_rows(self.commits)
        &&& self.log.len() <= LOG_MAX
    }
}

/// The numbers in a list are those of changes that belong to it, in ascending order, and each
/// change that belongs to it is there.
pub proof fn rows_facts(changes: Seq<ChangeModel>, staged: bool)
    requires
        changes.len() <= usize::MAX,
    ensures
        rows(changes, staged).len() <= changes.len(),
        forall|r: int|
            0 <= r < rows(changes, staged).len() ==> (#[trigger] rows(changes, staged)[r])
                < changes.len() && belongs(changes[rows(changes, staged)[r] as int], staged),
        forall|r: int, q: int|
            0 <= r < q < rows(changes, staged).len() ==> rows(changes, staged)[r] < rows(
                changes,
                staged,
            )[q],
        forall|i: int|
            0 <= i < changes.len() && belongs(#[trigger] changes[i], staged) ==> rows(
                changes,
                staged,
            ).contains(i as usize),
    decreases changes.len(),
{
    if changes.len() > 0 {
        let shorter = changes.drop_last();
        let before = rows(shorter, staged);
        rows_facts(shorter, staged);
        let now = rows(changes, staged);
        assert forall|r: int| 0 <= r < now.len() implies (#[trigger] now[r]) < changes.len()
            && belongs(changes[now[r] as int], staged) by {
            if r < before.len() {
                assert(now[r] == before[r]);
                assert(shorter[before[r] as int] == changes[before[r] as int]);
            }
        }
        assert forall|r: int, q: int| 0 <= r < q < now.len() implies now[r] < now[q] by {
            assert(now[r] == before[r]);
            if q < before.len() {
                assert(now[q] == before[q]);
            } else {
                assert(before[r] < shorter.len());
            }
        }
        assert forall|i: int|
            0 <= i < changes.len() && belongs(#[trigger] changes[i], staged) implies now.contains(
            i as usize,
        ) by {
            if i < shorter.len() {
                assert(shorter[i] == changes[i]);
                assert(before.contains(i as usize));
                let k = choose|k: int| 0 <= k < before.len() && before[k] == i as usize;
                assert(now[k] == i as usize);
            } else {
                assert(now[now.len() - 1] == i as usize);
            }
        }
    }
}

impl Clone for Confirm {
    fn clone(&self) -> (r: Confirm)
        ensures
            r@ == self@,
    {
        Confirm {
            title: self.title.clone(),
            line: self.line.clone(),
            note: self.note.clone(),
            verb: self.verb.clone(),
            danger: self.danger,
            label: self.label.clone(),
            args: clone_texts(&self.args),
        }
    }
}

} // verus!
