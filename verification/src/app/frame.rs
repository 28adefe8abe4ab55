//! The start of the application, and of each frame.

use vstd::prelude::*;

use crate::app::open::{read_recent, recent_in};
use crate::app::state::{
    no_selection, notices, rows, Action, ActionModel, DialogState, DialogStateModel, Focus, GitApp,
    GitAppModel, Level, OpenDialog, OpenDialogModel, Screen, Settings, SettingsModel, TableState,
};
use crate::git::graph::graph_rows;
use crate::git::log::CommitModel;
use crate::git::status::{empty_status, ChangeModel, Status};
use crate::git::worker::{idle, Git};
use crate::number::{parse_u32, read_u32};
use crate::text::{chars_of, group_models, models, opt_model, owned};

verus! {

broadcast use group_models;

/// What the environment asks for when screenshots are taken.
pub struct Dev {
    /// The dialog to open.
    pub dialog: Option<String>,
    /// The frame in which to close it.
    pub close_frame: Option<String>,
    /// A line for the log.
    pub log: Option<String>,
}

/// The contents of a [`Dev`].
pub struct DevModel {
    pub dialog: Option<Seq<char>>,
    pub close_frame: Option<Seq<char>>,
    pub log: Option<Seq<char>>,
}

impl View for Dev {
    type V = DevModel;

    open spec fn view(&self) -> DevModel {
        DevModel {
            dialog: opt_model(self.dialog),
            close_frame: opt_model(self.close_frame),
            log: opt_model(self.log),
        }
    }
}

/// The application before anything is logged.
pub open spec fn blank(settings: SettingsModel, dev: DevModel, now: i64) -> GitAppModel {
    GitAppModel {
        git: idle(),
        repo: None,
        recent: seq![],
        status: empty_status(),
        commits: seq![],
        graph: seq![],
        refs: seq![],
        screen: Screen::Changes,
        focus: Focus::Unstaged,
        unstaged: seq![],
        staged: seq![],
        unstaged_table: no_selection(),
        staged_table: no_selection(),
        hist_table: no_selection(),
        detail: None,
        detail_table: no_selection(),
        diff: None,
        diff_want: None,
        commit_msg: seq![],
        log: seq![],
        dialog: None,
        notice_queue: seq![],
        last_error: None,
        dev_dialog: dev.dialog,
        dev_frame: 0,
        dev_close_frame: match dev.close_frame {
            Some(s) => parse_u32(s),
            None => None,
        },
        settings,
        now,
    }
}

/// The application as it starts.
pub open spec fn started(
    settings: SettingsModel,
    dev: DevModel,
    now: i64,
    t: Seq<char>,
) -> GitAppModel {
    let online = blank(settings, dev, now).logged(t, "git console online"@, Level::Good);
    let watched = if settings.agent {
        online.logged(t, "agent // interface on :: waiting for a client"@, Level::Warn)
    } else {
        online
    };
    match dev.log {
        Some(text) => watched.logged(t, text, Level::Danger),
        None => watched,
    }
}

/// The repository that is opened first.
pub enum Start {
    /// The one that was asked for.
    Given,
    /// The most recent one.
    Recent(String),
    /// The one around the current directory.
    Here,
}

/// The contents of a [`Start`].
pub enum StartModel {
    Given,
    Recent(Seq<char>),
    Here,
}

impl View for Start {
    type V = StartModel;

    open spec fn view(&self) -> StartModel {
        match self {
            Start::Given => StartModel::Given,
            Start::Recent(path) => StartModel::Recent(path@),
            Start::Here => StartModel::Here,
        }
    }
}

/// The repository to open first: the one that was asked for, else the most recent one, else the
/// one around the current directory, where that is known.
pub open spec fn first_of(recent: Seq<Seq<char>>, given: bool, here: bool) -> Option<StartModel> {
    if given {
        Some(StartModel::Given)
    } else if recent.len() > 0 {
        Some(StartModel::Recent(recent[0]))
    } else if here {
        Some(StartModel::Here)
    } else {
        None
    }
}

/// What an action of the environment does to the state, and the action that it stands for.
pub open spec fn dev_action(m: GitAppModel, kind: Seq<char>) -> (GitAppModel, ActionModel) {
    if kind == "discard"@ {
        (
            m,
            match m.row(Focus::Unstaged, 0) {
                Some(c) => ActionModel::Discard(c.path, c.untracked()),
                None => ActionModel::Refresh,
            },
        )
    } else if kind == "open"@ {
        (m, ActionModel::OpenDialog)
    } else if kind == "diff"@ {
        (m, ActionModel::Select(Focus::Unstaged, Some(0usize)))
    } else if kind == "history"@ {
        (
            GitAppModel { screen: Screen::History, ..m },
            ActionModel::Select(Focus::History, Some(0usize)),
        )
    } else if kind == "branch"@ {
        (m, ActionModel::BranchDialog)
    } else if kind == "error"@ {
        (m.noticed(false, "push"@), ActionModel::Refresh)
    } else if kind == "success"@ {
        (m.noticed(true, "commit // example"@), ActionModel::Refresh)
    } else {
        (m, ActionModel::Refresh)
    }
}

impl GitAppModel {
    /// The next notice comes on screen when no dialog is there.
    pub open spec fn announced(self) -> GitAppModel {
        if self.dialog is None && self.notice_queue.len() > 0 {
            let (success, line) = self.notice_queue[0];
            GitAppModel {
                dialog: Some(
                    OpenDialogModel {
                        state: DialogStateModel::Notice { success, line },
                        closing: false,
                    },
                ),
                notice_queue: self.notice_queue.drop_first(),
                ..self
            }
        } else {
            self
        }
    }

    /// What the environment asks for, once nothing is in flight.
    pub open spec fn dev_asked(self) -> (GitAppModel, Seq<ActionModel>) {
        match self.dev_dialog {
            Some(kind) => if self.git.is_busy() {
                (self, seq![])
            } else {
                let (m, action) = dev_action(GitAppModel { dev_dialog: None, ..self }, kind);
                (m, seq![action])
            },
            None => (self, seq![]),
        }
    }

    /// The state at the start of a frame, and the actions that come before any input.
    pub open spec fn frame(self) -> (GitAppModel, Seq<ActionModel>) {
        let announced = self.announced();
        let counted = GitAppModel {
            dev_frame: (announced.dev_frame + 1) as u32,
            ..announced
        };
        let (m, actions) = counted.dev_asked();
        if m.dev_close_frame == Some(m.dev_frame) && m.dialog is Some {
            (m, actions.push(ActionModel::CloseDialog))
        } else {
            (m, actions)
        }
    }
}

impl GitApp {
    /// Build the app without opening anything. `t` is how long the application has been up, as
    /// text.
    pub fn with_context(settings: Settings, dev: Dev, now: i64, t: &str) -> (app: GitApp)
        ensures
            app@ == started(settings@, dev@, now, t@),
            app@.valid(),
    {
        let ghost start = blank(settings@, dev@, now);
        let ghost d = dev@;
        let agent = settings.agent;
        let dev_close_frame = match &dev.close_frame {
            Some(s) => read_u32(chars_of(s.as_str()).as_slice()),
            None => None,
        };
        let mut app = GitApp {
            git: Git::new(),
            repo: None,
            recent: Vec::new(),
            status: Status::default(),
            commits: Vec::new(),
            graph: Vec::new(),
            refs: Vec::new(),
            screen: Screen::Changes,
            focus: Focus::Unstaged,
            unstaged: Vec::new(),
            staged: Vec::new(),
            unstaged_table: TableState::default(),
            staged_table: TableState::default(),
            hist_table: TableState::default(),
            detail: None,
            detail_table: TableState::default(),
            diff: None,
            diff_want: None,
            commit_msg: String::new(),
            log: Vec::new(),
            dialog: None,
            notice_queue: Vec::new(),
            last_error: None,
            dev_dialog: dev.dialog,
            dev_frame: 0,
            dev_close_frame,
            settings,
            now,
        };
        assert(notices(app.notice_queue@) =~= seq![]);
        assert(app@ == start);
        assert(rows(Seq::<ChangeModel>::empty(), false) =~= seq![]);
        assert(rows(Seq::<ChangeModel>::empty(), true) =~= seq![]);
        assert(graph_rows(Seq::<CommitModel>::empty()) =~= seq![]);
        app.push_log(t, owned("git console online"), Level::Good);
        if agent {
            app.push_log(t, owned("agent // interface on :: waiting for a client"), Level::Warn);
        }
        match dev.log {
            Some(text) => app.push_log(t, text, Level::Danger),
            None => {},
        }
        app
    }

    /// Production entry point: settings and the recent list as they were read from disk.
    pub fn new(
        settings: Settings,
        dev: Dev,
        now: i64,
        t: &str,
        recent: Option<String>,
    ) -> (app: GitApp)
        ensures
            app@ == (GitAppModel {
                recent: match opt_model(recent) {
                    Some(text) => recent_in(text),
                    None => seq![],
                },
                ..started(settings@, dev@, now, t@)
            }),
            app@.valid(),
    {
        let mut app = GitApp::with_context(settings, dev, now, t);
        match recent {
            Some(text) => {
                app.recent = read_recent(text.as_str());
            },
            None => {},
        }
        assert(models(app.recent@) =~= match opt_model(recent) {
            Some(text) => recent_in(text),
            None => seq![],
        });
        app
    }

    /// The repository to open first: `given` says that one was asked for, `here` that the current
    /// directory is known.
    pub fn start(&self, given: bool, here: bool) -> (r: Option<Start>)
        ensures
            opt_model(r) == first_of(self@.recent, given, here),
    {
        if given {
            Some(Start::Given)
        } else if self.recent.len() > 0 {
            Some(Start::Recent(self.recent[0].clone()))
        } else if here {
            Some(Start::Here)
        } else {
            None
        }
    }

    fn announce(&mut self)
        ensures
            final(self)@ == old(self)@.announced(),
    {
        if self.dialog.is_none() && self.notice_queue.len() > 0 {
            let ghost before = self.notice_queue@;
            let (success, line) = self.notice_queue.remove(0);
            assert(notices(before)[0] == (success, line@));
            assert(notices(self.notice_queue@) =~= notices(before).drop_first());
            self.dialog = Some(
                OpenDialog { state: DialogState::Notice { success, line }, closing: false },
            );
        }
    }

    fn dev_ask(&mut self, kind: String) -> (r: Action)
        requires
            old(self)@.valid(),
        ensures
            (final(self)@, r@) == dev_action(old(self)@, kind@),
            final(self)@.valid(),
    {
        if kind == owned("discard") {
            match self.change_at(Focus::Unstaged, 0) {
                Some(c) => Action::Discard(c.path.clone(), c.is_untracked()),
                None => Action::Refresh,
            }
        } else if kind == owned("open") {
            Action::OpenDialog
        } else if kind == owned("diff") {
            Action::Select(Focus::Unstaged, Some(0))
        } else if kind == owned("history") {
            self.screen = Screen::History;
            Action::Select(Focus::History, Some(0))
        } else if kind == owned("branch") {
            Action::BranchDialog
        } else if kind == owned("error") {
            self.notice(false, owned("push"));
            Action::Refresh
        } else if kind == owned("success") {
            self.notice(true, owned("commit // example"));
            Action::Refresh
        } else {
            Action::Refresh
        }
    }

    /// The start of a frame, once the messages are in: the next notice, and what the environment
    /// asks for.
    pub fn begin_frame(&mut self) -> (r: Vec<Action>)
        requires
            old(self)@.valid(),
            old(self).dev_frame < u32::MAX,
        ensures
            (final(self)@, models(r@)) == old(self)@.frame(),
            final(self)@.valid(),
    {
        let mut actions: Vec<Action> = Vec::new();
        self.announce();
        self.dev_frame = self.dev_frame + 1;
        let ghost counted = self@;
        if !self.git.busy() {
            match self.dev_dialog.take() {
                Some(kind) => {
                    assert(self@ == (GitAppModel { dev_dialog: None, ..counted }));
                    let action = self.dev_ask(kind);
                    actions.push(action);
                },
                None => {},
            }
        }
        assert((self@, models(actions@)) == counted.dev_asked()) by {
            assert(models(actions@) =~= counted.dev_asked().1);
        }
        let close = match self.dev_close_frame {
            Some(frame) => frame == self.dev_frame,
            None => false,
        };
        if close && self.dialog.is_some() {
            actions.push(Action::CloseDialog);
        }
        actions
    }
}

} // verus!
