//! What the agent interface may do, and what it is told.

use vstd::prelude::*;

use crate::app::state::{
    rows_facts, DialogState, DialogStateModel, EventModel, Focus, GitApp, GitAppModel, OpenDialog,
    Screen,
};
use crate::git::command::{DiffKey, DiffKeyModel};
use crate::git::log::{cuts_at, head_text};
use crate::number::{decimal, decimal_text};
use crate::text::{concat, group_models, join, join_texts, models, opt_model};
use crate::words::{quoted, quoted_text, upper_text, uppercase};

verus! {

broadcast use group_models;

/// The texts that the report holds in another form: quoted, or in upper case.
pub struct Words {
    /// The commit message.
    pub message: String,
    /// The hash of the commit whose diff is on screen.
    pub hash: String,
    /// The path whose diff is on screen.
    pub path: String,
    /// What was typed into the dialog.
    pub input: String,
    /// The title of the dialog.
    pub title: String,
}

/// The contents of a [`Words`].
pub struct WordsModel {
    pub message: Seq<char>,
    pub hash: Seq<char>,
    pub path: Seq<char>,
    pub input: Seq<char>,
    pub title: Seq<char>,
}

impl View for Words {
    type V = WordsModel;

    open spec fn view(&self) -> WordsModel {
        WordsModel {
            message: self.message@,
            hash: self.hash@,
            path: self.path@,
            input: self.input@,
            title: self.title@,
        }
    }
}

/// The hash and the path that a diff is of.
pub open spec fn key_texts(key: DiffKeyModel) -> (Seq<char>, Seq<char>) {
    match key {
        DiffKeyModel::Unstaged(p) => (seq![], p),
        DiffKeyModel::Staged(p) => (seq![], p),
        DiffKeyModel::Commit(h, p) => (h, p),
    }
}

impl GitAppModel {
    pub open spec fn typed(self) -> Seq<char> {
        match self.dialog {
            Some(d) => match d.state {
                DialogStateModel::Open { input, .. } => input,
                DialogStateModel::Branch { input, .. } => input,
                _ => seq![],
            },
            None => seq![],
        }
    }

    pub open spec fn asked_title(self) -> Seq<char> {
        match self.dialog {
            Some(d) => match d.state {
                DialogStateModel::Confirm(c) => c.title,
                _ => seq![],
            },
            None => seq![],
        }
    }

    /// The texts that the report holds in another form.
    pub open spec fn words(self) -> WordsModel {
        let key = match self.diff {
            Some((key, _)) => key_texts(key),
            None => (seq![], seq![]),
        };
        WordsModel {
            message: quoted_text(self.commit_msg),
            hash: quoted_text(key.0),
            path: quoted_text(key.1),
            input: quoted_text(self.typed()),
            title: upper_text(self.asked_title()),
        }
    }
}

pub open spec fn screen_name(screen: Screen) -> Seq<char> {
    match screen {
        Screen::Changes => "Changes"@,
        Screen::History => "History"@,
    }
}

pub open spec fn repo_line(m: GitAppModel) -> Seq<char> {
    match m.repo {
        Some(r) => "repo: "@ + r + " :: branch "@ + m.status.branch + " :: upstream "@ + (
        if m.status.upstream.len() == 0 {
            "-"@
        } else {
            m.status.upstream
        }) + " :: ahead "@ + decimal(m.status.ahead as nat) + " behind "@ + decimal(
            m.status.behind as nat,
        ) + "\n"@,
        None => "repo: none (OPEN or Cmd+O)\n"@,
    }
}

pub open spec fn view_line(m: GitAppModel) -> Seq<char> {
    "view: "@ + screen_name(m.screen) + " :: unstaged "@ + decimal(m.unstaged.len())
        + " :: staged "@ + decimal(m.staged.len()) + " :: commits "@ + decimal(m.commits.len())
        + "\n"@
}

/// The paths in a list, the first thirty.
pub open spec fn some_paths(m: GitAppModel, focus: Focus) -> Seq<Seq<char>> {
    let list = m.list(focus);
    let n = if list.len() < 30 {
        list.len() as int
    } else {
        30
    };
    Seq::new(n as nat, |r: int| m.status.changes[list[r] as int].path)
}

pub open spec fn list_lines(m: GitAppModel, name: Seq<char>, focus: Focus) -> Seq<char> {
    name + ": "@ + join(some_paths(m, focus), ", "@) + "\n"@ + match m.chosen(focus) {
        Some(c) => name + " selected: "@ + c.path + "\n"@,
        None => seq![],
    }
}

pub open spec fn commit_line(m: GitAppModel) -> Seq<char> {
    match m.chosen_commit() {
        Some(c) => "selected commit: "@ + head_text(c.hash, 8) + " "@ + c.subject + "\n"@,
        None => seq![],
    }
}

/// How `Debug` writes a key, from its quoted texts.
pub open spec fn key_text(key: DiffKeyModel, w: WordsModel) -> Seq<char> {
    match key {
        DiffKeyModel::Unstaged(_) => "Unstaged("@ + w.path + ")"@,
        DiffKeyModel::Staged(_) => "Staged("@ + w.path + ")"@,
        DiffKeyModel::Commit(_, _) => "Commit("@ + w.hash + ", "@ + w.path + ")"@,
    }
}

pub open spec fn diff_line(m: GitAppModel, w: WordsModel) -> Seq<char> {
    match m.diff {
        Some((key, d)) => "diff: "@ + key_text(key, w) + " :: +"@ + decimal(d.adds as nat) + " -"@
            + decimal(d.dels as nat) + "\n"@,
        None => seq![],
    }
}

/// A line that is there only with a text.
pub open spec fn opt_line(name: Seq<char>, text: Option<Seq<char>>) -> Seq<char> {
    match text {
        Some(s) => name + s + "\n"@,
        None => seq![],
    }
}

pub open spec fn message_line(m: GitAppModel, w: WordsModel) -> Seq<char> {
    opt_line(
        "commit message: "@,
        if m.commit_msg.len() > 0 {
            Some(w.message)
        } else {
            None
        },
    )
}

pub open spec fn dialog_lines(m: GitAppModel, w: WordsModel) -> Seq<char> {
    match m.dialog {
        Some(d) => if d.closing {
            seq![]
        } else {
            match d.state {
                DialogStateModel::Confirm(c) => "dialog: CONFIRM "@ + w.title + " :: "@ + c.line
                    + " :: git "@ + join(c.args, " "@) + " :: buttons CANCEL / "@ + c.verb
                    + "\n"@,
                DialogStateModel::Notice { success, line } => "dialog: "@ + (if success {
                    "SUCCESS"@
                } else {
                    "ERROR"@
                }) + " :: "@ + line + " :: press ACKNOWLEDGE\n"@,
                DialogStateModel::Open { error, .. } => "dialog: OPEN REPOSITORY :: input "@
                    + w.input + "\n"@ + opt_line("  error: "@, error),
                DialogStateModel::Branch { .. } => "dialog: NEW BRANCH :: input "@ + w.input
                    + "\n"@,
            }
        },
        None => seq![],
    }
}

pub open spec fn event_line(e: EventModel) -> Seq<char> {
    "  "@ + e.time + " "@ + e.text + "\n"@
}

/// The last six lines of the log.
pub open spec fn log_lines(log: Seq<EventModel>) -> Seq<char> {
    let skip = if log.len() > 6 {
        log.len() - 6
    } else {
        0
    };
    "log (latest last):\n"@ + concat(
        log.skip(skip).map_values(|e: EventModel| event_line(e)),
    )
}

/// What the agent is told.
pub open spec fn report(m: GitAppModel, w: WordsModel) -> Seq<char> {
    repo_line(m) + view_line(m) + list_lines(m, "unstaged"@, Focus::Unstaged) + list_lines(
        m,
        "staged"@,
        Focus::Staged,
    ) + commit_line(m) + diff_line(m, w) + message_line(m, w) + opt_line(
        "running: "@,
        m.git.running,
    ) + opt_line("last error: "@, m.last_error) + dialog_lines(m, w) + log_lines(m.log)
}

fn add_number(s: &mut String, n: usize)
    ensures
        final(s)@ == old(s)@ + decimal(n as nat),
{
    s.append(decimal_text(n as u128).as_str());
}

fn add_opt_line(s: &mut String, name: &str, text: Option<&str>)
    ensures
        final(s)@ == old(s)@ + opt_line(name@, opt_model(text)),
{
    let ghost before = s@;
    match text {
        Some(x) => {
            s.append(name);
            s.append(x);
            s.append("\n");
        },
        None => {},
    }
    assert(s@ =~= before + opt_line(name@, opt_model(text)));
}

impl GitApp {
    /// The buttons that the agent may not press: the one that confirms, unless the settings let
    /// it.
    pub fn agent_blocked(&self) -> (r: Vec<String>)
        ensures
            models(r@) == blocked(self@),
    {
        let mut out: Vec<String> = Vec::new();
        match &self.dialog {
            Some(OpenDialog { state: DialogState::Confirm(c), closing }) => {
                if !*closing && !self.settings.agent_confirm {
                    out.push(c.verb.clone());
                }
            },
            _ => {},
        }
        assert(models(out@) =~= blocked(self@));
        out
    }

    fn add_repo_line(&self, s: &mut String)
        ensures
            final(s)@ == old(s)@ + repo_line(self@),
    {
        let ghost before = s@;
        match &self.repo {
            Some(r) => {
                s.append("repo: ");
                s.append(r.as_str());
                s.append(" :: branch ");
                s.append(self.status.branch.as_str());
                s.append(" :: upstream ");
                if self.status.upstream.as_str().is_empty() {
                    s.append("-");
                } else {
                    s.append(self.status.upstream.as_str());
                }
                s.append(" :: ahead ");
                s.append(decimal_text(self.status.ahead as u128).as_str());
                s.append(" behind ");
                s.append(decimal_text(self.status.behind as u128).as_str());
                s.append("\n");
            },
            None => {
                s.append("repo: none (OPEN or Cmd+O)\n");
            },
        }
        assert(s@ =~= before + repo_line(self@));
    }

    fn add_view_line(&self, s: &mut String)
        ensures
            final(s)@ == old(s)@ + view_line(self@),
    {
        let ghost before = s@;
        s.append("view: ");
        match self.screen {
            Screen::Changes => s.append("Changes"),
            Screen::History => s.append("History"),
        }
        s.append(" :: unstaged ");
        add_number(s, self.unstaged.len());
        s.append(" :: staged ");
        add_number(s, self.staged.len());
        s.append(" :: commits ");
        add_number(s, self.commits.len());
        s.append("\n");
        assert(s@ =~= before + view_line(self@));
    }

    fn first_paths(&self, focus: Focus) -> (r: Vec<String>)
        requires
            self@.valid(),
        ensures
            models(r@) == some_paths(self@, focus),
    {
        proof {
            rows_facts(self@.status.changes, false);
            rows_facts(self@.status.changes, true);
        }
        let mut out: Vec<String> = Vec::new();
        let list = match focus {
            Focus::Unstaged => &self.unstaged,
            Focus::Staged => &self.staged,
            Focus::History => {
                assert(models(out@) =~= some_paths(self@, focus));
                return out;
            },
        };
        let n: usize = if list.len() < 30 {
            list.len()
        } else {
            30
        };
        let mut r: usize = 0;
        while r < n
            invariant
                r <= n <= list@.len(),
                list@ == self@.list(focus),
                out@.len() == r,
                forall|k: int| 0 <= k < list@.len() ==> (#[trigger] list@[k])
                    < self.status.changes@.len(),
                forall|k: int|
                    0 <= k < r ==> (#[trigger] out@[k])@
                        == self@.status.changes[list@[k] as int].path,
            decreases n - r,
        {
            let i: usize = list[r];
            out.push(self.status.changes[i].path.clone());
            r += 1;
        }
        assert(models(out@) =~= some_paths(self@, focus));
        out
    }

    #[verifier::spinoff_prover]
    #[verifier::rlimit(40)]
    fn add_list_lines(&self, s: &mut String, name: &str, focus: Focus)
        requires
            self@.valid(),
        ensures
            final(s)@ == old(s)@ + list_lines(self@, name@, focus),
    {
        let ghost before = s@;
        s.append(name);
        s.append(": ");
        s.append(join_texts(&self.first_paths(focus), ", ").as_str());
        s.append("\n");
        let ghost line = name@ + ": "@ + join(some_paths(self@, focus), ", "@) + "\n"@;
        assert(s@ =~= before + line);
        match self.selected_change(focus) {
            Some(c) => {
                s.append(name);
                s.append(" selected: ");
                s.append(c.path.as_str());
                s.append("\n");
                assert(s@ =~= before + (line + (name@ + " selected: "@ + c.path@ + "\n"@)));
            },
            None => {
                assert(s@ =~= before + (line + Seq::empty()));
            },
        }
    }

    fn add_commit_line(&self, s: &mut String)
        requires
            self@.chosen_commit() is Some ==> cuts_at(self@.chosen_commit().unwrap().hash, 8),
        ensures
            final(s)@ == old(s)@ + commit_line(self@),
    {
        let ghost before = s@;
        match self.selected_commit() {
            Some(c) => {
                s.append("selected commit: ");
                s.append(c.short());
                s.append(" ");
                s.append(c.subject.as_str());
                s.append("\n");
            },
            None => {},
        }
        assert(s@ =~= before + commit_line(self@));
    }

    fn add_diff_line(&self, s: &mut String, w: &Words)
        ensures
            final(s)@ == old(s)@ + diff_line(self@, w@),
    {
        let ghost before = s@;
        match &self.diff {
            Some((key, d)) => {
                s.append("diff: ");
                match key {
                    DiffKey::Unstaged(_) => s.append("Unstaged("),
                    DiffKey::Staged(_) => s.append("Staged("),
                    DiffKey::Commit(_, _) => {
                        s.append("Commit(");
                        s.append(w.hash.as_str());
                        s.append(", ");
                    },
                }
                s.append(w.path.as_str());
                s.append(")");
                s.append(" :: +");
                add_number(s, d.adds);
                s.append(" -");
                add_number(s, d.dels);
                s.append("\n");
            },
            None => {},
        }
        assert(s@ =~= before + diff_line(self@, w@));
    }

    fn add_dialog_lines(&self, s: &mut String, w: &Words)
        ensures
            final(s)@ == old(s)@ + dialog_lines(self@, w@),
    {
        let ghost before = s@;
        match &self.dialog {
            Some(d) => {
                if !d.closing {
                    match &d.state {
                        DialogState::Confirm(c) => {
                            s.append("dialog: CONFIRM ");
                            s.append(w.title.as_str());
                            s.append(" :: ");
                            s.append(c.line.as_str());
                            s.append(" :: git ");
                            s.append(join_texts(&c.args, " ").as_str());
                            s.append(" :: buttons CANCEL / ");
                            s.append(c.verb.as_str());
                            s.append("\n");
                        },
                        DialogState::Notice { success, line } => {
                            s.append("dialog: ");
                            if *success {
                                s.append("SUCCESS");
                            } else {
                                s.append("ERROR");
                            }
                            s.append(" :: ");
                            s.append(line.as_str());
                            s.append(" :: press ACKNOWLEDGE\n");
                        },
                        DialogState::Open { error, .. } => {
                            s.append("dialog: OPEN REPOSITORY :: input ");
                            s.append(w.input.as_str());
                            s.append("\n");
                            add_opt_line(
                                s,
                                "  error: ",
                                match error {
                                    Some(e) => Some(e.as_str()),
                                    None => None,
                                },
                            );
                        },
                        DialogState::Branch { .. } => {
                            s.append("dialog: NEW BRANCH :: input ");
                            s.append(w.input.as_str());
                            s.append("\n");
                        },
                    }
                }
            },
            None => {},
        }
        assert(s@ =~= before + dialog_lines(self@, w@));
    }

    fn add_log_lines(&self, s: &mut String)
        ensures
            final(s)@ == old(s)@ + log_lines(self@.log),
    {
        let ghost before = s@;
        s.append("log (latest last):\n");
        let skip: usize = self.log.len().saturating_sub(6);
        let ghost head = s@;
        let ghost shown = self@.log.skip(skip as int).map_values(|e: EventModel| event_line(e));
        let mut i: usize = skip;
        assert(s@ =~= head + concat(shown.take(0)));
        while i < self.log.len()
            invariant
                skip <= i <= self.log@.len(),
                shown == self@.log.skip(skip as int).map_values(|e: EventModel| event_line(e)),
                s@ == head + concat(shown.take(i - skip)),
            decreases self.log@.len() - i,
        {
            let ghost last = s@;
            let e = &self.log[i];
            s.append("  ");
            s.append(e.time.as_str());
            s.append(" ");
            s.append(e.text.as_str());
            s.append("\n");
            assert(shown.take(i + 1 - skip).drop_last() =~= shown.take(i - skip));
            assert(shown.take(i + 1 - skip).last() == event_line(e@));
            assert(s@ =~= last + event_line(e@));
            assert(s@ =~= head + concat(shown.take(i + 1 - skip)));
            i += 1;
        }
        assert(shown.take(shown.len() as int) =~= shown);
        assert(s@ =~= before + log_lines(self@.log));
    }

    /// What the agent is told, from the texts in the form that it holds.
    pub fn report(&self, w: &Words) -> (r: String)
        requires
            self@.valid(),
            self@.chosen_commit() is Some ==> cuts_at(self@.chosen_commit().unwrap().hash, 8),
        ensures
            r@ == report(self@, w@),
    {
        let mut s = String::new();
        self.add_repo_line(&mut s);
        self.add_view_line(&mut s);
        self.add_list_lines(&mut s, "unstaged", Focus::Unstaged);
        self.add_list_lines(&mut s, "staged", Focus::Staged);
        self.add_commit_line(&mut s);
        self.add_diff_line(&mut s, w);
        let message: Option<&str> = if self.commit_msg.as_str().is_empty() {
            None
        } else {
            Some(w.message.as_str())
        };
        add_opt_line(&mut s, "commit message: ", message);
        add_opt_line(&mut s, "running: ", self.git.running());
        let error: Option<&str> = match &self.last_error {
            Some(e) => Some(e.as_str()),
            None => None,
        };
        add_opt_line(&mut s, "last error: ", error);
        self.add_dialog_lines(&mut s, w);
        self.add_log_lines(&mut s);
        assert(Seq::<char>::empty() + repo_line(self@) =~= repo_line(self@));
        s
    }

    /// What the agent is told of the application.
    pub fn agent_state(&self) -> (r: String)
        requires
            self@.valid(),
            self@.chosen_commit() is Some ==> cuts_at(self@.chosen_commit().unwrap().hash, 8),
        ensures
            r@ == report(self@, self@.words()),
    {
        let (hash, path) = match &self.diff {
            Some((DiffKey::Unstaged(p), _)) => ("", p.as_str()),
            Some((DiffKey::Staged(p), _)) => ("", p.as_str()),
            Some((DiffKey::Commit(h, p), _)) => (h.as_str(), p.as_str()),
            None => ("", ""),
        };
        let (input, title) = match &self.dialog {
            Some(d) => match &d.state {
                DialogState::Confirm(c) => ("", c.title.as_str()),
                DialogState::Notice { .. } => ("", ""),
                DialogState::Open { input, .. } => (input.as_str(), ""),
                DialogState::Branch { input, .. } => (input.as_str(), ""),
            },
            None => ("", ""),
        };
        proof {
            reveal_strlit("");
            assert(""@ =~= Seq::<char>::empty());
        }
        let w = Words {
            message: quoted(self.commit_msg.as_str()),
            hash: quoted(hash),
            path: quoted(path),
            input: quoted(input),
            title: uppercase(title),
        };
        self.report(&w)
    }
}

/// The buttons that the agent may not press.
pub open spec fn blocked(m: GitAppModel) -> Seq<Seq<char>> {
    match m.dialog {
        Some(d) => match d.state {
            DialogStateModel::Confirm(c) => if !d.closing && !m.settings.agent_confirm {
                seq![c.verb]
            } else {
                seq![]
            },
            _ => seq![],
        },
        None => seq![],
    }
}

} // verus!
