//! Opening a repository.

use vstd::prelude::*;

use crate::app::run::still;
use crate::app::select::Step;
use crate::app::state::{
    no_selection, rows, DialogState, DialogStateModel, Effect, EffectModel, GitApp, GitAppModel,
    Level, OpenDialog, OpenDialogModel, TableState, RECENT_MAX,
};
use crate::git::graph::graph_rows;
use crate::git::log::CommitModel;
use crate::git::status::{empty_status, ChangeModel, Status};
use crate::git::worker::res_model;
use crate::path::{same, same_path};
use crate::text::{
    cat2, chars_of, clone_opt, clone_texts, concat, group_models, lines, lines_of, models, owned,
    pieces, text_of, trim, trimmed,
};
use vstd::utf8::encode_utf8;

verus! {

broadcast use group_models;

/// The list of recent repositories with one in front: it is there once, and there are not too
/// many.
pub open spec fn remembered(recent: Seq<Seq<char>>, repo: Seq<char>) -> Seq<Seq<char>> {
    let all = seq![repo] + recent.filter(|r: Seq<char>| !same_path(r, repo));
    if all.len() > RECENT_MAX {
        all.take(RECENT_MAX as int)
    } else {
        all
    }
}

/// The list of recent repositories as it is written: a line each.
pub open spec fn recent_text(recent: Seq<Seq<char>>) -> Seq<char> {
    concat(recent.map_values(|p: Seq<char>| p + "\n"@))
}

/// The list of recent repositories that a text holds: its lines that are not empty.
pub open spec fn recent_in(text: Seq<char>) -> Seq<Seq<char>> {
    lines(text).filter(|l: Seq<char>| l.len() > 0)
}

impl GitAppModel {
    /// Another repository is open: nothing of it is known yet.
    pub open spec fn at_repo(self, top: Seq<char>) -> GitAppModel {
        GitAppModel {
            repo: Some(top),
            recent: remembered(self.recent, top),
            status: empty_status(),
            commits: seq![],
            graph: seq![],
            refs: seq![],
            unstaged: seq![],
            staged: seq![],
            unstaged_table: no_selection(),
            staged_table: no_selection(),
            hist_table: no_selection(),
            detail: None,
            diff: None,
            diff_want: None,
            commit_msg: seq![],
            last_error: None,
            ..self
        }
    }

    /// The repository around `path` was looked for. The one that is open already is read again;
    /// another one is opened; where there is none, the dialog that asked for the path says why,
    /// or else a notice.
    #[verifier::opaque]
    pub open spec fn after_open(
        self,
        t: Seq<char>,
        path: Seq<char>,
        top: Result<Seq<char>, Seq<char>>,
    ) -> Step {
        match top {
            Ok(top) => if self.repo is Some && same_path(self.repo.unwrap(), top) {
                self.refreshed()
            } else {
                let fresh = self.logged(t, "open // "@ + top, Level::Good).at_repo(top);
                let step = fresh.refreshed();
                Step {
                    app: step.app,
                    effects: seq![EffectModel::SaveRecent(recent_text(fresh.recent))]
                        + step.effects,
                }
            },
            Err(e) => match self.dialog {
                Some(d) => match d.state {
                    DialogStateModel::Open { input, focus, suggestions, suggested_for, .. } =>
                        still(
                            GitAppModel {
                                dialog: Some(
                                    OpenDialogModel {
                                        state: DialogStateModel::Open {
                                            input,
                                            error: Some(e),
                                            focus,
                                            suggestions,
                                            suggested_for,
                                        },
                                        closing: d.closing,
                                    },
                                ),
                                ..self
                            },
                        ),
                    _ => still(self.failed(t, "open // "@ + path, e)),
                },
                None => still(self.failed(t, "open // "@ + path, e)),
            },
        }
    }

    /// The dialog that asks for a path is open, without an error.
    pub open spec fn asks_path(self) -> bool {
        match self.dialog {
            Some(d) => match d.state {
                DialogStateModel::Open { error, .. } => error is None,
                _ => false,
            },
            None => false,
        }
    }

    /// The repository around the path in the dialog was looked for. Still open with an error: the
    /// path was not in a repository.
    pub open spec fn after_confirm_open(
        self,
        t: Seq<char>,
        path: Seq<char>,
        top: Result<Seq<char>, Seq<char>>,
    ) -> Step {
        let step = self.after_open(t, path, top);
        if step.app.asks_path() {
            Step { app: step.app.dialog_closing(), effects: step.effects }
        } else {
            step
        }
    }

    /// The dialog that asks for a path, starting with the repository that is open.
    pub open spec fn open_dialog(self) -> GitAppModel {
        self.with_dialog(
            DialogStateModel::Open {
                input: match self.repo {
                    Some(r) => r + "/"@,
                    None => "~/"@,
                },
                error: None,
                focus: true,
                suggestions: seq![],
                suggested_for: "\0"@,
            },
        )
    }

    /// A longer path takes the place of what was typed.
    pub open spec fn with_input(self, filled: Seq<char>) -> GitAppModel {
        match self.dialog {
            Some(d) => match d.state {
                DialogStateModel::Open { input, error, focus, suggestions, suggested_for } =>
                    if !d.closing && encode_utf8(filled).len() > encode_utf8(input).len() {
                        GitAppModel {
                            dialog: Some(
                                OpenDialogModel {
                                    state: DialogStateModel::Open {
                                        input: filled,
                                        error,
                                        focus,
                                        suggestions,
                                        suggested_for,
                                    },
                                    ..d
                                },
                            ),
                            ..self
                        }
                    } else {
                        self
                    },
                _ => self,
            },
            None => self,
        }
    }

    /// What was typed is completed: one suggestion as it is, several by what they have in common.
    #[verifier::opaque]
    pub open spec fn completing(self) -> Step {
        match self.dialog {
            Some(d) => match d.state {
                DialogStateModel::Open { suggestions, .. } => if d.closing || suggestions.len()
                    == 0 {
                    still(self)
                } else if suggestions.len() == 1 {
                    still(self.with_input(suggestions[0]))
                } else {
                    Step { app: self, effects: seq![EffectModel::CommonPrefix(suggestions)] }
                },
                _ => still(self),
            },
            None => still(self),
        }
    }

    /// The repository around what was typed is to be looked for.
    #[verifier::opaque]
    pub open spec fn confirming_open(self) -> Step {
        match self.dialog {
            Some(d) => match d.state {
                DialogStateModel::Open { input, .. } => if d.closing {
                    still(self)
                } else {
                    Step {
                        app: self,
                        effects: seq![EffectModel::Expand { input: trim(input), cwd: self.repo }],
                    }
                },
                _ => still(self),
            },
            None => still(self),
        }
    }
}

/// Copies of the paths that are not the same as `repo`.
fn other_paths(recent: &Vec<String>, repo: &String) -> (r: Vec<String>)
    ensures
        models(r@) == models(recent@).filter(|r: Seq<char>| !same_path(r, repo@)),
{
    let mut out: Vec<String> = Vec::new();
    let mut i: usize = 0;
    let ghost all = models(recent@);
    let ghost other = |r: Seq<char>| !same_path(r, repo@);
    assert(models(out@) =~= all.take(0).filter(other)) by {
        reveal(Seq::filter);
    }
    while i < recent.len()
        invariant
            i <= recent@.len(),
            all == models(recent@),
            other == (|r: Seq<char>| !same_path(r, repo@)),
            models(out@) == all.take(i as int).filter(other),
        decreases recent@.len() - i,
    {
        assert(all.take(i + 1).drop_last() =~= all.take(i as int));
        assert(all.take(i + 1).last() == recent@[i as int]@);
        assert(all.take(i + 1).filter(other) == if other(recent@[i as int]@) {
            all.take(i as int).filter(other).push(recent@[i as int]@)
        } else {
            all.take(i as int).filter(other)
        }) by {
            reveal(Seq::filter);
        }
        if !same(recent[i].as_str(), repo.as_str()) {
            out.push(recent[i].clone());
        }
        i += 1;
    }
    assert(all.take(all.len() as int) =~= all);
    out
}

/// The list of recent repositories as it is written.
fn text_of_recent(recent: &Vec<String>) -> (r: String)
    ensures
        r@ == recent_text(models(recent@)),
{
    let mut out = String::new();
    let mut i: usize = 0;
    let ghost all = models(recent@).map_values(|p: Seq<char>| p + "\n"@);
    while i < recent.len()
        invariant
            i <= recent@.len(),
            all == models(recent@).map_values(|p: Seq<char>| p + "\n"@),
            out@ == concat(all.take(i as int)),
        decreases recent@.len() - i,
    {
        assert(all.take(i + 1).drop_last() =~= all.take(i as int));
        let line = cat2(recent[i].as_str(), "\n");
        assert(all.take(i + 1).last() == line@);
        out.append(line.as_str());
        i += 1;
    }
    assert(all.take(all.len() as int) =~= all);
    out
}

/// The list of recent repositories that a text holds.
pub fn read_recent(text: &str) -> (r: Vec<String>)
    ensures
        models(r@) == recent_in(text@),
{
    let chars = chars_of(text);
    let ls = lines_of(chars.as_slice());
    let mut out: Vec<String> = Vec::new();
    let mut i: usize = 0;
    let ghost all = pieces(ls@);
    let ghost kept = |l: Seq<char>| l.len() > 0;
    assert(models(out@) =~= all.take(0).filter(kept)) by {
        reveal(Seq::filter);
    }
    while i < ls.len()
        invariant
            i <= ls@.len(),
            all == pieces(ls@),
            kept == (|l: Seq<char>| l.len() > 0),
            models(out@) == all.take(i as int).filter(kept),
        decreases ls@.len() - i,
    {
        assert(all.take(i + 1).drop_last() =~= all.take(i as int));
        assert(all.take(i + 1).last() == ls@[i as int]@);
        assert(all.take(i + 1).filter(kept) == if kept(ls@[i as int]@) {
            all.take(i as int).filter(kept).push(ls@[i as int]@)
        } else {
            all.take(i as int).filter(kept)
        }) by {
            reveal(Seq::filter);
        }
        if ls[i].len() > 0 {
            out.push(text_of(ls[i]));
        }
        i += 1;
    }
    assert(all.take(all.len() as int) =~= all);
    out
}

impl GitApp {
    /// Puts a repository in front of the recent ones; what is to be written of them.
    pub fn remember(&mut self, repo: &String) -> (r: String)
        ensures
            final(self)@ == (GitAppModel {
                recent: remembered(old(self)@.recent, repo@),
                ..old(self)@
            }),
            r@ == recent_text(final(self)@.recent),
    {
        let mut all: Vec<String> = Vec::new();
        all.push(repo.clone());
        let mut others = other_paths(&self.recent, repo);
        let ghost rest = models(others@);
        all.append(&mut others);
        assert(models(all@) =~= seq![repo@] + rest);
        if all.len() > RECENT_MAX {
            let ghost long = all@;
            all.truncate(RECENT_MAX);
            assert(models(all@) =~= models(long).take(RECENT_MAX as int));
        }
        self.recent = all;
        text_of_recent(&self.recent)
    }

    /// The repository around `path` was looked for: `top` is where its working tree starts, or
    /// why there is none.
    pub fn opened(&mut self, t: &str, path: &str, top: Result<String, String>) -> (r: Vec<Effect>)
        requires
            old(self)@.valid(),
            top is Ok ==> old(self).git.pending + 3 <= usize::MAX,
        ensures
            final(self)@ == old(self)@.after_open(t@, path@, res_model(top)).app,
            models(r@) == old(self)@.after_open(t@, path@, res_model(top)).effects,
            final(self)@.valid(),
    {
        reveal(GitAppModel::after_open);
        match top {
            Ok(top) => {
                let known = match &self.repo {
                    Some(r) => same(r.as_str(), top.as_str()),
                    None => false,
                };
                if known {
                    return self.refresh();
                }
                let ghost fresh = self@.logged(t@, "open // "@ + top@, Level::Good).at_repo(top@);
                self.push_log(t, cat2("open // ", top.as_str()), Level::Good);
                let text = self.remember(&top);
                self.repo = Some(top);
                self.status = Status::default();
                self.commits = Vec::new();
                self.graph = Vec::new();
                self.refs = Vec::new();
                self.unstaged = Vec::new();
                self.staged = Vec::new();
                self.unstaged_table = TableState::default();
                self.staged_table = TableState::default();
                self.hist_table = TableState::default();
                self.detail = None;
                self.diff = None;
                self.diff_want = None;
                self.commit_msg = String::new();
                self.last_error = None;
                assert(self@ == fresh);
                assert(rows(Seq::<ChangeModel>::empty(), false) =~= seq![]);
                assert(rows(Seq::<ChangeModel>::empty(), true) =~= seq![]);
                assert(graph_rows(Seq::<CommitModel>::empty()) =~= seq![]);
                let mut out: Vec<Effect> = Vec::new();
                out.push(Effect::SaveRecent(text));
                let mut more = self.refresh();
                let ghost asked = models(more@);
                out.append(&mut more);
                assert(models(out@) =~= seq![EffectModel::SaveRecent(recent_text(fresh.recent))]
                    + asked);
                out
            },
            Err(e) => {
                match self.dialog.take() {
                    Some(
                        OpenDialog {
                            state: DialogState::Open {
                                input,
                                focus,
                                suggestions,
                                suggested_for,
                                ..
                            },
                            closing,
                        },
                    ) => {
                        self.dialog = Some(
                            OpenDialog {
                                state: DialogState::Open {
                                    input,
                                    error: Some(e),
                                    focus,
                                    suggestions,
                                    suggested_for,
                                },
                                closing,
                            },
                        );
                    },
                    other => {
                        self.dialog = other;
                        self.fail(t, cat2("open // ", path), e.as_str());
                    },
                }
                Vec::new()
            },
        }
    }

    /// The repository around the path in the dialog, as it was expanded, was looked for.
    pub fn confirm_opened(
        &mut self,
        t: &str,
        path: &str,
        top: Result<String, String>,
    ) -> (r: Vec<Effect>)
        requires
            old(self)@.valid(),
            top is Ok ==> old(self).git.pending + 3 <= usize::MAX,
        ensures
            final(self)@ == old(self)@.after_confirm_open(t@, path@, res_model(top)).app,
            models(r@) == old(self)@.after_confirm_open(t@, path@, res_model(top)).effects,
            final(self)@.valid(),
    {
        let out = self.opened(t, path, top);
        let asks = match &self.dialog {
            Some(OpenDialog { state: DialogState::Open { error, .. }, .. }) => error.is_none(),
            _ => false,
        };
        if asks {
            self.close_dialog();
        }
        out
    }

    /// Opens the dialog that asks for a path.
    pub(crate) fn ask_path(&mut self)
        ensures
            final(self)@ == old(self)@.open_dialog(),
    {
        let input = match &self.repo {
            Some(r) => cat2(r.as_str(), "/"),
            None => owned("~/"),
        };
        let suggestions: Vec<String> = Vec::new();
        self.dialog = Some(
            OpenDialog {
                state: DialogState::Open {
                    input,
                    error: None,
                    focus: true,
                    suggestions,
                    suggested_for: owned("\0"),
                },
                closing: false,
            },
        );
    }

    /// What the suggestions have in common was found: where it is longer than what was typed, it
    /// takes its place.
    pub fn completed(&mut self, filled: String)
        ensures
            final(self)@ == old(self)@.with_input(filled@),
    {
        match self.dialog.take() {
            Some(
                OpenDialog {
                    state: DialogState::Open { input, error, focus, suggestions, suggested_for },
                    closing,
                },
            ) => {
                let longer = filled.as_str().as_bytes().len() > input.as_str().as_bytes().len();
                self.dialog = Some(
                    OpenDialog {
                        state: DialogState::Open {
                            input: if !closing && longer {
                                filled
                            } else {
                                input
                            },
                            error,
                            focus,
                            suggestions,
                            suggested_for,
                        },
                        closing,
                    },
                );
            },
            other => {
                self.dialog = other;
            },
        }
    }

    pub(crate) fn complete_open(&mut self) -> (r: Vec<Effect>)
        ensures
            final(self)@ == old(self)@.completing().app,
            models(r@) == old(self)@.completing().effects,
    {
        reveal(GitAppModel::completing);
        let mut out: Vec<Effect> = Vec::new();
        let suggestions = match &self.dialog {
            Some(OpenDialog { state: DialogState::Open { suggestions, .. }, closing }) => {
                if *closing || suggestions.len() == 0 {
                    return out;
                }
                clone_texts(suggestions)
            },
            _ => return out,
        };
        assert(suggestions@.len() == models(suggestions@).len());
        if suggestions.len() == 1 {
            let one = suggestions[0].clone();
            self.completed(one);
        } else {
            out.push(Effect::CommonPrefix(suggestions));
        }
        assert(models(out@) =~= old(self)@.completing().effects);
        out
    }

    pub(crate) fn confirm_open(&self) -> (r: Vec<Effect>)
        ensures
            self@ == self@.confirming_open().app,
            models(r@) == self@.confirming_open().effects,
    {
        reveal(GitAppModel::confirming_open);
        let mut out: Vec<Effect> = Vec::new();
        match &self.dialog {
            Some(OpenDialog { state: DialogState::Open { input, .. }, closing }) => {
                if !*closing {
                    out.push(
                        Effect::Expand {
                            input: trimmed(input.as_str()),
                            cwd: clone_opt(&self.repo),
                        },
                    );
                }
            },
            _ => {},
        }
        assert(models(out@) =~= self@.confirming_open().effects);
        out
    }
}

/// None of the steps of the dialog that asks for a path breaks what always holds.
pub proof fn open_steps_keep_it_valid(m: GitAppModel)
    requires
        m.valid(),
    ensures
        m.completing().app.valid(),
        m.confirming_open().app.valid(),
{
    reveal(GitAppModel::completing);
    reveal(GitAppModel::confirming_open);
}

} // verus!
