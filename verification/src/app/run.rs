//! The actions that run `git`.

use vstd::prelude::*;

use crate::app::select::Step;
use crate::app::state::{
    Confirm, ConfirmModel, DialogState, DialogStateModel, Effect, EffectModel, Focus, GitApp,
    GitAppModel, Level, OpenDialog, OpenDialogModel,
};
use crate::git::command::{DiffKey, DiffKeyModel, JobModel};
use crate::git::diff::patch_of;
use crate::git::refs::{Ref, RefKind, RefModel};
use crate::git::worker::GitModel;
use crate::number::{decimal, decimal_text};
use crate::text::{
    cat2, cat4, chars_of, find_char, first_line, from_index, group_models, join, join_texts,
    lines_of, list, models, opt_model, owned, pieces, split_once, text_of, trim, trimmed, up_to,
};

verus! {

broadcast use group_models;

/// The state as it is, and nothing to be done.
pub open spec fn still(app: GitAppModel) -> Step {
    Step { app, effects: seq![] }
}

/// One file by its name, several by their number.
pub open spec fn short_list_of(paths: Seq<Seq<char>>) -> Seq<char> {
    if paths.len() == 1 {
        paths[0]
    } else {
        decimal(paths.len()) + " files"@
    }
}

pub fn short_list(paths: &Vec<String>) -> (r: String)
    ensures
        r@ == short_list_of(models(paths@)),
{
    if paths.len() == 1 {
        paths[0].clone()
    } else {
        cat2(decimal_text(paths.len() as u128).as_str(), " files")
    }
}

/// The first ref with a name.
pub open spec fn ref_named(refs: Seq<RefModel>, name: Seq<char>) -> Option<RefModel>
    decreases refs.len(),
{
    if refs.len() == 0 {
        None
    } else if refs[0].name == name {
        Some(refs[0])
    } else {
        ref_named(refs.drop_first(), name)
    }
}

/// The branch that follows a remote one: `origin/feat` → `feat`.
pub open spec fn local_name(name: Seq<char>) -> Seq<char> {
    match split_once(name, '/') {
        Some((_, branch)) => branch,
        None => name,
    }
}

/// How to switch to a name: a tag is detached, a remote branch is followed by a local one of the
/// same name (`git switch --guess`).
pub open spec fn switch_args(refs: Seq<RefModel>, name: Seq<char>) -> Seq<Seq<char>> {
    match ref_named(refs, name) {
        Some(r) => match r.kind {
            RefKind::Tag => seq!["switch"@, "--detach"@, name],
            RefKind::Remote => seq!["switch"@, local_name(name)],
            RefKind::Local => seq!["switch"@, name],
        },
        None => seq!["switch"@, name],
    }
}

/// How to push: a branch without an upstream gets one of its name.
pub open spec fn push_args(upstream: Seq<char>, branch: Seq<char>) -> Seq<Seq<char>> {
    if upstream.len() == 0 && branch != "(detached)"@ {
        seq!["push"@, "-u"@, "origin"@, branch]
    } else {
        seq!["push"@]
    }
}

/// What throws away the changes of a file: an untracked one is deleted.
pub open spec fn discard_args(path: Seq<char>, untracked: bool) -> Seq<Seq<char>> {
    if untracked {
        seq!["clean"@, "-f"@, "--"@, path]
    } else {
        seq!["restore"@, "--"@, path]
    }
}

/// The question before changes are thrown away.
pub open spec fn discard_question(path: Seq<char>, untracked: bool) -> ConfirmModel {
    ConfirmModel {
        title: "Discard changes"@,
        line: path,
        note: if untracked {
            "DELETES THE FILE. THIS CANNOT BE UNDONE"@
        } else {
            "THROWS AWAY THE WORKTREE CHANGES. THIS CANNOT BE UNDONE"@
        },
        verb: "DISCARD"@,
        danger: true,
        label: "discard // "@ + path,
        args: discard_args(path, untracked),
    }
}

/// What a commit is called: the start of its first line.
pub open spec fn commit_label(msg: Seq<char>) -> Seq<char> {
    let line = first_line(msg);
    "commit // "@ + if line.len() > 60 {
        line.take(60)
    } else {
        line
    }
}

impl GitAppModel {
    pub open spec fn with_dialog(self, state: DialogStateModel) -> GitAppModel {
        GitAppModel { dialog: Some(OpenDialogModel { state, closing: false }), ..self }
    }

    pub open spec fn dialog_closing(self) -> GitAppModel {
        GitAppModel {
            dialog: match self.dialog {
                Some(d) => Some(OpenDialogModel { closing: true, ..d }),
                None => None,
            },
            ..self
        }
    }

    /// A command is to be run: there has to be a repository, and no other command running.
    #[verifier::opaque]
    pub open spec fn ran(
        self,
        t: Seq<char>,
        label: Seq<char>,
        args: Seq<Seq<char>>,
        stdin: Option<Seq<char>>,
    ) -> Step {
        match self.repo {
            None => still(self.failed(t, label, "no repository open"@)),
            Some(repo) => if self.git.running is Some {
                still(self.failed(t, label, "another git command is still running"@))
            } else {
                Step {
                    app: (GitAppModel {
                        git: GitModel { running: Some(label), ..self.git },
                        ..self
                    }).logged(t, "$ git "@ + join(args, " "@), Level::Info),
                    effects: seq![EffectModel::Start(JobModel { repo, label, args, stdin })],
                }
            },
        }
    }

    #[verifier::opaque]
    pub open spec fn staging(self, t: Seq<char>, paths: Seq<Seq<char>>) -> Step {
        self.ran(t, "stage // "@ + short_list_of(paths), seq!["add"@, "--"@] + paths, None)
    }

    #[verifier::opaque]
    pub open spec fn unstaging(self, t: Seq<char>, paths: Seq<Seq<char>>) -> Step {
        self.ran(
            t,
            "unstage // "@ + short_list_of(paths),
            seq!["restore"@, "--staged"@, "--"@] + paths,
            None,
        )
    }

    /// The selected file changes sides.
    #[verifier::opaque]
    pub open spec fn toggled(self, t: Seq<char>) -> Step {
        match (self.focus, self.chosen(self.focus)) {
            (Focus::Unstaged, Some(c)) => self.staging(t, seq![c.path]),
            (Focus::Staged, Some(c)) => self.unstaging(t, seq![c.path]),
            _ => still(self),
        }
    }

    /// One hunk of the diff on screen changes sides: a patch with that hunk alone is applied to
    /// the index, in reverse for a staged file.
    #[verifier::opaque]
    pub open spec fn hunk_moved(self, t: Seq<char>, i: int) -> Step {
        match self.diff {
            Some((key, d)) => if 0 <= i < d.hunks.len() {
                match key {
                    DiffKeyModel::Unstaged(p) => self.ran(
                        t,
                        "stage hunk // "@ + p + " #"@ + decimal((i + 1) as nat),
                        seq!["apply"@, "--cached"@],
                        Some(patch_of(d, i)),
                    ),
                    DiffKeyModel::Staged(p) => self.ran(
                        t,
                        "unstage hunk // "@ + p + " #"@ + decimal((i + 1) as nat),
                        seq!["apply"@, "--cached"@, "-R"@],
                        Some(patch_of(d, i)),
                    ),
                    DiffKeyModel::Commit(_, _) => still(self),
                }
            } else {
                still(self)
            },
            None => still(self),
        }
    }

    /// What is staged is committed, where anything is and there is a message.
    #[verifier::opaque]
    pub open spec fn committed(self, t: Seq<char>) -> Step {
        let msg = trim(self.commit_msg);
        if msg.len() == 0 || self.staged.len() == 0 {
            still(self)
        } else {
            self.ran(
                t,
                commit_label(msg),
                seq!["commit"@, "-F"@, "-"@],
                Some(msg + "\n"@),
            )
        }
    }

    #[verifier::opaque]
    pub open spec fn switched(self, t: Seq<char>, name: Seq<char>) -> Step {
        self.ran(t, "switch // "@ + name, switch_args(self.refs, name), None)
    }

    /// The branch that the dialog names is created.
    #[verifier::opaque]
    pub open spec fn branched(self, t: Seq<char>) -> Step {
        match self.dialog {
            Some(d) => match d.state {
                DialogStateModel::Branch { input, .. } => if trim(input).len() == 0 || d.closing {
                    still(self)
                } else {
                    self.dialog_closing().ran(
                        t,
                        "branch // "@ + trim(input),
                        seq!["switch"@, "-c"@, trim(input)],
                        None,
                    )
                },
                _ => still(self),
            },
            None => still(self),
        }
    }

    /// The command that the dialog asks about is run.
    #[verifier::opaque]
    pub open spec fn confirmed(self, t: Seq<char>) -> Step {
        match self.dialog {
            Some(d) => match d.state {
                DialogStateModel::Confirm(c) => if d.closing {
                    still(self)
                } else {
                    self.dialog_closing().ran(t, c.label, c.args, None)
                },
                _ => still(self),
            },
            None => still(self),
        }
    }
}

/// None of the steps that may run a command breaks what always holds.
pub proof fn steps_keep_it_valid(m: GitAppModel, t: Seq<char>)
    requires
        m.valid(),
    ensures
        forall|paths: Seq<Seq<char>>| (#[trigger] m.staging(t, paths)).app.valid(),
        forall|paths: Seq<Seq<char>>| (#[trigger] m.unstaging(t, paths)).app.valid(),
        forall|i: int| (#[trigger] m.hunk_moved(t, i)).app.valid(),
        forall|name: Seq<char>| (#[trigger] m.switched(t, name)).app.valid(),
        m.toggled(t).app.valid(),
        m.committed(t).app.valid(),
        m.branched(t).app.valid(),
        m.confirmed(t).app.valid(),
{
    broadcast use running_keeps_it_valid;

    reveal(GitAppModel::staging);
    reveal(GitAppModel::unstaging);
    reveal(GitAppModel::hunk_moved);
    reveal(GitAppModel::switched);
    reveal(GitAppModel::toggled);
    reveal(GitAppModel::committed);
    reveal(GitAppModel::branched);
    reveal(GitAppModel::confirmed);
}

/// Running a command does not break what always holds.
pub broadcast proof fn running_keeps_it_valid(
    m: GitAppModel,
    t: Seq<char>,
    label: Seq<char>,
    args: Seq<Seq<char>>,
    stdin: Option<Seq<char>>,
)
    requires
        m.valid(),
    ensures
        (#[trigger] m.ran(t, label, args, stdin)).app.valid(),
{
    reveal(GitAppModel::ran);
}

/// The kind of the first ref with a name.
fn kind_named(refs: &Vec<Ref>, name: &String) -> (r: Option<RefKind>)
    ensures
        r == match ref_named(models(refs@), name@) {
            Some(x) => Some(x.kind),
            None => None,
        },
{
    let ghost all = models(refs@);
    let mut i: usize = 0;
    assert(all.skip(0) =~= all);
    while i < refs.len()
        invariant
            i <= refs@.len(),
            all == models(refs@),
            ref_named(all, name@) == ref_named(all.skip(i as int), name@),
        decreases refs@.len() - i,
    {
        assert(all.skip(i as int)[0] == refs@[i as int]@);
        if refs[i].name == *name {
            return Some(refs[i].kind);
        }
        assert(all.skip(i as int).drop_first() =~= all.skip(i + 1));
        i += 1;
    }
    None
}

/// The branch that follows a remote one.
fn local_of(name: &String) -> (r: String)
    ensures
        r@ == local_name(name@),
{
    let chars = chars_of(name.as_str());
    let i: usize = find_char(chars.as_slice(), '/');
    if i < chars.len() {
        text_of(from_index(chars.as_slice(), i + 1))
    } else {
        name.clone()
    }
}

fn args_switch(refs: &Vec<Ref>, name: &String) -> (r: Vec<String>)
    ensures
        models(r@) == switch_args(models(refs@), name@),
{
    let r = match kind_named(refs, name) {
        Some(RefKind::Tag) => list(&["switch", "--detach", name.as_str()]),
        Some(RefKind::Remote) => {
            let local = local_of(name);
            list(&["switch", local.as_str()])
        },
        _ => list(&["switch", name.as_str()]),
    };
    assert(models(r@) =~= switch_args(models(refs@), name@));
    r
}

fn label_commit(msg: &String) -> (r: String)
    ensures
        r@ == commit_label(msg@),
{
    let chars = chars_of(msg.as_str());
    let ls = lines_of(chars.as_slice());
    let mut label = owned("commit // ");
    if ls.len() > 0 {
        assert(pieces(ls@)[0] == ls@[0]@);
        let line = ls[0];
        let n: usize = if line.len() > 60 {
            60
        } else {
            line.len()
        };
        let start = text_of(up_to(line, n));
        assert(line@.len() <= 60 ==> start@ =~= line@);
        label.append(start.as_str());
    }
    assert(label@ =~= commit_label(msg@));
    label
}

impl GitApp {
    /// Asks before something that the user may not expect.
    pub fn confirm(&mut self, c: Confirm)
        ensures
            final(self)@ == old(self)@.with_dialog(DialogStateModel::Confirm(c@)),
    {
        self.dialog = Some(OpenDialog { state: DialogState::Confirm(c), closing: false });
    }

    /// The dialog fades out.
    pub fn close_dialog(&mut self)
        ensures
            final(self)@ == old(self)@.dialog_closing(),
    {
        match self.dialog.take() {
            Some(d) => {
                self.dialog = Some(OpenDialog { state: d.state, closing: true });
            },
            None => {},
        }
    }

    /// Runs a command, one at a time.
    pub fn run_git(
        &mut self,
        t: &str,
        label: String,
        args: Vec<String>,
        stdin: Option<String>,
    ) -> (r: Vec<Effect>)
        ensures
            final(self)@ == old(self)@.ran(t@, label@, models(args@), opt_model(stdin)).app,
            models(r@) == old(self)@.ran(t@, label@, models(args@), opt_model(stdin)).effects,
    {
        reveal(GitAppModel::ran);
        let ghost step = self@.ran(t@, label@, models(args@), opt_model(stdin));
        let mut out: Vec<Effect> = Vec::new();
        let repo = match &self.repo {
            Some(r) => r.clone(),
            None => {
                self.fail(t, label, "no repository open");
                return out;
            },
        };
        match self.git.run(repo.as_str(), label.as_str(), &args, &stdin) {
            Some(job) => {
                let line = cat2("$ git ", join_texts(&args, " ").as_str());
                self.push_log(t, line, Level::Info);
                out.push(Effect::Start(job));
                assert(models(out@) =~= step.effects);
            },
            None => {
                self.fail(t, label, "another git command is still running");
            },
        }
        out
    }

    pub(crate) fn stage(&mut self, t: &str, paths: Vec<String>) -> (r: Vec<Effect>)
        ensures
            final(self)@ == old(self)@.staging(t@, models(paths@)).app,
            models(r@) == old(self)@.staging(t@, models(paths@)).effects,
    {
        reveal(GitAppModel::staging);
        let label = cat2("stage // ", short_list(&paths).as_str());
        let mut args = list(&["add", "--"]);
        let mut paths = paths;
        let ghost all = models(paths@);
        args.append(&mut paths);
        assert(models(args@) =~= seq!["add"@, "--"@] + all);
        self.run_git(t, label, args, None)
    }

    pub(crate) fn unstage(&mut self, t: &str, paths: Vec<String>) -> (r: Vec<Effect>)
        ensures
            final(self)@ == old(self)@.unstaging(t@, models(paths@)).app,
            models(r@) == old(self)@.unstaging(t@, models(paths@)).effects,
    {
        reveal(GitAppModel::unstaging);
        let label = cat2("unstage // ", short_list(&paths).as_str());
        let mut args = list(&["restore", "--staged", "--"]);
        let mut paths = paths;
        let ghost all = models(paths@);
        args.append(&mut paths);
        assert(models(args@) =~= seq!["restore"@, "--staged"@, "--"@] + all);
        self.run_git(t, label, args, None)
    }

    pub(crate) fn toggle_selected(&mut self, t: &str) -> (r: Vec<Effect>)
        requires
            old(self)@.valid(),
        ensures
            final(self)@ == old(self)@.toggled(t@).app,
            models(r@) == old(self)@.toggled(t@).effects,
    {
        reveal(GitAppModel::toggled);
        if self.focus == Focus::History {
            return Vec::new();
        }
        let path = match self.selected_change(self.focus) {
            Some(c) => c.path.clone(),
            None => return Vec::new(),
        };
        let mut paths: Vec<String> = Vec::new();
        let ghost p = path@;
        paths.push(path);
        assert(models(paths@) =~= seq![p]);
        if self.focus == Focus::Unstaged {
            self.stage(t, paths)
        } else {
            self.unstage(t, paths)
        }
    }

    pub(crate) fn move_hunk(&mut self, t: &str, i: usize) -> (r: Vec<Effect>)
        ensures
            final(self)@ == old(self)@.hunk_moved(t@, i as int).app,
            models(r@) == old(self)@.hunk_moved(t@, i as int).effects,
    {
        reveal(GitAppModel::hunk_moved);
        let (label, args, patch) = match &self.diff {
            Some((key, d)) => {
                if i >= d.hunks.len() {
                    return Vec::new();
                }
                let patch = d.hunk_patch(i);
                let n = decimal_text(i as u128 + 1);
                match key {
                    DiffKey::Unstaged(p) => {
                        let args = list(&["apply", "--cached"]);
                        assert(models(args@) =~= seq!["apply"@, "--cached"@]);
                        (cat4("stage hunk // ", p.as_str(), " #", n.as_str()), args, patch)
                    },
                    DiffKey::Staged(p) => {
                        let args = list(&["apply", "--cached", "-R"]);
                        assert(models(args@) =~= seq!["apply"@, "--cached"@, "-R"@]);
                        (cat4("unstage hunk // ", p.as_str(), " #", n.as_str()), args, patch)
                    },
                    DiffKey::Commit(_, _) => return Vec::new(),
                }
            },
            None => return Vec::new(),
        };
        self.run_git(t, label, args, Some(patch))
    }

    pub(crate) fn ask_discard(&mut self, path: String, untracked: bool)
        ensures
            final(self)@ == old(self)@.with_dialog(
                DialogStateModel::Confirm(discard_question(path@, untracked)),
            ),
    {
        let args = if untracked {
            list(&["clean", "-f", "--", path.as_str()])
        } else {
            list(&["restore", "--", path.as_str()])
        };
        assert(models(args@) =~= discard_args(path@, untracked));
        let note = if untracked {
            "DELETES THE FILE. THIS CANNOT BE UNDONE"
        } else {
            "THROWS AWAY THE WORKTREE CHANGES. THIS CANNOT BE UNDONE"
        };
        let label = cat2("discard // ", path.as_str());
        self.confirm(
            Confirm {
                title: owned("Discard changes"),
                line: path,
                note: owned(note),
                verb: owned("DISCARD"),
                danger: true,
                label,
                args,
            },
        );
    }

    pub(crate) fn commit(&mut self, t: &str) -> (r: Vec<Effect>)
        ensures
            final(self)@ == old(self)@.committed(t@).app,
            models(r@) == old(self)@.committed(t@).effects,
    {
        reveal(GitAppModel::committed);
        let msg = trimmed(self.commit_msg.as_str());
        let chars = chars_of(msg.as_str());
        if chars.len() == 0 || self.staged.len() == 0 {
            return Vec::new();
        }
        let args = list(&["commit", "-F", "-"]);
        assert(models(args@) =~= seq!["commit"@, "-F"@, "-"@]);
        let label = label_commit(&msg);
        self.run_git(t, label, args, Some(cat2(msg.as_str(), "\n")))
    }

    pub(crate) fn switch(&mut self, t: &str, name: String) -> (r: Vec<Effect>)
        ensures
            final(self)@ == old(self)@.switched(t@, name@).app,
            models(r@) == old(self)@.switched(t@, name@).effects,
    {
        reveal(GitAppModel::switched);
        let args = args_switch(&self.refs, &name);
        self.run_git(t, cat2("switch // ", name.as_str()), args, None)
    }

    pub(crate) fn create_branch(&mut self, t: &str) -> (r: Vec<Effect>)
        ensures
            final(self)@ == old(self)@.branched(t@).app,
            models(r@) == old(self)@.branched(t@).effects,
    {
        reveal(GitAppModel::branched);
        let name = match &self.dialog {
            Some(OpenDialog { state: DialogState::Branch { input, .. }, closing }) => {
                let name = trimmed(input.as_str());
                let chars = chars_of(name.as_str());
                if chars.len() == 0 || *closing {
                    return Vec::new();
                }
                name
            },
            _ => return Vec::new(),
        };
        self.close_dialog();
        let args = list(&["switch", "-c", name.as_str()]);
        assert(models(args@) =~= seq!["switch"@, "-c"@, name@]);
        self.run_git(t, cat2("branch // ", name.as_str()), args, None)
    }

    pub(crate) fn run_confirmed(&mut self, t: &str) -> (r: Vec<Effect>)
        ensures
            final(self)@ == old(self)@.confirmed(t@).app,
            models(r@) == old(self)@.confirmed(t@).effects,
    {
        reveal(GitAppModel::confirmed);
        let (label, args) = match &self.dialog {
            Some(OpenDialog { state: DialogState::Confirm(c), closing }) => {
                if *closing {
                    return Vec::new();
                }
                let c = c.clone();
                (c.label, c.args)
            },
            _ => return Vec::new(),
        };
        self.close_dialog();
        self.run_git(t, label, args, None)
    }

    pub(crate) fn stage_all(&mut self, t: &str) -> (r: Vec<Effect>)
        ensures
            final(self)@ == old(self)@.ran(t@, "stage // all"@, seq!["add"@, "-A"@], None).app,
            models(r@) == old(self)@.ran(t@, "stage // all"@, seq!["add"@, "-A"@], None).effects,
    {
        let args = list(&["add", "-A"]);
        assert(models(args@) =~= seq!["add"@, "-A"@]);
        self.run_git(t, owned("stage // all"), args, None)
    }

    pub(crate) fn unstage_all(&mut self, t: &str) -> (r: Vec<Effect>)
        ensures
            final(self)@ == old(self)@.ran(
                t@,
                "unstage // all"@,
                seq!["reset"@, "-q"@],
                None,
            ).app,
            models(r@) == old(self)@.ran(
                t@,
                "unstage // all"@,
                seq!["reset"@, "-q"@],
                None,
            ).effects,
    {
        let args = list(&["reset", "-q"]);
        assert(models(args@) =~= seq!["reset"@, "-q"@]);
        self.run_git(t, owned("unstage // all"), args, None)
    }

    pub(crate) fn fetch(&mut self, t: &str) -> (r: Vec<Effect>)
        ensures
            final(self)@ == old(self)@.ran(
                t@,
                "fetch // all"@,
                seq!["fetch"@, "--all"@, "--prune"@],
                None,
            ).app,
            models(r@) == old(self)@.ran(
                t@,
                "fetch // all"@,
                seq!["fetch"@, "--all"@, "--prune"@],
                None,
            ).effects,
    {
        let args = list(&["fetch", "--all", "--prune"]);
        assert(models(args@) =~= seq!["fetch"@, "--all"@, "--prune"@]);
        self.run_git(t, owned("fetch // all"), args, None)
    }

    pub(crate) fn pull(&mut self, t: &str) -> (r: Vec<Effect>)
        ensures
            final(self)@ == old(self)@.ran(t@, "pull"@, seq!["pull"@, "--ff-only"@], None).app,
            models(r@) == old(self)@.ran(t@, "pull"@, seq!["pull"@, "--ff-only"@], None).effects,
    {
        let args = list(&["pull", "--ff-only"]);
        assert(models(args@) =~= seq!["pull"@, "--ff-only"@]);
        self.run_git(t, owned("pull"), args, None)
    }

    pub(crate) fn push(&mut self, t: &str) -> (r: Vec<Effect>)
        ensures
            final(self)@ == old(self)@.ran(
                t@,
                "push"@,
                push_args(old(self)@.status.upstream, old(self)@.status.branch),
                None,
            ).app,
            models(r@) == old(self)@.ran(
                t@,
                "push"@,
                push_args(old(self)@.status.upstream, old(self)@.status.branch),
                None,
            ).effects,
    {
        let upstream = chars_of(self.status.upstream.as_str());
        let args = if upstream.len() == 0 && self.status.branch != owned("(detached)") {
            list(&["push", "-u", "origin", self.status.branch.as_str()])
        } else {
            list(&["push"])
        };
        assert(models(args@) =~= push_args(self@.status.upstream, self@.status.branch));
        self.run_git(t, owned("push"), args, None)
    }
}

} // verus!
