//! What each message from `git` does.

use vstd::prelude::*;

use crate::app::select::{find_hash, hash_of, hashes_of, row_of, Step};
use crate::app::run::still;
use crate::app::state::{Effect, GitApp, GitAppModel, Level, TableState};
use crate::git::command::{DiffKey, DiffKeyModel};
use crate::git::diff::{Diff, DiffModel};
use crate::git::graph::{graph, graph_rows};
use crate::git::log::{Commit, CommitDetail, CommitDetailModel, CommitModel};
use crate::git::status::Status;
use crate::git::worker::{res_model, Msg, MsgModel};
use crate::number::{signed_decimal, signed_text};
use crate::text::{cat2, cat4, group_models, models, owned, starts_with};

verus! {

broadcast use group_models;

/// How a line of output is shown.
pub open spec fn line_level(text: Seq<char>, stderr: bool) -> Level {
    if "error"@.is_prefix_of(text) || "fatal"@.is_prefix_of(text) {
        Level::Danger
    } else if "warning"@.is_prefix_of(text) || "hint"@.is_prefix_of(text) {
        Level::Warn
    } else if stderr {
        Level::Info
    } else {
        Level::Good
    }
}

/// The name of a command; nothing where it has none.
pub open spec fn command_of(args: Seq<Seq<char>>) -> Seq<char> {
    if args.len() > 0 {
        args[0]
    } else {
        seq![]
    }
}

/// What the log says of a command that succeeded.
pub open spec fn done_line(
    label: Seq<char>,
    args: Seq<Seq<char>>,
    elapsed: Seq<char>,
) -> Seq<char> {
    label + " :: git "@ + command_of(args) + " done in "@ + elapsed + " s"@
}

/// How a command that failed ended.
pub open spec fn exit_detail(code: Option<i32>) -> Seq<char> {
    match code {
        Some(c) => "exit code "@ + signed_decimal(c as int),
        None => "terminated"@,
    }
}

impl GitAppModel {
    /// A new log: the graph is that of its commits, and the selection stays on the same commit.
    pub open spec fn with_commits(self, commits: Seq<CommitModel>) -> GitAppModel {
        GitAppModel {
            graph: graph_rows(commits),
            commits,
            hist_table: TableState {
                selected: row_of(hashes_of(commits), hash_of(self.chosen_commit())),
                ..self.hist_table
            },
            ..self
        }
    }

    /// A diff arrived; one that is no longer asked for is not shown.
    pub open spec fn with_diff(
        self,
        t: Seq<char>,
        key: DiffKeyModel,
        result: Result<DiffModel, Seq<char>>,
    ) -> GitAppModel {
        if self.diff_want != Some(key) {
            self
        } else {
            match result {
                Ok(d) => GitAppModel { diff: Some((key, d)), ..self },
                Err(e) => (GitAppModel { diff: None, ..self }).logged(
                    t,
                    "diff :: "@ + e,
                    Level::Warn,
                ),
            }
        }
    }

    /// A commit arrived; one that is no longer on screen is not shown. Its first file is selected
    /// where none is.
    pub open spec fn with_detail(self, d: CommitDetailModel) -> GitAppModel {
        if self.detail is Some && self.detail.unwrap().hash == d.hash {
            GitAppModel {
                detail: Some(d),
                detail_table: TableState {
                    selected: match self.detail_table.selected {
                        Some(r) => Some(r),
                        None => Some(0usize),
                    },
                    ..self.detail_table
                },
                ..self
            }
        } else {
            self
        }
    }

    /// A command ended: a commit clears its message, and what the user waits for is announced.
    pub open spec fn after_exit(
        self,
        t: Seq<char>,
        label: Seq<char>,
        args: Seq<Seq<char>>,
        ok: bool,
        code: Option<i32>,
        elapsed: Seq<char>,
    ) -> GitAppModel {
        if ok {
            let logged = self.logged(t, done_line(label, args, elapsed), Level::Good);
            let command = command_of(args);
            if args.len() == 0 {
                logged
            } else if command == "commit"@ {
                (GitAppModel { commit_msg: seq![], ..logged }).noticed(true, label)
            } else if command == "fetch"@ || command == "pull"@ || command == "push"@ {
                logged.noticed(true, label)
            } else {
                logged
            }
        } else {
            self.failed(t, label, exit_detail(code))
        }
    }

    /// The effect of a message.
    pub open spec fn handled(self, t: Seq<char>, msg: MsgModel) -> Step {
        match msg {
            MsgModel::Status(Ok(st)) => still(
                GitAppModel { last_error: None, ..self.with_status(st) },
            ),
            MsgModel::Status(Err(e)) => still(
                (GitAppModel { last_error: Some(e), ..self }).failed(t, "status"@, e),
            ),
            MsgModel::Log(Ok(commits)) => still(self.with_commits(commits)),
            MsgModel::Log(Err(e)) => still(self.logged(t, "log :: "@ + e, Level::Warn)),
            MsgModel::Refs(Ok(refs)) => still(GitAppModel { refs, ..self }),
            MsgModel::Refs(Err(e)) => still(self.logged(t, "refs :: "@ + e, Level::Warn)),
            MsgModel::Diff(key, result) => still(self.with_diff(t, key, result)),
            MsgModel::Detail(Ok(d)) => still(self.with_detail(d)),
            MsgModel::Detail(Err(e)) => still(self.logged(t, "show :: "@ + e, Level::Warn)),
            MsgModel::Line { text, stderr } => still(
                self.logged(t, text, line_level(text, stderr)),
            ),
            MsgModel::Exit { label, args, ok, code, elapsed } => self.after_exit(
                t,
                label,
                args,
                ok,
                code,
                elapsed,
            ).refreshed(),
        }
    }

    /// The effect of messages, the first one first.
    pub open spec fn handled_all(self, t: Seq<char>, msgs: Seq<MsgModel>) -> Step
        decreases msgs.len(),
    {
        if msgs.len() == 0 {
            still(self)
        } else {
            let before = self.handled_all(t, msgs.drop_last());
            let last = before.app.handled(t, msgs.last());
            Step { app: last.app, effects: before.effects + last.effects }
        }
    }

    /// The effect of the messages that came in since the last time.
    pub open spec fn polled(self, t: Seq<char>, msgs: Seq<MsgModel>) -> Step {
        (GitAppModel { git: self.git.received_all(msgs), ..self }).handled_all(t, msgs)
    }
}

/// One for a message that says that a command ended.
pub open spec fn ends(msg: MsgModel) -> int {
    if msg is Exit {
        1
    } else {
        0
    }
}

/// How many of some messages say that a command ended.
pub open spec fn exits(msgs: Seq<MsgModel>) -> int
    decreases msgs.len(),
{
    if msgs.len() == 0 {
        0
    } else {
        exits(msgs.drop_last()) + ends(msgs.last())
    }
}

proof fn exits_grow(msgs: Seq<MsgModel>, i: int)
    requires
        0 <= i <= msgs.len(),
    ensures
        0 <= exits(msgs.take(i)) <= exits(msgs),
    decreases msgs.len(),
{
    if i < msgs.len() {
        exits_grow(msgs.drop_last(), i);
        assert(msgs.drop_last().take(i) =~= msgs.take(i));
    } else {
        assert(msgs.take(i) =~= msgs);
        if msgs.len() > 0 {
            exits_grow(msgs.drop_last(), i - 1);
        }
    }
}

/// How a line of output is shown.
fn level_of(text: &str, stderr: bool) -> (r: Level)
    ensures
        r == line_level(text@, stderr),
{
    if starts_with(text, "error") || starts_with(text, "fatal") {
        Level::Danger
    } else if starts_with(text, "warning") || starts_with(text, "hint") {
        Level::Warn
    } else if stderr {
        Level::Info
    } else {
        Level::Good
    }
}

impl GitApp {
    fn set_commits(&mut self, commits: Vec<Commit>)
        ensures
            final(self)@ == old(self)@.with_commits(models(commits@)),
    {
        let keep = match self.selected_commit() {
            Some(c) => Some(c.hash.clone()),
            None => None,
        };
        self.graph = graph(commits.as_slice());
        self.commits = commits;
        self.hist_table.selected = find_hash(&self.commits, &keep);
    }

    fn set_diff(&mut self, t: &str, key: DiffKey, result: Result<Diff, String>)
        ensures
            final(self)@ == old(self)@.with_diff(t@, key@, res_model(result)),
    {
        let wanted = match &self.diff_want {
            Some(k) => k.same(&key),
            None => false,
        };
        if wanted {
            match result {
                Ok(d) => {
                    self.diff = Some((key, d));
                },
                Err(e) => {
                    self.push_log(t, cat2("diff :: ", e.as_str()), Level::Warn);
                    self.diff = None;
                },
            }
        }
    }

    fn set_detail(&mut self, d: CommitDetail)
        ensures
            final(self)@ == old(self)@.with_detail(d@),
    {
        let wanted = match &self.detail {
            Some(x) => x.hash == d.hash,
            None => false,
        };
        if wanted {
            self.detail = Some(d);
            if self.detail_table.selected.is_none() {
                self.detail_table.selected = Some(0);
            }
        }
    }

    fn exited(
        &mut self,
        t: &str,
        label: String,
        args: Vec<String>,
        ok: bool,
        code: Option<i32>,
        elapsed: String,
    )
        ensures
            final(self)@ == old(self)@.after_exit(
                t@,
                label@,
                models(args@),
                ok,
                code,
                elapsed@,
            ),
    {
        if ok {
            let command = if args.len() > 0 {
                args[0].clone()
            } else {
                String::new()
            };
            let ghost name = command_of(models(args@));
            assert(command@ =~= name);
            let mut line = cat4(label.as_str(), " :: git ", command.as_str(), " done in ");
            line.append(elapsed.as_str());
            line.append(" s");
            self.push_log(t, line, Level::Good);
            if args.len() == 0 {
            } else if command == owned("commit") {
                self.commit_msg = String::new();
                self.notice(true, label);
            } else if command == owned("fetch") || command == owned("pull") || command == owned(
                "push",
            ) {
                self.notice(true, label);
            }
        } else {
            let detail = match code {
                Some(c) => cat2("exit code ", signed_text(c as i64).as_str()),
                None => owned("terminated"),
            };
            self.fail(t, label, detail.as_str());
        }
    }

    /// Does what a message asks for, and says what is to be done outside.
    pub fn handle(&mut self, t: &str, msg: Msg) -> (r: Vec<Effect>)
        requires
            old(self)@.valid(),
            old(self).git.pending + 3 * ends(msg@) <= usize::MAX,
        ensures
            final(self)@ == old(self)@.handled(t@, msg@).app,
            models(r@) == old(self)@.handled(t@, msg@).effects,
            final(self)@.valid(),
            final(self).git.pending <= old(self).git.pending + 3 * ends(msg@),
    {
        match msg {
            Msg::Status(Ok(st)) => {
                self.set_status(st);
                self.last_error = None;
                Vec::new()
            },
            Msg::Status(Err(e)) => {
                self.last_error = Some(e.clone());
                self.fail(t, owned("status"), e.as_str());
                Vec::new()
            },
            Msg::Log(Ok(commits)) => {
                self.set_commits(commits);
                Vec::new()
            },
            Msg::Log(Err(e)) => {
                self.push_log(t, cat2("log :: ", e.as_str()), Level::Warn);
                Vec::new()
            },
            Msg::Refs(Ok(refs)) => {
                self.refs = refs;
                Vec::new()
            },
            Msg::Refs(Err(e)) => {
                self.push_log(t, cat2("refs :: ", e.as_str()), Level::Warn);
                Vec::new()
            },
            Msg::Diff(key, result) => {
                self.set_diff(t, key, result);
                Vec::new()
            },
            Msg::Detail(Ok(d)) => {
                self.set_detail(d);
                Vec::new()
            },
            Msg::Detail(Err(e)) => {
                self.push_log(t, cat2("show :: ", e.as_str()), Level::Warn);
                Vec::new()
            },
            Msg::Line { text, stderr } => {
                let level = level_of(text.as_str(), stderr);
                self.push_log(t, text, level);
                Vec::new()
            },
            Msg::Exit { label, args, ok, code, elapsed } => {
                self.exited(t, label, args, ok, code, elapsed);
                self.refresh()
            },
        }
    }

    /// Does what the messages ask for that came in since the last time, and says what is to be
    /// done outside.
    pub fn poll(&mut self, t: &str, received: Vec<Msg>) -> (r: Vec<Effect>)
        requires
            old(self)@.valid(),
            old(self).git.pending + 3 * exits(models(received@)) <= usize::MAX,
        ensures
            final(self)@ == old(self)@.polled(t@, models(received@)).app,
            models(r@) == old(self)@.polled(t@, models(received@)).effects,
            final(self)@.valid(),
    {
        let ghost all = models(received@);
        let mut rest = self.git.poll(received);
        let ghost start = self@;
        let ghost pending = self.git.pending;
        let n: usize = rest.len();
        let mut out: Vec<Effect> = Vec::new();
        let mut i: usize = 0;
        while i < n
            invariant
                i <= n,
                rest@.len() == n - i,
                all.len() == n,
                models(rest@) == all.skip(i as int),
                start.valid(),
                self@.valid(),
                self@ == start.handled_all(t@, all.take(i as int)).app,
                models(out@) == start.handled_all(t@, all.take(i as int)).effects,
                self.git.pending <= pending + 3 * exits(all.take(i as int)),
                pending + 3 * exits(all) <= usize::MAX,
            decreases n - i,
        {
            assert(all.take(i + 1).drop_last() =~= all.take(i as int));
            let ghost before = rest@;
            let msg = rest.remove(0);
            assert(before[0]@ == all.skip(i as int)[0]);
            assert(all.take(i + 1).last() == msg@);
            assert forall|k: int| 0 <= k < rest@.len() implies #[trigger] models(rest@)[k]
                == all.skip(i + 1)[k] by {
                assert(models(before)[k + 1] == all.skip(i as int)[k + 1]);
            }
            assert(models(rest@) =~= all.skip(i + 1));
            proof {
                exits_grow(all, i + 1);
            }
            let mut more = self.handle(t, msg);
            out.append(&mut more);
            i += 1;
        }
        assert(all.take(n as int) =~= all);
        out
    }
}

} // verus!
