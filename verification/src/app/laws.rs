//! What holds of the application as a whole.

use vstd::prelude::*;

use crate::app::agent::blocked;
use crate::app::open::{recent_in, recent_text, remembered};
use crate::app::apply::stages;
use crate::app::run::{
    commit_label, discard_args, discard_question, local_name, push_args, ref_named, short_list_of,
    still, switch_args,
};
use crate::app::select::{hash_of, hashes_of, paths_of};
use crate::app::state::{
    belongs, rows, rows_facts, ActionModel, DialogStateModel, EffectModel, Focus, GitAppModel,
    Level, OpenDialogModel, LOG_LIMIT, RECENT_MAX,
};
use crate::git::command::{
    log_query, refs_query, status_query, DiffKeyModel, JobModel, ReadsModel,
};
use crate::git::diff::{diff_of, patch_of, DiffModel};
use crate::git::diff_laws::hunk_patch_reads_back;
use crate::git::graph::graph_rows;
use crate::git::log::{CommitDetailModel, CommitModel};
use crate::git::refs::{RefKind, RefModel};
use crate::git::status::StatusModel;
use crate::git::worker::{answer_of, GitModel, MsgModel, Outcome};
use crate::number::decimal;
use crate::panel::commit::can_commit;
use crate::panel::dialog::DialogInput;
use crate::path::same_path;
use crate::text::{find_facts, trim};
use crate::text_laws::{is_plain_line, lines_read_back, split_first, with_break};

verus! {

/// A command: its label, its arguments and what it reads.
pub struct Command {
    pub label: Seq<char>,
    pub args: Seq<Seq<char>>,
    pub stdin: Option<Seq<char>>,
}

pub open spec fn plain(label: Seq<char>, args: Seq<Seq<char>>) -> Option<Command> {
    Some(Command { label, args, stdin: None })
}

/// The command that stages or unstages a file.
pub open spec fn toggle_command(m: GitAppModel) -> Option<Command> {
    match (m.focus, m.chosen(m.focus)) {
        (Focus::Unstaged, Some(c)) => plain(
            "stage // "@ + short_list_of(seq![c.path]),
            seq!["add"@, "--"@] + seq![c.path],
        ),
        (Focus::Staged, Some(c)) => plain(
            "unstage // "@ + short_list_of(seq![c.path]),
            seq!["restore"@, "--staged"@, "--"@] + seq![c.path],
        ),
        _ => None,
    }
}

/// The command that stages or unstages a hunk.
pub open spec fn hunk_command(m: GitAppModel, i: int) -> Option<Command> {
    match m.diff {
        Some((key, d)) => if 0 <= i < d.hunks.len() {
            match key {
                DiffKeyModel::Unstaged(p) => Some(
                    Command {
                        label: "stage hunk // "@ + p + " #"@ + decimal((i + 1) as nat),
                        args: seq!["apply"@, "--cached"@],
                        stdin: Some(patch_of(d, i)),
                    },
                ),
                DiffKeyModel::Staged(p) => Some(
                    Command {
                        label: "unstage hunk // "@ + p + " #"@ + decimal((i + 1) as nat),
                        args: seq!["apply"@, "--cached"@, "-R"@],
                        stdin: Some(patch_of(d, i)),
                    },
                ),
                DiffKeyModel::Commit(_, _) => None,
            }
        } else {
            None
        },
        None => None,
    }
}

pub open spec fn commit_command(m: GitAppModel) -> Option<Command> {
    let msg = trim(m.commit_msg);
    if msg.len() == 0 || m.staged.len() == 0 {
        None
    } else {
        Some(
            Command {
                label: commit_label(msg),
                args: seq!["commit"@, "-F"@, "-"@],
                stdin: Some(msg + "\n"@),
            },
        )
    }
}

/// The command that the dialog on screen stands for.
pub open spec fn dialog_command(m: GitAppModel, confirm: bool) -> Option<Command> {
    match m.dialog {
        Some(d) => match d.state {
            DialogStateModel::Branch { input, .. } => if confirm || trim(input).len() == 0
                || d.closing {
                None
            } else {
                plain("branch // "@ + trim(input), seq!["switch"@, "-c"@, trim(input)])
            },
            DialogStateModel::Confirm(c) => if !confirm || d.closing {
                None
            } else {
                plain(c.label, c.args)
            },
            _ => None,
        },
        None => None,
    }
}

/// The command that an action stands for, where it stands for one.
pub open spec fn command_for(m: GitAppModel, action: ActionModel) -> Option<Command> {
    match action {
        ActionModel::ToggleSelected => toggle_command(m),
        ActionModel::Stage(paths) => plain(
            "stage // "@ + short_list_of(paths),
            seq!["add"@, "--"@] + paths,
        ),
        ActionModel::Unstage(paths) => plain(
            "unstage // "@ + short_list_of(paths),
            seq!["restore"@, "--staged"@, "--"@] + paths,
        ),
        ActionModel::StageAll => plain("stage // all"@, seq!["add"@, "-A"@]),
        ActionModel::UnstageAll => plain("unstage // all"@, seq!["reset"@, "-q"@]),
        ActionModel::StageHunk(i) => hunk_command(m, i as int),
        ActionModel::UnstageHunk(i) => hunk_command(m, i as int),
        ActionModel::Commit => commit_command(m),
        ActionModel::Switch(name) => plain("switch // "@ + name, switch_args(m.refs, name)),
        ActionModel::ConfirmBranch => dialog_command(m, false),
        ActionModel::Fetch => plain("fetch // all"@, seq!["fetch"@, "--all"@, "--prune"@]),
        ActionModel::Pull => plain("pull"@, seq!["pull"@, "--ff-only"@]),
        ActionModel::Push => plain("push"@, push_args(m.status.upstream, m.status.branch)),
        ActionModel::Run(label, args, stdin) => Some(Command { label, args, stdin }),
        ActionModel::ConfirmDialog => dialog_command(m, true),
        _ => None,
    }
}

/// Whether anything among some effects is a command to be started.
pub open spec fn starts_nothing(effects: Seq<EffectModel>) -> bool {
    forall|i: int| 0 <= i < effects.len() ==> !(#[trigger] effects[i] is Start)
}

proof fn run_facts(m: GitAppModel, t: Seq<char>, c: Command)
    ensures
        ({
            let step = m.ran(t, c.label, c.args, c.stdin);
            &&& m.git.running is Some || m.repo is None ==> step.effects.len() == 0
                && step.app.git == m.git
            &&& m.git.running is None && m.repo is Some ==> step.effects == seq![
                EffectModel::Start(
                    JobModel {
                        repo: m.repo.unwrap(),
                        label: c.label,
                        args: c.args,
                        stdin: c.stdin,
                    },
                ),
            ] && step.app.git == (GitModel { running: Some(c.label), ..m.git })
            &&& step.app.repo == m.repo
            &&& step.app.status == m.status
        }),
{
    reveal(GitAppModel::ran);
}

/// The actions of which each stands for a command or does nothing.
proof fn staging_runs(m: GitAppModel, t: Seq<char>, action: ActionModel)
    requires
        stages(action),
    ensures
        match command_for(m, action) {
            Some(c) => m.applied(t, action) == m.ran(t, c.label, c.args, c.stdin),
            None => m.applied(t, action) == still(m),
        },
{
    match action {
        ActionModel::ToggleSelected => {
            reveal(GitAppModel::toggled);
            reveal(GitAppModel::staging);
            reveal(GitAppModel::unstaging);
        },
        ActionModel::Stage(_) => {
            reveal(GitAppModel::staging);
        },
        ActionModel::Unstage(_) => {
            reveal(GitAppModel::unstaging);
        },
        ActionModel::Commit => {
            reveal(GitAppModel::committed);
        },
        _ => {
            reveal(GitAppModel::hunk_moved);
        },
    }
}

proof fn dialogs_run(m: GitAppModel, t: Seq<char>, confirm: bool)
    ensures
        ({
            let step = if confirm {
                m.confirmed(t)
            } else {
                m.branched(t)
            };
            match dialog_command(m, confirm) {
                Some(c) => step == m.dialog_closing().ran(t, c.label, c.args, c.stdin),
                None => step == still(m),
            }
        }),
{
    reveal(GitAppModel::confirmed);
    reveal(GitAppModel::branched);
}

/// An action that stands for a command starts it, where a repository is open and no other command
/// is running; nothing else starts one, and nothing ends one.
pub proof fn actions_start_their_commands(m: GitAppModel, t: Seq<char>, action: ActionModel)
    ensures
        ({
            let step = m.applied(t, action);
            match (command_for(m, action), m.repo, m.git.running) {
                (Some(c), Some(repo), None) => step.effects == seq![
                    EffectModel::Start(
                        JobModel { repo, label: c.label, args: c.args, stdin: c.stdin },
                    ),
                ] && step.app.git == (GitModel { running: Some(c.label), ..m.git }),
                _ => starts_nothing(step.effects) && step.app.git.running == m.git.running,
            }
        }),
{
    match action {
        ActionModel::ToggleSelected
        | ActionModel::Stage(_)
        | ActionModel::Unstage(_)
        | ActionModel::StageAll
        | ActionModel::UnstageAll
        | ActionModel::StageHunk(_)
        | ActionModel::UnstageHunk(_)
        | ActionModel::Commit => {
            staging_runs(m, t, action);
            match command_for(m, action) {
                Some(c) => {
                    run_facts(m, t, c);
                },
                None => {},
            }
        },
        ActionModel::Switch(_) => {
            reveal(GitAppModel::switched);
            run_facts(m, t, command_for(m, action).unwrap());
        },
        ActionModel::Fetch
        | ActionModel::Pull
        | ActionModel::Push
        | ActionModel::Run(_, _, _) => {
            run_facts(m, t, command_for(m, action).unwrap());
        },
        ActionModel::ConfirmBranch => {
            dialogs_run(m, t, false);
            if command_for(m, action) is Some {
                run_facts(m.dialog_closing(), t, command_for(m, action).unwrap());
            }
        },
        ActionModel::ConfirmDialog => {
            dialogs_run(m, t, true);
            if command_for(m, action) is Some {
                run_facts(m.dialog_closing(), t, command_for(m, action).unwrap());
            }
        },
        ActionModel::CompleteOpen => {
            reveal(GitAppModel::completing);
        },
        ActionModel::ConfirmOpen => {
            reveal(GitAppModel::confirming_open);
        },
        _ => {},
    }
}

/// One command at a time: while one is running, no action starts another, and it stays the one
/// that is running.
pub proof fn one_command_at_a_time(m: GitAppModel, t: Seq<char>, action: ActionModel)
    requires
        m.git.running is Some,
    ensures
        starts_nothing(m.applied(t, action).effects),
        m.applied(t, action).app.git.running == m.git.running,
{
    actions_start_their_commands(m, t, action);
}

/// Where something is to be run without a repository or while another command is running, nothing
/// is started, and the user is told.
pub proof fn refused_commands_are_reported(m: GitAppModel, t: Seq<char>, action: ActionModel)
    requires
        command_for(m, action) is Some,
        m.repo is None || m.git.running is Some,
    ensures
        m.applied(t, action).effects.len() == 0,
        m.applied(t, action).app.git == m.git,
        m.applied(t, action).app.notice_queue == m.notice_queue.push(
            (false, command_for(m, action).unwrap().label),
        ),
        m.applied(t, action).app.log.last().level == Level::Danger,
{
    let c = command_for(m, action).unwrap();
    reveal(GitAppModel::ran);
    match action {
        ActionModel::Switch(_) => {
            reveal(GitAppModel::switched);
        },
        ActionModel::ConfirmBranch => {
            dialogs_run(m, t, false);
        },
        ActionModel::ConfirmDialog => {
            dialogs_run(m, t, true);
        },
        ActionModel::Fetch
        | ActionModel::Pull
        | ActionModel::Push
        | ActionModel::Run(_, _, _) => {},
        _ => {
            staging_runs(m, t, action);
        },
    }
}

/// A command that ended, whether it succeeded or not, makes way for the next one, and the whole
/// repository is read again.
pub proof fn every_command_is_followed_by_a_read(
    m: GitAppModel,
    t: Seq<char>,
    label: Seq<char>,
    args: Seq<Seq<char>>,
    ok: bool,
    code: Option<i32>,
    elapsed: Seq<char>,
)
    requires
        m.repo is Some,
    ensures
        ({
            let step = m.polled(t, seq![MsgModel::Exit { label, args, ok, code, elapsed }]);
            let repo = m.repo.unwrap();
            &&& step.app.git.running is None
            &&& step.effects == seq![
                EffectModel::Ask(status_query(repo)),
                EffectModel::Ask(log_query(repo, LOG_LIMIT as int)),
                EffectModel::Ask(refs_query(repo)),
            ]
        }),
{
    let msg = MsgModel::Exit { label, args, ok, code, elapsed };
    let msgs = seq![msg];
    assert(msgs.drop_last() =~= Seq::<MsgModel>::empty());
    assert(m.git.received_all(msgs.drop_last()) == m.git);
    let start = GitAppModel { git: m.git.received_all(msgs), ..m };
    assert(start.handled_all(t, msgs.drop_last()) == still(start));
    let step = m.polled(t, msgs);
    assert(step.effects =~= start.handled(t, msg).effects);
}

/// Only the end of a command makes way for the next one.
pub proof fn only_an_exit_ends_a_command(m: GitAppModel, t: Seq<char>, msg: MsgModel)
    requires
        !(msg is Exit),
    ensures
        m.polled(t, seq![msg]).app.git.running == m.git.running,
        m.polled(t, seq![msg]).effects.len() == 0,
{
    let msgs = seq![msg];
    assert(msgs.drop_last() =~= Seq::<MsgModel>::empty());
    assert(m.git.received_all(msgs.drop_last()) == m.git);
    let start = GitAppModel { git: m.git.received_all(msgs), ..m };
    assert(start.handled_all(t, msgs.drop_last()) == still(start));
}

/// A commit clears its message exactly when it succeeded; nothing else that `git` says touches the
/// message.
pub proof fn messages_survive_until_committed(m: GitAppModel, t: Seq<char>, msg: MsgModel)
    ensures
        m.handled(t, msg).app.commit_msg == if msg matches MsgModel::Exit { args, ok, .. } && ok
            && args.len() > 0 && args[0] == "commit"@ {
            Seq::<char>::empty()
        } else {
            m.commit_msg
        },
{
}

/// Throwing changes away asks first: the action itself starts nothing, and what it would run is
/// started by the confirmation, and by that alone.
pub proof fn discarding_asks_first(m: GitAppModel, t: Seq<char>, path: Seq<char>, untracked: bool)
    ensures
        ({
            let step = m.applied(t, ActionModel::Discard(path, untracked));
            &&& step.effects.len() == 0
            &&& step.app.git == m.git
            &&& step.app.repo == m.repo
            &&& step.app.status == m.status
            &&& step.app.dialog == Some(
                OpenDialogModel {
                    state: DialogStateModel::Confirm(discard_question(path, untracked)),
                    closing: false,
                },
            )
            &&& discard_question(path, untracked).danger
            &&& command_for(step.app, ActionModel::ConfirmDialog) == plain(
                "discard // "@ + path,
                discard_args(path, untracked),
            )
            &&& command_for(
                step.app.applied(t, ActionModel::CloseDialog).app,
                ActionModel::ConfirmDialog,
            ) is None
        }),
{
}

/// A command that throws away changes in the working tree: `clean`, or `restore` without
/// `--staged`.
pub open spec fn throws_away(args: Seq<Seq<char>>) -> bool {
    args.len() > 1 && (args[0] == "clean"@ || (args[0] == "restore"@ && args[1] == "--"@))
}

/// No action throws away changes but the confirmation of a question, and a command that was asked
/// for as such.
pub proof fn only_a_confirmation_throws_away(m: GitAppModel, action: ActionModel)
    requires
        !(action is ConfirmDialog),
        !(action is Run),
        command_for(m, action) is Some,
    ensures
        !throws_away(command_for(m, action).unwrap().args),
{
    reveal_strlit("clean");
    reveal_strlit("restore");
    reveal_strlit("--");
    reveal_strlit("--staged");
    reveal_strlit("add");
    reveal_strlit("reset");
    reveal_strlit("apply");
    reveal_strlit("commit");
    reveal_strlit("switch");
    reveal_strlit("fetch");
    reveal_strlit("pull");
    reveal_strlit("push");
    let args = command_for(m, action).unwrap().args;
    assert("clean"@.len() == 5 && "restore"@.len() == 7 && "add"@.len() == 3);
    assert("reset"@[0] != "clean"@[0]);
    assert("apply"@[0] != "clean"@[0]);
    assert("fetch"@[0] != "clean"@[0]);
    assert("--staged"@.len() != "--"@.len());
}

/// While a question is open, the agent may not press the button that answers it, unless the
/// settings let it; it may press everything else.
pub proof fn agents_may_not_confirm(m: GitAppModel, t: Seq<char>, path: Seq<char>, untracked: bool)
    ensures
        ({
            let asking = m.applied(t, ActionModel::Discard(path, untracked)).app;
            &&& !m.settings.agent_confirm ==> blocked(asking) == seq!["DISCARD"@]
            &&& m.settings.agent_confirm ==> blocked(asking).len() == 0
        }),
        command_for(m, ActionModel::ConfirmDialog) is Some && !m.settings.agent_confirm
            ==> blocked(m).len() == 1,
        m.dialog is None ==> blocked(m).len() == 0,
{
}

/// A commit is made exactly when something is staged and the message is not blank; the message is
/// handed over without white space at its ends.
pub proof fn commits_need_files_and_a_message(m: GitAppModel)
    ensures
        command_for(m, ActionModel::Commit) is Some <==> m.staged.len() > 0 && trim(
            m.commit_msg,
        ).len() > 0,
        command_for(m, ActionModel::Commit) is Some ==> command_for(
            m,
            ActionModel::Commit,
        ).unwrap().stdin == Some(trim(m.commit_msg) + "\n"@),
        can_commit(m) <==> m.git.running is None && command_for(m, ActionModel::Commit) is Some,
{
}

/// A branch without an upstream is pushed to `origin` and follows it from then on; a detached head
/// and a branch with an upstream are pushed as they are.
pub proof fn first_push_sets_the_upstream(m: GitAppModel)
    ensures
        command_for(m, ActionModel::Push).unwrap().args == if m.status.upstream.len() == 0
            && m.status.branch != "(detached)"@ {
            seq!["push"@, "-u"@, "origin"@, m.status.branch]
        } else {
            seq!["push"@]
        },
{
}

/// The kind of the first ref with a name.
pub open spec fn kind_of(refs: Seq<RefModel>, name: Seq<char>) -> Option<RefKind> {
    match ref_named(refs, name) {
        Some(r) => Some(r.kind),
        None => None,
    }
}

/// Switching to a tag detaches, switching to a remote branch goes to the local one of the same
/// name, and anything else is switched to by its name.
pub proof fn switching_goes_by_kind(
    m: GitAppModel,
    name: Seq<char>,
    remote: Seq<char>,
    branch: Seq<char>,
)
    ensures
        ({
            let args = command_for(m, ActionModel::Switch(name)).unwrap().args;
            &&& kind_of(m.refs, name) == Some(RefKind::Tag) ==> args == seq![
                "switch"@,
                "--detach"@,
                name,
            ]
            &&& kind_of(m.refs, name) == Some(RefKind::Remote) ==> args == seq![
                "switch"@,
                local_name(name),
            ]
            &&& kind_of(m.refs, name) is None || kind_of(m.refs, name) == Some(RefKind::Local)
                ==> args == seq!["switch"@, name]
        }),
        !remote.contains('/') ==> local_name(remote + seq!['/'] + branch) == branch,
{
    if !remote.contains('/') {
        split_first(remote, '/', branch);
    }
}

/// An answer to a question that is no longer asked changes nothing: the diff of another selection,
/// or a commit that is no longer on screen.
pub proof fn stale_answers_change_nothing(
    m: GitAppModel,
    t: Seq<char>,
    key: DiffKeyModel,
    result: Result<DiffModel, Seq<char>>,
    d: CommitDetailModel,
)
    ensures
        m.diff_want != Some(key) ==> m.handled(t, MsgModel::Diff(key, result)) == still(m),
        !(m.detail is Some && m.detail.unwrap().hash == d.hash) ==> m.handled(
            t,
            MsgModel::Detail(Ok(d)),
        ) == still(m),
{
}

/// Once what is on screen follows the selection, asking again asks for nothing.
pub proof fn syncing_settles(m: GitAppModel)
    ensures
        m.synced().app.synced().effects.len() == 0,
{
}

/// A new status keeps each selection on its path: what is selected is a file with that path, and
/// nothing is selected only where nothing was or the path has left the list.
pub proof fn selections_follow_their_paths(m: GitAppModel, st: StatusModel, focus: Focus)
    requires
        m.valid(),
        st.changes.len() <= usize::MAX,
        focus != Focus::History,
    ensures
        ({
            let after = m.with_status(st);
            let paths = paths_of(st.changes, after.list(focus));
            match m.chosen(focus) {
                Some(c) => match after.chosen(focus) {
                    Some(now) => now.path == c.path,
                    None => !paths.contains(c.path),
                },
                None => after.chosen(focus) is None,
            }
        }),
{
    let after = m.with_status(st);
    let list = after.list(focus);
    let paths = paths_of(st.changes, list);
    rows_facts(st.changes, focus == Focus::Staged);
    if m.chosen(focus) is Some {
        find_facts(paths, m.chosen(focus).unwrap().path);
    }
}

/// `row` is that of the first commit with a hash; none where there is no hash or no such commit.
pub open spec fn is_row_of(
    commits: Seq<CommitModel>,
    hash: Option<Seq<char>>,
    row: Option<usize>,
) -> bool {
    match (hash, row) {
        (Some(h), Some(r)) => {
            &&& r < commits.len()
            &&& commits[r as int].hash == h
            &&& forall|q: int| 0 <= q < r ==> (#[trigger] commits[q]).hash != h
        },
        (Some(h), None) => forall|q: int|
            0 <= q < commits.len() ==> (#[trigger] commits[q]).hash != h,
        (None, _) => row is None,
    }
}

/// A new log keeps the selection on its commit: the first one with the hash that was selected, and
/// none where no commit has it.
pub proof fn selections_follow_their_commits(m: GitAppModel, commits: Seq<CommitModel>)
    requires
        commits.len() <= usize::MAX,
    ensures
        is_row_of(
            commits,
            hash_of(m.chosen_commit()),
            m.with_commits(commits).hist_table.selected,
        ),
{
    if m.chosen_commit() is Some {
        let hash = m.chosen_commit().unwrap().hash;
        let hashes = hashes_of(commits);
        find_facts(hashes, hash);
        assert(forall|q: int| 0 <= q < commits.len() ==> hashes[q] == (#[trigger] commits[q]).hash);
    }
}

/// A message brings a log.
pub open spec fn brings_log(msg: MsgModel) -> bool {
    match msg {
        MsgModel::Log(Ok(_)) => true,
        _ => false,
    }
}

/// Only a log that was read changes the history: any other message, the error of a log among them,
/// leaves the commits, the graph and the selection as they are.
pub proof fn only_a_log_changes_the_history(m: GitAppModel, t: Seq<char>, msg: MsgModel)
    requires
        !brings_log(msg),
    ensures
        m.handled(t, msg).app.commits == m.commits,
        m.handled(t, msg).app.graph == m.graph,
        m.handled(t, msg).app.hist_table == m.hist_table,
{
}

proof fn messages_without_a_log(m: GitAppModel, t: Seq<char>, msgs: Seq<MsgModel>)
    requires
        forall|i: int| 0 <= i < msgs.len() ==> !brings_log(#[trigger] msgs[i]),
    ensures
        m.handled_all(t, msgs).app.commits == m.commits,
        m.handled_all(t, msgs).app.graph == m.graph,
        m.handled_all(t, msgs).app.hist_table == m.hist_table,
    decreases msgs.len(),
{
    if msgs.len() > 0 {
        let front = msgs.drop_last();
        assert forall|i: int| 0 <= i < front.len() implies !brings_log(#[trigger] front[i]) by {
            assert(front[i] == msgs[i]);
        }
        messages_without_a_log(m, t, front);
        assert(!brings_log(msgs[msgs.len() - 1]));
        only_a_log_changes_the_history(m.handled_all(t, front).app, t, msgs.last());
    }
}

proof fn messages_with_a_log(
    m: GitAppModel,
    t: Seq<char>,
    msgs: Seq<MsgModel>,
    j: int,
    commits: Seq<CommitModel>,
)
    requires
        0 <= j < msgs.len(),
        msgs[j] == MsgModel::Log(Ok(commits)),
        forall|i: int| 0 <= i < msgs.len() && i != j ==> !brings_log(#[trigger] msgs[i]),
    ensures
        m.handled_all(t, msgs).app.commits == commits,
        m.handled_all(t, msgs).app.graph == graph_rows(commits),
        m.handled_all(t, msgs).app.hist_table == m.with_commits(commits).hist_table,
    decreases msgs.len(),
{
    let front = msgs.drop_last();
    let before = m.handled_all(t, front).app;
    assert forall|i: int| 0 <= i < front.len() && i != j implies !brings_log(
        #[trigger] front[i],
    ) by {
        assert(front[i] == msgs[i]);
    }
    if j == front.len() {
        messages_without_a_log(m, t, front);
        assert(msgs.last() == MsgModel::Log(Ok(commits)));
    } else {
        messages_with_a_log(m, t, front, j, commits);
        assert(!brings_log(msgs[msgs.len() - 1]));
        only_a_log_changes_the_history(before, t, msgs.last());
    }
}

/// Messages that bring no log leave the commits, the graph and the selection as they are.
pub proof fn polls_keep_the_history(m: GitAppModel, t: Seq<char>, msgs: Seq<MsgModel>)
    requires
        forall|i: int| 0 <= i < msgs.len() ==> !brings_log(#[trigger] msgs[i]),
    ensures
        m.polled(t, msgs).app.commits == m.commits,
        m.polled(t, msgs).app.graph == m.graph,
        m.polled(t, msgs).app.hist_table == m.hist_table,
{
    messages_without_a_log(GitAppModel { git: m.git.received_all(msgs), ..m }, t, msgs);
}

/// A log among the messages becomes the history: its commits, their graph, and the selection on
/// the first commit with the hash that was selected.
pub proof fn polls_follow_the_log(
    m: GitAppModel,
    t: Seq<char>,
    msgs: Seq<MsgModel>,
    j: int,
    commits: Seq<CommitModel>,
)
    requires
        0 <= j < msgs.len(),
        msgs[j] == MsgModel::Log(Ok(commits)),
        forall|i: int| 0 <= i < msgs.len() && i != j ==> !brings_log(#[trigger] msgs[i]),
        commits.len() <= usize::MAX,
    ensures
        m.polled(t, msgs).app.commits == commits,
        m.polled(t, msgs).app.graph == graph_rows(commits),
        is_row_of(
            commits,
            hash_of(m.chosen_commit()),
            m.polled(t, msgs).app.hist_table.selected,
        ),
{
    let start = GitAppModel { git: m.git.received_all(msgs), ..m };
    messages_with_a_log(start, t, msgs, j, commits);
    selections_follow_their_commits(start, commits);
}

proof fn messages_keep_the_graph(m: GitAppModel, t: Seq<char>, msgs: Seq<MsgModel>)
    requires
        m.graph == graph_rows(m.commits),
    ensures
        m.handled_all(t, msgs).app.graph == graph_rows(m.handled_all(t, msgs).app.commits),
    decreases msgs.len(),
{
    if msgs.len() > 0 {
        let before = m.handled_all(t, msgs.drop_last()).app;
        messages_keep_the_graph(m, t, msgs.drop_last());
        if !brings_log(msgs.last()) {
            only_a_log_changes_the_history(before, t, msgs.last());
        }
    }
}

/// Whatever messages come, the graph stays that of the commits.
pub proof fn polls_keep_the_graph(m: GitAppModel, t: Seq<char>, msgs: Seq<MsgModel>)
    requires
        m.graph == graph_rows(m.commits),
    ensures
        m.polled(t, msgs).app.graph == graph_rows(m.polled(t, msgs).app.commits),
{
    messages_keep_the_graph(GitAppModel { git: m.git.received_all(msgs), ..m }, t, msgs);
}

/// The two lists hold exactly the changes that belong to them; a conflict is never listed as
/// staged.
pub proof fn lists_hold_their_changes(m: GitAppModel, i: int)
    requires
        m.valid(),
        0 <= i < m.status.changes.len(),
    ensures
        m.unstaged.contains(i as usize) <==> m.status.changes[i].in_worktree(),
        m.staged.contains(i as usize) <==> m.status.changes[i].in_index(),
        m.status.changes[i].unmerged() ==> m.unstaged.contains(i as usize) && !m.staged.contains(
            i as usize,
        ),
{
    let changes = m.status.changes;
    rows_facts(changes, false);
    rows_facts(changes, true);
    assert(belongs(changes[i], false) == changes[i].in_worktree());
    assert(belongs(changes[i], true) == changes[i].in_index());
    if m.unstaged.contains(i as usize) {
        let k = choose|k: int| 0 <= k < m.unstaged.len() && m.unstaged[k] == i as usize;
        assert(belongs(changes[rows(changes, false)[k] as int], false));
    }
    if m.staged.contains(i as usize) {
        let k = choose|k: int| 0 <= k < m.staged.len() && m.staged[k] == i as usize;
        assert(belongs(changes[rows(changes, true)[k] as int], true));
    }
}

/// Of the repositories that are remembered, the newest comes first, none comes twice, and there
/// are at most eight.
pub proof fn repositories_are_remembered_once(recent: Seq<Seq<char>>, repo: Seq<char>)
    requires
        forall|i: int, j: int|
            0 <= i < j < recent.len() ==> !same_path(#[trigger] recent[i], #[trigger] recent[j]),
    ensures
        ({
            let now = remembered(recent, repo);
            &&& 0 < now.len() <= RECENT_MAX
            &&& now[0] == repo
            &&& forall|i: int, j: int|
                0 <= i < j < now.len() ==> !same_path(#[trigger] now[i], #[trigger] now[j])
        }),
{
    let other = |r: Seq<char>| !same_path(r, repo);
    let rest = recent.filter(other);
    filtered_stays_distinct(recent, repo);
    let now = remembered(recent, repo);
    assert forall|i: int, j: int| 0 <= i < j < now.len() implies !same_path(
        #[trigger] now[i],
        #[trigger] now[j],
    ) by {
        assert(now[j] == rest[j - 1]);
        if i > 0 {
            assert(now[i] == rest[i - 1]);
        }
    }
}

proof fn filtered_stays_distinct(recent: Seq<Seq<char>>, repo: Seq<char>)
    requires
        forall|i: int, j: int|
            0 <= i < j < recent.len() ==> !same_path(#[trigger] recent[i], #[trigger] recent[j]),
    ensures
        ({
            let rest = recent.filter(|r: Seq<char>| !same_path(r, repo));
            &&& forall|i: int| 0 <= i < rest.len() ==> !same_path(#[trigger] rest[i], repo)
            &&& forall|i: int| 0 <= i < rest.len() ==> recent.contains(#[trigger] rest[i])
            &&& forall|i: int, j: int|
                0 <= i < j < rest.len() ==> !same_path(#[trigger] rest[i], #[trigger] rest[j])
        }),
    decreases recent.len(),
{
    reveal(Seq::filter);
    let other = |r: Seq<char>| !same_path(r, repo);
    let rest = recent.filter(other);
    if recent.len() > 0 {
        let shorter = recent.drop_last();
        assert forall|i: int, j: int| 0 <= i < j < shorter.len() implies !same_path(
            #[trigger] shorter[i],
            #[trigger] shorter[j],
        ) by {
            assert(shorter[i] == recent[i] && shorter[j] == recent[j]);
        }
        filtered_stays_distinct(shorter, repo);
        let before = shorter.filter(other);
        assert forall|i: int| 0 <= i < rest.len() implies recent.contains(#[trigger] rest[i]) by {
            if i < before.len() {
                assert(shorter.contains(before[i]));
                let k = choose|k: int| 0 <= k < shorter.len() && shorter[k] == before[i];
                assert(recent[k] == rest[i]);
            } else {
                assert(recent[recent.len() - 1] == rest[i]);
            }
        }
        assert forall|i: int, j: int| 0 <= i < j < rest.len() implies !same_path(
            #[trigger] rest[i],
            #[trigger] rest[j],
        ) by {
            assert(rest[i] == before[i]);
            if j < before.len() {
                assert(rest[j] == before[j]);
            } else {
                assert(shorter.contains(before[i]));
                let k = choose|k: int| 0 <= k < shorter.len() && shorter[k] == before[i];
                assert(recent[k] == rest[i]);
                assert(rest[j] == recent[recent.len() - 1]);
            }
        }
    }
}

/// The list of recent repositories that is written is the one that is read, where a path can stand
/// in a line.
pub proof fn recent_list_reads_back(recent: Seq<Seq<char>>)
    requires
        forall|i: int|
            0 <= i < recent.len() ==> (#[trigger] recent[i]).len() > 0 && is_plain_line(recent[i]),
    ensures
        recent_in(recent_text(recent)) == recent,
{
    reveal_strlit("\n");
    assert("\n"@ =~= seq!['\n']);
    assert(recent.map_values(|p: Seq<char>| p + "\n"@) =~= recent.map_values(
        |l: Seq<char>| with_break(l),
    ));
    lines_read_back(recent);
    all_kept(recent);
}

proof fn all_kept(recent: Seq<Seq<char>>)
    requires
        forall|i: int| 0 <= i < recent.len() ==> (#[trigger] recent[i]).len() > 0,
    ensures
        recent.filter(|l: Seq<char>| l.len() > 0) == recent,
    decreases recent.len(),
{
    reveal(Seq::filter);
    if recent.len() > 0 {
        let front = recent.drop_last();
        assert forall|i: int| 0 <= i < front.len() implies (#[trigger] front[i]).len() > 0 by {
            assert(front[i] == recent[i]);
        }
        all_kept(front);
        assert(recent[recent.len() - 1].len() > 0);
        assert(front.push(recent.last()) =~= recent);
    }
}

/// A repository that could not be opened leaves the one that is open as it is.
pub proof fn failed_opens_leave_the_repository(
    m: GitAppModel,
    t: Seq<char>,
    path: Seq<char>,
    e: Seq<char>,
)
    ensures
        ({
            let step = m.after_open(t, path, Err(e));
            &&& step.effects.len() == 0
            &&& step.app.repo == m.repo
            &&& step.app.recent == m.recent
            &&& step.app.status == m.status
            &&& step.app.commits == m.commits
            &&& step.app.refs == m.refs
            &&& step.app.git == m.git
            &&& step.app.commit_msg == m.commit_msg
        }),
{
    reveal(GitAppModel::after_open);
}

/// Opening the repository that is open already, by whatever spelling of its path, only reads it
/// again.
pub proof fn reopening_only_reads(m: GitAppModel, t: Seq<char>, path: Seq<char>, top: Seq<char>)
    requires
        m.repo is Some,
        same_path(m.repo.unwrap(), top),
    ensures
        m.after_open(t, path, Ok(top)) == m.refreshed(),
{
    reveal(GitAppModel::after_open);
}

/// Nothing of another repository is shown once one is opened, and all of it is read.
pub proof fn opening_starts_afresh(m: GitAppModel, t: Seq<char>, path: Seq<char>, top: Seq<char>)
    requires
        !(m.repo is Some && same_path(m.repo.unwrap(), top)),
    ensures
        ({
            let step = m.after_open(t, path, Ok(top));
            &&& step.app.repo == Some(top)
            &&& step.app.recent == remembered(m.recent, top)
            &&& step.app.status.changes.len() == 0
            &&& step.app.commits.len() == 0
            &&& step.app.refs.len() == 0
            &&& step.app.diff is None
            &&& step.app.detail is None
            &&& step.app.commit_msg.len() == 0
            &&& step.app.last_error is None
            &&& step.effects == seq![
                EffectModel::SaveRecent(recent_text(step.app.recent)),
                EffectModel::Ask(status_query(top)),
                EffectModel::Ask(log_query(top, LOG_LIMIT as int)),
                EffectModel::Ask(refs_query(top)),
            ]
        }),
{
    reveal(GitAppModel::after_open);
    let step = m.after_open(t, path, Ok(top));
    assert(step.effects =~= seq![
        EffectModel::SaveRecent(recent_text(step.app.recent)),
        EffectModel::Ask(status_query(top)),
        EffectModel::Ask(log_query(top, LOG_LIMIT as int)),
        EffectModel::Ask(refs_query(top)),
    ]);
}

/// The patch that stages one hunk of a diff holds that hunk and no other; unstaging applies it in
/// reverse.
pub proof fn one_hunk_is_moved(m: GitAppModel, text: Seq<char>, path: Seq<char>, i: usize)
    requires
        i < diff_of(text).hunks.len(),
        m.diff == Some((DiffKeyModel::Unstaged(path), diff_of(text))) || m.diff == Some(
            (DiffKeyModel::Staged(path), diff_of(text)),
        ),
    ensures
        command_for(m, ActionModel::StageHunk(i)) == command_for(m, ActionModel::UnstageHunk(i)),
        ({
            let c = command_for(m, ActionModel::StageHunk(i)).unwrap();
            &&& command_for(m, ActionModel::StageHunk(i)) is Some
            &&& c.stdin is Some
            &&& diff_of(c.stdin.unwrap()).header == diff_of(text).header
            &&& diff_of(c.stdin.unwrap()).hunks == seq![diff_of(text).hunks[i as int]]
            &&& c.args == if m.diff.unwrap().0 is Unstaged {
                seq!["apply"@, "--cached"@]
            } else {
                seq!["apply"@, "--cached"@, "-R"@]
            }
        }),
{
    hunk_patch_reads_back(text, i as int);
}

/// A dialog that is closing takes no more input, its text field does not ask for the focus, and
/// confirming it again starts nothing.
pub proof fn closing_dialogs_are_done(m: GitAppModel, t: Seq<char>, i: DialogInput)
    requires
        m.dialog is Some,
        m.dialog.unwrap().closing,
    ensures
        m.dialog_asks(i) is None,
        match m.field_seen(i).dialog.unwrap().state {
            DialogStateModel::Open { focus, .. } => !focus,
            DialogStateModel::Branch { focus, .. } => !focus,
            _ => true,
        },
        m.applied(t, ActionModel::ConfirmDialog) == still(m),
        m.applied(t, ActionModel::ConfirmBranch) == still(m),
        m.applied(t, ActionModel::ConfirmOpen) == still(m),
        m.applied(t, ActionModel::CompleteOpen) == still(m),
{
    reveal(GitAppModel::confirmed);
    reveal(GitAppModel::branched);
    reveal(GitAppModel::confirming_open);
    reveal(GitAppModel::completing);
}

/// Notices come on screen in the order in which they were queued, each when no dialog is there,
/// and none is lost.
pub proof fn notices_wait_their_turn(m: GitAppModel)
    ensures
        m.dialog is Some ==> m.announced() == m,
        m.dialog is None && m.notice_queue.len() > 0 ==> {
            &&& m.announced().dialog matches Some(d) && d.state == (DialogStateModel::Notice {
                success: m.notice_queue[0].0,
                line: m.notice_queue[0].1,
            }) && !d.closing
            &&& m.announced().notice_queue == m.notice_queue.drop_first()
        },
{
}

/// The answer to a read takes it off the reads that are out.
pub proof fn answers_settle_their_reads(g: GitModel, reads: ReadsModel, outcome: Outcome)
    requires
        g.pending >= 0,
    ensures
        g.asked().received(answer_of(reads, outcome)) == g,
{
}

} // verus!
