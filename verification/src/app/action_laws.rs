//! What each action runs, and what opening a repository does.

use vstd::prelude::*;
use vstd::utf8::encode_utf8;

use crate::app::message_laws::says;
use crate::app::open::{recent_in, remembered};
use crate::app::run::{ref_named, still};
use crate::app::state::{
    ActionModel, ConfirmModel, DialogStateModel, EffectModel, Focus, GitAppModel, Level,
    OpenDialogModel,
};
use crate::git::command::{DiffKeyModel, JobModel};
use crate::git::diff::DiffModel;
use crate::git::refs::{RefKind, RefModel};
use crate::git::worker::GitModel;
use crate::number::decimal;
use crate::path::same_path;
use crate::text::{join, lines};
use crate::text_laws::{
    first_lines_end_at_a_break, is_blank, is_tight, split_first, trim_takes_the_ends,
};

verus! {

/// A command can be started: a repository is open, and nothing is running.
pub open spec fn is_ready(m: GitAppModel, repo: Seq<char>) -> bool {
    m.repo == Some(repo) && m.git.running is None
}

/// An action started a command, and that alone: it is running, what it is was logged, and but for
/// the dialog, which may close, nothing else changed.
pub open spec fn started(
    m: GitAppModel,
    t: Seq<char>,
    action: ActionModel,
    job: JobModel,
) -> bool {
    let step = m.applied(t, action);
    &&& step.effects == seq![EffectModel::Start(job)]
    &&& step.app.git.running == Some(job.label)
    &&& step.app.git.pending == m.git.pending
    &&& says(step.app, t, "$ git "@ + join(job.args, " "@), Level::Info)
    &&& step.app == (GitAppModel {
        git: step.app.git,
        log: step.app.log,
        dialog: step.app.dialog,
        ..m
    })
}

/// Files are staged by their paths, all at once, behind `--`; one file is named, several are
/// counted.
pub proof fn files_are_staged(m: GitAppModel, t: Seq<char>, repo: Seq<char>, paths: Seq<Seq<char>>)
    requires
        is_ready(m, repo),
    ensures
        ({
            let named = if paths.len() == 1 {
                paths[0]
            } else {
                decimal(paths.len()) + " files"@
            };
            &&& started(
                m,
                t,
                ActionModel::Stage(paths),
                (JobModel {
                    repo,
                    label: "stage // "@ + named,
                    args: seq!["add"@, "--"@] + paths,
                    stdin: None,
                }),
            )
            &&& started(
                m,
                t,
                ActionModel::Unstage(paths),
                (JobModel {
                    repo,
                    label: "unstage // "@ + named,
                    args: seq!["restore"@, "--staged"@, "--"@] + paths,
                    stdin: None,
                }),
            )
        }),
{
    reveal(GitAppModel::staging);
    reveal(GitAppModel::unstaging);
    reveal(GitAppModel::ran);
}

/// All files are staged with `add -A`, and unstaged with `reset`; fetching goes to all remotes and
/// prunes, and pulling only goes forward.
pub proof fn whole_trees_are_moved(m: GitAppModel, t: Seq<char>, repo: Seq<char>)
    requires
        is_ready(m, repo),
    ensures
        started(
            m,
            t,
            ActionModel::StageAll,
            (JobModel { repo, label: "stage // all"@, args: seq!["add"@, "-A"@], stdin: None }),
        ),
        started(
            m,
            t,
            ActionModel::UnstageAll,
            (JobModel { repo, label: "unstage // all"@, args: seq!["reset"@, "-q"@], stdin: None }),
        ),
        started(
            m,
            t,
            ActionModel::Fetch,
            (JobModel {
                repo,
                label: "fetch // all"@,
                args: seq!["fetch"@, "--all"@, "--prune"@],
                stdin: None,
            }),
        ),
        started(
            m,
            t,
            ActionModel::Pull,
            (JobModel { repo, label: "pull"@, args: seq!["pull"@, "--ff-only"@], stdin: None }),
        ),
        started(
            m,
            t,
            ActionModel::Push,
            (JobModel {
                repo,
                label: "push"@,
                args: if m.status.upstream.len() == 0 && m.status.branch != "(detached)"@ {
                    seq!["push"@, "-u"@, "origin"@, m.status.branch]
                } else {
                    seq!["push"@]
                },
                stdin: None,
            }),
        ),
{
    reveal(GitAppModel::ran);
}

/// The file that is selected changes sides: out of the working tree it is staged, and out of the
/// index unstaged. Without a selection, and in the history, nothing happens.
pub proof fn the_selected_file_changes_sides(m: GitAppModel, t: Seq<char>)
    ensures
        m.focus == Focus::Unstaged ==> m.applied(t, ActionModel::ToggleSelected) == match m.chosen(
            Focus::Unstaged,
        ) {
            Some(c) => m.applied(t, ActionModel::Stage(seq![c.path])),
            None => still(m),
        },
        m.focus == Focus::Staged ==> m.applied(t, ActionModel::ToggleSelected) == match m.chosen(
            Focus::Staged,
        ) {
            Some(c) => m.applied(t, ActionModel::Unstage(seq![c.path])),
            None => still(m),
        },
        m.focus == Focus::History ==> m.applied(t, ActionModel::ToggleSelected) == still(m),
        still(m).app == m && still(m).effects.len() == 0,
{
    reveal(GitAppModel::toggled);
}

/// A hunk is staged by applying the file header and that hunk to the index, and unstaged by
/// applying them in reverse; it is called by its path and number. Nothing is done with a hunk of a
/// commit, nor with one that is not there.
pub proof fn hunks_are_applied_to_the_index(
    m: GitAppModel,
    t: Seq<char>,
    repo: Seq<char>,
    path: Seq<char>,
    hash: Seq<char>,
    d: DiffModel,
    i: usize,
)
    requires
        is_ready(m, repo),
    ensures
        m.diff == Some((DiffKeyModel::Unstaged(path), d)) && i < d.hunks.len() ==> started(
            m,
            t,
            ActionModel::StageHunk(i),
            (JobModel {
                repo,
                label: "stage hunk // "@ + path + " #"@ + decimal((i + 1) as nat),
                args: seq!["apply"@, "--cached"@],
                stdin: Some(d.header + d.hunks[i as int]),
            }),
        ),
        m.diff == Some((DiffKeyModel::Staged(path), d)) && i < d.hunks.len() ==> started(
            m,
            t,
            ActionModel::UnstageHunk(i),
            (JobModel {
                repo,
                label: "unstage hunk // "@ + path + " #"@ + decimal((i + 1) as nat),
                args: seq!["apply"@, "--cached"@, "-R"@],
                stdin: Some(d.header + d.hunks[i as int]),
            }),
        ),
        m.diff is None || m.diff.unwrap().1.hunks.len() <= i || m.diff == Some(
            (DiffKeyModel::Commit(hash, path), d),
        ) ==> m.applied(t, ActionModel::StageHunk(i)) == still(m) && m.applied(
            t,
            ActionModel::UnstageHunk(i),
        ) == still(m),
        m.applied(t, ActionModel::UnstageHunk(i)) == m.applied(t, ActionModel::StageHunk(i)),
{
    reveal(GitAppModel::hunk_moved);
    reveal(GitAppModel::ran);
}

/// What is staged is committed with the message as it was written, without the white space around
/// it and with a line break behind it; the command is called by its first line. A blank message,
/// or nothing staged, makes no commit.
pub proof fn commits_take_the_message(
    m: GitAppModel,
    t: Seq<char>,
    repo: Seq<char>,
    before: Seq<char>,
    line: Seq<char>,
    rest: Seq<char>,
    behind: Seq<char>,
)
    requires
        is_ready(m, repo),
        is_blank(before),
        is_blank(behind),
        !line.contains('\n'),
        !(line.len() > 0 && line.last() == '\r'),
    ensures
        ({
            let msg = line + seq!['\n'] + rest;
            m.commit_msg == before + msg + behind && is_tight(msg) && m.staged.len() > 0
                ==> started(
                m,
                t,
                ActionModel::Commit,
                (JobModel {
                    repo,
                    label: "commit // "@ + if line.len() > 60 {
                        line.take(60)
                    } else {
                        line
                    },
                    args: seq!["commit"@, "-F"@, "-"@],
                    stdin: Some(msg + "\n"@),
                }),
            )
        }),
        m.commit_msg == before + line + behind && is_tight(line) && line.len() > 0
            && m.staged.len() > 0 ==> started(
            m,
            t,
            ActionModel::Commit,
            (JobModel {
                repo,
                label: "commit // "@ + if line.len() > 60 {
                    line.take(60)
                } else {
                    line
                },
                args: seq!["commit"@, "-F"@, "-"@],
                stdin: Some(line + "\n"@),
            }),
        ),
        m.commit_msg == before || m.staged.len() == 0 ==> m.applied(t, ActionModel::Commit)
            == still(m),
{
    let msg = line + seq!['\n'] + rest;
    let none = Seq::<char>::empty();
    reveal(GitAppModel::committed);
    reveal(GitAppModel::ran);
    if is_tight(msg) {
        trim_takes_the_ends(before, msg, behind);
    }
    if is_tight(line) {
        trim_takes_the_ends(before, line, behind);
    }
    trim_takes_the_ends(before, none, none);
    assert(before + none + none =~= before);
    first_lines_end_at_a_break(line, rest);
}

/// The name of a branch is taken without the white space around it: the branch is created and
/// switched to, and the dialog closes. Without a name nothing happens.
pub proof fn branches_are_created(
    m: GitAppModel,
    t: Seq<char>,
    repo: Seq<char>,
    before: Seq<char>,
    name: Seq<char>,
    behind: Seq<char>,
    focus: bool,
)
    requires
        is_ready(m, repo),
        is_blank(before),
        is_blank(behind),
        is_tight(name),
        m.dialog == Some(
            OpenDialogModel {
                state: DialogStateModel::Branch { input: before + name + behind, focus },
                closing: false,
            },
        ),
    ensures
        name.len() > 0 ==> {
            &&& started(
                m,
                t,
                ActionModel::ConfirmBranch,
                (JobModel {
                    repo,
                    label: "branch // "@ + name,
                    args: seq!["switch"@, "-c"@, name],
                    stdin: None,
                }),
            )
            &&& m.applied(t, ActionModel::ConfirmBranch).app.dialog == Some(
                OpenDialogModel { closing: true, ..m.dialog.unwrap() },
            )
        },
        name.len() == 0 ==> m.applied(t, ActionModel::ConfirmBranch) == still(m),
{
    reveal(GitAppModel::branched);
    reveal(GitAppModel::ran);
    trim_takes_the_ends(before, name, behind);
}

/// A question that is confirmed runs what it asked about, and closes.
pub proof fn confirmed_questions_are_run(
    m: GitAppModel,
    t: Seq<char>,
    repo: Seq<char>,
    c: ConfirmModel,
)
    requires
        is_ready(m, repo),
        m.dialog == Some(OpenDialogModel { state: DialogStateModel::Confirm(c), closing: false }),
    ensures
        started(
            m,
            t,
            ActionModel::ConfirmDialog,
            (JobModel { repo, label: c.label, args: c.args, stdin: None }),
        ),
        m.applied(t, ActionModel::ConfirmDialog).app.dialog == Some(
            OpenDialogModel { closing: true, ..m.dialog.unwrap() },
        ),
{
    reveal(GitAppModel::confirmed);
    reveal(GitAppModel::ran);
}

/// Throwing changes away is asked about first, with what would be run: a file that is not tracked
/// is deleted, another one restored, by its path and behind `--`.
pub proof fn discarding_asks_with_its_command(m: GitAppModel, t: Seq<char>, path: Seq<char>)
    ensures
        ({
            let step = m.applied(t, ActionModel::Discard(path, true));
            &&& step.effects.len() == 0
            &&& step.app == (GitAppModel { dialog: step.app.dialog, ..m })
            &&& step.app.dialog == Some(
                OpenDialogModel {
                    state: DialogStateModel::Confirm(
                        ConfirmModel {
                            title: "Discard changes"@,
                            line: path,
                            note: "DELETES THE FILE. THIS CANNOT BE UNDONE"@,
                            verb: "DISCARD"@,
                            danger: true,
                            label: "discard // "@ + path,
                            args: seq!["clean"@, "-f"@, "--"@, path],
                        },
                    ),
                    closing: false,
                },
            )
        }),
        ({
            let step = m.applied(t, ActionModel::Discard(path, false));
            &&& step.effects.len() == 0
            &&& step.app == (GitAppModel { dialog: step.app.dialog, ..m })
            &&& step.app.dialog == Some(
                OpenDialogModel {
                    state: DialogStateModel::Confirm(
                        ConfirmModel {
                            title: "Discard changes"@,
                            line: path,
                            note: "THROWS AWAY THE WORKTREE CHANGES. THIS CANNOT BE UNDONE"@,
                            verb: "DISCARD"@,
                            danger: true,
                            label: "discard // "@ + path,
                            args: seq!["restore"@, "--"@, path],
                        },
                    ),
                    closing: false,
                },
            )
        }),
{
}

proof fn first_ref_named(refs: Seq<RefModel>, name: Seq<char>, i: int)
    requires
        0 <= i <= refs.len(),
        forall|j: int| 0 <= j < i ==> (#[trigger] refs[j]).name != name,
        i < refs.len() ==> refs[i].name == name,
    ensures
        ref_named(refs, name) == if i < refs.len() {
            Some(refs[i])
        } else {
            None
        },
    decreases refs.len(),
{
    if i > 0 {
        assert(refs[0].name != name);
        let rest = refs.drop_first();
        assert forall|j: int| 0 <= j < i - 1 implies (#[trigger] rest[j]).name != name by {
            assert(rest[j] == refs[j + 1]);
        }
        first_ref_named(rest, name, i - 1);
    }
}

/// What is switched to goes by the kind of the first ref with that name: a tag is detached, a
/// remote branch goes to the local one behind the name of the remote, and anything else by its
/// name. Names with more slashes lose only the first part.
pub proof fn switching_goes_by_the_ref(
    m: GitAppModel,
    t: Seq<char>,
    repo: Seq<char>,
    remote: Seq<char>,
    branch: Seq<char>,
    i: int,
)
    requires
        is_ready(m, repo),
        !remote.contains('/'),
        0 <= i <= m.refs.len(),
        forall|j: int| 0 <= j < i ==> (#[trigger] m.refs[j]).name != remote + seq!['/'] + branch,
        i < m.refs.len() ==> m.refs[i].name == remote + seq!['/'] + branch,
    ensures
        ({
            let name = remote + seq!['/'] + branch;
            started(
                m,
                t,
                ActionModel::Switch(name),
                (JobModel {
                    repo,
                    label: "switch // "@ + name,
                    args: if i < m.refs.len() && m.refs[i].kind == RefKind::Tag {
                        seq!["switch"@, "--detach"@, name]
                    } else if i < m.refs.len() && m.refs[i].kind == RefKind::Remote {
                        seq!["switch"@, branch]
                    } else {
                        seq!["switch"@, name]
                    },
                    stdin: None,
                }),
            )
        }),
{
    let name = remote + seq!['/'] + branch;
    reveal(GitAppModel::switched);
    reveal(GitAppModel::ran);
    first_ref_named(m.refs, name, i);
    split_first(remote, '/', branch);
}

/// The same holds of a name without a slash.
pub proof fn switching_to_a_plain_name(
    m: GitAppModel,
    t: Seq<char>,
    repo: Seq<char>,
    name: Seq<char>,
    i: int,
)
    requires
        is_ready(m, repo),
        !name.contains('/'),
        0 <= i <= m.refs.len(),
        forall|j: int| 0 <= j < i ==> (#[trigger] m.refs[j]).name != name,
        i < m.refs.len() ==> m.refs[i].name == name,
    ensures
        started(
            m,
            t,
            ActionModel::Switch(name),
            (JobModel {
                repo,
                label: "switch // "@ + name,
                args: if i < m.refs.len() && m.refs[i].kind == RefKind::Tag {
                    seq!["switch"@, "--detach"@, name]
                } else {
                    seq!["switch"@, name]
                },
                stdin: None,
            }),
        ),
{
    reveal(GitAppModel::switched);
    reveal(GitAppModel::ran);
    first_ref_named(m.refs, name, i);
    split_first(name, '/', seq![]);
}

/// A command that cannot be started changes nothing but the log and the notices, which say why.
pub proof fn refusals_say_why(
    m: GitAppModel,
    t: Seq<char>,
    label: Seq<char>,
    args: Seq<Seq<char>>,
    stdin: Option<Seq<char>>,
)
    ensures
        ({
            let step = m.applied(t, ActionModel::Run(label, args, stdin));
            &&& m.repo is None ==> step.effects.len() == 0 && step.app == m.failed(
                t,
                label,
                "no repository open"@,
            )
            &&& m.repo is Some && m.git.running is Some ==> step.effects.len() == 0 && step.app
                == m.failed(t, label, "another git command is still running"@)
            &&& m.repo is Some && m.git.running is None ==> started(
                m,
                t,
                ActionModel::Run(label, args, stdin),
                (JobModel { repo: m.repo.unwrap(), label, args, stdin }),
            )
        }),
{
    reveal(GitAppModel::ran);
}

/// Of the repositories that are remembered, the one that was opened comes first and the others
/// keep their order; the oldest go beyond eight.
pub proof fn others_stay_in_order(
    before: Seq<Seq<char>>,
    spelling: Seq<Seq<char>>,
    behind: Seq<Seq<char>>,
    repo: Seq<char>,
)
    requires
        forall|i: int| 0 <= i < before.len() ==> !same_path(#[trigger] before[i], repo),
        forall|i: int| 0 <= i < behind.len() ==> !same_path(#[trigger] behind[i], repo),
        forall|i: int| 0 <= i < spelling.len() ==> same_path(#[trigger] spelling[i], repo),
    ensures
        ({
            let all = seq![repo] + before + behind;
            remembered(before + spelling + behind, repo) == if all.len() > 8 {
                all.take(8)
            } else {
                all
            }
        }),
{
    let other = |r: Seq<char>| !same_path(r, repo);
    others_are_kept(before + spelling, behind, repo);
    others_go(before, spelling, repo);
    others_are_kept(Seq::empty(), before, repo);
    assert(Seq::<Seq<char>>::empty() + before =~= before);
    assert(Seq::<Seq<char>>::empty().filter(other) =~= Seq::<Seq<char>>::empty()) by {
        reveal(Seq::filter);
    }
    assert(seq![repo] + (before + behind) =~= seq![repo] + before + behind);
}

proof fn others_are_kept(a: Seq<Seq<char>>, b: Seq<Seq<char>>, repo: Seq<char>)
    requires
        forall|i: int| 0 <= i < b.len() ==> !same_path(#[trigger] b[i], repo),
    ensures
        (a + b).filter(|r: Seq<char>| !same_path(r, repo)) == a.filter(
            |r: Seq<char>| !same_path(r, repo),
        ) + b,
    decreases b.len(),
{
    let other = |r: Seq<char>| !same_path(r, repo);
    reveal(Seq::filter);
    if b.len() == 0 {
        assert(a + b =~= a);
        assert(a.filter(other) + b =~= a.filter(other));
    } else {
        let front = b.drop_last();
        assert forall|i: int| 0 <= i < front.len() implies !same_path(
            #[trigger] front[i],
            repo,
        ) by {
            assert(front[i] == b[i]);
        }
        others_are_kept(a, front, repo);
        assert((a + b).drop_last() =~= a + front);
        assert(!same_path(b[b.len() - 1], repo));
        assert((a + b).filter(other) =~= a.filter(other) + b);
    }
}

proof fn others_go(a: Seq<Seq<char>>, b: Seq<Seq<char>>, repo: Seq<char>)
    requires
        forall|i: int| 0 <= i < b.len() ==> same_path(#[trigger] b[i], repo),
    ensures
        (a + b).filter(|r: Seq<char>| !same_path(r, repo)) == a.filter(
            |r: Seq<char>| !same_path(r, repo),
        ),
    decreases b.len(),
{
    let other = |r: Seq<char>| !same_path(r, repo);
    reveal(Seq::filter);
    if b.len() == 0 {
        assert(a + b =~= a);
    } else {
        let front = b.drop_last();
        assert forall|i: int| 0 <= i < front.len() implies same_path(#[trigger] front[i], repo) by {
            assert(front[i] == b[i]);
        }
        others_go(a, front, repo);
        assert((a + b).drop_last() =~= a + front);
        assert(same_path(b[b.len() - 1], repo));
    }
}

/// The repositories that are read are the lines of the list that are not empty, in their order.
pub proof fn recent_lines_are_read(text: Seq<char>, i: int)
    ensures
        forall|k: int| 0 <= k < recent_in(text).len() ==> (#[trigger] recent_in(text)[k]).len() > 0,
        0 <= i < lines(text).len() && lines(text)[i].len() > 0 ==> recent_in(text).contains(
            lines(text)[i],
        ),
{
    filled_lines(lines(text));
}

proof fn filled_lines(ls: Seq<Seq<char>>)
    ensures
        ({
            let kept = ls.filter(|l: Seq<char>| l.len() > 0);
            &&& forall|k: int| 0 <= k < kept.len() ==> (#[trigger] kept[k]).len() > 0
            &&& forall|i: int|
                0 <= i < ls.len() && (#[trigger] ls[i]).len() > 0 ==> kept.contains(ls[i])
        }),
    decreases ls.len(),
{
    reveal(Seq::filter);
    let full = |l: Seq<char>| l.len() > 0;
    if ls.len() > 0 {
        let front = ls.drop_last();
        filled_lines(front);
        let kept = ls.filter(full);
        let before = front.filter(full);
        assert forall|i: int|
            0 <= i < ls.len() && (#[trigger] ls[i]).len() > 0 implies kept.contains(ls[i]) by {
            if i < front.len() {
                assert(front[i] == ls[i]);
                assert(before.contains(front[i]));
                let k = choose|k: int| 0 <= k < before.len() && before[k] == front[i];
                assert(kept[k] == ls[i]);
            } else {
                assert(kept[kept.len() - 1] == ls[i]);
            }
        }
    }
}

/// A path that is in no repository is said to be: in the dialog that asked for it, or in a notice
/// by that path.
pub proof fn refused_paths_are_said(
    m: GitAppModel,
    t: Seq<char>,
    path: Seq<char>,
    e: Seq<char>,
)
    ensures
        ({
            let step = m.after_open(t, path, Err(e));
            match m.dialog {
                Some(d) => match d.state {
                    DialogStateModel::Open { input, focus, suggestions, suggested_for, .. } =>
                        step.app == (GitAppModel {
                            dialog: Some(
                                OpenDialogModel {
                                    state: DialogStateModel::Open {
                                        input,
                                        error: Some(e),
                                        focus,
                                        suggestions,
                                        suggested_for,
                                    },
                                    closing: d.closing,
                                },
                            ),
                            ..m
                        }),
                    _ => step.app == m.failed(t, "open // "@ + path, e),
                },
                None => step.app == m.failed(t, "open // "@ + path, e),
            }
        }),
{
    reveal(GitAppModel::after_open);
}

/// A repository that is opened is logged, is idle but for its reads, and nothing of another one is
/// left: no rows, no selections, no message. Settings, views and notices stay.
pub proof fn opened_repositories_are_fresh(
    m: GitAppModel,
    t: Seq<char>,
    path: Seq<char>,
    top: Seq<char>,
)
    requires
        !(m.repo is Some && same_path(m.repo.unwrap(), top)),
    ensures
        ({
            let after = m.after_open(t, path, Ok(top)).app;
            &&& says(after, t, "open // "@ + top, Level::Good)
            &&& after.git == (GitModel { pending: m.git.pending + 3, ..m.git })
            &&& after.graph.len() == 0
            &&& after.unstaged.len() == 0 && after.staged.len() == 0
            &&& after.unstaged_table.selected is None
            &&& after.staged_table.selected is None
            &&& after.hist_table.selected is None
            &&& after.diff_want is None
            &&& after.status.head.len() == 0 && after.status.branch.len() == 0
            &&& after.status.upstream.len() == 0
            &&& after.status.ahead == 0 && after.status.behind == 0
            &&& after.screen == m.screen && after.focus == m.focus
            &&& after.settings == m.settings && after.notice_queue == m.notice_queue
            &&& after.dialog == m.dialog && after.detail_table == m.detail_table
            &&& after.now == m.now
        }),
{
    reveal(GitAppModel::after_open);
}

/// What was typed into the dialog is looked for without the white space around it; where it is in
/// a repository the dialog closes, and where it is not it stays and says why.
pub proof fn typed_paths_are_opened(
    m: GitAppModel,
    t: Seq<char>,
    before: Seq<char>,
    typed: Seq<char>,
    behind: Seq<char>,
    focus: bool,
    suggestions: Seq<Seq<char>>,
    suggested_for: Seq<char>,
    top: Seq<char>,
    e: Seq<char>,
)
    requires
        is_blank(before),
        is_blank(behind),
        is_tight(typed),
        m.dialog == Some(
            OpenDialogModel {
                state: DialogStateModel::Open {
                    input: before + typed + behind,
                    error: None,
                    focus,
                    suggestions,
                    suggested_for,
                },
                closing: false,
            },
        ),
    ensures
        m.applied(t, ActionModel::ConfirmOpen).app == m,
        m.applied(t, ActionModel::ConfirmOpen).effects == seq![
            EffectModel::Expand { input: typed, cwd: m.repo },
        ],
        m.after_confirm_open(t, typed, Ok(top)).app.dialog == Some(
            OpenDialogModel { closing: true, ..m.dialog.unwrap() },
        ),
        m.after_confirm_open(t, typed, Ok(top)).effects == m.after_open(t, typed, Ok(top)).effects,
        m.after_confirm_open(t, typed, Err(e)) == m.after_open(t, typed, Err(e)),
{
    reveal(GitAppModel::confirming_open);
    reveal(GitAppModel::after_open);
    trim_takes_the_ends(before, typed, behind);
}

/// A completion takes the place of what was typed only where it is longer: the one suggestion, or
/// what several have in common. Without a suggestion nothing happens.
pub proof fn completions_make_it_longer(
    m: GitAppModel,
    t: Seq<char>,
    input: Seq<char>,
    error: Option<Seq<char>>,
    focus: bool,
    suggestions: Seq<Seq<char>>,
    suggested_for: Seq<char>,
    filled: Seq<char>,
)
    requires
        m.dialog == Some(
            OpenDialogModel {
                state: DialogStateModel::Open { input, error, focus, suggestions, suggested_for },
                closing: false,
            },
        ),
    ensures
        ({
            let step = m.applied(t, ActionModel::CompleteOpen);
            &&& suggestions.len() == 0 ==> step == still(m)
            &&& suggestions.len() == 1 ==> step == still(m.with_input(suggestions[0]))
            &&& suggestions.len() > 1 ==> step.app == m && step.effects == seq![
                EffectModel::CommonPrefix(suggestions),
            ]
        }),
        encode_utf8(filled).len() <= encode_utf8(input).len() ==> m.with_input(filled) == m,
        encode_utf8(filled).len() > encode_utf8(input).len() ==> m.with_input(filled) == (
        GitAppModel {
            dialog: Some(
                OpenDialogModel {
                    state: DialogStateModel::Open {
                        input: filled,
                        error,
                        focus,
                        suggestions,
                        suggested_for,
                    },
                    closing: false,
                },
            ),
            ..m
        }),
{
    reveal(GitAppModel::completing);
}

} // verus!
