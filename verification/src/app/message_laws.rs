//! What each message from `git` means for the application.

use vstd::prelude::*;

use crate::app::journal::with_line;
use crate::app::select::hash_of;
use crate::app::state::{EventModel, GitAppModel, Level};
use crate::git::command::DiffKeyModel;
use crate::git::diff::DiffModel;
use crate::git::log::{CommitDetailModel, CommitModel};
use crate::git::refs::RefModel;
use crate::git::worker::MsgModel;
use crate::number::signed_decimal;

verus! {

/// The last line of the log.
pub open spec fn says(m: GitAppModel, t: Seq<char>, text: Seq<char>, level: Level) -> bool {
    m.log.len() > 0 && m.log.last() == (EventModel { time: "["@ + t + "]"@, text, level })
}

/// What is logged comes last, with its time in brackets; below two thousand lines nothing goes,
/// and beyond that the oldest five hundred do.
pub proof fn lines_are_logged(log: Seq<EventModel>, line: EventModel)
    ensures
        with_line(log, line).last() == line,
        log.len() < 2000 ==> with_line(log, line) == log.push(line),
        log.len() >= 2000 ==> with_line(log, line) == log.push(line).skip(500),
{
}

/// Something that failed is logged with its reason, and announced.
pub proof fn failures_are_announced(
    m: GitAppModel,
    t: Seq<char>,
    line: Seq<char>,
    detail: Seq<char>,
)
    ensures
        says(m.failed(t, line, detail), t, line + " :: failed :: "@ + detail, Level::Danger),
        m.failed(t, line, detail).notice_queue == m.notice_queue.push((false, line)),
        m.failed(t, line, detail) == (GitAppModel {
            log: m.failed(t, line, detail).log,
            notice_queue: m.failed(t, line, detail).notice_queue,
            ..m
        }),
{
}

/// A line of output is logged as it is. What it starts with says how: errors and fatal ones as
/// danger, warnings and hints as a warning, and anything else by the stream that it came from.
pub proof fn output_is_logged(
    m: GitAppModel,
    t: Seq<char>,
    word: Seq<char>,
    rest: Seq<char>,
    stderr: bool,
)
    ensures
        ({
            let text = word + rest;
            let step = m.handled(t, MsgModel::Line { text, stderr });
            &&& step.effects.len() == 0
            &&& step.app == (GitAppModel { log: step.app.log, ..m })
            &&& word == "error"@ || word == "fatal"@ ==> says(step.app, t, text, Level::Danger)
            &&& word == "warning"@ || word == "hint"@ ==> says(step.app, t, text, Level::Warn)
            &&& !"error"@.is_prefix_of(text) && !"fatal"@.is_prefix_of(text)
                && !"warning"@.is_prefix_of(text) && !"hint"@.is_prefix_of(text) ==> says(
                step.app,
                t,
                text,
                if stderr {
                    Level::Info
                } else {
                    Level::Good
                },
            )
        }),
{
    reveal_strlit("error");
    reveal_strlit("fatal");
    reveal_strlit("warning");
    reveal_strlit("hint");
    let text = word + rest;
    assert(word.is_prefix_of(text)) by {
        assert(word =~= text.subrange(0, word.len() as int));
    }
    if word == "warning"@ || word == "hint"@ {
        if "error"@.is_prefix_of(text) {
            assert(text.subrange(0, 5)[0] == 'e');
            assert(text[0] == word[0]);
        }
        if "fatal"@.is_prefix_of(text) {
            assert(text.subrange(0, 5)[0] == 'f');
            assert(text[0] == word[0]);
        }
    }
}

/// A command that succeeded is logged with its name and time. A commit, a fetch, a pull and a push
/// are announced, by their labels; nothing else is.
pub proof fn successes_are_announced(
    m: GitAppModel,
    t: Seq<char>,
    label: Seq<char>,
    args: Seq<Seq<char>>,
    code: Option<i32>,
    elapsed: Seq<char>,
)
    requires
        args.len() > 0,
    ensures
        ({
            let after = m.handled(
                t,
                MsgModel::Exit { label, args, ok: true, code, elapsed },
            ).app;
            &&& says(
                after,
                t,
                label + " :: git "@ + args[0] + " done in "@ + elapsed + " s"@,
                Level::Good,
            )
            &&& after.notice_queue == if args[0] == "commit"@ || args[0] == "fetch"@ || args[0]
                == "pull"@ || args[0] == "push"@ {
                m.notice_queue.push((true, label))
            } else {
                m.notice_queue
            }
            &&& after.commit_msg == if args[0] == "commit"@ {
                Seq::<char>::empty()
            } else {
                m.commit_msg
            }
            &&& after == (GitAppModel {
                git: m.refreshed().app.git,
                log: after.log,
                notice_queue: after.notice_queue,
                commit_msg: after.commit_msg,
                ..m
            })
        }),
{
}

/// A command that failed is logged as such, with the code it ended with, and announced; the message
/// of a commit stays.
pub proof fn failed_commands_are_announced(
    m: GitAppModel,
    t: Seq<char>,
    label: Seq<char>,
    args: Seq<Seq<char>>,
    code: Option<i32>,
    elapsed: Seq<char>,
)
    ensures
        ({
            let after = m.handled(
                t,
                MsgModel::Exit { label, args, ok: false, code, elapsed },
            ).app;
            &&& says(
                after,
                t,
                label + " :: failed :: "@ + match code {
                    Some(c) => "exit code "@ + signed_decimal(c as int),
                    None => "terminated"@,
                },
                Level::Danger,
            )
            &&& after.notice_queue == m.notice_queue.push((false, label))
            &&& after == (GitAppModel {
                git: m.refreshed().app.git,
                log: after.log,
                notice_queue: after.notice_queue,
                ..m
            })
        }),
{
}

/// What could not be read is said, and nothing that is on screen goes for it; only a status that
/// could not be read counts as an error of the repository.
pub proof fn failed_reads_are_said(
    m: GitAppModel,
    t: Seq<char>,
    e: Seq<char>,
    key: DiffKeyModel,
)
    ensures
        ({
            let after = m.handled(t, MsgModel::Log(Err(e))).app;
            says(after, t, "log :: "@ + e, Level::Warn) && after == (GitAppModel {
                log: after.log,
                ..m
            })
        }),
        ({
            let after = m.handled(t, MsgModel::Refs(Err(e))).app;
            says(after, t, "refs :: "@ + e, Level::Warn) && after == (GitAppModel {
                log: after.log,
                ..m
            })
        }),
        ({
            let after = m.handled(t, MsgModel::Detail(Err(e))).app;
            says(after, t, "show :: "@ + e, Level::Warn) && after == (GitAppModel {
                log: after.log,
                ..m
            })
        }),
        ({
            let after = m.handled(t, MsgModel::Diff(key, Err(e))).app;
            if m.diff_want == Some(key) {
                says(after, t, "diff :: "@ + e, Level::Warn) && after == (GitAppModel {
                    log: after.log,
                    diff: None,
                    ..m
                })
            } else {
                after == m
            }
        }),
        ({
            let after = m.handled(t, MsgModel::Status(Err(e))).app;
            &&& says(after, t, "status :: failed :: "@ + e, Level::Danger)
            &&& after.last_error == Some(e)
            &&& after.notice_queue == m.notice_queue.push((false, "status"@))
            &&& after == (GitAppModel {
                log: after.log,
                last_error: after.last_error,
                notice_queue: after.notice_queue,
                ..m
            })
        }),
{
    reveal_strlit("status");
    reveal_strlit(" :: failed :: ");
    reveal_strlit("status :: failed :: ");
    assert("status"@ + " :: failed :: "@ =~= "status :: failed :: "@);
}

/// What was read comes on screen as it was read: the refs, the diff that is wanted, and the commit
/// that is on screen, whose first file is selected where none is.
pub proof fn reads_come_on_screen(
    m: GitAppModel,
    t: Seq<char>,
    refs: Seq<RefModel>,
    key: DiffKeyModel,
    diff: DiffModel,
    d: CommitDetailModel,
)
    ensures
        m.handled(t, MsgModel::Refs(Ok(refs))).app == (GitAppModel { refs, ..m }),
        m.diff_want == Some(key) ==> m.handled(t, MsgModel::Diff(key, Ok(diff))).app == (
        GitAppModel { diff: Some((key, diff)), ..m }),
        m.detail is Some && m.detail.unwrap().hash == d.hash ==> {
            let after = m.handled(t, MsgModel::Detail(Ok(d))).app;
            &&& after.detail == Some(d)
            &&& after.detail_table.selected == match m.detail_table.selected {
                Some(r) => Some(r),
                None => Some(0usize),
            }
            &&& after == (GitAppModel {
                detail: after.detail,
                detail_table: after.detail_table,
                ..m
            })
        },
{
}

/// A log that was read becomes the history, and nothing else changes.
pub proof fn logs_become_the_history(m: GitAppModel, t: Seq<char>, commits: Seq<CommitModel>)
    ensures
        ({
            let after = m.handled(t, MsgModel::Log(Ok(commits))).app;
            &&& after.commits == commits
            &&& after.hist_table.scroll_to_selected == m.hist_table.scroll_to_selected
            &&& after == (GitAppModel {
                commits,
                graph: after.graph,
                hist_table: after.hist_table,
                ..m
            })
        }),
        hash_of(m.chosen_commit()) == match m.chosen_commit() {
            Some(c) => Some(c.hash),
            None => None,
        },
{
}

/// Messages are taken in their order, each on what the one before left.
pub proof fn messages_are_taken_in_order(
    m: GitAppModel,
    t: Seq<char>,
    msgs: Seq<MsgModel>,
    msg: MsgModel,
)
    ensures
        m.handled_all(t, Seq::empty()).app == m,
        m.handled_all(t, Seq::empty()).effects.len() == 0,
        ({
            let before = m.handled_all(t, msgs);
            let last = before.app.handled(t, msg);
            &&& m.handled_all(t, msgs.push(msg)).app == last.app
            &&& m.handled_all(t, msgs.push(msg)).effects == before.effects + last.effects
        }),
        m.polled(t, msgs) == (GitAppModel { git: m.git.received_all(msgs), ..m }).handled_all(
            t,
            msgs,
        ),
{
    assert(msgs.push(msg).drop_last() =~= msgs);
}

} // verus!
