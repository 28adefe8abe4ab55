//! How a session starts, and what comes before the input of a frame.

use vstd::prelude::*;

use crate::app::frame::{dev_action, first_of, started, DevModel, StartModel};
use crate::app::state::{
    ActionModel, DialogStateModel, EventModel, Focus, GitAppModel, Level, OpenDialogModel, Screen,
    SettingsModel,
};
use crate::git::status::ChangeModel;
use crate::number::parse_u32;

verus! {

/// A session starts with nothing open, nothing listed or selected and nothing running. The log says
/// that it is on, then that the agent interface is, and then what the environment gives it to say.
pub proof fn sessions_start_empty(
    settings: SettingsModel,
    dev: DevModel,
    now: i64,
    t: Seq<char>,
)
    ensures
        ({
            let m = started(settings, dev, now, t);
            let online = seq![
                EventModel {
                    time: "["@ + t + "]"@,
                    text: "git console online"@,
                    level: Level::Good,
                },
            ];
            let watched = if settings.agent {
                online.push(
                    EventModel {
                        time: "["@ + t + "]"@,
                        text: "agent // interface on :: waiting for a client"@,
                        level: Level::Warn,
                    },
                )
            } else {
                online
            };
            &&& m.log == match dev.log {
                Some(text) => watched.push(
                    EventModel { time: "["@ + t + "]"@, text, level: Level::Danger },
                ),
                None => watched,
            }
            &&& m.settings == settings && m.now == now
            &&& m.repo is None && m.recent.len() == 0 && m.refs.len() == 0
            &&& m.commits.len() == 0 && m.graph.len() == 0
            &&& m.status.changes.len() == 0 && m.status.head.len() == 0
            &&& m.status.branch.len() == 0 && m.status.upstream.len() == 0
            &&& m.status.ahead == 0 && m.status.behind == 0
            &&& m.unstaged.len() == 0 && m.staged.len() == 0
            &&& m.screen == Screen::Changes && m.focus == Focus::Unstaged
            &&& m.unstaged_table.selected is None && m.staged_table.selected is None
            &&& m.hist_table.selected is None && m.detail_table.selected is None
            &&& m.detail is None && m.diff is None && m.diff_want is None
            &&& m.commit_msg.len() == 0 && m.dialog is None && m.notice_queue.len() == 0
            &&& m.last_error is None && m.git.running is None && m.git.pending == 0
            &&& m.dev_dialog == dev.dialog && m.dev_frame == 0
            &&& dev.close_frame is None ==> m.dev_close_frame is None
            &&& dev.close_frame is Some ==> m.dev_close_frame == parse_u32(
                dev.close_frame.unwrap(),
            )
        }),
{
    let m = started(settings, dev, now, t);
    let blank = crate::app::frame::blank(settings, dev, now);
    let online = blank.logged(t, "git console online"@, Level::Good);
    assert(online.log =~= seq![
        EventModel { time: "["@ + t + "]"@, text: "git console online"@, level: Level::Good },
    ]);
}

/// The repository that was asked for is opened first, whatever is known; else the one that was open
/// last; else the one around the current directory; else none.
pub proof fn what_was_asked_for_is_opened_first(
    recent: Seq<Seq<char>>,
    last: Seq<char>,
    given: bool,
    here: bool,
)
    ensures
        first_of(recent, true, here) == Some(StartModel::Given),
        first_of(seq![last] + recent, false, here) == Some(StartModel::Recent(last)),
        first_of(Seq::empty(), false, true) == Some(StartModel::Here),
        first_of(Seq::empty(), false, false) is None,
{
}

/// Notices come on screen one by one, in the order in which they were queued, and only when no
/// dialog is there; nothing else changes.
pub proof fn notices_come_one_by_one(
    m: GitAppModel,
    success: bool,
    line: Seq<char>,
    rest: Seq<(bool, Seq<char>)>,
)
    ensures
        m.dialog is Some ==> m.announced() == m,
        m.notice_queue.len() == 0 ==> m.announced() == m,
        m.dialog is None && m.notice_queue == seq![(success, line)] + rest ==> m.announced() == (
        GitAppModel {
            dialog: Some(
                OpenDialogModel {
                    state: DialogStateModel::Notice { success, line },
                    closing: false,
                },
            ),
            notice_queue: rest,
            ..m
        }),
{
    assert((seq![(success, line)] + rest).drop_first() =~= rest);
}

/// What the environment asks for: a dialog, a selection or a notice; for anything else, and where
/// there is nothing to discard, what is shown is read again.
pub proof fn the_environment_asks(m: GitAppModel, kind: Seq<char>, c: ChangeModel)
    ensures
        m.unstaged.len() > 0 && m.status.changes[m.unstaged[0] as int] == c ==> dev_action(
            m,
            "discard"@,
        ) == (m, ActionModel::Discard(c.path, c.unstaged == '?')),
        m.unstaged.len() == 0 ==> dev_action(m, "discard"@) == (m, ActionModel::Refresh),
        dev_action(m, "open"@) == (m, ActionModel::OpenDialog),
        dev_action(m, "diff"@) == (m, ActionModel::Select(Focus::Unstaged, Some(0usize))),
        dev_action(m, "history"@) == (
            GitAppModel { screen: Screen::History, ..m },
            ActionModel::Select(Focus::History, Some(0usize)),
        ),
        dev_action(m, "branch"@) == (m, ActionModel::BranchDialog),
        dev_action(m, "error"@) == (
            GitAppModel { notice_queue: m.notice_queue.push((false, "push"@)), ..m },
            ActionModel::Refresh,
        ),
        dev_action(m, "success"@) == (
            GitAppModel {
                notice_queue: m.notice_queue.push((true, "commit // example"@)),
                ..m
            },
            ActionModel::Refresh,
        ),
        kind != "discard"@ && kind != "open"@ && kind != "diff"@ && kind != "history"@ && kind
            != "branch"@ && kind != "error"@ && kind != "success"@ ==> dev_action(m, kind) == (
            m,
            ActionModel::Refresh,
        ),
{
    reveal_strlit("discard");
    reveal_strlit("open");
    reveal_strlit("diff");
    reveal_strlit("history");
    reveal_strlit("branch");
    reveal_strlit("error");
    reveal_strlit("success");
    assert("open"@[0] == 'o' && "diff"@[0] == 'd');
    assert("discard"@[0] == 'd' && "history"@[0] == 'h' && "success"@[0] == 's');
    assert("discard"@.len() == 7 && "history"@.len() == 7 && "success"@.len() == 7);
    assert("branch"@.len() == 6 && "error"@.len() == 5);
    assert("open"@.len() == 4 && "diff"@.len() == 4);
}

/// A frame announces, counts itself and asks once for what the environment wants, when nothing is
/// in flight. In the frame that the environment names, a dialog that is there is closed.
pub proof fn frames_come_in_order(m: GitAppModel, kind: Seq<char>)
    requires
        m.dev_frame < u32::MAX,
    ensures
        ({
            let (after, actions) = m.frame();
            let shown = GitAppModel { dev_frame: (m.dev_frame + 1) as u32, ..m.announced() };
            let closes = shown.dev_close_frame == Some((m.dev_frame + 1) as u32)
                && shown.dialog is Some;
            let closing = if closes {
                seq![ActionModel::CloseDialog]
            } else {
                seq![]
            };
            &&& after.dev_frame == m.dev_frame + 1
            &&& m.dev_dialog is None || m.git.pending > 0 || m.git.running is Some ==> after
                == shown && actions == closing
            &&& m.dev_dialog == Some(kind) && m.git.pending <= 0 && m.git.running is None ==> ({
                let (asked, action) = dev_action(GitAppModel { dev_dialog: None, ..shown }, kind);
                &&& after == asked
                &&& after.dev_dialog is None
                &&& actions == seq![action] + closing
            })
        }),
{
}

} // verus!
