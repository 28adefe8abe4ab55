//! What the agent is told, line by line, and which button is kept from it.

use vstd::prelude::*;
use vstd::utf8::is_ascii_chars;

use crate::app::agent::{
    blocked, commit_line, dialog_lines, diff_line, list_lines, log_lines, message_line, opt_line,
    repo_line, report, some_paths, view_line, WordsModel,
};
use crate::app::state::{
    ConfirmModel, DialogStateModel, EventModel, Focus, GitAppModel, OpenDialogModel, Screen,
};
use crate::git::command::DiffKeyModel;
use crate::git::diff::DiffModel;
use crate::git::log::heads_of_ascii;
use crate::git::status::ChangeModel;
use crate::number::decimal;
use crate::text::join;
use crate::text_laws::concat_push;
use crate::words::{quoted_text, upper_text};

verus! {

/// The report is made of its lines: the repository, what is on screen, both lists, the commit, the
/// diff, the message, what is running, the last error, the dialog and the log.
pub proof fn reports_are_made_of_lines(m: GitAppModel, w: WordsModel, text: Seq<char>)
    ensures
        report(m, w) == repo_line(m) + view_line(m) + list_lines(m, "unstaged"@, Focus::Unstaged)
            + list_lines(m, "staged"@, Focus::Staged) + commit_line(m) + diff_line(m, w)
            + message_line(m, w) + (match m.git.running {
            Some(text) => "running: "@ + text + "\n"@,
            None => seq![],
        }) + (match m.last_error {
            Some(text) => "last error: "@ + text + "\n"@,
            None => seq![],
        }) + dialog_lines(m, w) + log_lines(m.log),
        m.commit_msg.len() > 0 ==> message_line(m, w) == "commit message: "@ + w.message + "\n"@,
        m.commit_msg.len() == 0 ==> message_line(m, w).len() == 0,
{
    assert(opt_line("running: "@, m.git.running) == match m.git.running {
        Some(text) => "running: "@ + text + "\n"@,
        None => seq![],
    });
}

/// The repository is told with its branch, its upstream and how far they are apart; the view with
/// how much each list holds.
pub proof fn repositories_are_told(m: GitAppModel, r: Seq<char>)
    ensures
        m.repo is None ==> repo_line(m) == "repo: none (OPEN or Cmd+O)\n"@,
        m.repo == Some(r) && m.status.upstream.len() > 0 ==> repo_line(m) == "repo: "@ + r
            + " :: branch "@ + m.status.branch + " :: upstream "@ + m.status.upstream
            + " :: ahead "@ + decimal(m.status.ahead as nat) + " behind "@ + decimal(
            m.status.behind as nat,
        ) + "\n"@,
        m.repo == Some(r) && m.status.upstream.len() == 0 ==> repo_line(m) == "repo: "@ + r
            + " :: branch "@ + m.status.branch + " :: upstream "@ + "-"@ + " :: ahead "@ + decimal(
            m.status.ahead as nat,
        ) + " behind "@ + decimal(m.status.behind as nat) + "\n"@,
        view_line(m) == "view: "@ + (if m.screen == Screen::Changes {
            "Changes"@
        } else {
            "History"@
        }) + " :: unstaged "@ + decimal(m.unstaged.len()) + " :: staged "@ + decimal(m.staged.len())
            + " :: commits "@ + decimal(m.commits.len()) + "\n"@,
{
}

/// The paths of a list are told in their order, the first thirty of them, and then the one that is
/// selected.
pub proof fn lists_are_told(m: GitAppModel, name: Seq<char>, c: ChangeModel, i: int)
    requires
        0 <= i,
    ensures
        some_paths(m, Focus::Unstaged).len() == if m.unstaged.len() < 30 {
            m.unstaged.len() as int
        } else {
            30
        },
        some_paths(m, Focus::Staged).len() == if m.staged.len() < 30 {
            m.staged.len() as int
        } else {
            30
        },
        i < m.unstaged.len() && i < 30 ==> some_paths(m, Focus::Unstaged)[i]
            == m.status.changes[m.unstaged[i] as int].path,
        i < m.staged.len() && i < 30 ==> some_paths(m, Focus::Staged)[i]
            == m.status.changes[m.staged[i] as int].path,
        forall|f: Focus|
            m.chosen(f) is None ==> #[trigger] list_lines(m, name, f) == name + ": "@ + join(
                some_paths(m, f),
                ", "@,
            ) + "\n"@,
        forall|f: Focus|
            m.chosen(f) == Some(c) ==> #[trigger] list_lines(m, name, f) == name + ": "@ + join(
                some_paths(m, f),
                ", "@,
            ) + "\n"@ + (name + " selected: "@ + c.path + "\n"@),
{
    assert forall|f: Focus| m.chosen(f) is None implies #[trigger] list_lines(m, name, f) == name
        + ": "@ + join(some_paths(m, f), ", "@) + "\n"@ by {
        assert(name + ": "@ + join(some_paths(m, f), ", "@) + "\n"@ + Seq::<char>::empty() =~= name
            + ": "@ + join(some_paths(m, f), ", "@) + "\n"@);
    }
}

/// The selected commit is told by eight characters of its hash and its subject, and the diff by
/// what it is of and how much it adds and takes away.
pub proof fn commits_and_diffs_are_told(
    m: GitAppModel,
    w: WordsModel,
    r: usize,
    hash: Seq<char>,
    path: Seq<char>,
    d: DiffModel,
)
    requires
        is_ascii_chars(hash),
        hash.len() >= 8,
    ensures
        m.hist_table.selected == Some(r) && r < m.commits.len() && m.commits[r as int].hash == hash
            ==> commit_line(m) == "selected commit: "@ + hash.take(8) + " "@
            + m.commits[r as int].subject + "\n"@,
        m.hist_table.selected is None ==> commit_line(m).len() == 0,
        m.hist_table.selected == Some(r) && r >= m.commits.len() ==> commit_line(m).len() == 0,
        m.diff is None ==> diff_line(m, w).len() == 0,
        m.diff == Some((DiffKeyModel::Unstaged(path), d)) ==> diff_line(m, w) == "diff: "@ + (
        "Unstaged("@ + w.path + ")"@) + " :: +"@ + decimal(d.adds as nat) + " -"@ + decimal(
            d.dels as nat,
        ) + "\n"@ && m.words().path == quoted_text(path),
        m.diff == Some((DiffKeyModel::Staged(path), d)) ==> diff_line(m, w) == "diff: "@ + (
        "Staged("@ + w.path + ")"@) + " :: +"@ + decimal(d.adds as nat) + " -"@ + decimal(
            d.dels as nat,
        ) + "\n"@ && m.words().path == quoted_text(path),
        m.diff == Some((DiffKeyModel::Commit(hash, path), d)) ==> diff_line(m, w) == "diff: "@ + (
        "Commit("@ + w.hash + ", "@ + w.path + ")"@) + " :: +"@ + decimal(d.adds as nat) + " -"@
            + decimal(d.dels as nat) + "\n"@ && m.words().path == quoted_text(path)
            && m.words().hash == quoted_text(hash),
        m.words().message == quoted_text(m.commit_msg),
{
    heads_of_ascii(hash, 8);
}

/// A dialog is told with its buttons, and not when it is closing; what was typed is told quoted,
/// and the title of a question in upper case.
pub proof fn dialogs_are_told(
    m: GitAppModel,
    w: WordsModel,
    d: OpenDialogModel,
    c: ConfirmModel,
    line: Seq<char>,
)
    ensures
        m.dialog is None ==> dialog_lines(m, w).len() == 0,
        m.dialog == Some(d) && d.closing ==> dialog_lines(m, w).len() == 0,
        m.dialog == Some(d) && !d.closing && d.state == DialogStateModel::Confirm(c)
            ==> dialog_lines(m, w) == "dialog: CONFIRM "@ + w.title + " :: "@ + c.line
            + " :: git "@ + join(c.args, " "@) + " :: buttons CANCEL / "@ + c.verb + "\n"@
            && m.words().title == upper_text(c.title),
        m.dialog == Some(d) && !d.closing && d.state == (DialogStateModel::Notice {
            success: true,
            line,
        }) ==> dialog_lines(m, w) == "dialog: "@ + "SUCCESS"@ + " :: "@ + line
            + " :: press ACKNOWLEDGE\n"@,
        m.dialog == Some(d) && !d.closing && d.state == (DialogStateModel::Notice {
            success: false,
            line,
        }) ==> dialog_lines(m, w) == "dialog: "@ + "ERROR"@ + " :: "@ + line
            + " :: press ACKNOWLEDGE\n"@,
        m.dialog == Some(d) && !d.closing ==> (d.state matches DialogStateModel::Open {
            input,
            error,
            ..
        } ==> dialog_lines(m, w) == "dialog: OPEN REPOSITORY :: input "@ + w.input + "\n"@ + (
        match error {
            Some(e) => "  error: "@ + e + "\n"@,
            None => seq![],
        }) && m.words().input == quoted_text(input)),
        m.dialog == Some(d) && !d.closing ==> (d.state matches DialogStateModel::Branch {
            input,
            ..
        } ==> dialog_lines(m, w) == "dialog: NEW BRANCH :: input "@ + w.input + "\n"@
            && m.words().input == quoted_text(input)),
{
}

/// Lines of the log, one behind the other, each with its time.
pub open spec fn told(log: Seq<EventModel>) -> Seq<char>
    decreases log.len(),
{
    if log.len() == 0 {
        Seq::empty()
    } else {
        told(log.drop_last()) + ("  "@ + log.last().time + " "@ + log.last().text + "\n"@)
    }
}

proof fn lines_are_told(log: Seq<EventModel>)
    ensures
        crate::text::concat(log.map_values(|e: EventModel| crate::app::agent::event_line(e)))
            == told(log),
    decreases log.len(),
{
    let f = |e: EventModel| crate::app::agent::event_line(e);
    if log.len() > 0 {
        lines_are_told(log.drop_last());
        assert(log.map_values(f) =~= log.drop_last().map_values(f).push(f(log.last())));
        concat_push(log.drop_last().map_values(f), f(log.last()));
    }
}

/// The log is told with its last six lines, the latest last.
pub proof fn the_latest_lines_are_told(older: Seq<EventModel>, log: Seq<EventModel>)
    ensures
        log.len() <= 6 ==> log_lines(log) == "log (latest last):\n"@ + told(log),
        log.len() == 6 ==> log_lines(older + log) == "log (latest last):\n"@ + told(log),
{
    lines_are_told(log);
    assert(log.skip(0) =~= log);
    assert((older + log).skip(older.len() as int) =~= log);
}

/// The agent is kept from the button that answers a question, and only from that: unless it may
/// confirm, and while the question is there.
pub proof fn questions_are_left_to_the_user(m: GitAppModel, d: OpenDialogModel, c: ConfirmModel)
    ensures
        m.dialog == Some(d) && d.state == DialogStateModel::Confirm(c) && !d.closing
            && !m.settings.agent_confirm ==> blocked(m) == seq![c.verb],
        m.settings.agent_confirm ==> blocked(m).len() == 0,
        m.dialog is None ==> blocked(m).len() == 0,
        m.dialog == Some(d) && (d.closing || !(d.state is Confirm)) ==> blocked(m).len() == 0,
{
}

} // verus!
