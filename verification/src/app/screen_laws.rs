//! What is on screen, and how it follows the selections.

use vstd::prelude::*;

use crate::app::select::{paths_of, row_of};
use crate::app::state::{
    belongs, rows, rows_facts, ActionModel, DialogStateModel, EffectModel, Focus, GitAppModel,
    OpenDialogModel, Screen, TableState,
};
use crate::git::command::{
    detail_query, diff_query, log_query, refs_query, status_query, DiffKeyModel,
};
use crate::git::log::CommitDetailModel;
use crate::git::status::{ChangeModel, StatusModel};
use crate::git::worker::MsgModel;
use crate::text::find_facts;

verus! {

/// A new status shows each change in the lists that its letters name, and in no other: staged
/// where the index letter names something and it is no conflict, unstaged where the other letter
/// does. Both lists keep the order of the status.
pub proof fn lists_go_by_letters(m: GitAppModel, t: Seq<char>, st: StatusModel, i: int)
    requires
        st.changes.len() <= usize::MAX,
        0 <= i < st.changes.len(),
    ensures
        ({
            let after = m.handled(t, MsgModel::Status(Ok(st))).app;
            let c = st.changes[i];
            &&& after.status == st
            &&& after.staged.contains(i as usize) <==> c.staged != '.' && c.staged != '?'
                && c.unstaged != 'U'
            &&& after.unstaged.contains(i as usize) <==> c.unstaged != '.'
            &&& forall|r: int|
                0 <= r < after.staged.len() ==> #[trigger] after.staged[r] < st.changes.len()
            &&& forall|r: int|
                0 <= r < after.unstaged.len() ==> #[trigger] after.unstaged[r] < st.changes.len()
            &&& forall|r: int, q: int|
                0 <= r < q < after.staged.len() ==> after.staged[r] < after.staged[q]
            &&& forall|r: int, q: int|
                0 <= r < q < after.unstaged.len() ==> after.unstaged[r] < after.unstaged[q]
            &&& after.last_error is None
            &&& after.diff_want is None
        }),
{
    let changes = st.changes;
    rows_facts(changes, false);
    rows_facts(changes, true);
    let staged = rows(changes, true);
    let unstaged = rows(changes, false);
    if staged.contains(i as usize) {
        let k = choose|k: int| 0 <= k < staged.len() && staged[k] == i as usize;
        assert(belongs(changes[staged[k] as int], true));
    }
    if unstaged.contains(i as usize) {
        let k = choose|k: int| 0 <= k < unstaged.len() && unstaged[k] == i as usize;
        assert(belongs(changes[unstaged[k] as int], false));
    }
    assert(belongs(changes[i], true) == changes[i].in_index());
    assert(belongs(changes[i], false) == changes[i].in_worktree());
}

/// A new status leaves everything else as it is.
pub proof fn a_status_changes_only_the_lists(m: GitAppModel, t: Seq<char>, st: StatusModel)
    ensures
        ({
            let step = m.handled(t, MsgModel::Status(Ok(st)));
            &&& step.effects.len() == 0
            &&& step.app == (GitAppModel {
                status: st,
                unstaged: step.app.unstaged,
                staged: step.app.staged,
                unstaged_table: step.app.unstaged_table,
                staged_table: step.app.staged_table,
                diff_want: None,
                last_error: None,
                ..m
            })
            &&& step.app.unstaged_table.scroll_to_selected == m.unstaged_table.scroll_to_selected
            &&& step.app.staged_table.scroll_to_selected == m.staged_table.scroll_to_selected
        }),
{
}

/// The change that is selected in a list is the one in that row of the list; none where no row is
/// selected, or one behind the end.
pub proof fn rows_name_their_changes(m: GitAppModel)
    ensures
        m.chosen(Focus::Unstaged) == match m.unstaged_table.selected {
            Some(r) => if r < m.unstaged.len() {
                Some(m.status.changes[m.unstaged[r as int] as int])
            } else {
                None
            },
            None => None,
        },
        m.chosen(Focus::Staged) == match m.staged_table.selected {
            Some(r) => if r < m.staged.len() {
                Some(m.status.changes[m.staged[r as int] as int])
            } else {
                None
            },
            None => None,
        },
        m.chosen(Focus::History) is None,
        m.chosen_commit() == match m.hist_table.selected {
            Some(r) => if r < m.commits.len() {
                Some(m.commits[r as int])
            } else {
                None
            },
            None => None,
        },
{
}

/// The diff that is wanted is that of the selected file, on the side that the keys act on; in the
/// history it is that of the selected file of the commit on screen, once that is the selected one.
pub proof fn diffs_follow_the_selection(m: GitAppModel, r: usize)
    ensures
        m.screen == Screen::Changes && m.focus == Focus::Unstaged ==> m.wants() == match m.chosen(
            Focus::Unstaged,
        ) {
            Some(c) => Some((DiffKeyModel::Unstaged(c.path), c.unstaged == '?')),
            None => None,
        },
        m.screen == Screen::Changes && m.focus == Focus::Staged ==> m.wants() == match m.chosen(
            Focus::Staged,
        ) {
            Some(c) => Some((DiffKeyModel::Staged(c.path), false)),
            None => None,
        },
        m.screen == Screen::Changes && m.focus == Focus::History ==> m.wants() is None,
        m.screen == Screen::History && (m.detail is None || m.chosen_commit() is None
            || m.detail_table.selected is None) ==> m.wants() is None,
        m.screen == Screen::History && m.detail is Some && m.chosen_commit() is Some
            && m.detail_table.selected == Some(r) ==> m.wants() == if m.detail.unwrap().hash
            == m.chosen_commit().unwrap().hash && r < m.detail.unwrap().files.len() {
            Some(
                (
                    DiffKeyModel::Commit(
                        m.detail.unwrap().hash,
                        m.detail.unwrap().files[r as int].1,
                    ),
                    false,
                ),
            )
        } else {
            None
        },
{
}

/// The diff that is wanted is asked for once, when it is not the one that was asked for last;
/// where none is wanted, none is shown.
pub proof fn wanted_diffs_are_asked_for(m: GitAppModel, repo: Seq<char>)
    requires
        m.repo == Some(repo),
    ensures
        ({
            let step = m.diff_synced();
            match m.wants() {
                Some((key, untracked)) => if m.diff_want == Some(key) {
                    step.effects.len() == 0 && step.app == m
                } else {
                    &&& step.effects == seq![EffectModel::Ask(diff_query(repo, key, untracked))]
                    &&& step.app == (GitAppModel {
                        diff_want: Some(key),
                        git: step.app.git,
                        ..m
                    })
                    &&& step.app.git.pending == m.git.pending + 1
                    &&& step.app.git.running == m.git.running
                },
                None => step.effects.len() == 0 && step.app == (GitAppModel {
                    diff: None,
                    diff_want: None,
                    ..m
                }),
            }
        }),
{
}

/// In the history the commit on screen is the selected one: where it is another, it is asked for,
/// and nothing of it is shown before it is there.
pub proof fn selected_commits_are_asked_for(m: GitAppModel, repo: Seq<char>)
    requires
        m.repo == Some(repo),
    ensures
        ({
            let step = m.detail_synced();
            match m.chosen_commit() {
                Some(c) => if m.screen == Screen::History && !(m.detail matches Some(d) && d.hash
                    == c.hash) {
                    &&& step.effects == seq![EffectModel::Ask(detail_query(repo, c.hash))]
                    &&& step.app.detail == Some(
                        CommitDetailModel {
                            hash: c.hash,
                            parents: seq![],
                            author: seq![],
                            email: seq![],
                            time: 0,
                            refs: seq![],
                            message: seq![],
                            files: seq![],
                        },
                    )
                    &&& step.app.detail_table.selected is None
                    &&& step.app.git.pending == m.git.pending + 1
                    &&& step.app.git.running == m.git.running
                    &&& step.app == (GitAppModel {
                        detail: step.app.detail,
                        detail_table: step.app.detail_table,
                        git: step.app.git,
                        ..m
                    })
                } else {
                    step.effects.len() == 0 && step.app == m
                },
                None => step.effects.len() == 0 && step.app == m,
            }
        }),
{
}

/// Without a repository nothing is asked for; with one, following the selection asks for the diff
/// first and then for the commit.
pub proof fn following_asks_in_order(m: GitAppModel)
    ensures
        m.repo is None ==> m.synced().effects.len() == 0 && m.synced().app == m,
        m.synced().effects == m.diff_synced().effects + m.diff_synced().app.detail_synced().effects,
        m.synced().app == m.diff_synced().app.detail_synced().app,
{
    let none = Seq::<EffectModel>::empty();
    assert(none + none =~= none);
}

/// The whole repository is read: its status, its log and its refs.
pub proof fn refreshing_reads_everything(m: GitAppModel, repo: Seq<char>)
    ensures
        m.repo is None ==> m.refreshed().effects.len() == 0 && m.refreshed().app == m,
        m.repo == Some(repo) ==> {
            &&& m.refreshed().effects == seq![
                EffectModel::Ask(status_query(repo)),
                EffectModel::Ask(log_query(repo, 500)),
                EffectModel::Ask(refs_query(repo)),
            ]
            &&& m.refreshed().app == (GitAppModel { git: m.refreshed().app.git, ..m })
            &&& m.refreshed().app.git.pending == m.git.pending + 3
            &&& m.refreshed().app.git.running == m.git.running
        },
{
}

/// Another view comes with the list that the keys act on in it; the one on screen stays as it is.
pub proof fn views_bring_their_lists(m: GitAppModel, t: Seq<char>, screen: Screen)
    ensures
        ({
            let step = m.applied(t, ActionModel::SetView(screen));
            &&& step.effects.len() == 0
            &&& m.screen == screen ==> step.app == m
            &&& m.screen != screen ==> step.app == (GitAppModel {
                screen,
                focus: if screen == Screen::Changes {
                    Focus::Unstaged
                } else {
                    Focus::History
                },
                ..m
            })
        }),
{
}

/// Selecting a row selects that row of that list, scrolls to it, and hands the keys to the list;
/// the selections of the other lists stay.
pub proof fn rows_are_selected(m: GitAppModel, t: Seq<char>, focus: Focus, row: Option<usize>)
    ensures
        ({
            let step = m.applied(t, ActionModel::Select(focus, row));
            let table = TableState { selected: row, scroll_to_selected: true };
            &&& step.effects.len() == 0
            &&& step.app.focus == focus
            &&& step.app.unstaged_table == if focus == Focus::Unstaged {
                table
            } else {
                m.unstaged_table
            }
            &&& step.app.staged_table == if focus == Focus::Staged {
                table
            } else {
                m.staged_table
            }
            &&& step.app.hist_table == if focus == Focus::History {
                table
            } else {
                m.hist_table
            }
            &&& step.app == (GitAppModel {
                focus: step.app.focus,
                unstaged_table: step.app.unstaged_table,
                staged_table: step.app.staged_table,
                hist_table: step.app.hist_table,
                ..m
            })
        }),
        ({
            let step = m.applied(t, ActionModel::SelectDetailFile(row));
            &&& step.effects.len() == 0
            &&& step.app.detail_table.selected == row
            &&& step.app == (GitAppModel { detail_table: step.app.detail_table, ..m })
        }),
{
}

/// A dialog that is asked for is open, and takes input; one that is closed is on its way out, with
/// everything in it as it was.
pub proof fn dialogs_open_and_close(m: GitAppModel, t: Seq<char>)
    ensures
        ({
            let step = m.applied(t, ActionModel::OpenDialog);
            &&& step.effects.len() == 0
            &&& step.app == (GitAppModel { dialog: step.app.dialog, ..m })
            &&& step.app.dialog matches Some(d) && !d.closing && d.state == (
            DialogStateModel::Open {
                input: match m.repo {
                    Some(r) => r + "/"@,
                    None => "~/"@,
                },
                error: None,
                focus: true,
                suggestions: seq![],
                suggested_for: "\0"@,
            })
        }),
        ({
            let step = m.applied(t, ActionModel::BranchDialog);
            &&& step.effects.len() == 0
            &&& step.app == (GitAppModel { dialog: step.app.dialog, ..m })
            &&& step.app.dialog matches Some(d) && !d.closing && d.state == (
            DialogStateModel::Branch { input: seq![], focus: true })
        }),
        ({
            let step = m.applied(t, ActionModel::CloseDialog);
            &&& step.effects.len() == 0
            &&& step.app == (GitAppModel { dialog: step.app.dialog, ..m })
            &&& step.app.dialog == match m.dialog {
                Some(d) => Some(OpenDialogModel { state: d.state, closing: true }),
                None => None,
            }
        }),
{
}

/// What is copied goes to the clipboard as it is; the settings are opened outside; a path is looked
/// for as it was given.
pub proof fn other_actions_are_handed_out(m: GitAppModel, t: Seq<char>, text: Seq<char>)
    ensures
        m.applied(t, ActionModel::Copy(text)).effects == seq![EffectModel::CopyText(text)],
        m.applied(t, ActionModel::Copy(text)).app == (GitAppModel {
            log: m.applied(t, ActionModel::Copy(text)).app.log,
            ..m
        }),
        m.applied(t, ActionModel::Copy(text)).app.log.last().text == "copied to clipboard"@,
        m.applied(t, ActionModel::OpenSettings).effects == seq![EffectModel::OpenSettings],
        m.applied(t, ActionModel::OpenSettings).app == m,
        m.applied(t, ActionModel::Open(text)).effects == seq![EffectModel::FindTop(text)],
        m.applied(t, ActionModel::Open(text)).app == m,
        m.applied(t, ActionModel::Refresh).effects == m.refreshed().effects,
        m.applied(t, ActionModel::Refresh).app == (GitAppModel {
            git: m.refreshed().app.git,
            log: m.applied(t, ActionModel::Refresh).app.log,
            ..m
        }),
        m.applied(t, ActionModel::Refresh).app.log.last().text == "refresh"@,
{
}

/// `row` is the first row of a list whose change has a path; none where no change there has it.
pub open spec fn is_row_with(
    changes: Seq<ChangeModel>,
    list: Seq<usize>,
    path: Seq<char>,
    row: Option<usize>,
) -> bool {
    match row {
        Some(r) => {
            &&& r < list.len()
            &&& changes[list[r as int] as int].path == path
            &&& forall|q: int| 0 <= q < r ==> changes[#[trigger] list[q] as int].path != path
        },
        None => forall|q: int|
            0 <= q < list.len() ==> changes[#[trigger] list[q] as int].path != path,
    }
}

/// A new status keeps each selection on its path: the first row of the list with that path, and
/// none where the path has left the list or nothing was selected.
pub proof fn selections_stay_on_their_paths(m: GitAppModel, t: Seq<char>, st: StatusModel)
    requires
        st.changes.len() <= usize::MAX,
    ensures
        ({
            let after = m.handled(t, MsgModel::Status(Ok(st))).app;
            &&& match m.chosen(Focus::Unstaged) {
                Some(c) => is_row_with(
                    st.changes,
                    after.unstaged,
                    c.path,
                    after.unstaged_table.selected,
                ),
                None => after.unstaged_table.selected is None,
            }
            &&& match m.chosen(Focus::Staged) {
                Some(c) => is_row_with(
                    st.changes,
                    after.staged,
                    c.path,
                    after.staged_table.selected,
                ),
                None => after.staged_table.selected is None,
            }
        }),
{
    rows_facts(st.changes, false);
    rows_facts(st.changes, true);
    if m.chosen(Focus::Unstaged) is Some {
        let path = m.chosen(Focus::Unstaged).unwrap().path;
        first_row_with(st.changes, rows(st.changes, false), path);
    }
    if m.chosen(Focus::Staged) is Some {
        first_row_with(st.changes, rows(st.changes, true), m.chosen(Focus::Staged).unwrap().path);
    }
}

proof fn first_row_with(changes: Seq<ChangeModel>, list: Seq<usize>, path: Seq<char>)
    requires
        list.len() <= usize::MAX,
    ensures
        is_row_with(changes, list, path, row_of(paths_of(changes, list), Some(path))),
{
    let paths = paths_of(changes, list);
    find_facts(paths, path);
    assert forall|q: int| 0 <= q < list.len() implies paths[q]
        == changes[#[trigger] list[q] as int].path by {}
}

} // verus!
