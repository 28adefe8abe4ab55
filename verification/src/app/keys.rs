//! The keyboard.

use vstd::prelude::*;

use crate::app::state::{Action, ActionModel, Focus, GitApp, GitAppModel, Screen};
use crate::text::{group_models, models};

verus! {

broadcast use group_models;

/// The keys that were pressed in a frame.
#[derive(Clone, Copy, Debug, PartialEq, Eq)]
pub struct Keys {
    /// The command key is held.
    pub command: bool,
    /// Some text field takes the input.
    pub focused: bool,
    pub enter: bool,
    pub space: bool,
    pub down: bool,
    pub up: bool,
    pub a: bool,
    pub r: bool,
    pub o: bool,
    pub comma: bool,
    pub one: bool,
    pub two: bool,
}

/// The row below or above `row` in a list of `len` rows; the first or last stays where it is.
pub open spec fn next_row(row: Option<usize>, down: bool, len: int) -> int {
    match row {
        Some(p) => if p > isize::MAX {
            0
        } else {
            let next = if down {
                p + 1
            } else {
                p - 1
            };
            if next < 0 {
                0
            } else if next > len - 1 {
                len - 1
            } else {
                next
            }
        },
        None => 0,
    }
}

impl GitAppModel {
    /// How many rows the list that the keys act on has.
    pub open spec fn rows_in_focus(self) -> int {
        match self.focus {
            Focus::Unstaged => self.unstaged.len() as int,
            Focus::Staged => self.staged.len() as int,
            Focus::History => self.commits.len() as int,
        }
    }

    /// The row that the arrow keys select.
    pub open spec fn arrow(self, down: bool) -> Option<ActionModel> {
        if self.rows_in_focus() > 0 {
            Some(
                ActionModel::Select(
                    self.focus,
                    Some(
                        next_row(
                            self.table(self.focus).selected,
                            down,
                            self.rows_in_focus(),
                        ) as usize,
                    ),
                ),
            )
        } else {
            None
        }
    }

    /// What the keys stand for when neither a dialog nor a text field takes them. Enter stages or
    /// unstages only without the command key, with which it commits.
    pub open spec fn shortcuts(self, k: Keys) -> Seq<ActionModel> {
        given(k.down || k.up, self.arrow(k.down)) + given(
            k.space || (k.enter && !k.command),
            Some(ActionModel::ToggleSelected),
        ) + given(
            k.command && k.a && self.screen == Screen::Changes,
            Some(ActionModel::StageAll),
        ) + given(k.command && k.r, Some(ActionModel::Refresh)) + given(
            k.command && k.o,
            Some(ActionModel::OpenDialog),
        ) + given(k.command && k.comma, Some(ActionModel::OpenSettings)) + given(
            k.command && k.one,
            Some(ActionModel::SetView(Screen::Changes)),
        ) + given(k.command && k.two, Some(ActionModel::SetView(Screen::History)))
    }

    /// What the keys stand for. Cmd+Enter commits even from inside the message field.
    pub open spec fn keyed(self, k: Keys) -> Seq<ActionModel> {
        given(k.command && k.enter && self.dialog is None, Some(ActionModel::Commit)) + (
        if self.dialog is Some || k.focused {
            seq![]
        } else {
            self.shortcuts(k)
        })
    }
}

/// One action, where the keys ask for it.
pub open spec fn given(pressed: bool, action: Option<ActionModel>) -> Seq<ActionModel> {
    if pressed && action is Some {
        seq![action.unwrap()]
    } else {
        seq![]
    }
}

fn put(out: &mut Vec<Action>, pressed: bool, action: Action)
    ensures
        models(final(out)@) == models(old(out)@) + given(pressed, Some(action@)),
{
    let ghost before = models(out@);
    let ghost a = action@;
    if pressed {
        out.push(action);
    }
    assert(models(out@) =~= before + given(pressed, Some(a)));
}

impl GitApp {
    fn add_arrow(&self, out: &mut Vec<Action>, k: Keys)
        ensures
            models(final(out)@) == models(old(out)@) + given(
                k.down || k.up,
                self@.arrow(k.down),
            ),
    {
        let ghost before = models(out@);
        let (len, selected) = match self.focus {
            Focus::Unstaged => (self.unstaged.len(), self.unstaged_table.selected),
            Focus::Staged => (self.staged.len(), self.staged_table.selected),
            Focus::History => (self.commits.len(), self.hist_table.selected),
        };
        if (k.down || k.up) && len > 0 {
            let next: usize = match selected {
                Some(p) => if p > isize::MAX as usize {
                    0
                } else if k.down {
                    if p >= len - 1 {
                        len - 1
                    } else {
                        p + 1
                    }
                } else if p == 0 {
                    0
                } else if p - 1 > len - 1 {
                    len - 1
                } else {
                    p - 1
                },
                None => 0,
            };
            out.push(Action::Select(self.focus, Some(next)));
        }
        assert(models(out@) =~= before + given(k.down || k.up, self@.arrow(k.down)));
    }

    fn press_shortcuts(&self, k: Keys) -> (r: Vec<Action>)
        ensures
            models(r@) == self@.shortcuts(k),
    {
        let mut out: Vec<Action> = Vec::new();
        self.add_arrow(&mut out, k);
        assert(models(out@) =~= given(k.down || k.up, self@.arrow(k.down)));
        put(&mut out, k.space || (k.enter && !k.command), Action::ToggleSelected);
        put(&mut out, k.command && k.a && self.screen == Screen::Changes, Action::StageAll);
        put(&mut out, k.command && k.r, Action::Refresh);
        put(&mut out, k.command && k.o, Action::OpenDialog);
        put(&mut out, k.command && k.comma, Action::OpenSettings);
        put(&mut out, k.command && k.one, Action::SetView(Screen::Changes));
        put(&mut out, k.command && k.two, Action::SetView(Screen::History));
        out
    }

    /// The actions that the keys stand for.
    pub fn handle_keys(&self, k: Keys) -> (r: Vec<Action>)
        ensures
            models(r@) == self@.keyed(k),
    {
        let mut out: Vec<Action> = Vec::new();
        let commits = k.command && k.enter && self.dialog.is_none();
        put(&mut out, commits, Action::Commit);
        assert(models(out@) =~= given(commits, Some(ActionModel::Commit)));
        if self.dialog.is_some() || k.focused {
            assert(models(out@) =~= models(out@) + Seq::<ActionModel>::empty());
            return out;
        }
        let mut more = self.press_shortcuts(k);
        out.append(&mut more);
        out
    }
}

/// While a dialog is open, no key reaches the lists behind it.
pub proof fn dialogs_take_the_keys(m: GitAppModel, k: Keys)
    requires
        m.dialog is Some,
    ensures
        m.keyed(k) == Seq::<ActionModel>::empty(),
{
    assert(m.keyed(k) =~= Seq::<ActionModel>::empty());
}

/// Typing into a text field does nothing else, but for Cmd+Enter, which commits even then.
pub proof fn typing_is_left_alone(m: GitAppModel, k: Keys)
    requires
        k.focused,
    ensures
        m.keyed(k) == if k.command && k.enter && m.dialog is None {
            seq![ActionModel::Commit]
        } else {
            Seq::<ActionModel>::empty()
        },
{
    let committed = k.command && k.enter && m.dialog is None;
    assert(m.keyed(k) =~= given(committed, Some(ActionModel::Commit)));
}

proof fn given_lacks(
    before: Seq<ActionModel>,
    pressed: bool,
    action: Option<ActionModel>,
    other: ActionModel,
)
    requires
        !before.contains(other),
        !(pressed && action == Some(other)),
    ensures
        !(before + given(pressed, action)).contains(other),
{
    let all = before + given(pressed, action);
    if all.contains(other) {
        let i = choose|i: int| 0 <= i < all.len() && all[i] == other;
        assert(i >= before.len());
    }
}

/// Without Space, and without Enter on its own, no shortcut stages or unstages the selected row.
proof fn shortcuts_stage_nothing(m: GitAppModel, k: Keys)
    requires
        !k.space,
        !k.enter || k.command,
    ensures
        !m.shortcuts(k).contains(ActionModel::ToggleSelected),
{
    let toggle = ActionModel::ToggleSelected;
    let s0 = given(k.down || k.up, m.arrow(k.down));
    let s1 = s0 + given(false, Some(toggle));
    let s2 = s1 + given(
        k.command && k.a && m.screen == Screen::Changes,
        Some(ActionModel::StageAll),
    );
    let s3 = s2 + given(k.command && k.r, Some(ActionModel::Refresh));
    let s4 = s3 + given(k.command && k.o, Some(ActionModel::OpenDialog));
    let s5 = s4 + given(k.command && k.comma, Some(ActionModel::OpenSettings));
    let changes = Some(ActionModel::SetView(Screen::Changes));
    let history = Some(ActionModel::SetView(Screen::History));
    let s6 = s5 + given(k.command && k.one, changes);
    given_lacks(s0, false, Some(toggle), toggle);
    given_lacks(
        s1,
        k.command && k.a && m.screen == Screen::Changes,
        Some(ActionModel::StageAll),
        toggle,
    );
    given_lacks(s2, k.command && k.r, Some(ActionModel::Refresh), toggle);
    given_lacks(s3, k.command && k.o, Some(ActionModel::OpenDialog), toggle);
    given_lacks(s4, k.command && k.comma, Some(ActionModel::OpenSettings), toggle);
    given_lacks(s5, k.command && k.one, changes, toggle);
    given_lacks(s6, k.command && k.two, history, toggle);
    assert(m.shortcuts(k) == s6 + given(k.command && k.two, history));
}

/// Enter with the command key held commits, and stages or unstages nothing.
pub proof fn committing_stages_nothing(m: GitAppModel, k: Keys)
    requires
        k.command,
        k.enter,
        !k.space,
        m.dialog is None,
    ensures
        m.keyed(k)[0] == ActionModel::Commit,
        !m.keyed(k).contains(ActionModel::ToggleSelected),
{
    let rest = if k.focused {
        seq![]
    } else {
        m.shortcuts(k)
    };
    let all = m.keyed(k);
    shortcuts_stage_nothing(m, k);
    assert(all == seq![ActionModel::Commit] + rest);
    if all.contains(ActionModel::ToggleSelected) {
        let i = choose|i: int| 0 <= i < all.len() && all[i] == ActionModel::ToggleSelected;
        assert(rest[i - 1] == ActionModel::ToggleSelected);
    }
}

/// Cmd+Enter alone commits, and does nothing else.
pub proof fn commit_key_only_commits(m: GitAppModel, k: Keys)
    requires
        k.command,
        k.enter,
        !(k.space || k.down || k.up || k.a || k.r || k.o || k.comma || k.one || k.two),
        m.dialog is None,
    ensures
        m.keyed(k) == seq![ActionModel::Commit],
{
    assert(m.keyed(k) =~= seq![ActionModel::Commit]);
}

/// The arrow keys select a row of the list that they act on.
pub proof fn arrows_stay_in_the_list(m: GitAppModel, down: bool)
    requires
        m.rows_in_focus() > 0,
        m.rows_in_focus() <= usize::MAX,
    ensures
        m.arrow(down) matches Some(ActionModel::Select(focus, Some(row))) && focus == m.focus
            && row < m.rows_in_focus(),
{
}

proof fn given_holds(
    before: Seq<ActionModel>,
    pressed: bool,
    action: Option<ActionModel>,
    other: ActionModel,
)
    ensures
        (before + given(pressed, action)).contains(other) <==> before.contains(other) || (pressed
            && action == Some(other)),
{
    let all = before + given(pressed, action);
    if all.contains(other) {
        let i = choose|i: int| 0 <= i < all.len() && all[i] == other;
        if i < before.len() {
            assert(before[i] == other);
        }
    }
    if before.contains(other) {
        let i = choose|i: int| 0 <= i < before.len() && before[i] == other;
        assert(all[i] == other);
    }
    if pressed && action == Some(other) {
        assert(all[before.len() as int] == other);
    }
}

proof fn shortcuts_hold(m: GitAppModel, k: Keys, a: ActionModel)
    ensures
        m.shortcuts(k).contains(a) <==> {
            ||| (k.down || k.up) && m.arrow(k.down) == Some(a)
            ||| (k.space || (k.enter && !k.command)) && a == ActionModel::ToggleSelected
            ||| k.command && k.a && m.screen == Screen::Changes && a == ActionModel::StageAll
            ||| k.command && k.r && a == ActionModel::Refresh
            ||| k.command && k.o && a == ActionModel::OpenDialog
            ||| k.command && k.comma && a == ActionModel::OpenSettings
            ||| k.command && k.one && a == ActionModel::SetView(Screen::Changes)
            ||| k.command && k.two && a == ActionModel::SetView(Screen::History)
        },
{
    let none = Seq::<ActionModel>::empty();
    let s0 = none + given(k.down || k.up, m.arrow(k.down));
    let p1 = k.space || (k.enter && !k.command);
    let s1 = s0 + given(p1, Some(ActionModel::ToggleSelected));
    let p2 = k.command && k.a && m.screen == Screen::Changes;
    let s2 = s1 + given(p2, Some(ActionModel::StageAll));
    let s3 = s2 + given(k.command && k.r, Some(ActionModel::Refresh));
    let s4 = s3 + given(k.command && k.o, Some(ActionModel::OpenDialog));
    let s5 = s4 + given(k.command && k.comma, Some(ActionModel::OpenSettings));
    let one = Some(ActionModel::SetView(Screen::Changes));
    let two = Some(ActionModel::SetView(Screen::History));
    let s6 = s5 + given(k.command && k.one, one);
    given_holds(none, k.down || k.up, m.arrow(k.down), a);
    given_holds(s0, p1, Some(ActionModel::ToggleSelected), a);
    given_holds(s1, p2, Some(ActionModel::StageAll), a);
    given_holds(s2, k.command && k.r, Some(ActionModel::Refresh), a);
    given_holds(s3, k.command && k.o, Some(ActionModel::OpenDialog), a);
    given_holds(s4, k.command && k.comma, Some(ActionModel::OpenSettings), a);
    given_holds(s5, k.command && k.one, one, a);
    given_holds(s6, k.command && k.two, two, a);
    assert(none + given(k.down || k.up, m.arrow(k.down)) =~= given(
        k.down || k.up,
        m.arrow(k.down),
    ));
    assert(m.shortcuts(k) == s6 + given(k.command && k.two, two));
}

/// Each key stands for its action, whatever other keys are pressed with it and whatever is on
/// screen, as long as no dialog is open and no text is being typed: Space or Enter for the selected
/// row, and with the command key A for all files, R, O, comma, 1 and 2.
pub proof fn keys_stand_for_their_actions(m: GitAppModel, k: Keys)
    requires
        m.dialog is None,
        !k.focused,
    ensures
        m.keyed(k).contains(ActionModel::Commit) <==> k.command && k.enter,
        m.keyed(k).contains(ActionModel::ToggleSelected) <==> k.space || (k.enter && !k.command),
        m.keyed(k).contains(ActionModel::StageAll) <==> k.command && k.a && m.screen
            == Screen::Changes,
        m.keyed(k).contains(ActionModel::Refresh) <==> k.command && k.r,
        m.keyed(k).contains(ActionModel::OpenDialog) <==> k.command && k.o,
        m.keyed(k).contains(ActionModel::OpenSettings) <==> k.command && k.comma,
        m.keyed(k).contains(ActionModel::SetView(Screen::Changes)) <==> k.command && k.one,
        m.keyed(k).contains(ActionModel::SetView(Screen::History)) <==> k.command && k.two,
{
    keys_hold(m, k, ActionModel::Commit);
    keys_hold(m, k, ActionModel::ToggleSelected);
    keys_hold(m, k, ActionModel::StageAll);
    keys_hold(m, k, ActionModel::Refresh);
    keys_hold(m, k, ActionModel::OpenDialog);
    keys_hold(m, k, ActionModel::OpenSettings);
    keys_hold(m, k, ActionModel::SetView(Screen::Changes));
    keys_hold(m, k, ActionModel::SetView(Screen::History));
}

proof fn keys_hold(m: GitAppModel, k: Keys, a: ActionModel)
    requires
        m.dialog is None,
        !k.focused,
    ensures
        m.keyed(k).contains(a) <==> (k.command && k.enter && a == ActionModel::Commit)
            || m.shortcuts(k).contains(a),
        m.shortcuts(k).contains(a) <==> {
            ||| (k.down || k.up) && m.arrow(k.down) == Some(a)
            ||| (k.space || (k.enter && !k.command)) && a == ActionModel::ToggleSelected
            ||| k.command && k.a && m.screen == Screen::Changes && a == ActionModel::StageAll
            ||| k.command && k.r && a == ActionModel::Refresh
            ||| k.command && k.o && a == ActionModel::OpenDialog
            ||| k.command && k.comma && a == ActionModel::OpenSettings
            ||| k.command && k.one && a == ActionModel::SetView(Screen::Changes)
            ||| k.command && k.two && a == ActionModel::SetView(Screen::History)
        },
{
    shortcuts_hold(m, k, a);
    let first = given(k.command && k.enter && m.dialog is None, Some(ActionModel::Commit));
    let rest = m.shortcuts(k);
    let all = m.keyed(k);
    assert(all == first + rest);
    if rest.contains(a) {
        let i = choose|i: int| 0 <= i < rest.len() && rest[i] == a;
        assert(all[first.len() + i] == a);
    }
    if all.contains(a) {
        let i = choose|i: int| 0 <= i < all.len() && all[i] == a;
        if i >= first.len() {
            assert(rest[i - first.len()] == a);
        }
    }
    if k.command && k.enter && a == ActionModel::Commit {
        assert(all[0] == a);
    }
}

/// The arrow keys go one row down or up in the list that they act on, and stay at its ends; where
/// no row is selected they select the first one, and in an empty list none. Down goes before up.
pub proof fn arrows_go_one_row(m: GitAppModel, k: Keys, p: usize, len: int)
    requires
        m.dialog is None,
        !k.focused,
        k.down || k.up,
        len == (match m.focus {
            Focus::Unstaged => m.unstaged.len(),
            Focus::Staged => m.staged.len(),
            Focus::History => m.commits.len(),
        }),
        0 < len <= isize::MAX,
        p < len,
    ensures
        ({
            let selected = match m.focus {
                Focus::Unstaged => m.unstaged_table.selected,
                Focus::Staged => m.staged_table.selected,
                Focus::History => m.hist_table.selected,
            };
            let next = if k.down {
                if p + 1 < len {
                    p + 1
                } else {
                    len - 1
                }
            } else {
                if p > 0 {
                    p - 1
                } else {
                    0
                }
            };
            &&& selected == Some(p) ==> m.keyed(k).contains(
                ActionModel::Select(m.focus, Some(next as usize)),
            )
            &&& selected is None ==> m.keyed(k).contains(
                ActionModel::Select(m.focus, Some(0usize)),
            )
        }),
{
    if m.table(m.focus).selected == Some(p) || m.table(m.focus).selected is None {
        keys_hold(m, k, m.arrow(k.down).unwrap());
    }
}

/// In an empty list the arrow keys select nothing.
pub proof fn arrows_need_rows(m: GitAppModel, k: Keys, focus: Focus, row: Option<usize>)
    requires
        m.dialog is None,
        !k.focused,
        match m.focus {
            Focus::Unstaged => m.unstaged.len() == 0,
            Focus::Staged => m.staged.len() == 0,
            Focus::History => m.commits.len() == 0,
        } || !(k.down || k.up),
    ensures
        !m.keyed(k).contains(ActionModel::Select(focus, row)),
{
    keys_hold(m, k, ActionModel::Select(focus, row));
}

} // verus!
