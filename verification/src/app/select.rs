//! The selections, and the diff that they ask for.

use vstd::prelude::*;

use crate::app::state::{
    rows, rows_facts, Effect, EffectModel, Focus, GitApp, GitAppModel, Screen, TableState,
    LOG_LIMIT,
};
use crate::git::command::{
    detail_query, diff_query, log_query, refs_query, status_query, DiffKey, DiffKeyModel,
};
use crate::git::log::{bare_detail, Commit, CommitDetail, CommitModel};
use crate::git::status::{Change, ChangeModel, Status, StatusModel};
use crate::text::{find, find_is, group_models, models, opt_model};

verus! {

broadcast use group_models;

/// The application after something happened, and what is to be done outside.
pub struct Step {
    pub app: GitAppModel,
    pub effects: Seq<EffectModel>,
}

/// The paths in a list of changes.
pub open spec fn paths_of(changes: Seq<ChangeModel>, list: Seq<usize>) -> Seq<Seq<char>> {
    list.map_values(|i: usize| changes[i as int].path)
}

/// The row at which a text first occurs.
pub open spec fn row_of(texts: Seq<Seq<char>>, text: Option<Seq<char>>) -> Option<usize> {
    match text {
        Some(s) => if find(texts, s) < texts.len() {
            Some(find(texts, s) as usize)
        } else {
            None
        },
        None => None,
    }
}

pub open spec fn hashes_of(commits: Seq<CommitModel>) -> Seq<Seq<char>> {
    commits.map_values(|c: CommitModel| c.hash)
}

pub open spec fn path_of(c: Option<ChangeModel>) -> Option<Seq<char>> {
    match c {
        Some(c) => Some(c.path),
        None => None,
    }
}

pub open spec fn hash_of(c: Option<CommitModel>) -> Option<Seq<char>> {
    match c {
        Some(c) => Some(c.hash),
        None => None,
    }
}

impl GitAppModel {
    /// The rows of a list of changes.
    pub open spec fn list(self, focus: Focus) -> Seq<usize> {
        match focus {
            Focus::Unstaged => self.unstaged,
            Focus::Staged => self.staged,
            Focus::History => Seq::empty(),
        }
    }

    /// The selection in a list.
    pub open spec fn table(self, focus: Focus) -> TableState {
        match focus {
            Focus::Unstaged => self.unstaged_table,
            Focus::Staged => self.staged_table,
            Focus::History => self.hist_table,
        }
    }

    /// The change in a row.
    pub open spec fn row(self, focus: Focus, row: int) -> Option<ChangeModel> {
        if 0 <= row < self.list(focus).len() {
            Some(self.status.changes[self.list(focus)[row] as int])
        } else {
            None
        }
    }

    /// The change that is selected in a list.
    pub open spec fn chosen(self, focus: Focus) -> Option<ChangeModel> {
        match self.table(focus).selected {
            Some(r) => self.row(focus, r as int),
            None => None,
        }
    }

    /// The commit that is selected.
    pub open spec fn chosen_commit(self) -> Option<CommitModel> {
        match self.hist_table.selected {
            Some(r) => if r < self.commits.len() {
                Some(self.commits[r as int])
            } else {
                None
            },
            None => None,
        }
    }

    /// The file of the commit on screen that is selected, with the hash: the commit has to be the
    /// selected one.
    pub open spec fn chosen_file(self) -> Option<(Seq<char>, Seq<char>)> {
        match (self.detail, self.chosen_commit(), self.detail_table.selected) {
            (Some(d), Some(c), Some(r)) => if d.hash == c.hash && r < d.files.len() {
                Some((d.hash, d.files[r as int].1))
            } else {
                None
            },
            _ => None,
        }
    }

    /// The diff that the selection asks for, and whether it is of an untracked file.
    pub open spec fn wants(self) -> Option<(DiffKeyModel, bool)> {
        match self.screen {
            Screen::Changes => match self.focus {
                Focus::Unstaged => match self.chosen(Focus::Unstaged) {
                    Some(c) => Some((DiffKeyModel::Unstaged(c.path), c.untracked())),
                    None => None,
                },
                Focus::Staged => match self.chosen(Focus::Staged) {
                    Some(c) => Some((DiffKeyModel::Staged(c.path), false)),
                    None => None,
                },
                Focus::History => None,
            },
            Screen::History => match self.chosen_file() {
                Some((hash, path)) => Some((DiffKeyModel::Commit(hash, path), false)),
                None => None,
            },
        }
    }

    /// The diff on screen follows the selection.
    pub open spec fn diff_synced(self) -> Step {
        match (self.repo, self.wants()) {
            (None, _) => Step { app: self, effects: seq![] },
            (Some(_), None) => Step {
                app: GitAppModel { diff: None, diff_want: None, ..self },
                effects: seq![],
            },
            (Some(repo), Some((key, untracked))) => if self.diff_want == Some(key) {
                Step { app: self, effects: seq![] }
            } else {
                Step {
                    app: GitAppModel { diff_want: Some(key), git: self.git.asked(), ..self },
                    effects: seq![EffectModel::Ask(diff_query(repo, key, untracked))],
                }
            },
        }
    }

    /// In the history, the commit on screen follows the selection.
    pub open spec fn detail_synced(self) -> Step {
        match (self.repo, self.chosen_commit()) {
            (Some(repo), Some(c)) => if self.screen == Screen::History && !(self.detail is Some
                && self.detail.unwrap().hash == c.hash) {
                Step {
                    app: GitAppModel {
                        detail: Some(bare_detail(c.hash)),
                        detail_table: TableState { selected: None, ..self.detail_table },
                        git: self.git.asked(),
                        ..self
                    },
                    effects: seq![EffectModel::Ask(detail_query(repo, c.hash))],
                }
            } else {
                Step { app: self, effects: seq![] }
            },
            _ => Step { app: self, effects: seq![] },
        }
    }

    /// What is on screen follows the selection.
    pub open spec fn synced(self) -> Step {
        let first = self.diff_synced();
        let second = first.app.detail_synced();
        Step { app: second.app, effects: first.effects + second.effects }
    }

    /// The repository is read again.
    pub open spec fn refreshed(self) -> Step {
        match self.repo {
            None => Step { app: self, effects: seq![] },
            Some(repo) => Step {
                app: GitAppModel { git: self.git.asked().asked().asked(), ..self },
                effects: seq![
                    EffectModel::Ask(status_query(repo)),
                    EffectModel::Ask(log_query(repo, LOG_LIMIT as int)),
                    EffectModel::Ask(refs_query(repo)),
                ],
            },
        }
    }

    /// A new status: both lists are those of its changes, the selections stay on the same paths,
    /// and whatever diff is on screen is to be read again.
    pub open spec fn with_status(self, st: StatusModel) -> GitAppModel {
        let unstaged = rows(st.changes, false);
        let staged = rows(st.changes, true);
        GitAppModel {
            status: st,
            unstaged,
            staged,
            unstaged_table: TableState {
                selected: row_of(
                    paths_of(st.changes, unstaged),
                    path_of(self.chosen(Focus::Unstaged)),
                ),
                ..self.unstaged_table
            },
            staged_table: TableState {
                selected: row_of(
                    paths_of(st.changes, staged),
                    path_of(self.chosen(Focus::Staged)),
                ),
                ..self.staged_table
            },
            diff_want: None,
            ..self
        }
    }
}

/// The numbers of the changes that belong to a list.
fn rows_in(changes: &Vec<Change>, staged: bool) -> (r: Vec<usize>)
    ensures
        r@ == rows(models(changes@), staged),
{
    let mut out: Vec<usize> = Vec::new();
    let mut i: usize = 0;
    let ghost all = models(changes@);
    while i < changes.len()
        invariant
            i <= changes@.len(),
            all == models(changes@),
            out@ == rows(all.take(i as int), staged),
        decreases changes@.len() - i,
    {
        assert(all.take(i + 1).drop_last() =~= all.take(i as int));
        assert(all.take(i + 1).last() == changes@[i as int]@);
        let belongs_here = if staged {
            changes[i].has_staged()
        } else {
            changes[i].has_unstaged()
        };
        if belongs_here {
            out.push(i);
        }
        i += 1;
    }
    assert(all.take(all.len() as int) =~= all);
    out
}

/// The row of the change with a path.
fn find_path(changes: &Vec<Change>, list: &Vec<usize>, path: &Option<String>) -> (r: Option<usize>)
    requires
        forall|k: int| 0 <= k < list@.len() ==> (#[trigger] list@[k]) < changes@.len(),
    ensures
        r == row_of(paths_of(models(changes@), list@), opt_model(*path)),
{
    match path {
        None => None,
        Some(p) => {
            let ghost paths = paths_of(models(changes@), list@);
            let mut r: usize = 0;
            while r < list.len()
                invariant
                    r <= list@.len(),
                    opt_model(*path) == Some(p@),
                    paths == paths_of(models(changes@), list@),
                    forall|k: int|
                        0 <= k < list@.len() ==> (#[trigger] list@[k]) < changes@.len(),
                    forall|k: int| 0 <= k < r ==> paths[k] != p@,
                decreases list@.len() - r,
            {
                let i: usize = list[r];
                assert(paths[r as int] == changes@[i as int]@.path);
                if changes[i].path == *p {
                    proof {
                        find_is(paths, p@, r as int);
                    }
                    return Some(r);
                }
                r += 1;
            }
            proof {
                find_is(paths, p@, r as int);
            }
            None
        },
    }
}

/// The row of the commit with a hash.
pub fn find_hash(commits: &Vec<Commit>, hash: &Option<String>) -> (r: Option<usize>)
    ensures
        r == row_of(hashes_of(models(commits@)), opt_model(*hash)),
{
    match hash {
        None => None,
        Some(h) => {
            let ghost hashes = hashes_of(models(commits@));
            let mut r: usize = 0;
            while r < commits.len()
                invariant
                    r <= commits@.len(),
                    opt_model(*hash) == Some(h@),
                    hashes == hashes_of(models(commits@)),
                    forall|k: int| 0 <= k < r ==> hashes[k] != h@,
                decreases commits@.len() - r,
            {
                assert(hashes[r as int] == commits@[r as int]@.hash);
                if commits[r].hash == *h {
                    proof {
                        find_is(hashes, h@, r as int);
                    }
                    return Some(r);
                }
                r += 1;
            }
            proof {
                find_is(hashes, h@, r as int);
            }
            None
        },
    }
}

impl GitApp {
    pub fn change_at(&self, focus: Focus, row: usize) -> (r: Option<&Change>)
        requires
            self@.valid(),
        ensures
            opt_model(r) == self@.row(focus, row as int),
    {
        proof {
            rows_facts(self@.status.changes, false);
            rows_facts(self@.status.changes, true);
        }
        let list = match focus {
            Focus::Unstaged => &self.unstaged,
            Focus::Staged => &self.staged,
            Focus::History => return None,
        };
        if row < list.len() {
            let i: usize = list[row];
            Some(&self.status.changes[i])
        } else {
            None
        }
    }

    pub fn selected_change(&self, focus: Focus) -> (r: Option<&Change>)
        requires
            self@.valid(),
        ensures
            opt_model(r) == self@.chosen(focus),
    {
        let st = match focus {
            Focus::Unstaged => &self.unstaged_table,
            Focus::Staged => &self.staged_table,
            Focus::History => return None,
        };
        match st.selected {
            Some(r) => self.change_at(focus, r),
            None => None,
        }
    }

    pub fn selected_commit(&self) -> (r: Option<&Commit>)
        ensures
            opt_model(r) == self@.chosen_commit(),
    {
        match self.hist_table.selected {
            Some(r) => if r < self.commits.len() {
                Some(&self.commits[r])
            } else {
                None
            },
            None => None,
        }
    }

    /// The diff the current selection asks for, and whether it is an untracked file.
    pub fn wanted_diff(&self) -> (r: Option<(DiffKey, bool)>)
        requires
            self@.valid(),
        ensures
            match r {
                Some(k) => self@.wants() == Some((k.0@, k.1)),
                None => self@.wants() is None,
            },
    {
        match self.screen {
            Screen::Changes => match self.focus {
                Focus::Unstaged => match self.selected_change(Focus::Unstaged) {
                    Some(c) => Some((DiffKey::Unstaged(c.path.clone()), c.is_untracked())),
                    None => None,
                },
                Focus::Staged => match self.selected_change(Focus::Staged) {
                    Some(c) => Some((DiffKey::Staged(c.path.clone()), false)),
                    None => None,
                },
                Focus::History => None,
            },
            Screen::History => {
                let d = match &self.detail {
                    Some(d) => d,
                    None => return None,
                };
                let commit = match self.selected_commit() {
                    Some(c) => c,
                    None => return None,
                };
                if d.hash != commit.hash {
                    return None;
                }
                match self.detail_table.selected {
                    Some(r) => if r < d.files.len() {
                        assert(d@.files[r as int] == (d.files@[r as int].0, d.files@[r as int].1@));
                        Some((DiffKey::Commit(d.hash.clone(), d.files[r].1.clone()), false))
                    } else {
                        None
                    },
                    None => None,
                }
            },
        }
    }

    /// Ask for the diff of the selection when it is not the one on screen / in flight.
    fn sync_shown_diff(&mut self) -> (r: Vec<Effect>)
        requires
            old(self)@.valid(),
            old(self).git.pending + old(self)@.diff_synced().effects.len() <= usize::MAX,
        ensures
            final(self)@ == old(self)@.diff_synced().app,
            models(r@) == old(self)@.diff_synced().effects,
    {
        let mut out: Vec<Effect> = Vec::new();
        let repo = match &self.repo {
            Some(r) => r.clone(),
            None => return out,
        };
        match self.wanted_diff() {
            None => {
                self.diff = None;
                self.diff_want = None;
            },
            Some((key, untracked)) => {
                let known = match &self.diff_want {
                    Some(k) => k.same(&key),
                    None => false,
                };
                if !known {
                    self.diff_want = Some(key.clone());
                    let q = self.git.fetch_diff(repo.as_str(), key, untracked);
                    out.push(Effect::Ask(q));
                }
            },
        }
        assert(models(out@) =~= old(self)@.diff_synced().effects);
        out
    }

    /// In the history, ask for the commit that is selected when it is not the one on screen.
    fn sync_detail(&mut self) -> (r: Vec<Effect>)
        requires
            old(self).git.pending + old(self)@.detail_synced().effects.len() <= usize::MAX,
        ensures
            final(self)@ == old(self)@.detail_synced().app,
            models(r@) == old(self)@.detail_synced().effects,
    {
        let mut out: Vec<Effect> = Vec::new();
        if self.screen != Screen::History {
            return out;
        }
        let repo = match &self.repo {
            Some(r) => r.clone(),
            None => return out,
        };
        let hash = match self.selected_commit() {
            Some(c) => c.hash.clone(),
            None => return out,
        };
        let known = match &self.detail {
            Some(d) => d.hash == hash,
            None => false,
        };
        if !known {
            let mut d: CommitDetail = CommitDetail::default();
            d.hash = hash.clone();
            assert(d@ =~= bare_detail(hash@));
            self.detail = Some(d);
            self.detail_table.selected = None;
            let q = self.git.fetch_detail(repo.as_str(), hash.as_str());
            out.push(Effect::Ask(q));
        }
        assert(models(out@) =~= old(self)@.detail_synced().effects);
        out
    }

    /// Ask for the diff of the selection when it is not the one on screen / in flight, and in the
    /// history for the commit.
    pub fn sync_diff(&mut self) -> (r: Vec<Effect>)
        requires
            old(self)@.valid(),
            old(self).git.pending + old(self)@.synced().effects.len() <= usize::MAX,
        ensures
            final(self)@ == old(self)@.synced().app,
            models(r@) == old(self)@.synced().effects,
            final(self)@.valid(),
    {
        let mut out = self.sync_shown_diff();
        let mut more = self.sync_detail();
        out.append(&mut more);
        out
    }

    /// Ask for the status, the log and the refs.
    pub fn refresh(&mut self) -> (r: Vec<Effect>)
        requires
            old(self).git.pending + old(self)@.refreshed().effects.len() <= usize::MAX,
        ensures
            final(self)@ == old(self)@.refreshed().app,
            models(r@) == old(self)@.refreshed().effects,
    {
        let mut out: Vec<Effect> = Vec::new();
        let repo = match &self.repo {
            Some(r) => r.clone(),
            None => return out,
        };
        let q = self.git.fetch_status(repo.as_str());
        out.push(Effect::Ask(q));
        let q = self.git.fetch_log(repo.as_str(), LOG_LIMIT);
        out.push(Effect::Ask(q));
        let q = self.git.fetch_refs(repo.as_str());
        out.push(Effect::Ask(q));
        assert(models(out@) =~= old(self)@.refreshed().effects);
        out
    }

    /// A new status arrived: rebuild the two lists and keep the selections on the same paths.
    pub fn set_status(&mut self, st: Status)
        requires
            old(self)@.valid(),
        ensures
            final(self)@ == old(self)@.with_status(st@),
            final(self)@.valid(),
    {
        let keep_u = match self.selected_change(Focus::Unstaged) {
            Some(c) => Some(c.path.clone()),
            None => None,
        };
        let keep_s = match self.selected_change(Focus::Staged) {
            Some(c) => Some(c.path.clone()),
            None => None,
        };
        self.status = st;
        self.unstaged = rows_in(&self.status.changes, false);
        self.staged = rows_in(&self.status.changes, true);
        assert(self@.status.changes.len() == self.status.changes.len());
        proof {
            rows_facts(self@.status.changes, false);
            rows_facts(self@.status.changes, true);
        }
        self.unstaged_table.selected = find_path(&self.status.changes, &self.unstaged, &keep_u);
        self.staged_table.selected = find_path(&self.status.changes, &self.staged, &keep_s);
        self.diff_want = None;
    }
}

} // verus!
