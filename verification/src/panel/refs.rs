//! Branches, remote branches and tags.

use vstd::prelude::*;

use crate::app::state::{Action, ActionModel, GitApp, GitAppModel};
use crate::git::refs::{RefKind, RefModel};
use crate::number::{decimal, decimal_text};
use crate::panel::repo::can_run;
use crate::text::{cat2, filter_map, group_models, models, opt_model, owned};

verus! {

broadcast use group_models;

/// A row of the list: double clicked, it is switched to, where that is possible.
#[derive(Debug, PartialEq, Eq)]
pub struct RefRow {
    pub name: String,
    pub current: bool,
    pub upstream: String,
    pub can_switch: bool,
}

/// The contents of a [`RefRow`].
pub struct RefRowModel {
    pub name: Seq<char>,
    pub current: bool,
    pub upstream: Seq<char>,
    pub can_switch: bool,
}

impl View for RefRow {
    type V = RefRowModel;

    open spec fn view(&self) -> RefRowModel {
        RefRowModel {
            name: self.name@,
            current: self.current,
            upstream: self.upstream@,
            can_switch: self.can_switch,
        }
    }
}

/// The refs of one kind.
#[derive(Debug, PartialEq, Eq)]
pub struct RefGroup {
    pub title: String,
    pub rows: Vec<RefRow>,
}

/// The contents of a [`RefGroup`].
pub struct RefGroupModel {
    pub title: Seq<char>,
    pub rows: Seq<RefRowModel>,
}

impl View for RefGroup {
    type V = RefGroupModel;

    open spec fn view(&self) -> RefGroupModel {
        RefGroupModel { title: self.title@, rows: models(self.rows@) }
    }
}

#[derive(Debug, PartialEq, Eq)]
pub struct RefsPanel {
    /// How many local branches there are.
    pub tag: String,
    pub can_create: bool,
    pub groups: Vec<RefGroup>,
}

/// The row of a ref, where it is of the kind. The current one cannot be switched to, and none
/// while a command runs.
pub open spec fn row_of_ref(r: RefModel, kind: RefKind, running: bool) -> Option<RefRowModel> {
    if r.kind == kind {
        Some(
            RefRowModel {
                name: r.name,
                current: r.current,
                upstream: r.upstream,
                can_switch: !r.current && !running,
            },
        )
    } else {
        None
    }
}

/// The rows of the refs of one kind.
pub open spec fn rows_of_kind(m: GitAppModel, kind: RefKind) -> Seq<RefRowModel> {
    filter_map(m.refs, |r: RefModel| row_of_ref(r, kind, m.git.running is Some))
}

/// The group of one kind; none where there are no refs of it.
pub open spec fn group_of(m: GitAppModel, kind: RefKind, title: Seq<char>) -> Seq<RefGroupModel> {
    let rows = rows_of_kind(m, kind);
    if rows.len() > 0 {
        seq![RefGroupModel { title, rows }]
    } else {
        seq![]
    }
}

/// The groups: local branches, remote branches, tags.
pub open spec fn groups_of(m: GitAppModel) -> Seq<RefGroupModel> {
    group_of(m, RefKind::Local, "Local"@) + group_of(m, RefKind::Remote, "Remotes"@) + group_of(
        m,
        RefKind::Tag,
        "Tags"@,
    )
}

impl GitApp {
    fn ref_rows(&self, kind: RefKind) -> (r: Vec<RefRow>)
        ensures
            models(r@) == rows_of_kind(self@, kind),
    {
        let running = self.git.running().is_some();
        let mut out: Vec<RefRow> = Vec::new();
        let mut i: usize = 0;
        let ghost all = self@.refs;
        let ghost f = |r: RefModel| row_of_ref(r, kind, self@.git.running is Some);
        while i < self.refs.len()
            invariant
                i <= self.refs@.len(),
                all == self@.refs,
                running == (self@.git.running is Some),
                f == (|r: RefModel| row_of_ref(r, kind, self@.git.running is Some)),
                models(out@) == filter_map(all.take(i as int), f),
            decreases self.refs@.len() - i,
        {
            assert(all.take(i + 1).drop_last() =~= all.take(i as int));
            assert(all.take(i + 1).last() == self.refs@[i as int]@);
            let r = &self.refs[i];
            if r.kind == kind {
                out.push(
                    RefRow {
                        name: r.name.clone(),
                        current: r.current,
                        upstream: r.upstream.clone(),
                        can_switch: !r.current && !running,
                    },
                );
            }
            i += 1;
        }
        assert(all.take(all.len() as int) =~= all);
        out
    }

    fn add_group(&self, out: &mut Vec<RefGroup>, kind: RefKind, title: &str)
        ensures
            models(final(out)@) == models(old(out)@) + group_of(self@, kind, title@),
    {
        let ghost before = models(out@);
        let rows = self.ref_rows(kind);
        if rows.len() > 0 {
            out.push(RefGroup { title: owned(title), rows });
        }
        assert(models(out@) =~= before + group_of(self@, kind, title@));
    }

    pub fn refs_panel(&self) -> (r: RefsPanel)
        ensures
            r.tag@ == decimal(rows_of_kind(self@, RefKind::Local).len()) + " local"@,
            r.can_create == can_run(self@),
            models(r.groups@) == groups_of(self@),
    {
        let local: usize = self.ref_rows(RefKind::Local).len();
        let mut groups: Vec<RefGroup> = Vec::new();
        self.add_group(&mut groups, RefKind::Local, "Local");
        assert(models(groups@) =~= group_of(self@, RefKind::Local, "Local"@));
        self.add_group(&mut groups, RefKind::Remote, "Remotes");
        self.add_group(&mut groups, RefKind::Tag, "Tags");
        RefsPanel {
            tag: cat2(decimal_text(local as u128).as_str(), " local"),
            can_create: self.can_run(),
            groups,
        }
    }
}

impl RefRow {
    /// What a double click on the row asks for.
    pub fn double_clicked(&self) -> (r: Option<Action>)
        ensures
            opt_model(r) == if self@.can_switch {
                Some(ActionModel::Switch(self@.name))
            } else {
                None
            },
    {
        if self.can_switch {
            Some(Action::Switch(self.name.clone()))
        } else {
            None
        }
    }
}

} // verus!
