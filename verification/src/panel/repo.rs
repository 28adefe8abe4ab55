//! The repository that is open, and the recent ones.

use vstd::prelude::*;

use crate::app::state::{GitApp, GitAppModel};
use crate::number::{decimal, decimal_text};
use crate::panel::head::{name_or_nothing, short_name};
use crate::panel::tone::Tone;
use crate::path::{file_name, name_of, same, same_path};
use crate::text::{cat4, group_models, models, owned};

verus! {

broadcast use group_models;

/// What is shown of a repository.
#[derive(Debug, PartialEq, Eq)]
pub struct RepoInfo {
    pub name: String,
    pub path: String,
    pub branch: String,
    pub upstream: String,
    /// How many commits it is ahead of its upstream, and behind.
    pub counts: String,
    pub counts_tone: Tone,
}

/// A repository that was open before.
#[derive(Debug, PartialEq, Eq)]
pub struct Recent {
    pub name: String,
    pub path: String,
}

/// The contents of a [`Recent`].
pub struct RecentModel {
    pub name: Seq<char>,
    pub path: Seq<char>,
}

impl View for Recent {
    type V = RecentModel;

    open spec fn view(&self) -> RecentModel {
        RecentModel { name: self.name@, path: self.path@ }
    }
}

#[derive(Debug, PartialEq, Eq)]
pub struct RepoPanel {
    /// None where no repository is open.
    pub info: Option<RepoInfo>,
    pub can_fetch: bool,
    pub recent: Vec<Recent>,
}

/// A repository by its name, or its path where it has none.
pub open spec fn recent_of(path: Seq<char>) -> RecentModel {
    RecentModel {
        name: match file_name(path) {
            Some(name) => name,
            None => path,
        },
        path,
    }
}

/// Whether a path is another one than that of the repository that is open.
pub open spec fn is_other(m: GitAppModel, path: Seq<char>) -> bool {
    !(m.repo is Some && same_path(path, m.repo.unwrap()))
}

/// The recent repositories other than the one that is open, the first three.
pub open spec fn others(m: GitAppModel) -> Seq<RecentModel> {
    let all = m.recent.filter(|p: Seq<char>| is_other(m, p));
    let first = if all.len() > 3 {
        all.take(3)
    } else {
        all
    };
    first.map_values(|p: Seq<char>| recent_of(p))
}

pub open spec fn counts_tone(ahead: u32, behind: u32) -> Tone {
    if behind > 0 {
        Tone::Warn
    } else if ahead > 0 {
        Tone::Good
    } else {
        Tone::Text
    }
}

/// Whether a command can be run now.
pub open spec fn can_run(m: GitAppModel) -> bool {
    m.git.running is None && m.repo is Some
}

/// What is shown of the repository that is open.
pub open spec fn shows_repo(m: GitAppModel, info: RepoInfo) -> bool {
    &&& m.repo is Some
    &&& info.name@ == name_or_nothing(m.repo.unwrap())
    &&& info.path@ == m.repo.unwrap()
    &&& info.branch@ == m.status.branch
    &&& info.upstream@ == if m.status.upstream.len() == 0 {
        "--"@
    } else {
        m.status.upstream
    }
    &&& info.counts@ == "+"@ + decimal(m.status.ahead as nat) + " / -"@ + decimal(
        m.status.behind as nat,
    )
    &&& info.counts_tone == counts_tone(m.status.ahead, m.status.behind)
}

impl GitApp {
    /// Whether a command can be run now: a repository is open, and no other command is running.
    pub fn can_run(&self) -> (r: bool)
        ensures
            r == can_run(self@),
    {
        self.git.running().is_none() && self.repo.is_some()
    }

    fn other_repos(&self) -> (r: Vec<Recent>)
        ensures
            models(r@) == others(self@),
    {
        let mut out: Vec<Recent> = Vec::new();
        let mut i: usize = 0;
        let ghost all = self@.recent;
        let ghost other = |p: Seq<char>| is_other(self@, p);
        let ghost kept = Seq::<Seq<char>>::empty();
        assert(kept =~= all.take(0).filter(other)) by {
            reveal(Seq::filter);
        }
        while i < self.recent.len()
            invariant
                i <= self.recent@.len(),
                all == self@.recent,
                other == (|p: Seq<char>| is_other(self@, p)),
                kept == all.take(i as int).filter(other),
                out@.len() == if kept.len() > 3 {
                    3
                } else {
                    kept.len()
                },
                forall|k: int| 0 <= k < out@.len() ==> (#[trigger] out@[k])@ == recent_of(kept[k]),
            decreases self.recent@.len() - i,
        {
            let path = &self.recent[i];
            assert(all.take(i + 1).drop_last() =~= all.take(i as int));
            assert(all.take(i + 1).last() == path@);
            let is_other = match &self.repo {
                Some(r) => !same(path.as_str(), r.as_str()),
                None => true,
            };
            assert(all.take(i + 1).filter(other) == if other(path@) {
                kept.push(path@)
            } else {
                kept
            }) by {
                reveal(Seq::filter);
            }
            if is_other {
                if out.len() < 3 {
                    let name = match name_of(path.as_str()) {
                        Some(name) => name,
                        None => path.clone(),
                    };
                    out.push(Recent { name, path: path.clone() });
                }
                proof {
                    kept = kept.push(path@);
                }
            }
            i += 1;
        }
        assert(all.take(all.len() as int) =~= all);
        assert(models(out@) =~= others(self@));
        out
    }

    pub fn repo_panel(&self) -> (r: RepoPanel)
        ensures
            match r.info {
                Some(info) => shows_repo(self@, info),
                None => self@.repo is None,
            },
            r.can_fetch == can_run(self@),
            models(r.recent@) == others(self@),
    {
        let info = match &self.repo {
            Some(path) => {
                let ahead = decimal_text(self.status.ahead as u128);
                let behind = decimal_text(self.status.behind as u128);
                Some(
                    RepoInfo {
                        name: short_name(path.as_str()),
                        path: path.clone(),
                        branch: self.status.branch.clone(),
                        upstream: if self.status.upstream.as_str().is_empty() {
                            owned("--")
                        } else {
                            self.status.upstream.clone()
                        },
                        counts: cat4("+", ahead.as_str(), " / -", behind.as_str()),
                        counts_tone: if self.status.behind > 0 {
                            Tone::Warn
                        } else if self.status.ahead > 0 {
                            Tone::Good
                        } else {
                            Tone::Text
                        },
                    },
                )
            },
            None => None,
        };
        RepoPanel { info, can_fetch: self.can_run(), recent: self.other_repos() }
    }
}

} // verus!
