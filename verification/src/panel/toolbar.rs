//! The toolbar.

use vstd::prelude::*;

use crate::app::state::{GitApp, GitAppModel, Screen};
use crate::number::{decimal, decimal_text};
use crate::panel::repo::can_run;
use crate::panel::tone::{Button, ButtonModel, Tone};
use crate::text::{cat2, owned};

verus! {

#[derive(Debug, PartialEq, Eq)]
pub struct Toolbar {
    pub can_refresh: bool,
    /// The views, with the one on screen lit.
    pub changes: Button,
    pub history: Button,
    pub push: Button,
    pub pull: Button,
}

pub open spec fn tab_tone(on: bool) -> Tone {
    if on {
        Tone::Accent
    } else {
        Tone::Dim
    }
}

pub open spec fn changes_tab(m: GitAppModel) -> ButtonModel {
    ButtonModel {
        label: "CHANGES  "@ + decimal(m.unstaged.len() + m.staged.len()),
        enabled: true,
        tone: tab_tone(m.screen == Screen::Changes),
    }
}

pub open spec fn history_tab(m: GitAppModel) -> ButtonModel {
    ButtonModel {
        label: "HISTORY  "@ + decimal(m.commits.len()),
        enabled: true,
        tone: tab_tone(m.screen == Screen::History),
    }
}

/// A button with a count: the count is there, and the tone is the one for it, where there is
/// anything to count.
pub open spec fn counting(
    name: Seq<char>,
    count: u32,
    enabled: bool,
    tone: Tone,
) -> ButtonModel {
    ButtonModel {
        label: if count > 0 {
            name + "  "@ + decimal(count as nat)
        } else {
            name
        },
        enabled,
        tone: if count > 0 {
            tone
        } else {
            Tone::Accent
        },
    }
}

fn tab(label: String, on: bool) -> (r: Button)
    ensures
        r@ == (ButtonModel { label: label@, enabled: true, tone: tab_tone(on) }),
{
    Button {
        label,
        enabled: true,
        tone: if on {
            Tone::Accent
        } else {
            Tone::Dim
        },
    }
}

fn counter(name: &str, count: u32, enabled: bool, tone: Tone) -> (r: Button)
    ensures
        r@ == counting(name@, count, enabled, tone),
{
    if count > 0 {
        let mut label = cat2(name, "  ");
        label.append(decimal_text(count as u128).as_str());
        Button { label, enabled, tone }
    } else {
        Button { label: owned(name), enabled, tone: Tone::Accent }
    }
}

impl GitApp {
    pub fn toolbar(&self) -> (r: Toolbar)
        ensures
            r.can_refresh == (self@.repo is Some),
            r.changes@ == changes_tab(self@),
            r.history@ == history_tab(self@),
            r.push@ == counting("PUSH"@, self@.status.ahead, can_run(self@), Tone::Good),
            r.pull@ == counting("PULL"@, self@.status.behind, can_run(self@), Tone::Warn),
    {
        let can_net = self.can_run();
        let changes: u128 = self.unstaged.len() as u128 + self.staged.len() as u128;
        Toolbar {
            can_refresh: self.repo.is_some(),
            changes: tab(
                cat2("CHANGES  ", decimal_text(changes).as_str()),
                self.screen == Screen::Changes,
            ),
            history: tab(
                cat2("HISTORY  ", decimal_text(self.commits.len() as u128).as_str()),
                self.screen == Screen::History,
            ),
            push: counter("PUSH", self.status.ahead, can_net, Tone::Good),
            pull: counter("PULL", self.status.behind, can_net, Tone::Warn),
        }
    }
}

} // verus!
