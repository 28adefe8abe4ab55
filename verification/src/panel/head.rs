//! The frame around the panels: title, lamps and the status line.

use vstd::prelude::*;

use crate::app::state::{GitApp, GitAppModel, Level, SettingsModel};
use crate::number::{decimal, decimal_text};
use crate::panel::tone::Tone;
use crate::path::{file_name, name_of};
use crate::text::{before, before_text, cat2, cat3, group_models, models, owned};
use crate::words::{upper_text, uppercase};

verus! {

broadcast use group_models;

/// A lamp in the title bar.
#[derive(Debug, PartialEq, Eq)]
pub struct Lamp {
    pub text: String,
    pub tone: Tone,
    pub pulse: bool,
}

/// The contents of a [`Lamp`].
pub struct LampModel {
    pub text: Seq<char>,
    pub tone: Tone,
    pub pulse: bool,
}

impl View for Lamp {
    type V = LampModel;

    open spec fn view(&self) -> LampModel {
        LampModel { text: self.text@, tone: self.tone, pulse: self.pulse }
    }
}

/// The name that a path ends with; nothing where it ends with none.
pub open spec fn name_or_nothing(path: Seq<char>) -> Seq<char> {
    match file_name(path) {
        Some(name) => name,
        None => seq![],
    }
}

pub fn short_name(path: &str) -> (r: String)
    ensures
        r@ == name_or_nothing(path@),
{
    match name_of(path) {
        Some(name) => name,
        None => String::new(),
    }
}

/// How the repository is doing.
pub open spec fn link_lamp(m: GitAppModel) -> LampModel {
    if m.repo is None {
        LampModel { text: "NO REPOSITORY"@, tone: Tone::Dim, pulse: false }
    } else if m.last_error is None {
        LampModel { text: "GIT LINK OK"@, tone: Tone::Good, pulse: false }
    } else {
        LampModel { text: "GIT LINK FAILED"@, tone: Tone::Danger, pulse: false }
    }
}

/// What is running, from the text of the lamp for it.
pub open spec fn work_lamps(m: GitAppModel, running: Seq<char>) -> Seq<LampModel> {
    if m.git.running is Some {
        seq![LampModel { text: running, tone: Tone::Warn, pulse: true }]
    } else if m.git.is_busy() {
        seq![LampModel { text: "READING"@, tone: Tone::Warn, pulse: true }]
    } else {
        seq![]
    }
}

/// What a running command is called: its label up to the slashes.
pub open spec fn running_name(m: GitAppModel) -> Seq<char> {
    match m.git.running {
        Some(label) => "GIT "@ + before_text(label, " //"@),
        None => seq![],
    }
}

pub open spec fn title_of(m: GitAppModel) -> Seq<char> {
    match m.repo {
        Some(r) => name_or_nothing(r) + " :: "@ + m.status.branch,
        None => "no repository"@,
    }
}

pub open spec fn status_of(m: GitAppModel, uptime: Seq<char>, fps: Seq<char>) -> Seq<char> {
    uptime + " :: "@ + decimal(m.unstaged.len()) + " UNSTAGED :: "@ + decimal(m.staged.len())
        + " STAGED :: "@ + decimal(m.commits.len()) + " COMMITS :: "@ + fps + " FPS"@
}

pub open spec fn pick(b: bool, yes: Seq<char>, no: Seq<char>) -> Seq<char> {
    if b {
        yes
    } else {
        no
    }
}

/// What the log says of new settings.
pub open spec fn settings_line(s: SettingsModel) -> Seq<char> {
    "settings // palette "@ + s.palette + " :: "@ + pick(s.chamfer, "chamfer"@, "square"@)
        + " :: "@ + pick(s.compact, "compact"@, "normal"@) + " :: "@ + pick(
        s.transparent,
        "translucent"@,
        "opaque"@,
    ) + " :: agent "@ + pick(s.agent, "on"@, "off"@) + pick(
        s.agent && s.agent_confirm,
        " (may confirm)"@,
        ""@,
    )
}

fn word(b: bool, yes: &'static str, no: &'static str) -> (r: &'static str)
    ensures
        r@ == pick(b, yes@, no@),
{
    if b {
        yes
    } else {
        no
    }
}

impl GitApp {
    /// The lamps, from the text of the one for a running command.
    pub fn lamps_with(&self, running: String) -> (r: Vec<Lamp>)
        ensures
            models(r@) == seq![link_lamp(self@)] + work_lamps(self@, running@),
    {
        let mut out: Vec<Lamp> = Vec::new();
        let ghost name = running@;
        if self.repo.is_none() {
            out.push(Lamp { text: owned("NO REPOSITORY"), tone: Tone::Dim, pulse: false });
        } else if self.last_error.is_none() {
            out.push(Lamp { text: owned("GIT LINK OK"), tone: Tone::Good, pulse: false });
        } else {
            out.push(Lamp { text: owned("GIT LINK FAILED"), tone: Tone::Danger, pulse: false });
        }
        if self.git.running().is_some() {
            out.push(Lamp { text: running, tone: Tone::Warn, pulse: true });
        } else if self.git.busy() {
            out.push(Lamp { text: owned("READING"), tone: Tone::Warn, pulse: true });
        }
        assert(models(out@) =~= seq![link_lamp(self@)] + work_lamps(self@, name));
        out
    }

    /// The lamps: how the repository is doing, and what is running.
    pub fn lamps(&self) -> (r: Vec<Lamp>)
        ensures
            models(r@) == seq![link_lamp(self@)] + work_lamps(
                self@,
                upper_text(running_name(self@)),
            ),
    {
        proof {
            reveal_strlit(" //");
        }
        let name = match self.git.running() {
            Some(label) => cat2("GIT ", before(label, " //").as_str()),
            None => String::new(),
        };
        self.lamps_with(uppercase(name.as_str()))
    }

    pub fn subtitle(&self) -> (r: String)
        ensures
            r@ == title_of(self@),
    {
        match &self.repo {
            Some(path) => cat3(
                short_name(path.as_str()).as_str(),
                " :: ",
                self.status.branch.as_str(),
            ),
            None => owned("no repository"),
        }
    }

    /// The status line. `uptime` and `fps` are how long the application has been up and how many
    /// frames it paints in a second, as text.
    pub fn status_line(&self, uptime: &str, fps: &str) -> (r: String)
        ensures
            r@ == status_of(self@, uptime@, fps@),
    {
        let mut s = owned(uptime);
        s.append(" :: ");
        s.append(decimal_text(self.unstaged.len() as u128).as_str());
        s.append(" UNSTAGED :: ");
        s.append(decimal_text(self.staged.len() as u128).as_str());
        s.append(" STAGED :: ");
        s.append(decimal_text(self.commits.len() as u128).as_str());
        s.append(" COMMITS :: ");
        s.append(fps);
        s.append(" FPS");
        s
    }

    /// Logs the settings after they changed.
    pub fn settings_changed(&mut self, t: &str)
        ensures
            final(self)@ == old(self)@.logged(t@, settings_line(old(self)@.settings), Level::Warn),
            old(self)@.valid() ==> final(self)@.valid(),
    {
        let mut s = cat3("settings // palette ", self.settings.palette.as_str(), " :: ");
        s.append(word(self.settings.chamfer, "chamfer", "square"));
        s.append(" :: ");
        s.append(word(self.settings.compact, "compact", "normal"));
        s.append(" :: ");
        s.append(word(self.settings.transparent, "translucent", "opaque"));
        s.append(" :: agent ");
        s.append(word(self.settings.agent, "on", "off"));
        s.append(
            word(self.settings.agent && self.settings.agent_confirm, " (may confirm)", ""),
        );
        self.push_log(t, s, Level::Warn);
    }

    /// Logs why the settings could not be saved.
    pub fn save_failed(&mut self, t: &str, reason: &str)
        ensures
            final(self)@ == old(self)@.logged(
                t@,
                "settings // save failed: "@ + reason@,
                Level::Danger,
            ),
            old(self)@.valid() ==> final(self)@.valid(),
    {
        self.push_log(t, cat2("settings // save failed: ", reason), Level::Danger);
    }

    /// Opens or closes the log.
    pub fn toggle_log(&mut self)
        ensures
            final(self)@ == (GitAppModel {
                settings: SettingsModel {
                    log_open: !old(self)@.settings.log_open,
                    ..old(self)@.settings
                },
                ..old(self)@
            }),
    {
        self.settings.log_open = !self.settings.log_open;
    }

    /// The tag of the log.
    pub fn log_tag(&self) -> (r: String)
        ensures
            r@ == decimal(self@.log.len()) + " lines"@,
    {
        cat2(decimal_text(self.log.len() as u128).as_str(), " lines")
    }
}

} // verus!
