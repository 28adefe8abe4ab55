//! Tones and buttons.

use vstd::prelude::*;

use crate::app::state::Level;

verus! {

/// A colour of the palette.
#[derive(Clone, Copy, Debug, PartialEq, Eq, Structural)]
pub enum Tone {
    Text,
    Dim,
    Accent,
    AccentDim,
    Good,
    Warn,
    Danger,
}

/// A button.
#[derive(Debug, PartialEq, Eq)]
pub struct Button {
    pub label: String,
    pub enabled: bool,
    pub tone: Tone,
}

/// The contents of a [`Button`].
pub struct ButtonModel {
    pub label: Seq<char>,
    pub enabled: bool,
    pub tone: Tone,
}

impl View for Button {
    type V = ButtonModel;

    open spec fn view(&self) -> ButtonModel {
        ButtonModel { label: self.label@, enabled: self.enabled, tone: self.tone }
    }
}

/// The tone of a line of the log.
pub open spec fn tone_of(level: Level) -> Tone {
    match level {
        Level::Info => Tone::Text,
        Level::Good => Tone::Good,
        Level::Warn => Tone::Warn,
        Level::Danger => Tone::Danger,
    }
}

/// The tone of a line of the log.
pub fn level_tone(level: Level) -> (r: Tone)
    ensures
        r == tone_of(level),
{
    match level {
        Level::Info => Tone::Text,
        Level::Good => Tone::Good,
        Level::Warn => Tone::Warn,
        Level::Danger => Tone::Danger,
    }
}

} // verus!
