//! The application: its state, and what each action and each message does to it.

pub mod action_laws;
pub mod agent;
pub mod agent_laws;
pub mod apply;
pub mod frame;
pub mod frame_laws;
pub mod journal;
pub mod keys;
pub mod laws;
pub mod message_laws;
pub mod open;
pub mod poll;
pub mod run;
pub mod screen_laws;
pub mod select;
pub mod state;

pub use state::{
    Action, Confirm, DialogState, Effect, Event, Focus, GitApp, Level, OpenDialog, Screen,
    Settings, TableState,
};
