//! What the panels show: texts, tones and what can be pressed. Sizes, places and colours are left
//! to whoever paints them.

pub mod changes;
pub mod commit;
pub mod detail;
pub mod dialog;
pub mod diff;
pub mod head;
pub mod history;
pub mod laws;
pub mod refs;
pub mod repo;
pub mod tone;
pub mod toolbar;

pub use tone::{Button, Tone};
