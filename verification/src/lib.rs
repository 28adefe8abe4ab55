//! FUIDE Git — a git client with a tactical-console look. Everything goes through the `git`
//! CLI: [`git`] is what is asked of it and what its output means, [`app`] is the state of the
//! application and what happens to it, and [`panel`] is what each of its panels shows.

pub mod app;
pub mod git;
pub mod number;
pub mod panel;
pub mod path;
pub mod text;
pub mod text_laws;
pub mod words;
