//! Git access through the `git` command line: what is asked of it, and what its output means.

pub mod answer_laws;
pub mod bytes;
pub mod command;
pub mod command_laws;
pub mod diff;
pub mod diff_laws;
pub mod graph;
pub mod graph_laws;
pub mod log;
pub mod read_laws;
pub mod refs;
pub mod status;
pub mod time;
pub mod worker;

pub use diff::{parse_diff, Diff, DiffLine, LineKind};
pub use graph::{graph, GraphRow};
pub use log::{parse_detail, parse_log, Commit, CommitDetail};
pub use refs::{parse_refs, Ref, RefKind};
pub use time::{fmt_ago, fmt_time};
pub use status::{parse_status, status_tag, Change, Status};
pub use command::{
    augmented_path, git_executable, DiffKey, Job, Query, Reads, LOG_FORMAT, REF_FORMAT,
    SHOW_FORMAT,
};
pub use worker::{answer, toplevel, Git, Msg, Outcome};
