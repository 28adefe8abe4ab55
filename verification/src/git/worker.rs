//! What comes back from `git`, and what is still out.

use vstd::prelude::*;

use crate::git::bytes::{lossy, lossy_text, output_text};
use crate::git::command::{
    detail_query, diff_query, log_query, query_detail, query_diff, query_log, query_refs,
    query_status, refs_query, status_query, DiffKey, DiffKeyModel, Job, JobModel, Query, Reads,
    ReadsModel,
};
use crate::git::diff::{diff_of, parse_diff, Diff, DiffModel};
use crate::git::log::{
    commits_of, detail_of, parse_detail, parse_log, Commit, CommitDetail, CommitDetailModel,
    CommitModel,
};
use crate::git::refs::{parse_refs, refs_of, Ref, RefModel};
use crate::git::status::{
    parse_status, plain_fields, read_fields, status_fields, Status, StatusModel,
};
use crate::git::status;
use crate::text::{
    cat2, chars_of, clone_opt, clone_texts, filter_map, find, find_facts, group_models, is_space,
    models, opt_model, owned, pieces, split, split_chars, text_of, trim, trim_end, trim_end_chars,
    trimmed,
};
use crate::text_laws::free_of;

verus! {

broadcast use group_models;

/// A message from a running or finished command.
pub enum Msg {
    Status(Result<Status, String>),
    Log(Result<Vec<Commit>, String>),
    Refs(Result<Vec<Ref>, String>),
    Diff(DiffKey, Result<Diff, String>),
    Detail(Result<CommitDetail, String>),
    /// One line of output from the streaming runner.
    Line { text: String, stderr: bool },
    /// A streaming command finished. `elapsed` is its time in seconds, with two decimals.
    Exit { label: String, args: Vec<String>, ok: bool, code: Option<i32>, elapsed: String },
}

/// The contents of a [`Msg`].
pub enum MsgModel {
    Status(Result<StatusModel, Seq<char>>),
    Log(Result<Seq<CommitModel>, Seq<char>>),
    Refs(Result<Seq<RefModel>, Seq<char>>),
    Diff(DiffKeyModel, Result<DiffModel, Seq<char>>),
    Detail(Result<CommitDetailModel, Seq<char>>),
    Line { text: Seq<char>, stderr: bool },
    Exit {
        label: Seq<char>,
        args: Seq<Seq<char>>,
        ok: bool,
        code: Option<i32>,
        elapsed: Seq<char>,
    },
}

/// The contents of a result with an error text.
pub open spec fn res_model<T: View>(r: Result<T, String>) -> Result<T::V, Seq<char>> {
    match r {
        Ok(v) => Ok(v@),
        Err(e) => Err(e@),
    }
}

/// The contents of a result with a list.
pub open spec fn res_models<T: View>(r: Result<Vec<T>, String>) -> Result<Seq<T::V>, Seq<char>> {
    match r {
        Ok(v) => Ok(models(v@)),
        Err(e) => Err(e@),
    }
}

impl View for Msg {
    type V = MsgModel;

    open spec fn view(&self) -> MsgModel {
        match self {
            Msg::Status(r) => MsgModel::Status(res_model(*r)),
            Msg::Log(r) => MsgModel::Log(res_models(*r)),
            Msg::Refs(r) => MsgModel::Refs(res_models(*r)),
            Msg::Diff(key, r) => MsgModel::Diff(key@, res_model(*r)),
            Msg::Detail(r) => MsgModel::Detail(res_model(*r)),
            Msg::Line { text, stderr } => MsgModel::Line { text: text@, stderr: *stderr },
            Msg::Exit { label, args, ok, code, elapsed } => MsgModel::Exit {
                label: label@,
                args: models(args@),
                ok: *ok,
                code: *code,
                elapsed: elapsed@,
            },
        }
    }
}

/// What became of a command that was run to its end.
pub enum Outcome {
    /// It could not be started, for this reason.
    NotStarted(String),
    Ended { success: bool, code: Option<i32>, stdout: Vec<u8>, stderr: Vec<u8> },
}

/// The output of a read, or why there is none: the trimmed error output.
pub open spec fn output_of(outcome: Outcome) -> Result<Seq<u8>, Seq<char>> {
    match outcome {
        Outcome::NotStarted(e) => Err("cannot start git: "@ + e@),
        Outcome::Ended { success, stdout, stderr, .. } => if success {
            Ok(stdout@)
        } else {
            Err(trim(lossy_text(stderr@)))
        },
    }
}

/// The output of the diff of an untracked file. `--no-index` exits 1 when the files differ, which
/// is the normal case.
pub open spec fn compared_output(outcome: Outcome) -> Result<Seq<u8>, Seq<char>> {
    match outcome {
        Outcome::NotStarted(e) => Err(e@),
        Outcome::Ended { code, stdout, stderr, .. } => if code == Some(0i32) || code == Some(1i32) {
            Ok(stdout@)
        } else {
            Err(trim(lossy_text(stderr@)))
        },
    }
}

/// The output of a read, or why there is none, as plain text where the bytes are UTF-8.
pub open spec fn plain_output(outcome: Outcome) -> Result<Seq<u8>, Seq<char>> {
    match outcome {
        Outcome::NotStarted(e) => Err("cannot start git: "@ + e@),
        Outcome::Ended { success, stdout, stderr, .. } => if success {
            Ok(stdout@)
        } else {
            Err(trim(output_text(stderr@)))
        },
    }
}

/// The output of the diff of an untracked file, or why there is none, as plain text where the
/// bytes are UTF-8.
pub open spec fn plain_compared(outcome: Outcome) -> Result<Seq<u8>, Seq<char>> {
    match outcome {
        Outcome::NotStarted(e) => Err(e@),
        Outcome::Ended { code, stdout, stderr, .. } => if code == Some(0i32) || code == Some(1i32) {
            Ok(stdout@)
        } else {
            Err(trim(output_text(stderr@)))
        },
    }
}

/// What a function makes of the output, as plain text where the bytes are UTF-8.
pub open spec fn of_output<T>(
    output: Result<Seq<u8>, Seq<char>>,
    f: spec_fn(Seq<char>) -> T,
) -> Result<T, Seq<char>> {
    match output {
        Ok(out) => Ok(f(output_text(out))),
        Err(e) => Err(e),
    }
}

/// The answer to a read, from its output as plain text where the bytes are UTF-8.
pub open spec fn plain_answer(reads: ReadsModel, outcome: Outcome) -> MsgModel {
    match reads {
        ReadsModel::Status => MsgModel::Status(
            match plain_output(outcome) {
                Ok(out) => Ok(read_fields(status::empty_status(), plain_fields(out))),
                Err(e) => Err(e),
            },
        ),
        ReadsModel::Log => MsgModel::Log(
            of_output(plain_output(outcome), |text: Seq<char>| commits_of(text)),
        ),
        ReadsModel::Refs => MsgModel::Refs(
            of_output(plain_output(outcome), |text: Seq<char>| refs_of(text)),
        ),
        ReadsModel::Diff(key, untracked) => MsgModel::Diff(
            key,
            of_output(
                if untracked && key is Unstaged {
                    plain_compared(outcome)
                } else {
                    plain_output(outcome)
                },
                |text: Seq<char>| diff_of(text),
            ),
        ),
        ReadsModel::Detail(_) => MsgModel::Detail(
            match of_output(plain_output(outcome), |text: Seq<char>| detail_of(text)) {
                Ok(Some(d)) => Ok(d),
                Ok(None) => Err("unparsable show"@),
                Err(e) => Err(e),
            },
        ),
    }
}

pub open spec fn bytes_model(r: Result<Vec<u8>, String>) -> Result<Seq<u8>, Seq<char>> {
    match r {
        Ok(v) => Ok(v@),
        Err(e) => Err(e@),
    }
}

/// Read-only git commands: stdout on success, trimmed stderr on failure.
pub fn query(outcome: Outcome) -> (r: Result<Vec<u8>, String>)
    ensures
        bytes_model(r) == output_of(outcome),
        bytes_model(r) == plain_output(outcome),
{
    match outcome {
        Outcome::NotStarted(e) => Err(cat2("cannot start git: ", e.as_str())),
        Outcome::Ended { success, stdout, stderr, .. } => if success {
            Ok(stdout)
        } else {
            Err(trimmed(lossy(stderr.as_slice()).as_str()))
        },
    }
}

/// The diff of an untracked file: stdout where the files differ or not, trimmed stderr on failure.
pub fn compare(outcome: Outcome) -> (r: Result<Vec<u8>, String>)
    ensures
        bytes_model(r) == compared_output(outcome),
        bytes_model(r) == plain_compared(outcome),
{
    match outcome {
        Outcome::NotStarted(e) => Err(e),
        Outcome::Ended { code, stdout, stderr, .. } => match code {
            Some(c) => if c == 0 || c == 1 {
                Ok(stdout)
            } else {
                Err(trimmed(lossy(stderr.as_slice()).as_str()))
            },
            None => Err(trimmed(lossy(stderr.as_slice()).as_str())),
        },
    }
}

/// Where the working tree starts, in the output of `rev-parse --show-toplevel`.
pub open spec fn top_of(outcome: Outcome) -> Result<Seq<char>, Seq<char>> {
    match output_of(outcome) {
        Ok(out) => Ok(trim(lossy_text(out))),
        Err(e) => Err(e),
    }
}

/// Top of the working tree containing a path, if it is inside a git repository.
pub fn toplevel(outcome: Outcome) -> (r: Result<String, String>)
    ensures
        res_model(r) == top_of(outcome),
        res_model(r) == of_output(plain_output(outcome), |text: Seq<char>| trim(text)),
{
    match query(outcome) {
        Ok(out) => Ok(trimmed(lossy(out.as_slice()).as_str())),
        Err(e) => Err(e),
    }
}

/// The status that the bytes of the output spell.
pub open spec fn status_of(bytes: Seq<u8>) -> StatusModel {
    read_fields(status::empty_status(), status_fields(bytes))
}

/// The answer to a read.
pub open spec fn answer_of(reads: ReadsModel, outcome: Outcome) -> MsgModel {
    match reads {
        ReadsModel::Status => MsgModel::Status(
            match output_of(outcome) {
                Ok(out) => Ok(status_of(out)),
                Err(e) => Err(e),
            },
        ),
        ReadsModel::Log => MsgModel::Log(
            match output_of(outcome) {
                Ok(out) => Ok(commits_of(lossy_text(out))),
                Err(e) => Err(e),
            },
        ),
        ReadsModel::Refs => MsgModel::Refs(
            match output_of(outcome) {
                Ok(out) => Ok(refs_of(lossy_text(out))),
                Err(e) => Err(e),
            },
        ),
        ReadsModel::Diff(key, untracked) => MsgModel::Diff(
            key,
            match if untracked && key is Unstaged {
                compared_output(outcome)
            } else {
                output_of(outcome)
            } {
                Ok(out) => Ok(diff_of(lossy_text(out))),
                Err(e) => Err(e),
            },
        ),
        ReadsModel::Detail(_) => MsgModel::Detail(
            match output_of(outcome) {
                Ok(out) => match detail_of(lossy_text(out)) {
                    Some(d) => Ok(d),
                    None => Err("unparsable show"@),
                },
                Err(e) => Err(e),
            },
        ),
    }
}

fn answer_diff(key: DiffKey, out: Result<Vec<u8>, String>) -> (r: Msg)
    ensures
        r@ == MsgModel::Diff(
            key@,
            match bytes_model(out) {
                Ok(b) => Ok(diff_of(lossy_text(b))),
                Err(e) => Err(e),
            },
        ),
        r@ == MsgModel::Diff(key@, of_output(bytes_model(out), |text: Seq<char>| diff_of(text))),
{
    Msg::Diff(
        key,
        match out {
            Ok(b) => Ok(parse_diff(lossy(b.as_slice()).as_str())),
            Err(e) => Err(e),
        },
    )
}

/// What the output of a read means: the message that answers it.
pub fn answer(reads: Reads, outcome: Outcome) -> (r: Msg)
    ensures
        r@ == answer_of(reads@, outcome),
        r@ == plain_answer(reads@, outcome),
{
    match reads {
        Reads::Status => Msg::Status(
            match query(outcome) {
                Ok(out) => Ok(parse_status(out.as_slice())),
                Err(e) => Err(e),
            },
        ),
        Reads::Log => Msg::Log(
            match query(outcome) {
                Ok(out) => Ok(parse_log(lossy(out.as_slice()).as_str())),
                Err(e) => Err(e),
            },
        ),
        Reads::Refs => Msg::Refs(
            match query(outcome) {
                Ok(out) => Ok(parse_refs(lossy(out.as_slice()).as_str())),
                Err(e) => Err(e),
            },
        ),
        Reads::Diff(key, untracked) => {
            let compared = untracked && matches!(key, DiffKey::Unstaged(_));
            let out = if compared {
                compare(outcome)
            } else {
                query(outcome)
            };
            answer_diff(key, out)
        },
        Reads::Detail(_) => Msg::Detail(
            match query(outcome) {
                Ok(out) => match parse_detail(lossy(out.as_slice()).as_str()) {
                    Some(d) => Ok(d),
                    None => Err(owned("unparsable show")),
                },
                Err(e) => Err(e),
            },
        ),
    }
}

/// The lines in a piece of output. Progress output (fetch / push) uses CR to redraw one line; it
/// ends a line too. White space at the end of a line, and blank lines, are dropped.
pub open spec fn output_lines(text: Seq<char>) -> Seq<Seq<char>> {
    filter_map(
        split(text, '\r'),
        |piece: Seq<char>|
            if trim_end(piece).len() > 0 {
                Some(trim_end(piece))
            } else {
                None
            },
    )
}

/// The messages for some lines of output.
pub open spec fn line_msgs(lines: Seq<Seq<char>>, stderr: bool) -> Seq<MsgModel> {
    lines.map_values(|text: Seq<char>| MsgModel::Line { text, stderr })
}

/// The messages for a piece of output up to a line break.
pub fn lines_in(text: &str, stderr: bool) -> (r: Vec<Msg>)
    ensures
        models(r@) == line_msgs(output_lines(text@), stderr),
{
    let chars = chars_of(text);
    let parts = split_chars(chars.as_slice(), '\r');
    let mut out: Vec<Msg> = Vec::new();
    let mut i: usize = 0;
    let ghost all = pieces(parts@);
    let ghost f = |piece: Seq<char>|
        if trim_end(piece).len() > 0 {
            Some(trim_end(piece))
        } else {
            None
        };
    assert(models(out@) =~= line_msgs(filter_map(all.take(0), f), stderr));
    while i < parts.len()
        invariant
            i <= parts@.len(),
            all == pieces(parts@),
            f == (|piece: Seq<char>|
                if trim_end(piece).len() > 0 {
                    Some(trim_end(piece))
                } else {
                    None
                }),
            models(out@) == line_msgs(filter_map(all.take(i as int), f), stderr),
        decreases parts@.len() - i,
    {
        assert(all.take(i + 1).drop_last() =~= all.take(i as int));
        assert(all.take(i + 1).last() == parts@[i as int]@);
        let piece = trim_end_chars(parts[i]);
        if piece.len() > 0 {
            out.push(Msg::Line { text: text_of(piece), stderr });
            assert(models(out@) =~= line_msgs(filter_map(all.take(i + 1), f), stderr));
        }
        i += 1;
    }
    assert(all.take(all.len() as int) =~= all);
    out
}

/// The messages for the bytes that a running command wrote, up to a line break.
pub fn stream(bytes: &[u8], stderr: bool) -> (r: Vec<Msg>)
    ensures
        models(r@) == line_msgs(output_lines(lossy_text(bytes@)), stderr),
        models(r@) == line_msgs(output_lines(output_text(bytes@)), stderr),
{
    lines_in(lossy(bytes).as_str(), stderr)
}

/// The messages for a command that could not be started.
pub fn not_started(label: String, args: Vec<String>, reason: &str) -> (r: Vec<Msg>)
    ensures
        models(r@) == seq![
            MsgModel::Line { text: "cannot start git: "@ + reason@, stderr: true },
            MsgModel::Exit {
                label: label@,
                args: models(args@),
                ok: false,
                code: None,
                elapsed: "0.00"@,
            },
        ],
{
    let mut r: Vec<Msg> = Vec::new();
    let ghost (l, a) = (label@, models(args@));
    r.push(Msg::Line { text: cat2("cannot start git: ", reason), stderr: true });
    r.push(Msg::Exit { label, args, ok: false, code: None, elapsed: owned("0.00") });
    assert(models(r@) =~= seq![
        MsgModel::Line { text: "cannot start git: "@ + reason@, stderr: true },
        MsgModel::Exit { label: l, args: a, ok: false, code: None, elapsed: "0.00"@ },
    ]);
    r
}

/// The message for a command that ended. `status` is whether it succeeded and its exit code; none
/// where it could not be waited for.
pub fn ended(
    label: String,
    args: Vec<String>,
    status: Option<(bool, Option<i32>)>,
    elapsed: String,
) -> (r: Msg)
    ensures
        r@ == (MsgModel::Exit {
            label: label@,
            args: models(args@),
            ok: status is Some && status.unwrap().0,
            code: match status {
                Some(s) => s.1,
                None => None,
            },
            elapsed: elapsed@,
        }),
{
    let (ok, code) = match status {
        Some(s) => s,
        None => (false, None),
    };
    Msg::Exit { label, args, ok, code, elapsed }
}

/// The commands in flight.
pub struct Git {
    /// Label of the streaming command in flight (only one at a time).
    pub running: Option<String>,
    /// Read queries in flight (status / log / refs / diff / detail).
    pub pending: usize,
}

/// The contents of a [`Git`].
pub struct GitModel {
    pub running: Option<Seq<char>>,
    pub pending: int,
}

impl View for Git {
    type V = GitModel;

    open spec fn view(&self) -> GitModel {
        GitModel { running: opt_model(self.running), pending: self.pending as int }
    }
}

impl GitModel {
    pub open spec fn is_busy(self) -> bool {
        self.pending > 0 || self.running is Some
    }

    /// One more read is out.
    pub open spec fn asked(self) -> GitModel {
        GitModel { pending: self.pending + 1, ..self }
    }

    /// A message came in.
    pub open spec fn received(self, msg: MsgModel) -> GitModel {
        match msg {
            MsgModel::Exit { .. } => GitModel { running: None, ..self },
            MsgModel::Line { .. } => self,
            _ => GitModel {
                pending: if self.pending > 0 {
                    self.pending - 1
                } else {
                    0
                },
                ..self
            },
        }
    }

    /// Messages came in, the first one first.
    pub open spec fn received_all(self, msgs: Seq<MsgModel>) -> GitModel
        decreases msgs.len(),
    {
        if msgs.len() == 0 {
            self
        } else {
            self.received_all(msgs.drop_last()).received(msgs.last())
        }
    }
}

/// No command in flight.
pub open spec fn idle() -> GitModel {
    GitModel { running: None, pending: 0 }
}

impl Default for Git {
    fn default() -> (g: Git)
        ensures
            g@ == idle(),
    {
        Git::new()
    }
}

impl Git {
    pub fn new() -> (g: Git)
        ensures
            g@ == idle(),
    {
        Git { running: None, pending: 0 }
    }

    pub fn running(&self) -> (r: Option<&str>)
        ensures
            opt_model(r) == self@.running,
    {
        match &self.running {
            Some(label) => Some(label.as_str()),
            None => None,
        }
    }

    pub fn busy(&self) -> (r: bool)
        ensures
            r == self@.is_busy(),
    {
        self.pending > 0 || self.running.is_some()
    }

    /// Takes note of the messages that came in, and hands them on.
    pub fn poll(&mut self, received: Vec<Msg>) -> (r: Vec<Msg>)
        ensures
            final(self)@ == old(self)@.received_all(models(received@)),
            final(self).pending <= old(self).pending,
            r@ == received@,
    {
        let mut i: usize = 0;
        let ghost start = self@;
        let ghost all = models(received@);
        while i < received.len()
            invariant
                i <= received@.len(),
                all == models(received@),
                self@ == start.received_all(all.take(i as int)),
                self.pending <= start.pending,
            decreases received@.len() - i,
        {
            assert(all.take(i + 1).drop_last() =~= all.take(i as int));
            assert(all.take(i + 1).last() == received@[i as int]@);
            match &received[i] {
                Msg::Exit { .. } => {
                    self.running = None;
                },
                Msg::Line { .. } => {},
                _ => {
                    self.pending = self.pending.saturating_sub(1);
                },
            }
            i += 1;
        }
        assert(all.take(all.len() as int) =~= all);
        received
    }

    pub fn fetch_status(&mut self, repo: &str) -> (r: Query)
        requires
            old(self).pending < usize::MAX,
        ensures
            final(self)@ == old(self)@.asked(),
            r@ == status_query(repo@),
    {
        self.pending = self.pending + 1;
        query_status(repo)
    }

    /// Newest `limit` commits reachable from any ref.
    pub fn fetch_log(&mut self, repo: &str, limit: usize) -> (r: Query)
        requires
            old(self).pending < usize::MAX,
        ensures
            final(self)@ == old(self)@.asked(),
            r@ == log_query(repo@, limit as int),
    {
        self.pending = self.pending + 1;
        query_log(repo, limit)
    }

    pub fn fetch_refs(&mut self, repo: &str) -> (r: Query)
        requires
            old(self).pending < usize::MAX,
        ensures
            final(self)@ == old(self)@.asked(),
            r@ == refs_query(repo@),
    {
        self.pending = self.pending + 1;
        query_refs(repo)
    }

    pub fn fetch_diff(&mut self, repo: &str, key: DiffKey, untracked: bool) -> (r: Query)
        requires
            old(self).pending < usize::MAX,
        ensures
            final(self)@ == old(self)@.asked(),
            r@ == diff_query(repo@, key@, untracked),
    {
        self.pending = self.pending + 1;
        query_diff(repo, key, untracked)
    }

    pub fn fetch_detail(&mut self, repo: &str, hash: &str) -> (r: Query)
        requires
            old(self).pending < usize::MAX,
        ensures
            final(self)@ == old(self)@.asked(),
            r@ == detail_query(repo@, hash@),
    {
        self.pending = self.pending + 1;
        query_detail(repo, hash)
    }

    /// Run a mutating git command, streaming output. `stdin` is written to the child (patches
    /// for `apply`). There is no command to start if one is already running.
    pub fn run(
        &mut self,
        repo: &str,
        label: &str,
        args: &Vec<String>,
        stdin: &Option<String>,
    ) -> (r: Option<Job>)
        ensures
            old(self)@.running is Some ==> r is None && final(self)@ == old(self)@,
            old(self)@.running is None ==> opt_model(r) == Some(
                JobModel {
                    repo: repo@,
                    label: label@,
                    args: models(args@),
                    stdin: opt_model(*stdin),
                },
            ) && final(self)@ == (GitModel { running: Some(label@), ..old(self)@ }),
    {
        if self.running.is_some() {
            return None;
        }
        self.running = Some(owned(label));
        Some(
            Job {
                repo: owned(repo),
                label: owned(label),
                args: clone_texts(args),
                stdin: clone_opt(stdin),
            },
        )
    }
}

/// No line of output is blank, none ends with white space, and none holds a carriage return. In
/// output up to a line break, none holds a line break either: each is one line.
pub proof fn lines_of_output_are_clean(text: Seq<char>, i: int)
    requires
        0 <= i < output_lines(text).len(),
    ensures
        output_lines(text)[i].len() > 0,
        !is_space(output_lines(text)[i].last()),
        !output_lines(text)[i].contains('\r'),
        ends_at(text, '\n') ==> !output_lines(text)[i].contains('\n'),
{
    let f = |piece: Seq<char>|
        if trim_end(piece).len() > 0 {
            Some(trim_end(piece))
        } else {
            None
        };
    pieces_hold_no_separator(text, '\r');
    mapped_from(split(text, '\r'), f, i);
    let piece = choose|piece: Seq<char>|
        split(text, '\r').contains(piece) && f(piece) == Some(output_lines(text)[i]);
    trim_end_facts(piece);
    if ends_at(text, '\n') {
        pieces_end_at(text, '\r', '\n');
        let line = output_lines(text)[i];
        if line.contains('\n') {
            let j = choose|j: int| 0 <= j < line.len() && line[j] == '\n';
            assert(piece[j] == line[j]);
            assert(j == piece.len() - 1);
        }
    }
}

/// `c` stands in a text at most as its last character.
pub open spec fn ends_at(s: Seq<char>, c: char) -> bool {
    forall|j: int| 0 <= j < s.len() - 1 ==> s[j] != c
}

proof fn pieces_end_at(s: Seq<char>, sep: char, c: char)
    requires
        ends_at(s, c),
    ensures
        forall|k: int| 0 <= k < split(s, sep).len() ==> ends_at(#[trigger] split(s, sep)[k], c),
    decreases s.len(),
{
    let i = find(s, sep);
    find_facts(s, sep);
    let parts = split(s, sep);
    if i < s.len() {
        let rest = s.skip(i + 1);
        assert(ends_at(rest, c)) by {
            assert forall|j: int| 0 <= j < rest.len() - 1 implies rest[j] != c by {
                assert(rest[j] == s[i + 1 + j]);
            }
        }
        pieces_end_at(rest, sep, c);
        assert forall|k: int| 0 <= k < parts.len() implies ends_at(#[trigger] parts[k], c) by {
            if k > 0 {
                assert(parts[k] == split(rest, sep)[k - 1]);
            }
        }
    }
}

proof fn trim_end_facts(s: Seq<char>)
    ensures
        trim_end(s).is_prefix_of(s),
        trim_end(s).len() > 0 ==> !is_space(trim_end(s).last()),
    decreases s.len(),
{
    if s.len() > 0 && is_space(s.last()) {
        trim_end_facts(s.drop_last());
        assert(trim_end(s) =~= s.subrange(0, trim_end(s).len() as int));
    } else {
        assert(s =~= s.subrange(0, s.len() as int));
    }
}

proof fn pieces_hold_no_separator(s: Seq<char>, sep: char)
    ensures
        free_of(split(s, sep), sep),
    decreases s.len(),
{
    let i = find(s, sep);
    find_facts(s, sep);
    let parts = split(s, sep);
    if i < s.len() {
        let rest = s.skip(i + 1);
        pieces_hold_no_separator(rest, sep);
        assert forall|k: int| 0 <= k < parts.len() implies !(#[trigger] parts[k]).contains(sep) by {
            if k > 0 {
                assert(parts[k] == split(rest, sep)[k - 1]);
            }
        }
    }
}

proof fn mapped_from<A, B>(s: Seq<A>, f: spec_fn(A) -> Option<B>, i: int)
    requires
        0 <= i < filter_map(s, f).len(),
    ensures
        exists|a: A| s.contains(a) && f(a) == Some(filter_map(s, f)[i]),
    decreases s.len(),
{
    if s.len() > 0 {
        let front = s.drop_last();
        if i < filter_map(front, f).len() {
            mapped_from(front, f, i);
            let a = choose|a: A| front.contains(a) && f(a) == Some(filter_map(front, f)[i]);
            let k = choose|k: int| 0 <= k < front.len() && front[k] == a;
            assert(s[k] == a);
            assert(s.contains(a));
        } else {
            assert(s[s.len() - 1] == s.last());
            assert(s.contains(s.last()));
        }
    }
}

} // verus!
