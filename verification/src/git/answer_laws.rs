//! What the answers of `git` are taken for.

use vstd::prelude::*;
use vstd::utf8::encode_utf8;

use crate::git::bytes::encoded_text_reads_back;
use crate::git::command::{DiffKeyModel, ReadsModel};
use crate::git::diff::diff_of;
use crate::git::log::{detail_of, CommitDetailModel, CommitModel};
use crate::git::read_laws::{
    can_be_listed, can_be_logged, can_be_named, can_be_reported, can_be_shown, detail_reads_back,
    ended_by_nul, entries_fields, fits_between, header_fields, is_field, log_reads_back, log_text,
    refs_read_back, refs_text, show_text, status_bytes_read_back, Naming,
};
use crate::git::refs::RefModel;
use crate::git::status::StatusModel;
use crate::git::worker::{
    line_msgs, of_output, output_lines, plain_answer, plain_output, GitModel, MsgModel, Outcome,
};
use crate::text::{is_space, split, trim, trim_end};
use crate::text_laws::{
    filter_map_adds_up, filter_map_goes_on, free_of, is_blank, is_tight, split_adds_up, split_first,
    trim_end_takes, trim_takes_the_ends,
};

verus! {

/// A command that succeeded and wrote some bytes.
pub open spec fn wrote(outcome: Outcome, bytes: Seq<u8>) -> bool {
    match outcome {
        Outcome::Ended { success, stdout, .. } => success && stdout@ == bytes,
        _ => false,
    }
}

/// A command that failed and gave a reason, with white space around it.
pub open spec fn failed_with(
    outcome: Outcome,
    before: Seq<char>,
    reason: Seq<char>,
    behind: Seq<char>,
) -> bool {
    match outcome {
        Outcome::Ended { success, stderr, .. } => {
            &&& !success
            &&& stderr@ == encode_utf8(before + reason + behind)
            &&& is_blank(before) && is_blank(behind) && is_tight(reason)
        },
        _ => false,
    }
}

/// The log that `git` wrote is the answer to a read of the log, commit by commit.
pub proof fn logs_are_answered(commits: Seq<CommitModel>, outcome: Outcome)
    requires
        forall|i: int| 0 <= i < commits.len() ==> can_be_logged(#[trigger] commits[i]),
        wrote(outcome, encode_utf8(log_text(commits))),
    ensures
        plain_answer(ReadsModel::Log, outcome) == MsgModel::Log(Ok(commits)),
{
    encoded_text_reads_back(log_text(commits));
    log_reads_back(commits);
}

/// The refs that `git` listed are the answer to a read of the refs.
pub proof fn refs_are_answered(refs: Seq<RefModel>, outcome: Outcome)
    requires
        forall|i: int| 0 <= i < refs.len() ==> can_be_listed(#[trigger] refs[i]),
        wrote(outcome, encode_utf8(refs_text(refs))),
    ensures
        plain_answer(ReadsModel::Refs, outcome) == MsgModel::Refs(Ok(refs)),
{
    encoded_text_reads_back(refs_text(refs));
    refs_read_back(refs);
}

/// The status that `git` wrote is the answer to a read of the status.
pub proof fn statuses_are_answered(
    st: StatusModel,
    columns: Seq<Seq<Seq<char>>>,
    counted: bool,
    outcome: Outcome,
)
    requires
        columns.len() == st.changes.len(),
        forall|i: int|
            0 <= i < st.changes.len() ==> can_be_reported(#[trigger] st.changes[i])
                && fits_between(st.changes[i], columns[i]),
        counted || (st.ahead == 0 && st.behind == 0),
        free_of(header_fields(st, counted) + entries_fields(st.changes, columns), '\0'),
        wrote(
            outcome,
            ended_by_nul(header_fields(st, counted) + entries_fields(st.changes, columns)),
        ),
    ensures
        plain_answer(ReadsModel::Status, outcome) == MsgModel::Status(Ok(st)),
{
    status_bytes_read_back(st, columns, counted);
}

/// The commit that `git` showed is the answer to a read of that commit; what cannot be read as a
/// commit is an error.
pub proof fn details_are_answered(
    d: CommitDetailModel,
    before: Seq<char>,
    behind: Seq<char>,
    how: Seq<Naming>,
    blank: nat,
    hash: Seq<char>,
    outcome: Outcome,
)
    requires
        can_be_shown(d),
        is_blank(before) && is_field(before),
        is_blank(behind) && is_field(behind),
        how.len() == d.files.len(),
        forall|i: int| 0 <= i < d.files.len() ==> can_be_named(#[trigger] d.files[i], how[i]),
    ensures
        wrote(outcome, encode_utf8(show_text(d, before, behind, how, blank))) ==> plain_answer(
            ReadsModel::Detail(hash),
            outcome,
        ) == MsgModel::Detail(Ok(d)),
        wrote(outcome, encode_utf8(d.hash)) ==> plain_answer(ReadsModel::Detail(hash), outcome)
            == MsgModel::Detail(Err("unparsable show"@)),
{
    encoded_text_reads_back(show_text(d, before, behind, how, blank));
    detail_reads_back(d, before, behind, how, blank);
    encoded_text_reads_back(d.hash);
    split_first(d.hash, '\u{1e}', seq![]);
    assert(detail_of(d.hash) is None);
}

/// The diff that `git` wrote is the answer to a read of that diff. The comparison of an untracked
/// file with nothing ends with code 1 where they differ, and is answered all the same.
pub proof fn diffs_are_answered(key: DiffKeyModel, text: Seq<char>, outcome: Outcome)
    ensures
        wrote(outcome, encode_utf8(text)) ==> plain_answer(ReadsModel::Diff(key, false), outcome)
            == MsgModel::Diff(key, Ok(diff_of(text))),
        wrote(outcome, encode_utf8(text)) && !(key is Unstaged) ==> plain_answer(
            ReadsModel::Diff(key, true),
            outcome,
        ) == MsgModel::Diff(key, Ok(diff_of(text))),
        key is Unstaged && (outcome matches Outcome::Ended { code, stdout, .. } && (code == Some(
            0i32,
        ) || code == Some(1i32)) && stdout@ == encode_utf8(text)) ==> plain_answer(
            ReadsModel::Diff(key, true),
            outcome,
        ) == MsgModel::Diff(key, Ok(diff_of(text))),
{
    encoded_text_reads_back(text);
}

/// Where a read fails, the answer is the reason that `git` gave, without the white space around it.
pub proof fn failures_are_answered(
    before: Seq<char>,
    reason: Seq<char>,
    behind: Seq<char>,
    key: DiffKeyModel,
    hash: Seq<char>,
    outcome: Outcome,
)
    requires
        failed_with(outcome, before, reason, behind),
    ensures
        plain_answer(ReadsModel::Status, outcome) == MsgModel::Status(Err(reason)),
        plain_answer(ReadsModel::Log, outcome) == MsgModel::Log(Err(reason)),
        plain_answer(ReadsModel::Refs, outcome) == MsgModel::Refs(Err(reason)),
        plain_answer(ReadsModel::Diff(key, false), outcome) == MsgModel::Diff(key, Err(reason)),
        plain_answer(ReadsModel::Detail(hash), outcome) == MsgModel::Detail(Err(reason)),
        !(outcome->code == Some(0i32) || outcome->code == Some(1i32)) ==> plain_answer(
            ReadsModel::Diff(key, true),
            outcome,
        ) == MsgModel::Diff(key, Err(reason)),
        of_output(plain_output(outcome), |text: Seq<char>| trim(text)) == Err::<Seq<char>, _>(
            reason,
        ),
{
    encoded_text_reads_back(before + reason + behind);
    trim_takes_the_ends(before, reason, behind);
}

/// Where `git` could not be started, the answer says so, and why.
pub proof fn missing_git_is_answered(e: String, hash: Seq<char>, key: DiffKeyModel)
    ensures
        ({
            let reason = "cannot start git: "@ + e@;
            let outcome = Outcome::NotStarted(e);
            &&& plain_answer(ReadsModel::Status, outcome) == MsgModel::Status(Err(reason))
            &&& plain_answer(ReadsModel::Log, outcome) == MsgModel::Log(Err(reason))
            &&& plain_answer(ReadsModel::Refs, outcome) == MsgModel::Refs(Err(reason))
            &&& plain_answer(ReadsModel::Detail(hash), outcome) == MsgModel::Detail(Err(reason))
            &&& plain_answer(ReadsModel::Diff(key, false), outcome) == MsgModel::Diff(
                key,
                Err(reason),
            )
            &&& key is Unstaged ==> plain_answer(ReadsModel::Diff(key, true), outcome)
                == MsgModel::Diff(key, Err(e@))
        }),
{
}

/// The top of the working tree is the path that `git` wrote, without the line break.
pub proof fn tops_are_answered(path: Seq<char>, behind: Seq<char>, outcome: Outcome)
    requires
        is_tight(path),
        is_blank(behind),
        wrote(outcome, encode_utf8(path + behind)),
    ensures
        of_output(plain_output(outcome), |text: Seq<char>| trim(text)) == Ok::<_, Seq<char>>(path),
{
    encoded_text_reads_back(path + behind);
    let none = Seq::<char>::empty();
    trim_takes_the_ends(none, path, behind);
    assert(none + path + behind =~= path + behind);
}

/// Output is cut at carriage returns, as progress is; what is left of each piece without the white
/// space at its end is a line, unless it is nothing.
pub proof fn output_is_cut_into_lines(
    a: Seq<char>,
    b: Seq<char>,
    line: Seq<char>,
    behind: Seq<char>,
)
    requires
        !line.contains('\r') && !behind.contains('\r'),
        line.len() > 0 ==> trim_end(line) == line,
        is_blank(behind),
    ensures
        output_lines(a + seq!['\r'] + b) == output_lines(a) + output_lines(b),
        line.len() > 0 ==> output_lines(line + behind) == seq![line],
        output_lines(behind) == Seq::<Seq<char>>::empty(),
{
    let f = |piece: Seq<char>|
        if trim_end(piece).len() > 0 {
            Some(trim_end(piece))
        } else {
            None
        };
    split_adds_up(a, '\r', b);
    filter_map_adds_up(split(a, '\r'), split(b, '\r'), f);
    let none = Seq::<char>::empty();
    trim_end_takes(none, behind);
    assert(none + behind =~= behind);
    split_first(behind, '\r', none);
    filter_map_goes_on(Seq::empty(), behind, f);
    assert(Seq::empty().push(behind) =~= seq![behind]);
    assert(output_lines(behind) =~= Seq::<Seq<char>>::empty());
    if line.len() > 0 {
        let s = line + behind;
        assert(!s.contains('\r')) by {
            if s.contains('\r') {
                let j = choose|j: int| 0 <= j < s.len() && s[j] == '\r';
                if j < line.len() {
                    assert(line[j] == '\r');
                } else {
                    assert(behind[j - line.len()] == '\r');
                }
            }
        }
        trimmed_ends_tight(line);
        trim_end_takes(line, behind);
        split_first(s, '\r', none);
        filter_map_goes_on(Seq::empty(), s, f);
        assert(Seq::empty().push(s) =~= seq![s]);
        assert(output_lines(s) =~= seq![line]);
    }
}

proof fn trimmed_ends_tight(s: Seq<char>)
    requires
        s.len() > 0,
        trim_end(s) == s,
    ensures
        !is_space(s.last()),
{
    if is_space(s.last()) {
        trim_end_is_shorter(s.drop_last());
    }
}

proof fn trim_end_is_shorter(s: Seq<char>)
    ensures
        trim_end(s).len() <= s.len(),
    decreases s.len(),
{
    if s.len() > 0 {
        trim_end_is_shorter(s.drop_last());
    }
}

/// Each line of output becomes one message, in its order, and says which stream it came from.
pub proof fn lines_become_messages(lines: Seq<Seq<char>>, stderr: bool, i: int)
    requires
        0 <= i < lines.len(),
    ensures
        line_msgs(lines, stderr).len() == lines.len(),
        line_msgs(lines, stderr)[i] == (MsgModel::Line { text: lines[i], stderr }),
{
}

/// A read that is asked for is out until its answer comes; a line of output and the end of a
/// command take none back. Only the end of a command makes way for the next one.
pub proof fn messages_are_counted(g: GitModel, msgs: Seq<MsgModel>, msg: MsgModel)
    ensures
        g.asked().pending == g.pending + 1,
        g.asked().running == g.running,
        g.received_all(Seq::empty()) == g,
        ({
            let before = g.received_all(msgs);
            let after = g.received_all(msgs.push(msg));
            &&& after.running == if msg is Exit {
                None
            } else {
                before.running
            }
            &&& after.pending == if msg is Exit || msg is Line || before.pending <= 0 {
                if msg is Exit || msg is Line {
                    before.pending
                } else {
                    0
                }
            } else {
                before.pending - 1
            }
        }),
        g.is_busy() <==> g.pending > 0 || g.running is Some,
{
    assert(msgs.push(msg).drop_last() =~= msgs);
}

} // verus!
