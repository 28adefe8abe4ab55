//! What the panels show of the state, and what can be pressed.

use vstd::prelude::*;
use vstd::utf8::is_ascii_chars;

use crate::app::select::hashes_of;
use crate::app::state::{
    ActionModel, DialogStateModel, GitAppModel, Level, OpenDialogModel, Screen, SettingsModel,
};
use crate::git::command::DiffKeyModel;
use crate::git::diff::{DiffLineModel, DiffModel, LineKind};
use crate::git::graph::GraphRowModel;
use crate::git::log::{cuts_at, head_text, heads_of_ascii, CommitDetailModel, CommitModel};
use crate::git::refs::{RefKind, RefModel};
use crate::git::status::{tag_of, ChangeModel};
use crate::git::time::shows_time;
use crate::number::decimal;
use crate::panel::changes::{letter_tone, listed, row_of_change};
use crate::panel::commit::{can_commit, head_commit};
use crate::panel::detail::{
    cuts, message_rest, row_of_file, short_parents, shows_detail, DetailBody,
};
use crate::panel::dialog::{
    action_of, hint_of, last_name, panel_of, without_slashes, DialogInput, DialogPanelModel,
};
use crate::panel::diff::{
    button_of, no_lines, path_of_key, shows_line, verb_of, DiffRow, HunkButtonModel,
};
use crate::panel::head::{
    link_lamp, name_or_nothing, running_name, settings_line, status_of, title_of, work_lamps,
    LampModel,
};
use crate::panel::history::{lane_tone_of, lanes_shown, subject_of, widest};
use crate::panel::refs::{group_of, groups_of, rows_of_kind, RefGroupModel, RefRowModel};
use crate::panel::repo::{
    can_run, counts_tone, is_other, others, recent_of, shows_repo, RecentModel, RepoInfo,
};
use crate::panel::tone::{tone_of, Tone};
use crate::panel::toolbar::{changes_tab, counting, history_tab};
use crate::path::{file_name, same_path};
use crate::text::{
    contains_text, find_facts, find_is, first_line, is_space, join, lines, opt_model, replaced,
    split,
};
use crate::text_laws::{
    before_text_ends_at_it, filter_map_goes_on, is_blank, is_tight, join_first, join_goes_on,
    line_ends_are_dropped, split_adds_up, split_first, split_is_well_cut, trim_takes_the_ends,
};

verus! {

/// A file is shown by its path, a renamed one by both of its paths, with the tag and the tone of
/// the letter of its list: what is new is good, what is gone or in conflict is danger, and the rest
/// a warning.
pub proof fn files_are_shown_by_their_letters(c: ChangeModel, m: GitAppModel)
    ensures
        row_of_change(c, true).tag == tag_of(c.unstaged),
        row_of_change(c, false).tag == tag_of(c.staged),
        row_of_change(c, true).tone == letter_tone(c.unstaged),
        row_of_change(c, false).tone == letter_tone(c.staged),
        forall|unstaged: bool|
            (#[trigger] row_of_change(c, unstaged)).path == match c.orig_path {
                Some(o) => o + " → "@ + c.path,
                None => c.path,
            },
        forall|l: char|
            #![trigger letter_tone(l)]
            letter_tone(l) == if l == 'A' || l == '?' {
                Tone::Good
            } else if l == 'D' || l == 'U' {
                Tone::Danger
            } else {
                Tone::Warn
            },
        listed(m, true) == m.unstaged,
        listed(m, false) == m.staged,
{
}

/// A commit can be made exactly when nothing is running, something is staged, and the message is
/// more than white space.
pub proof fn commits_can_be_made(
    m: GitAppModel,
    before: Seq<char>,
    msg: Seq<char>,
    behind: Seq<char>,
)
    requires
        is_blank(before),
        is_blank(behind),
        is_tight(msg),
        m.commit_msg == before + msg + behind,
    ensures
        can_commit(m) <==> m.git.running is None && m.staged.len() > 0 && msg.len() > 0,
{
    trim_takes_the_ends(before, msg, behind);
}

/// The commit that is checked out is the first one in the history with the hash of the status.
pub proof fn the_head_is_found(m: GitAppModel, i: int)
    requires
        0 <= i <= m.commits.len(),
        forall|j: int| 0 <= j < i ==> (#[trigger] m.commits[j]).hash != m.status.head,
        i < m.commits.len() ==> m.commits[i].hash == m.status.head,
    ensures
        head_commit(m) == if i < m.commits.len() {
            Some(m.commits[i])
        } else {
            None
        },
{
    let hashes = hashes_of(m.commits);
    assert forall|j: int| 0 <= j < i implies hashes[j] != m.status.head by {
        assert(hashes[j] == m.commits[j].hash);
    }
    find_is(hashes, m.status.head, i);
}

/// The names of the files of a commit, their tags and tones.
pub proof fn files_of_a_commit_are_shown(letter: char, path: Seq<char>)
    ensures
        row_of_file((letter, path)).path == path,
        row_of_file((letter, path)).tag == tag_of(letter),
        row_of_file((letter, path)).tone == if letter == 'A' {
            Tone::Good
        } else if letter == 'D' {
            Tone::Danger
        } else {
            Tone::Warn
        },
{
}

/// What is shown of a commit: the first line of its message, twelve characters of its hash, eight
/// of each parent, its author and its date; refs only where there are any.
pub proof fn commits_are_shown(d: CommitDetailModel, b: DetailBody, i: int)
    requires
        shows_detail(d, b),
        is_ascii_chars(d.hash),
    ensures
        b.title@ == first_line(d.message),
        b.hash@ == if d.hash.len() < 12 {
            d.hash
        } else {
            d.hash.take(12)
        },
        b.author@ == d.author,
        shows_time(d.time as int, b.date@),
        b.parents@ == short_parents(d.parents),
        opt_model(b.refs) == if d.refs.len() > 0 {
            Some(d.refs)
        } else {
            None
        },
        opt_model(b.text) == if message_rest(d.message).len() > 0 {
            Some(message_rest(d.message))
        } else {
            None
        },
{
    heads_of_ascii(d.hash, 12);
}

/// A commit whose hash and parents are plain ASCII can always be shown.
pub proof fn plain_hashes_can_be_cut(d: CommitDetailModel)
    requires
        is_ascii_chars(d.hash),
        forall|i: int| 0 <= i < d.parents.len() ==> is_ascii_chars(#[trigger] d.parents[i]),
    ensures
        cuts(d),
{
    heads_of_ascii(d.hash, 8);
    heads_of_ascii(d.hash, 12);
    assert forall|i: int| 0 <= i < d.parents.len() implies cuts_at(
        #[trigger] d.parents[i],
        8,
    ) by {
        heads_of_ascii(d.parents[i], 8);
    }
}

/// The parents of a commit are shown by eight characters each, with a space between them.
pub proof fn parents_are_shortened(parents: Seq<Seq<char>>, p: Seq<char>)
    requires
        is_ascii_chars(p),
    ensures
        short_parents(Seq::empty()) == Seq::<char>::empty(),
        short_parents(parents.push(p)) == short_parents(parents) + (if parents.len() > 0 {
            " "@
        } else {
            Seq::empty()
        }) + if p.len() < 8 {
            p
        } else {
            p.take(8)
        },
{
    heads_of_ascii(p, 8);
    let f = |p: Seq<char>| head_text(p, 8);
    let short = parents.map_values(f);
    assert(parents.push(p).map_values(f) =~= short.push(head_text(p, 8)));
    join_goes_on(short, head_text(p, 8), " "@);
    assert(Seq::<Seq<char>>::empty().map_values(f) =~= Seq::<Seq<char>>::empty());
    if parents.len() == 0 {
        assert(short.push(head_text(p, 8)) =~= seq![head_text(p, 8)]);
        assert(short =~= Seq::<Seq<char>>::empty());
        assert(short_parents(parents.push(p)) =~= short_parents(parents) + Seq::empty()
            + head_text(p, 8));
    }
}

proof fn lines_join_back(s: Seq<char>)
    requires
        !s.contains('\r'),
    ensures
        ({
            let all = join(lines(s), seq!['\n']);
            if s.len() > 0 && s.last() == '\n' {
                all + seq!['\n'] == s
            } else {
                all == s
            }
        }),
    decreases s.len(),
{
    let nl = seq!['\n'];
    find_facts(s, '\n');
    let i = crate::text::find(s, '\n');
    if s.len() == 0 {
        assert(lines(s) =~= Seq::<Seq<char>>::empty());
        assert(join(lines(s), nl) =~= s);
    } else if i < s.len() {
        let line = s.take(i);
        let rest = s.skip(i + 1);
        assert(!line.contains('\n')) by {
            if line.contains('\n') {
                let j = choose|j: int| 0 <= j < line.len() && line[j] == '\n';
                assert(s[j] == '\n');
            }
        }
        assert(!rest.contains('\r')) by {
            if rest.contains('\r') {
                let j = choose|j: int| 0 <= j < rest.len() && rest[j] == '\r';
                assert(s[i + 1 + j] == '\r');
            }
        }
        assert(s.take(i + 1) =~= line + nl);
        assert(!(line.len() > 0 && line.last() == '\r')) by {
            if line.len() > 0 && line.last() == '\r' {
                assert(s[i - 1] == '\r');
            }
        }
        line_ends_are_dropped(s, line, 0);
        assert(lines(s) =~= seq![line] + lines(rest));
        lines_join_back(rest);
        assert(s =~= line + nl + rest);
        if rest.len() == 0 {
            assert(lines(rest) =~= Seq::<Seq<char>>::empty());
            assert(lines(s) =~= seq![line]);
            assert(join(lines(s), nl) == line);
        } else {
            split_is_well_cut(rest);
            join_first(lines(s), nl);
            assert(lines(s).drop_first() =~= lines(rest));
            assert(s.last() == rest.last());
            let all = join(lines(rest), nl);
            if s.last() == '\n' {
                assert(line + nl + all + nl =~= s);
            }
        }
    } else {
        assert(!s.contains('\n')) by {
            if s.contains('\n') {
                let j = choose|j: int| 0 <= j < s.len() && s[j] == '\n';
                assert(s[j] != '\n');
            }
        }
        line_ends_are_dropped(s, s, 0);
        assert(lines(s) =~= seq![s]);
        assert(s.contains(s.last()));
    }
}

/// The message of a commit below its first line is shown as it is, line breaks and all, without the
/// white space around it.
pub proof fn messages_are_shown_whole(
    title: Seq<char>,
    before: Seq<char>,
    body: Seq<char>,
    behind: Seq<char>,
)
    requires
        !title.contains('\n') && !title.contains('\r'),
        is_blank(before) && is_blank(behind) && is_tight(body),
        !(before + body + behind).contains('\r'),
    ensures
        message_rest(title + seq!['\n'] + (before + body + behind)) == body,
        message_rest(title) == Seq::<char>::empty(),
{
    let nl = seq!['\n'];
    let rest = before + body + behind;
    let s = title + nl + rest;
    let n = title.len() as int;
    reveal_strlit("\n");
    assert("\n"@ =~= nl);
    assert forall|j: int| 0 <= j < n implies s[j] != '\n' && title[j] != '\n' by {
        assert(title.contains(title[j]));
    }
    assert(s[n] == '\n');
    find_is(s, '\n', n);
    find_is(title, '\n', n);
    assert(s.take(n + 1) =~= title + nl);
    assert(s.skip(n + 1) =~= rest);
    assert(!(n > 0 && title.last() == '\r')) by {
        if n > 0 {
            assert(title.contains(title.last()));
        }
    }
    line_ends_are_dropped(s, title, 0);
    assert(lines(s) =~= seq![title] + lines(rest));
    assert(lines(s).skip(1) =~= lines(rest));
    lines_join_back(rest);
    let all = join(lines(rest), nl);
    if rest.len() > 0 && rest.last() == '\n' {
        assert(is_space('\n'));
        if behind.len() > 0 {
            let fewer = behind.drop_last();
            assert forall|i: int| 0 <= i < fewer.len() implies is_space(#[trigger] fewer[i]) by {
                assert(fewer[i] == behind[i]);
            }
            assert(behind.last() == '\n');
            assert((before + body + fewer) + nl =~= rest);
            assert(all =~= before + body + fewer) by {
                assert((all + nl).drop_last() =~= all);
                assert(((before + body + fewer) + nl).drop_last() =~= before + body + fewer);
            }
            trim_takes_the_ends(before, body, fewer);
        } else {
            assert(body.len() == 0) by {
                if body.len() > 0 {
                    assert(rest.last() == body.last());
                }
            }
            let fewer = before.drop_last();
            assert forall|i: int| 0 <= i < fewer.len() implies is_space(#[trigger] fewer[i]) by {
                assert(fewer[i] == before[i]);
            }
            assert(rest =~= before);
            assert(all =~= fewer) by {
                assert((all + nl).drop_last() =~= all);
            }
            let none = Seq::<char>::empty();
            trim_takes_the_ends(fewer, none, none);
            assert(fewer + none + none =~= fewer);
            assert(body =~= none);
        }
    } else {
        trim_takes_the_ends(before, body, behind);
    }
    let none = Seq::<char>::empty();
    trim_takes_the_ends(none, none, none);
    assert(none + none + none =~= none);
    if n > 0 {
        line_ends_are_dropped(title, title, 0);
        assert(lines(title) =~= seq![title]);
        assert(lines(title).skip(1) =~= Seq::<Seq<char>>::empty());
    } else {
        assert(lines(title) =~= Seq::<Seq<char>>::empty());
    }
}

/// A line of the diff is shown in the tone of its kind, with its sign and both of its numbers, and
/// with a tab as four spaces.
pub proof fn diff_lines_are_shown(m: GitAppModel, line: DiffLineModel, r: DiffRow)
    requires
        shows_line(m, line, r),
    ensures
        line.kind == LineKind::Add ==> r.tone == Tone::Good && r.sign@ == "+"@ && r.shaded,
        line.kind == LineKind::Del ==> r.tone == Tone::Danger && r.sign@ == "-"@ && r.shaded,
        line.kind == LineKind::Context ==> r.tone == Tone::Text && r.sign@ == " "@ && !r.shaded,
        line.kind == LineKind::Hunk ==> r.tone == Tone::Accent && r.sign@ == "@"@ && r.shaded,
        line.kind == LineKind::Meta ==> r.tone == Tone::Dim && r.sign@ == " "@ && !r.shaded,
        opt_model(r.old_no) == match line.old_no {
            Some(n) => Some(decimal(n as nat)),
            None => None,
        },
        opt_model(r.new_no) == match line.new_no {
            Some(n) => Some(decimal(n as nat)),
            None => None,
        },
        r.text@ == replaced(line.text, '\t', "    "@),
        opt_model(r.button) == button_of(m, line),
{
}

/// The head of a hunk, and no other line, has a button: to stage the hunk of a file that is
/// tracked, or to unstage it; in a commit there is none. It works while nothing is running, and
/// for the hunk that it stands on.
pub proof fn hunks_have_buttons(
    m: GitAppModel,
    line: DiffLineModel,
    path: Seq<char>,
    hash: Seq<char>,
    d: DiffModel,
    h: usize,
)
    requires
        line.hunk == Some(h as int),
    ensures
        line.kind != LineKind::Hunk || m.diff is None ==> button_of(m, line) is None,
        line.kind == LineKind::Hunk && m.diff == Some((DiffKeyModel::Unstaged(path), d)) ==> (
        button_of(m, line) == if contains_text(d.header, "--- /dev/null"@) {
            None
        } else {
            Some(
                HunkButtonModel {
                    label: "STAGE HUNK"@,
                    enabled: m.git.running is None,
                    action: ActionModel::StageHunk(h),
                },
            )
        }),
        line.kind == LineKind::Hunk && m.diff == Some((DiffKeyModel::Staged(path), d)) ==> (
        button_of(m, line) == Some(
            HunkButtonModel {
                label: "UNSTAGE HUNK"@,
                enabled: m.git.running is None,
                action: ActionModel::UnstageHunk(h),
            },
        )),
        m.diff == Some((DiffKeyModel::Commit(hash, path), d)) ==> button_of(m, line) is None,
        verb_of(DiffKeyModel::Commit(hash, path), d) is None,
        verb_of(DiffKeyModel::Staged(path), d) == Some("UNSTAGE HUNK"@),
        path_of_key(DiffKeyModel::Unstaged(path)) == path,
        path_of_key(DiffKeyModel::Staged(path)) == path,
        path_of_key(DiffKeyModel::Commit(hash, path)) == path,
{
}

/// In place of the lines of a diff stands what is the matter: nothing is selected, the diff is
/// still being read, or it has no lines.
pub proof fn missing_diffs_are_explained(m: GitAppModel)
    ensures
        no_lines(m) == match m.diff {
            Some((_, d)) => if d.lines.len() == 0 {
                Some("NO TEXTUAL CHANGES"@)
            } else {
                None
            },
            None => if m.diff_want is Some {
                Some("READING DIFF"@)
            } else {
                Some("SELECT A FILE"@)
            },
        },
{
}

/// The lamps say whether a repository is open and could be read, and what is going on.
pub proof fn lamps_say_how_it_goes(m: GitAppModel, running: Seq<char>)
    ensures
        m.repo is None ==> link_lamp(m) == (LampModel {
            text: "NO REPOSITORY"@,
            tone: Tone::Dim,
            pulse: false,
        }),
        m.repo is Some && m.last_error is None ==> link_lamp(m) == (LampModel {
            text: "GIT LINK OK"@,
            tone: Tone::Good,
            pulse: false,
        }),
        m.repo is Some && m.last_error is Some ==> link_lamp(m) == (LampModel {
            text: "GIT LINK FAILED"@,
            tone: Tone::Danger,
            pulse: false,
        }),
        m.git.running is Some ==> work_lamps(m, running) == seq![
            LampModel { text: running, tone: Tone::Warn, pulse: true },
        ],
        m.git.running is None && m.git.pending > 0 ==> work_lamps(m, running) == seq![
            LampModel { text: "READING"@, tone: Tone::Warn, pulse: true },
        ],
        m.git.running is None && m.git.pending <= 0 ==> work_lamps(m, running).len() == 0,
{
}

/// A running command is called by its label up to the slashes.
pub proof fn running_commands_are_named(m: GitAppModel, name: Seq<char>, rest: Seq<char>)
    requires
        !contains_text((name + " //"@).drop_last(), " //"@),
    ensures
        m.git.running == Some(name + " //"@ + rest) ==> running_name(m) == "GIT "@ + name,
        m.git.running == Some(name) && !contains_text(name, " //"@) ==> running_name(m) == "GIT "@
            + name,
        m.git.running is None ==> running_name(m).len() == 0,
{
    reveal_strlit(" //");
    before_text_ends_at_it(name, " //"@, rest);
}

/// The title names the repository and the branch; the status line counts what there is.
pub proof fn titles_and_counts(m: GitAppModel, uptime: Seq<char>, fps: Seq<char>)
    ensures
        m.repo is None ==> title_of(m) == "no repository"@,
        m.repo is Some ==> title_of(m) == (match file_name(m.repo.unwrap()) {
            Some(name) => name,
            None => Seq::empty(),
        }) + " :: "@ + m.status.branch,
        status_of(m, uptime, fps) == uptime + " :: "@ + decimal(m.unstaged.len())
            + " UNSTAGED :: "@ + decimal(m.staged.len()) + " STAGED :: "@ + decimal(
            m.commits.len(),
        ) + " COMMITS :: "@ + fps + " FPS"@,
        forall|p: Seq<char>|
            (#[trigger] name_or_nothing(p)) == match file_name(p) {
                Some(name) => name,
                None => Seq::empty(),
            },
{
}

/// The log says what the settings are now.
pub proof fn settings_are_told(s: SettingsModel)
    ensures
        settings_line(s) == "settings // palette "@ + s.palette + " :: "@ + (if s.chamfer {
            "chamfer"@
        } else {
            "square"@
        }) + " :: "@ + (if s.compact {
            "compact"@
        } else {
            "normal"@
        }) + " :: "@ + (if s.transparent {
            "translucent"@
        } else {
            "opaque"@
        }) + " :: agent "@ + (if s.agent {
            "on"@
        } else {
            "off"@
        }) + if s.agent && s.agent_confirm {
            " (may confirm)"@
        } else {
            ""@
        },
{
}

/// As many lanes are shown as the widest row of the graph has, at least one and at most eight.
pub proof fn the_widest_row_counts(rows: Seq<GraphRowModel>, i: int)
    requires
        0 <= i < rows.len(),
    ensures
        rows[i].width <= widest(rows),
        widest(rows) > 0 ==> exists|k: int|
            0 <= k < rows.len() && (#[trigger] rows[k]).width == widest(rows),
        lanes_shown(rows) == if widest(rows) < 1 {
            1
        } else if widest(rows) > 8 {
            8
        } else {
            widest(rows)
        },
        widest(Seq::empty()) == 0,
    decreases rows.len(),
{
    let front = rows.drop_last();
    if i < front.len() {
        the_widest_row_counts(front, i);
        assert(front[i] == rows[i]);
    }
    if front.len() > 0 {
        the_widest_row_counts(front, 0);
        if widest(front) > 0 {
            let k = choose|k: int|
                0 <= k < front.len() && (#[trigger] front[k]).width == widest(front);
            assert(rows[k].width == widest(front));
        }
    }
    assert(rows[rows.len() - 1] == rows.last());
}

/// Lanes take turns at four tones; a commit is shown with what refers to it in front.
pub proof fn lanes_and_subjects(n: int, c: CommitModel)
    requires
        n >= 0,
    ensures
        lane_tone_of(4 * n) == Tone::Accent,
        lane_tone_of(4 * n + 1) == Tone::Good,
        lane_tone_of(4 * n + 2) == Tone::Warn,
        lane_tone_of(4 * n + 3) == Tone::AccentDim,
        c.refs.len() == 0 ==> subject_of(c) == c.subject,
        c.refs.len() > 0 ==> subject_of(c) == "["@ + c.refs + "] "@ + c.subject,
{
}

/// Each ref is listed once, in the group of its kind and in its order; a group without refs is left
/// out. A ref can be switched to unless it is the current one or a command is running.
pub proof fn refs_are_listed_by_kind(
    m: GitAppModel,
    refs: Seq<RefModel>,
    r: RefModel,
    kind: RefKind,
    title: Seq<char>,
)
    requires
        m.refs == refs.push(r),
    ensures
        rows_of_kind(m, kind) == rows_of_kind(GitAppModel { refs, ..m }, kind) + if r.kind == kind {
            seq![
                RefRowModel {
                    name: r.name,
                    current: r.current,
                    upstream: r.upstream,
                    can_switch: !r.current && m.git.running is None,
                },
            ]
        } else {
            seq![]
        },
        rows_of_kind(GitAppModel { refs: Seq::empty(), ..m }, kind).len() == 0,
        group_of(m, kind, title) == if rows_of_kind(m, kind).len() > 0 {
            seq![RefGroupModel { title, rows: rows_of_kind(m, kind) }]
        } else {
            seq![]
        },
        groups_of(m) == group_of(m, RefKind::Local, "Local"@) + group_of(
            m,
            RefKind::Remote,
            "Remotes"@,
        ) + group_of(m, RefKind::Tag, "Tags"@),
{
    let f = |r: RefModel| crate::panel::refs::row_of_ref(r, kind, m.git.running is Some);
    filter_map_goes_on(refs, r, f);
}

/// What is shown of a repository: its name, path and branch, its upstream or dashes, and how far it
/// is ahead and behind, with a warning where it is behind.
pub proof fn repositories_are_shown(m: GitAppModel, info: RepoInfo)
    requires
        shows_repo(m, info),
    ensures
        m.repo is Some,
        info.path@ == m.repo.unwrap(),
        info.name@ == match file_name(m.repo.unwrap()) {
            Some(name) => name,
            None => Seq::empty(),
        },
        info.branch@ == m.status.branch,
        info.upstream@ == if m.status.upstream.len() == 0 {
            "--"@
        } else {
            m.status.upstream
        },
        info.counts@ == "+"@ + decimal(m.status.ahead as nat) + " / -"@ + decimal(
            m.status.behind as nat,
        ),
        info.counts_tone == if m.status.behind > 0 {
            Tone::Warn
        } else if m.status.ahead > 0 {
            Tone::Good
        } else {
            Tone::Text
        },
        can_run(m) <==> m.git.running is None && m.repo is Some,
{
    assert(info.counts_tone == counts_tone(m.status.ahead, m.status.behind));
}

/// The first `n` of some paths that are not the one that is open, each by its name.
pub open spec fn shown_first(m: GitAppModel, paths: Seq<Seq<char>>, n: nat) -> Seq<RecentModel>
    decreases paths.len(),
{
    if paths.len() == 0 || n == 0 {
        Seq::empty()
    } else if m.repo is Some && same_path(paths.first(), m.repo.unwrap()) {
        shown_first(m, paths.drop_first(), n)
    } else {
        let row = RecentModel {
            name: match file_name(paths.first()) {
                Some(name) => name,
                None => paths.first(),
            },
            path: paths.first(),
        };
        seq![row] + shown_first(m, paths.drop_first(), (n - 1) as nat)
    }
}

/// The recent repositories are shown by their names, the latest first, without the one that is open
/// and three at most.
pub proof fn recent_ones_are_shown(m: GitAppModel)
    ensures
        others(m) == shown_first(m, m.recent, 3),
{
    first_ones(m, m.recent, 3);
}

proof fn first_ones(m: GitAppModel, paths: Seq<Seq<char>>, n: nat)
    ensures
        ({
            let all = paths.filter(|p: Seq<char>| is_other(m, p));
            let first = if all.len() > n {
                all.take(n as int)
            } else {
                all
            };
            first.map_values(|p: Seq<char>| recent_of(p)) == shown_first(m, paths, n)
        }),
    decreases paths.len(),
{
    let other = |p: Seq<char>| is_other(m, p);
    let f = |p: Seq<char>| recent_of(p);
    let all = paths.filter(other);
    reveal(Seq::filter);
    if paths.len() == 0 {
        assert(all =~= Seq::empty());
    } else if n == 0 {
        assert(shown_first(m, paths, n) =~= Seq::empty());
        assert(all.take(0).map_values(f) =~= Seq::empty());
        assert(all.map_values(f).take(0) =~= Seq::empty());
    } else {
        let one = seq![paths.first()];
        let rest = paths.drop_first();
        let more = rest.filter(other);
        assert(paths =~= one + rest);
        Seq::filter_distributes_over_add(one, rest, other);
        assert(one.drop_last() =~= Seq::empty());
        if is_other(m, paths.first()) {
            assert(one.filter(other) =~= one);
            first_ones(m, rest, (n - 1) as nat);
            assert(all =~= one + more);
            if all.len() > n {
                assert(all.take(n as int) =~= one + more.take(n - 1));
                assert(all.take(n as int).map_values(f) =~= seq![f(paths.first())] + more.take(
                    n - 1,
                ).map_values(f));
            } else {
                assert(all.map_values(f) =~= seq![f(paths.first())] + more.map_values(f));
            }
        } else {
            assert(one.drop_last().filter(other) =~= Seq::empty());
            assert(!other(one.last()));
            assert(one.filter(other) =~= Seq::empty());
            assert(all =~= more);
            first_ones(m, rest, n);
        }
    }
}

/// The tabs count what is behind them, and the one on screen is lit; a count is shown only where
/// there is one.
pub proof fn tabs_count(m: GitAppModel, name: Seq<char>, count: u32, enabled: bool, tone: Tone)
    ensures
        changes_tab(m).label == "CHANGES  "@ + decimal(m.unstaged.len() + m.staged.len()),
        history_tab(m).label == "HISTORY  "@ + decimal(m.commits.len()),
        changes_tab(m).enabled && history_tab(m).enabled,
        m.screen == Screen::Changes ==> changes_tab(m).tone == Tone::Accent && history_tab(m).tone
            == Tone::Dim,
        m.screen == Screen::History ==> changes_tab(m).tone == Tone::Dim && history_tab(m).tone
            == Tone::Accent,
        counting(name, count, enabled, tone).enabled == enabled,
        count > 0 ==> counting(name, count, enabled, tone).label == name + "  "@ + decimal(
            count as nat,
        ) && counting(name, count, enabled, tone).tone == tone,
        count == 0 ==> counting(name, count, enabled, tone).label == name && counting(
            name,
            count,
            enabled,
            tone,
        ).tone == Tone::Accent,
{
}

/// The log is coloured by how each line was logged.
pub proof fn levels_have_tones(level: Level)
    ensures
        tone_of(Level::Info) == Tone::Text,
        tone_of(Level::Good) == Tone::Good,
        tone_of(Level::Warn) == Tone::Warn,
        tone_of(Level::Danger) == Tone::Danger,
{
}

proof fn slashes_go(path: Seq<char>, n: nat)
    requires
        path.len() > 0 ==> path.last() != '/',
    ensures
        without_slashes(path + Seq::new(n, |i: int| '/')) == path,
    decreases n,
{
    let s = path + Seq::new(n, |i: int| '/');
    if n == 0 {
        assert(s =~= path);
    } else {
        assert(s.drop_last() =~= path + Seq::new((n - 1) as nat, |i: int| '/'));
        slashes_go(path, (n - 1) as nat);
    }
}

/// A suggestion is shown by the name that it ends with, whatever slashes follow it.
pub proof fn suggestions_are_shown_by_name(dir: Seq<char>, name: Seq<char>, n: nat)
    requires
        name.len() > 0,
        !name.contains('/'),
    ensures
        last_name(dir + seq!['/'] + name + Seq::new(n, |i: int| '/')) == name,
        last_name(name + Seq::new(n, |i: int| '/')) == name,
{
    let path = dir + seq!['/'] + name;
    assert(name.contains(name.last()));
    assert(path.last() == name.last());
    slashes_go(path, n);
    slashes_go(name, n);
    split_adds_up(dir, '/', name);
    split_first(name, '/', seq![]);
    assert(split(path, '/').last() == name);
}

/// Below the field stands why the path was refused, or else the names that complete it, or else how
/// to complete it.
pub proof fn hints_are_given(
    e: Seq<char>,
    suggestions: Seq<Seq<char>>,
    s: Seq<char>,
)
    ensures
        hint_of(Some(e), suggestions) == e,
        hint_of(None, Seq::empty()) == "TAB COMPLETES DIRECTORY NAMES"@,
        hint_of(None, seq![s]) == last_name(s),
        suggestions.len() > 0 ==> hint_of(None, suggestions.push(s)) == hint_of(None, suggestions)
            + "  "@ + last_name(s),
{
    let f = |s: Seq<char>| last_name(s);
    assert(seq![s].map_values(f) =~= seq![last_name(s)]);
    assert(suggestions.push(s).map_values(f) =~= suggestions.map_values(f).push(last_name(s)));
    join_goes_on(suggestions.map_values(f), last_name(s), "  "@);
}

/// What is shown of a dialog: a question with what it would run, a notice, a path with its hint, or
/// a branch with what would create it.
pub proof fn dialogs_are_shown(
    state: DialogStateModel,
    before: Seq<char>,
    name: Seq<char>,
    behind: Seq<char>,
    focus: bool,
)
    requires
        is_blank(before) && is_blank(behind) && is_tight(name),
    ensures
        state matches DialogStateModel::Confirm(c) ==> panel_of(state) == (
        DialogPanelModel::Confirm {
            title: c.title,
            tone: if c.danger {
                Tone::Danger
            } else {
                Tone::Warn
            },
            line: c.line,
            command: "git "@ + join(c.args, " "@),
            note: c.note,
            verb: c.verb,
        }),
        state matches DialogStateModel::Notice { success, line } ==> panel_of(state) == (
        DialogPanelModel::Notice {
            word: if success {
                "Success"@
            } else {
                "Error"@
            },
            tone: if success {
                Tone::Good
            } else {
                Tone::Danger
            },
            line,
        }),
        state matches DialogStateModel::Open { error, suggestions, .. } ==> panel_of(state) == (
        DialogPanelModel::Open {
            hint: hint_of(error, suggestions),
            tone: if error is Some {
                Tone::Danger
            } else {
                Tone::Dim
            },
        }),
        panel_of(DialogStateModel::Branch { input: before + name + behind, focus }) == (
        DialogPanelModel::Branch { command: "git switch -c "@ + name, can_create: name.len() > 0 }),
{
    trim_takes_the_ends(before, name, behind);
}

/// A dialog does what its input asks for, and closing goes before all else. A question is answered
/// by Enter or its button; a notice is only closed; a path or a branch is confirmed by Enter in the
/// field or by the button, and a path is completed by Tab in the field.
pub proof fn dialogs_do_what_is_asked(state: DialogStateModel, i: DialogInput)
    ensures
        ({
            let cancelled = i.should_close || i.clicked == Some(0usize);
            let confirmed = i.clicked == Some(1usize);
            let entered = i.field_left && i.enter;
            let tabbed = i.tab && (i.field_focused || i.field_left);
            let asked = action_of(state, i);
            &&& state is Notice ==> asked == if i.should_close || i.acknowledged {
                Some(ActionModel::CloseDialog)
            } else {
                None
            }
            &&& !(state is Notice) && cancelled ==> asked == Some(ActionModel::CloseDialog)
            &&& state is Confirm && !cancelled ==> asked == if i.enter || confirmed {
                Some(ActionModel::ConfirmDialog)
            } else {
                None
            }
            &&& state is Open && !cancelled ==> asked == if entered || confirmed {
                Some(ActionModel::ConfirmOpen)
            } else if tabbed {
                Some(ActionModel::CompleteOpen)
            } else {
                None
            }
            &&& state is Branch && !cancelled ==> asked == if entered || confirmed {
                Some(ActionModel::ConfirmBranch)
            } else {
                None
            }
        }),
{
}

/// The field of a dialog keeps what was typed. A change of it takes the error away, a completion
/// asks for the focus again unless the dialog is closing, and suggestions are looked for when they
/// are for something else than what was typed.
pub proof fn fields_keep_what_was_typed(
    m: GitAppModel,
    i: DialogInput,
    input: Seq<char>,
    error: Option<Seq<char>>,
    focus: bool,
    suggestions: Seq<Seq<char>>,
    suggested_for: Seq<char>,
    found: Seq<Seq<char>>,
    closing: bool,
)
    requires
        m.dialog == Some(
            OpenDialogModel {
                state: DialogStateModel::Open { input, error, focus, suggestions, suggested_for },
                closing,
            },
        ),
    ensures
        m.field_seen(i) == (GitAppModel {
            dialog: Some(
                OpenDialogModel {
                    state: DialogStateModel::Open {
                        input,
                        error: if i.field_changed {
                            None
                        } else {
                            error
                        },
                        focus: !closing && i.tab && (i.field_focused || i.field_left),
                        suggestions,
                        suggested_for,
                    },
                    closing,
                },
            ),
            ..m
        }),
        m.suggestions_wanted() == if suggested_for == input {
            None
        } else {
            Some((input, m.repo))
        },
        m.with_suggestions(found) == (GitAppModel {
            dialog: Some(
                OpenDialogModel {
                    state: DialogStateModel::Open {
                        input,
                        error,
                        focus,
                        suggestions: found,
                        suggested_for: input,
                    },
                    closing,
                },
            ),
            ..m
        }),
{
}

/// A dialog asks for nothing while it closes. Only a path has suggestions, only a field loses the
/// focus that it asked for, and nothing happens where there is no dialog.
pub proof fn other_dialogs_stay(
    m: GitAppModel,
    i: DialogInput,
    d: OpenDialogModel,
    found: Seq<Seq<char>>,
)
    ensures
        m.dialog == Some(d) && d.closing ==> m.dialog_asks(i) is None,
        m.dialog == Some(d) && !d.closing ==> m.dialog_asks(i) == action_of(d.state, i),
        m.dialog is None ==> m.dialog_asks(i) is None && m.field_seen(i) == m,
        m.dialog == Some(d) ==> (d.state matches DialogStateModel::Branch { input, .. }
            ==> m.field_seen(i) == (GitAppModel {
            dialog: Some(
                OpenDialogModel {
                    state: DialogStateModel::Branch { input, focus: false },
                    closing: d.closing,
                },
            ),
            ..m
        })),
        m.dialog == Some(d) && (d.state is Confirm || d.state is Notice) ==> m.field_seen(i) == m,
        m.dialog is None || !(m.dialog.unwrap().state is Open) ==> m.suggestions_wanted() is None
            && m.with_suggestions(found) == m,
{
}

} // verus!
