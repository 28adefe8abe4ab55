//! What `git` writes in the formats that are asked of it is what is read.

use vstd::prelude::*;
use vstd::utf8::encode_utf8;

use crate::git::bytes::{encoded_text_reads_back, only_nul_is_zero, output_text};
use crate::git::log::{commit_of, commits_of, detail_of, file_of, CommitDetailModel, CommitModel};
use crate::git::refs::{kind_and_name, ref_of, refs_of, RefKind, RefModel};
use crate::git::status::{
    behind_spaces, count_words, empty_status, first_and_rest, plain_fields, read_fields,
    with_change, with_header, ChangeModel, StatusModel,
};
use crate::number::{
    decimal, decimal_reads_back, is_digit, parse_i64, parse_reads_decimal, parse_u32,
    signed_decimal,
};
use crate::text::{
    concat, filter_map, find, find_is, is_space, join, lines, split, strip, trim, trim_start,
    trim_start_of, words,
};
use crate::text_laws::{
    filter_map_adds_up, filter_map_goes_on, free_of, is_blank, is_plain_line, is_tight, is_word,
    join_first, line_ends_are_dropped, lines_read_back, split_adds_up, split_ends, split_extends,
    split_first, split_reads_back, trim_keeps_words, trim_start_of_takes, trim_takes_the_ends,
    with_break, words_read_back,
};

verus! {

/// A field of a record: it holds neither of the separators.
pub open spec fn is_field(s: Seq<char>) -> bool {
    !s.contains('\u{1e}') && !s.contains('\u{1f}')
}

/// A commit whose texts can stand in a record.
pub open spec fn can_be_logged(c: CommitModel) -> bool {
    &&& is_field(c.hash)
    &&& !(c.hash.len() > 0 && c.hash[0] == '\n')
    &&& is_field(c.author)
    &&& is_field(c.refs)
    &&& is_field(c.subject)
    &&& forall|i: int|
        0 <= i < c.parents.len() ==> is_word(#[trigger] c.parents[i]) && is_field(c.parents[i])
}

/// The fields of a commit.
pub open spec fn log_fields(c: CommitModel) -> Seq<Seq<char>> {
    seq![
        c.hash,
        join(c.parents, seq![' ']),
        c.author,
        signed_decimal(c.time as int),
        c.refs,
        c.subject,
    ]
}

/// The record of a commit.
pub open spec fn log_record(c: CommitModel) -> Seq<char> {
    join(log_fields(c), seq!['\u{1f}'])
}

/// The log of some commits: U+001E and a line break behind each record.
pub open spec fn log_text(commits: Seq<CommitModel>) -> Seq<char> {
    concat(commits.map_values(|c: CommitModel| log_record(c) + seq!['\u{1e}', '\n']))
}

proof fn joined_is_free(ps: Seq<Seq<char>>, sep: char, c: char)
    requires
        free_of(ps, c),
        sep != c,
    ensures
        !join(ps, seq![sep]).contains(c),
    decreases ps.len(),
{
    if ps.len() == 1 {
        assert(!ps[0].contains(c));
    } else if ps.len() > 1 {
        let front = ps.drop_last();
        assert forall|i: int| 0 <= i < front.len() implies !(#[trigger] front[i]).contains(c) by {
            assert(front[i] == ps[i]);
        }
        joined_is_free(front, sep, c);
        assert(!ps[ps.len() - 1].contains(c));
        let s = join(ps, seq![sep]);
        if s.contains(c) {
            let j = choose|j: int| 0 <= j < s.len() && s[j] == c;
            let a = join(front, seq![sep]);
            if j < a.len() {
                assert(a[j] == c);
            } else if j > a.len() {
                assert(ps.last()[j - a.len() - 1] == c);
            }
        }
    }
}

proof fn number_is_free(n: int, c: char)
    requires
        !is_digit(c),
        c != '-',
    ensures
        !signed_decimal(n).contains(c),
{
    let s = signed_decimal(n);
    if n < 0 {
        decimal_reads_back((-n) as nat);
    } else {
        decimal_reads_back(n as nat);
    }
    if s.contains(c) {
        let j = choose|j: int| 0 <= j < s.len() && s[j] == c;
        if n < 0 {
            if j > 0 {
                assert(is_digit(decimal((-n) as nat)[j - 1]));
            }
        } else {
            assert(is_digit(decimal(n as nat)[j]));
        }
    }
}

proof fn fields_are_free(c: CommitModel)
    requires
        can_be_logged(c),
    ensures
        free_of(log_fields(c), '\u{1f}'),
        free_of(log_fields(c), '\u{1e}'),
{
    number_is_free(c.time as int, '\u{1f}');
    number_is_free(c.time as int, '\u{1e}');
    assert(free_of(c.parents, '\u{1f}'));
    assert(free_of(c.parents, '\u{1e}'));
    joined_is_free(c.parents, ' ', '\u{1f}');
    joined_is_free(c.parents, ' ', '\u{1e}');
}

/// A record, also with a line break in front, is read as its commit.
proof fn record_reads_back(c: CommitModel)
    requires
        can_be_logged(c),
    ensures
        !log_record(c).contains('\u{1e}'),
        commit_of(log_record(c)) == Some(c),
        commit_of(seq!['\n'] + log_record(c)) == Some(c),
{
    let fields = log_fields(c);
    let s = log_record(c);
    fields_are_free(c);
    joined_is_free(fields, '\u{1f}', '\u{1e}');
    split_reads_back(fields, '\u{1f}');
    join_first(fields, seq!['\u{1f}']);
    let k = c.hash.len() as int;
    assert(s[k] == '\u{1f}');
    trim_keeps_words(s, k);
    let t = seq!['\n'] + s;
    assert(t[k + 1] == '\u{1f}');
    trim_keeps_words(t, k + 1);
    assert(s[0] != '\n');
    assert(trim_start_of(s, '\n') == s);
    assert(t.drop_first() =~= s);
    assert(trim_start_of(t, '\n') == s);
    words_read_back(c.parents);
    parse_reads_decimal(0, c.time);
    assert(split(s, '\u{1f}')[1] == fields[1]);
}

proof fn log_shape(commits: Seq<CommitModel>)
    requires
        forall|i: int| 0 <= i < commits.len() ==> can_be_logged(#[trigger] commits[i]),
    ensures
        ({
            let parts = split(log_text(commits), '\u{1e}');
            &&& parts.len() > 0
            &&& parts.last() == if commits.len() == 0 {
                Seq::<char>::empty()
            } else {
                seq!['\n']
            }
            &&& filter_map(parts.drop_last(), |r: Seq<char>| commit_of(r)) == commits
        }),
    decreases commits.len(),
{
    let f = |r: Seq<char>| commit_of(r);
    let text = log_text(commits);
    let parts = split(text, '\u{1e}');
    if commits.len() == 0 {
        assert(text =~= Seq::<char>::empty());
        split_first(text, '\u{1e}', seq![]);
        assert(parts.drop_last() =~= Seq::<Seq<char>>::empty());
        assert(filter_map(parts.drop_last(), f) =~= commits);
    } else {
        let front = commits.drop_last();
        let c = commits.last();
        assert forall|i: int| 0 <= i < front.len() implies can_be_logged(#[trigger] front[i]) by {
            assert(front[i] == commits[i]);
        }
        log_shape(front);
        assert(can_be_logged(commits[commits.len() - 1]));
        record_reads_back(c);
        let rec = log_record(c);
        let all = commits.map_values(|c: CommitModel| log_record(c) + seq!['\u{1e}', '\n']);
        assert(all.drop_last() =~= front.map_values(
            |c: CommitModel| log_record(c) + seq!['\u{1e}', '\n'],
        ));
        let before = log_text(front);
        let start = before + rec;
        assert(text =~= start + seq!['\u{1e}'] + seq!['\n']);
        let first = split(before, '\u{1e}');
        split_extends(before, '\u{1e}', rec);
        split_ends(start, '\u{1e}', seq!['\n']);
        let last = first.last() + rec;
        assert(front.len() == 0 ==> last =~= rec);
        assert(parts.drop_last() =~= first.drop_last().push(last));
        assert(parts.drop_last().drop_last() =~= first.drop_last());
        assert(filter_map(parts.drop_last(), f) =~= front.push(c));
        assert(front.push(c) =~= commits);
    }
}

/// The log that `git` writes of some commits is read as those commits, whatever their texts hold
/// but the two separators.
pub proof fn log_reads_back(commits: Seq<CommitModel>)
    requires
        forall|i: int| 0 <= i < commits.len() ==> can_be_logged(#[trigger] commits[i]),
    ensures
        commits_of(log_text(commits)) == commits,
{
    log_shape(commits);
    let parts = split(log_text(commits), '\u{1e}');
    let last = parts.last();
    assert(trim(last).len() == 0) by {
        if last.len() > 0 {
            assert(is_space(last[0]));
            assert(last.drop_first() =~= Seq::<char>::empty());
            assert(trim_start(last.drop_first()) == last.drop_first());
        }
    }
    assert(commit_of(last) is None);
}

/// The full name of a ref.
pub open spec fn full_name(r: RefModel) -> Seq<char> {
    match r.kind {
        RefKind::Local => "refs/heads/"@ + r.name,
        RefKind::Remote => "refs/remotes/"@ + r.name,
        RefKind::Tag => "refs/tags/"@ + r.name,
    }
}

/// A ref whose texts can stand in a line, and that is not the head of a remote.
pub open spec fn can_be_listed(r: RefModel) -> bool {
    &&& !r.name.contains('\u{1f}') && !r.name.contains('\n')
    &&& !r.upstream.contains('\u{1f}') && !r.upstream.contains('\n')
    &&& !r.hash.contains('\u{1f}') && is_plain_line(r.hash)
    &&& r.kind == RefKind::Remote ==> !"/HEAD"@.is_suffix_of(r.name)
}

/// The fields of a ref.
pub open spec fn ref_fields(r: RefModel) -> Seq<Seq<char>> {
    seq![
        full_name(r),
        if r.current {
            "*"@
        } else {
            " "@
        },
        r.upstream,
        r.hash,
    ]
}

/// The line of a ref.
pub open spec fn ref_line(r: RefModel) -> Seq<char> {
    join(ref_fields(r), seq!['\u{1f}'])
}

/// The list of some refs: a line each.
pub open spec fn refs_text(refs: Seq<RefModel>) -> Seq<char> {
    concat(refs.map_values(|r: RefModel| with_break(ref_line(r))))
}

proof fn prefixed(p: Seq<char>, name: Seq<char>, c: char)
    requires
        !p.contains(c),
        !name.contains(c),
    ensures
        strip(p + name, p) == Some(name),
        !(p + name).contains(c),
{
    assert((p + name).skip(p.len() as int) =~= name);
    assert(p.is_prefix_of(p + name)) by {
        assert(p =~= (p + name).subrange(0, p.len() as int));
    }
    let s = p + name;
    if s.contains(c) {
        let j = choose|j: int| 0 <= j < s.len() && s[j] == c;
        if j < p.len() {
            assert(p[j] == c);
        } else {
            assert(name[j - p.len()] == c);
        }
    }
}

proof fn full_name_reads_back(r: RefModel)
    requires
        can_be_listed(r),
    ensures
        kind_and_name(full_name(r)) == Some((r.kind, r.name)),
        !full_name(r).contains('\u{1f}'),
        !full_name(r).contains('\n'),
{
    reveal_strlit("refs/heads/");
    reveal_strlit("refs/remotes/");
    reveal_strlit("refs/tags/");
    let p = match r.kind {
        RefKind::Local => "refs/heads/"@,
        RefKind::Remote => "refs/remotes/"@,
        RefKind::Tag => "refs/tags/"@,
    };
    prefixed(p, r.name, '\u{1f}');
    prefixed(p, r.name, '\n');
    let s = full_name(r);
    assert(s[5] == p[5]);
    assert("refs/heads/"@[5] == 'h');
    assert("refs/remotes/"@[5] == 'r');
    assert("refs/tags/"@[5] == 't');
    if r.kind != RefKind::Local {
        assert(!"refs/heads/"@.is_prefix_of(s)) by {
            if "refs/heads/"@.is_prefix_of(s) {
                assert(s.subrange(0, 11)[5] == 'h');
            }
        }
    }
    if r.kind == RefKind::Tag {
        assert(!"refs/remotes/"@.is_prefix_of(s)) by {
            if "refs/remotes/"@.is_prefix_of(s) {
                assert(s.subrange(0, 13)[5] == 'r');
            }
        }
    }
}

proof fn ref_reads_back(r: RefModel)
    requires
        can_be_listed(r),
    ensures
        ref_of(ref_line(r)) == Some(r),
        is_plain_line(ref_line(r)),
{
    reveal_strlit("*");
    reveal_strlit(" ");
    full_name_reads_back(r);
    let fields = ref_fields(r);
    let s = ref_line(r);
    assert(!"*"@.contains('\u{1f}') && !" "@.contains('\u{1f}'));
    assert(!"*"@.contains('\n') && !" "@.contains('\n'));
    assert(free_of(fields, '\u{1f}'));
    assert(free_of(fields, '\n'));
    split_reads_back(fields, '\u{1f}');
    joined_is_free(fields, '\u{1f}', '\n');
    assert("*"@[0] != " "@[0]);
    assert(fields[1] == "*"@ <==> r.current);
    // the line ends with the hash, or with the separator before it
    let front = join(fields.drop_last(), seq!['\u{1f}']);
    assert(s == front + seq!['\u{1f}'] + r.hash);
    if r.hash.len() > 0 {
        assert(s.last() == r.hash.last());
    } else {
        assert(s.last() == '\u{1f}');
    }
}

/// The refs that `git` lists are read as those refs.
pub proof fn refs_read_back(refs: Seq<RefModel>)
    requires
        forall|i: int| 0 <= i < refs.len() ==> can_be_listed(#[trigger] refs[i]),
    ensures
        refs_of(refs_text(refs)) == refs,
{
    let ls = refs.map_values(|r: RefModel| ref_line(r));
    assert forall|i: int| 0 <= i < ls.len() implies is_plain_line(#[trigger] ls[i]) by {
        ref_reads_back(refs[i]);
    }
    assert(refs.map_values(|r: RefModel| with_break(ref_line(r))) =~= ls.map_values(
        |l: Seq<char>| with_break(l),
    ));
    lines_read_back(ls);
    listed_refs(refs);
}

proof fn listed_refs(refs: Seq<RefModel>)
    requires
        forall|i: int| 0 <= i < refs.len() ==> can_be_listed(#[trigger] refs[i]),
    ensures
        filter_map(refs.map_values(|r: RefModel| ref_line(r)), |l: Seq<char>| ref_of(l)) == refs,
    decreases refs.len(),
{
    let f = |l: Seq<char>| ref_of(l);
    let ls = refs.map_values(|r: RefModel| ref_line(r));
    if refs.len() == 0 {
        assert(filter_map(ls, f) =~= refs);
    } else {
        let front = refs.drop_last();
        assert forall|i: int| 0 <= i < front.len() implies can_be_listed(#[trigger] front[i]) by {
            assert(front[i] == refs[i]);
        }
        listed_refs(front);
        assert(ls.drop_last() =~= front.map_values(|r: RefModel| ref_line(r)));
        assert(can_be_listed(refs[refs.len() - 1]));
        ref_reads_back(refs.last());
        assert(filter_map(ls, f) =~= refs);
    }
}

/// A commit whose texts can stand in what `git show` writes.
pub open spec fn can_be_shown(d: CommitDetailModel) -> bool {
    &&& is_field(d.hash)
    &&& is_field(d.author)
    &&& is_field(d.email)
    &&& is_field(d.refs)
    &&& is_field(d.message)
    &&& is_tight(d.message)
    &&& forall|i: int|
        0 <= i < d.parents.len() ==> is_word(#[trigger] d.parents[i]) && is_field(d.parents[i])
}

/// How a changed file is named: what stands behind its letter (the score of a rename or copy), and
/// the old path, where there is one.
pub struct Naming {
    pub score: Seq<char>,
    pub old: Option<Seq<char>>,
}

/// Neither a tab nor a line break.
pub open spec fn stays_in_its_column(s: Seq<char>) -> bool {
    !s.contains('\t') && !s.contains('\n')
}

/// A changed file that can stand in a line.
pub open spec fn can_be_named(file: (char, Seq<char>), how: Naming) -> bool {
    &&& file.0 != '\t' && file.0 != '\n'
    &&& stays_in_its_column(how.score)
    &&& how.old matches Some(old) ==> stays_in_its_column(old)
    &&& stays_in_its_column(file.1)
    &&& is_plain_line(file.1)
}

/// The line of a changed file: letter and score, the old path where there is one, and the path.
pub open spec fn file_line(file: (char, Seq<char>), how: Naming) -> Seq<char> {
    seq![file.0] + how.score + seq!['\t'] + match how.old {
        Some(old) => old + seq!['\t'] + file.1,
        None => file.1,
    }
}

/// The lines of some changed files.
pub open spec fn file_lines(
    files: Seq<(char, Seq<char>)>,
    how: Seq<Naming>,
) -> Seq<Seq<char>> {
    Seq::new(files.len(), |i: int| file_line(files[i], how[i]))
}

/// The fields of a commit, with white space around its message.
pub open spec fn show_fields(
    d: CommitDetailModel,
    before: Seq<char>,
    behind: Seq<char>,
) -> Seq<Seq<char>> {
    seq![
        d.hash,
        join(d.parents, seq![' ']),
        d.author,
        d.email,
        signed_decimal(d.time as int),
        d.refs,
        before + d.message + behind,
    ]
}

/// What `git show` writes: the record, U+001E and line breaks, and a line for each file.
pub open spec fn show_text(
    d: CommitDetailModel,
    before: Seq<char>,
    behind: Seq<char>,
    how: Seq<Naming>,
    blank: nat,
) -> Seq<char> {
    join(show_fields(d, before, behind), seq!['\u{1f}']) + seq!['\u{1e}'] + concat(
        (Seq::new(blank, |i: int| Seq::<char>::empty()) + file_lines(d.files, how)).map_values(
            |l: Seq<char>| with_break(l),
        ),
    )
}

proof fn added_is_free(a: Seq<char>, b: Seq<char>, c: char)
    requires
        !a.contains(c),
        !b.contains(c),
    ensures
        !(a + b).contains(c),
{
    let s = a + b;
    if s.contains(c) {
        let j = choose|j: int| 0 <= j < s.len() && s[j] == c;
        if j < a.len() {
            assert(a[j] == c);
        } else {
            assert(b[j - a.len()] == c);
        }
    }
}

/// A line of `--name-status` names the letter and the path, whatever the score is; of a rename or a
/// copy, which names the old path first, the path is the new one.
pub proof fn changed_files_are_named(letter: char, how: Naming, path: Seq<char>)
    requires
        letter != '\t',
        !how.score.contains('\t'),
        how.old matches Some(old) ==> !old.contains('\t'),
        !path.contains('\t'),
    ensures
        file_of(file_line((letter, path), how)) == Some((letter, path)),
{
    let st = seq![letter] + how.score;
    assert(!seq![letter].contains('\t'));
    added_is_free(seq![letter], how.score, '\t');
    split_first(path, '\t', seq![]);
    match how.old {
        Some(old) => {
            let rest = old + seq!['\t'] + path;
            split_first(st, '\t', rest);
            split_first(old, '\t', path);
            assert(split(rest, '\t').last() == path);
        },
        None => {
            split_first(st, '\t', path);
        },
    }
    assert(st[0] == letter);
}

/// A line without a tab, or without anything before it, names no file.
pub proof fn other_lines_name_no_file(line: Seq<char>, path: Seq<char>)
    requires
        !line.contains('\t'),
    ensures
        file_of(line) is None,
        file_of(seq!['\t'] + path) is None,
{
    split_first(line, '\t', seq![]);
    let none = Seq::<char>::empty();
    split_first(none, '\t', path);
    assert(none + seq!['\t'] + path =~= seq!['\t'] + path);
}

proof fn file_reads_back(file: (char, Seq<char>), how: Naming)
    requires
        can_be_named(file, how),
    ensures
        file_of(file_line(file, how)) == Some(file),
        is_plain_line(file_line(file, how)),
{
    changed_files_are_named(file.0, how, file.1);
    let line = file_line(file, how);
    let st = seq![file.0] + how.score;
    assert(!seq![file.0].contains('\n'));
    assert(!seq!['\t'].contains('\n'));
    added_is_free(seq![file.0], how.score, '\n');
    added_is_free(st, seq!['\t'], '\n');
    match how.old {
        Some(old) => {
            added_is_free(old, seq!['\t'], '\n');
            added_is_free(old + seq!['\t'], file.1, '\n');
            added_is_free(st + seq!['\t'], old + seq!['\t'] + file.1, '\n');
        },
        None => {
            added_is_free(st + seq!['\t'], file.1, '\n');
        },
    }
    if file.1.len() > 0 {
        assert(line.last() == file.1.last());
    } else {
        assert(line.last() == '\t');
    }
}

proof fn listed_files(files: Seq<(char, Seq<char>)>, how: Seq<Naming>)
    requires
        how.len() == files.len(),
        forall|i: int| 0 <= i < files.len() ==> can_be_named(#[trigger] files[i], how[i]),
    ensures
        filter_map(file_lines(files, how), |l: Seq<char>| file_of(l)) == files,
    decreases files.len(),
{
    let f = |l: Seq<char>| file_of(l);
    let ls = file_lines(files, how);
    if files.len() == 0 {
        assert(filter_map(ls, f) =~= files);
    } else {
        let front = files.drop_last();
        let less = how.drop_last();
        assert forall|i: int| 0 <= i < front.len() implies can_be_named(
            #[trigger] front[i],
            less[i],
        ) by {
            assert(front[i] == files[i]);
        }
        listed_files(front, less);
        assert(ls.drop_last() =~= file_lines(front, less));
        assert(can_be_named(files[files.len() - 1], how[files.len() - 1]));
        file_reads_back(files.last(), how.last());
        assert(filter_map(ls, f) =~= files);
    }
}

proof fn blank_lines_name_nothing(n: nat)
    ensures
        filter_map(Seq::new(n, |i: int| Seq::<char>::empty()), |l: Seq<char>| file_of(l))
            == Seq::<(char, Seq<char>)>::empty(),
    decreases n,
{
    let f = |l: Seq<char>| file_of(l);
    let ls = Seq::new(n, |i: int| Seq::<char>::empty());
    if n > 0 {
        blank_lines_name_nothing((n - 1) as nat);
        assert(ls.drop_last() =~= Seq::new((n - 1) as nat, |i: int| Seq::<char>::empty()));
        assert(ls.last() =~= Seq::<char>::empty());
        other_lines_name_no_file(ls.last(), seq![]);
    }
    assert(filter_map(ls, f) =~= Seq::<(char, Seq<char>)>::empty());
}

/// The commit that `git show` writes is read as that commit, with its message without the white
/// space around it, and with its files, renamed ones by their new path.
pub proof fn detail_reads_back(
    d: CommitDetailModel,
    before: Seq<char>,
    behind: Seq<char>,
    how: Seq<Naming>,
    blank: nat,
)
    requires
        can_be_shown(d),
        is_blank(before) && is_field(before),
        is_blank(behind) && is_field(behind),
        how.len() == d.files.len(),
        forall|i: int| 0 <= i < d.files.len() ==> can_be_named(#[trigger] d.files[i], how[i]),
    ensures
        detail_of(show_text(d, before, behind, how, blank)) == Some(d),
{
    let fields = show_fields(d, before, behind);
    let rec = join(fields, seq!['\u{1f}']);
    let blanks = Seq::new(blank, |i: int| Seq::<char>::empty());
    let ls = blanks + file_lines(d.files, how);
    let files = concat(ls.map_values(|l: Seq<char>| with_break(l)));
    let text = show_text(d, before, behind, how, blank);
    number_is_free(d.time as int, '\u{1f}');
    number_is_free(d.time as int, '\u{1e}');
    assert(free_of(d.parents, '\u{1f}'));
    assert(free_of(d.parents, '\u{1e}'));
    joined_is_free(d.parents, ' ', '\u{1f}');
    joined_is_free(d.parents, ' ', '\u{1e}');
    added_is_free(before, d.message, '\u{1f}');
    added_is_free(before, d.message, '\u{1e}');
    added_is_free(before + d.message, behind, '\u{1f}');
    added_is_free(before + d.message, behind, '\u{1e}');
    assert(free_of(fields, '\u{1f}'));
    assert(free_of(fields, '\u{1e}'));
    joined_is_free(fields, '\u{1f}', '\u{1e}');
    split_first(rec, '\u{1e}', files);
    split_reads_back(fields, '\u{1f}');
    words_read_back(d.parents);
    parse_reads_decimal(0, d.time);
    trim_takes_the_ends(before, d.message, behind);
    assert forall|i: int| 0 <= i < ls.len() implies is_plain_line(#[trigger] ls[i]) by {
        if i >= blank {
            let k = i - blank;
            assert(can_be_named(d.files[k], how[k]));
            file_reads_back(d.files[k], how[k]);
            assert(ls[i] == file_line(d.files[k], how[k]));
        } else {
            assert(ls[i] =~= Seq::<char>::empty());
        }
    }
    lines_read_back(ls);
    filter_map_adds_up(blanks, file_lines(d.files, how), |l: Seq<char>| file_of(l));
    blank_lines_name_nothing(blank);
    listed_files(d.files, how);
    assert(Seq::<(char, Seq<char>)>::empty() + d.files =~= d.files);
    assert(detail_of(text).unwrap() =~= d);
}

/// An entry of the status names its path behind a number of columns, none of which holds a space:
/// the path is read whole, spaces and all.
pub proof fn paths_are_read_whole(columns: Seq<Seq<char>>, path: Seq<char>)
    requires
        columns.len() > 0,
        free_of(columns, ' '),
    ensures
        behind_spaces(join(columns, seq![' ']) + seq![' '] + path, columns.len() as int) == path,
        first_and_rest(join(columns, seq![' ']) + seq![' '] + path).0 == columns[0],
    decreases columns.len(),
{
    let s = join(columns, seq![' ']) + seq![' '] + path;
    let first = columns[0];
    assert(!first.contains(' '));
    if columns.len() == 1 {
        split_first(first, ' ', path);
        assert(behind_spaces(path, 0) == path);
    } else {
        let rest = columns.drop_first();
        assert forall|i: int| 0 <= i < rest.len() implies !(#[trigger] rest[i]).contains(' ') by {
            assert(rest[i] == columns[i + 1]);
        }
        join_first(columns, seq![' ']);
        let more = join(rest, seq![' ']) + seq![' '] + path;
        assert(s =~= first + seq![' '] + more);
        split_first(first, ' ', more);
        paths_are_read_whole(rest, path);
    }
}

/// A change that `git status` can write: renamed, ordinary, unmerged or untracked.
pub open spec fn can_be_reported(c: ChangeModel) -> bool {
    if c.untracked() || c.unmerged() {
        c.staged == '.' && c.orig_path is None
    } else {
        c.staged != ' ' && c.unstaged != ' '
    }
}

/// How many columns stand between the status letters of a change and its path. Those of a conflict
/// have the letters of both sides first, whatever they are.
pub open spec fn columns_between(c: ChangeModel) -> int {
    if c.untracked() {
        0
    } else if c.unmerged() {
        9
    } else if c.orig_path is Some {
        7
    } else {
        6
    }
}

/// Columns that can stand between the status letters of a change and its path.
pub open spec fn fits_between(c: ChangeModel, columns: Seq<Seq<char>>) -> bool {
    columns.len() == columns_between(c) && free_of(columns, ' ')
}

/// The fields of an entry, with `columns` between the status letters and the path.
pub open spec fn entry_fields(c: ChangeModel, columns: Seq<Seq<char>>) -> Seq<Seq<char>> {
    let xy = seq![c.staged, c.unstaged];
    if c.untracked() {
        seq!["?"@ + seq![' '] + c.path]
    } else if c.unmerged() {
        seq!["u"@ + seq![' '] + columned(columns[0], columns.drop_first(), c.path)]
    } else {
        match c.orig_path {
            Some(orig) => seq!["2"@ + seq![' '] + columned(xy, columns, c.path), orig],
            None => seq!["1"@ + seq![' '] + columned(xy, columns, c.path)],
        }
    }
}

/// Columns with a space behind each, and a path.
pub open spec fn columned(
    xy: Seq<char>,
    columns: Seq<Seq<char>>,
    path: Seq<char>,
) -> Seq<char> {
    join(seq![xy] + columns, seq![' ']) + seq![' '] + path
}

/// The fields of some entries, each with columns of its own.
pub open spec fn entries_fields(
    changes: Seq<ChangeModel>,
    columns: Seq<Seq<Seq<char>>>,
) -> Seq<Seq<char>>
    decreases changes.len(),
{
    if changes.len() == 0 {
        Seq::empty()
    } else {
        entry_fields(changes[0], columns[0]) + entries_fields(
            changes.drop_first(),
            columns.drop_first(),
        )
    }
}

/// The field of a header.
pub open spec fn header_field(key: Seq<char>, value: Seq<char>) -> Seq<char> {
    "# "@ + (key + seq![' '] + value)
}

/// How far a branch is ahead of its upstream and behind it.
pub open spec fn counts_text(ahead: u32, behind: u32) -> Seq<char> {
    join(seq![seq!['+'] + decimal(ahead as nat), seq!['-'] + decimal(behind as nat)], seq![' '])
}

/// The fields of the headers: the commit and the branch, the upstream where there is one, and the
/// counts where there are any (an upstream that is gone has none).
pub open spec fn header_fields(st: StatusModel, counted: bool) -> Seq<Seq<char>> {
    seq![header_field("branch.oid"@, st.head), header_field("branch.head"@, st.branch)]
        + upstream_fields(st) + counts_fields(st, counted)
}

pub open spec fn upstream_fields(st: StatusModel) -> Seq<Seq<char>> {
    if st.upstream.len() > 0 {
        seq![header_field("branch.upstream"@, st.upstream)]
    } else {
        seq![]
    }
}

pub open spec fn counts_fields(st: StatusModel, counted: bool) -> Seq<Seq<char>> {
    if counted {
        seq![header_field("branch.ab"@, counts_text(st.ahead, st.behind))]
    } else {
        seq![]
    }
}

/// The fields of a status: headers, entries, and nothing behind the last NUL.
pub open spec fn written_fields(
    st: StatusModel,
    columns: Seq<Seq<Seq<char>>>,
    counted: bool,
) -> Seq<Seq<char>> {
    header_fields(st, counted) + entries_fields(st.changes, columns) + seq![Seq::<char>::empty()]
}

proof fn columned_reads_back(xy: Seq<char>, columns: Seq<Seq<char>>, path: Seq<char>)
    requires
        !xy.contains(' '),
        free_of(columns, ' '),
    ensures
        behind_spaces(columned(xy, columns, path), columns.len() as int + 1) == path,
        first_and_rest(columned(xy, columns, path)).0 == xy,
{
    let all = seq![xy] + columns;
    assert forall|i: int| 0 <= i < all.len() implies !(#[trigger] all[i]).contains(' ') by {
        if i > 0 {
            assert(all[i] == columns[i - 1]);
        }
    }
    paths_are_read_whole(all, path);
}

/// The letter in front of an entry is no header, and is read as its kind.
proof fn kind_reads_back(kind: Seq<char>, rest: Seq<char>)
    requires
        kind == "1"@ || kind == "2"@ || kind == "u"@ || kind == "?"@,
    ensures
        strip(kind + seq![' '] + rest, "# "@) is None,
        first_and_rest(kind + seq![' '] + rest) == (kind, rest),
{
    reveal_strlit("1");
    reveal_strlit("2");
    reveal_strlit("u");
    reveal_strlit("?");
    reveal_strlit("# ");
    let f = kind + seq![' '] + rest;
    assert(!kind.contains(' '));
    split_first(kind, ' ', rest);
    assert(f[0] != '#');
    if "# "@.is_prefix_of(f) {
        assert(f.subrange(0, 2)[0] == '#');
    }
}

proof fn entry_reads_back(
    st: StatusModel,
    c: ChangeModel,
    columns: Seq<Seq<char>>,
    rest: Seq<Seq<char>>,
)
    requires
        can_be_reported(c),
        fits_between(c, columns),
    ensures
        read_fields(st, entry_fields(c, columns) + rest) == read_fields(with_change(st, c), rest),
{
    reveal_strlit("1");
    reveal_strlit("2");
    reveal_strlit("u");
    reveal_strlit("?");
    let xy = seq![c.staged, c.unstaged];
    let fields = entry_fields(c, columns) + rest;
    assert(xy[0] == c.staged && xy[1] == c.unstaged);
    assert("1"@[0] != "2"@[0] && "1"@[0] != "u"@[0] && "2"@[0] != "u"@[0]);
    assert("?"@[0] != "1"@[0] && "?"@[0] != "2"@[0] && "?"@[0] != "u"@[0]);
    if c.untracked() {
        kind_reads_back("?"@, c.path);
        assert(fields.drop_first() =~= rest);
    } else {
        assert(!xy.contains(' '));
        if c.unmerged() {
            let sides = columns.drop_first();
            assert(!columns[0].contains(' '));
            assert forall|i: int| 0 <= i < sides.len() implies !(#[trigger] sides[i]).contains(
                ' ',
            ) by {
                assert(sides[i] == columns[i + 1]);
            }
            kind_reads_back("u"@, columned(columns[0], sides, c.path));
            columned_reads_back(columns[0], sides, c.path);
            assert(fields.drop_first() =~= rest);
        } else {
            match c.orig_path {
                Some(orig) => {
                    kind_reads_back("2"@, columned(xy, columns, c.path));
                    columned_reads_back(xy, columns, c.path);
                    assert(fields.drop_first()[0] == orig);
                    assert(fields.drop_first().drop_first() =~= rest);
                },
                None => {
                    kind_reads_back("1"@, columned(xy, columns, c.path));
                    columned_reads_back(xy, columns, c.path);
                    assert(fields.drop_first() =~= rest);
                },
            }
        }
    }
}

proof fn entries_read_back(
    st: StatusModel,
    changes: Seq<ChangeModel>,
    columns: Seq<Seq<Seq<char>>>,
    rest: Seq<Seq<char>>,
)
    requires
        columns.len() == changes.len(),
        forall|i: int|
            0 <= i < changes.len() ==> can_be_reported(#[trigger] changes[i]) && fits_between(
                changes[i],
                columns[i],
            ),
    ensures
        read_fields(st, entries_fields(changes, columns) + rest) == read_fields(
            StatusModel { changes: st.changes + changes, ..st },
            rest,
        ),
    decreases changes.len(),
{
    if changes.len() == 0 {
        assert(st.changes + changes =~= st.changes);
        assert(entries_fields(changes, columns) + rest =~= rest);
    } else {
        let c = changes[0];
        let more = changes.drop_first();
        let others = columns.drop_first();
        assert(can_be_reported(c) && fits_between(c, columns[0]));
        assert forall|i: int| 0 <= i < more.len() implies can_be_reported(#[trigger] more[i])
            && fits_between(more[i], others[i]) by {
            assert(more[i] == changes[i + 1]);
        }
        let behind = entries_fields(more, others) + rest;
        entry_reads_back(st, c, columns[0], behind);
        assert(entries_fields(changes, columns) + rest =~= entry_fields(c, columns[0]) + behind);
        entries_read_back(with_change(st, c), more, others, rest);
        assert(st.changes.push(c) + more =~= st.changes + changes);
    }
}

proof fn header_reads_back(st: StatusModel, key: Seq<char>, value: Seq<char>, rest: Seq<Seq<char>>)
    requires
        !key.contains(' '),
    ensures
        ({
            let line = key + seq![' '] + value;
            &&& read_fields(st, seq![header_field(key, value)] + rest) == read_fields(
                with_header(st, line),
                rest,
            )
            &&& first_and_rest(line) == (key, value)
        }),
{
    let line = key + seq![' '] + value;
    let f = "# "@ + line;
    split_first(key, ' ', value);
    assert("# "@ =~= f.subrange(0, "# "@.len() as int));
    assert(f.skip("# "@.len() as int) =~= line);
    assert((seq![f] + rest).drop_first() =~= rest);
}

/// A status that `git` writes is read as that status: the branch with its upstream and how far it
/// is ahead and behind, and each change with its paths and letters, whatever stands in the columns
/// between.
pub proof fn status_reads_back(st: StatusModel, columns: Seq<Seq<Seq<char>>>, counted: bool)
    requires
        columns.len() == st.changes.len(),
        forall|i: int|
            0 <= i < st.changes.len() ==> can_be_reported(#[trigger] st.changes[i])
                && fits_between(st.changes[i], columns[i]),
        counted || (st.ahead == 0 && st.behind == 0),
    ensures
        read_fields(empty_status(), written_fields(st, columns, counted)) == st,
{
    reveal_strlit("branch.oid");
    reveal_strlit("branch.head");
    reveal_strlit("branch.upstream");
    reveal_strlit("branch.ab");
    let none = seq![Seq::<char>::empty()];
    let entries = entries_fields(st.changes, columns) + none;
    let (s0, s1, s2, s3) = (
        empty_status(),
        StatusModel { head: st.head, ..empty_status() },
        StatusModel { head: st.head, branch: st.branch, ..empty_status() },
        StatusModel {
            head: st.head,
            branch: st.branch,
            upstream: st.upstream,
            ..empty_status()
        },
    );
    let r3 = counts_fields(st, counted) + entries;
    let r2 = upstream_fields(st) + r3;
    let r1 = seq![header_field("branch.head"@, st.branch)] + r2;
    assert(written_fields(st, columns, counted) =~= seq![header_field("branch.oid"@, st.head)]
        + r1);
    assert("branch.oid"@.len() == 10 && "branch.head"@.len() == 11 && "branch.upstream"@.len()
        == 15 && "branch.ab"@.len() == 9);
    header_reads_back(s0, "branch.oid"@, st.head, r1);
    header_reads_back(s1, "branch.head"@, st.branch, r2);
    if st.upstream.len() > 0 {
        header_reads_back(s2, "branch.upstream"@, st.upstream, r3);
    } else {
        assert(r2 =~= r3);
        assert(s2.upstream =~= st.upstream);
    }
    assert(read_fields(s2, r2) == read_fields(s3, r3));
    let s4 = StatusModel { ahead: st.ahead, behind: st.behind, ..s3 };
    if counted {
        header_reads_back(s3, "branch.ab"@, counts_text(st.ahead, st.behind), entries);
        counts_read_back(s3, st.ahead, st.behind);
    } else {
        assert(r3 =~= entries);
    }
    entries_read_back(s4, st.changes, columns, none);
    assert(s4.changes + st.changes =~= st.changes);
    nothing_says_nothing(st);
}

/// An empty field is no entry.
proof fn nothing_says_nothing(st: StatusModel)
    ensures
        read_fields(st, seq![Seq::<char>::empty()]) == st,
{
    reveal_strlit("1");
    reveal_strlit("2");
    reveal_strlit("u");
    reveal_strlit("?");
    reveal_strlit("# ");
    let none = Seq::<char>::empty();
    split_first(none, ' ', seq![]);
    assert(seq![none].drop_first() =~= Seq::<Seq<char>>::empty());
    assert(read_fields(st, Seq::<Seq<char>>::empty()) == st);
    assert("1"@.len() == 1 && "2"@.len() == 1 && "u"@.len() == 1 && "?"@.len() == 1 && "# "@.len()
        == 2);
}

proof fn counts_read_back(st: StatusModel, ahead: u32, behind: u32)
    ensures
        count_words(st, words(counts_text(ahead, behind))) == (StatusModel { ahead, behind, ..st }),
{
    let plus = seq!['+'] + decimal(ahead as nat);
    let minus = seq!['-'] + decimal(behind as nat);
    let toks = seq![plus, minus];
    decimal_reads_back(ahead as nat);
    decimal_reads_back(behind as nat);
    assert forall|i: int| 0 <= i < plus.len() implies !is_space(#[trigger] plus[i]) by {
        if i > 0 {
            assert(is_digit(decimal(ahead as nat)[i - 1]));
        }
    }
    assert forall|i: int| 0 <= i < minus.len() implies !is_space(#[trigger] minus[i]) by {
        if i > 0 {
            assert(is_digit(decimal(behind as nat)[i - 1]));
        }
    }
    words_read_back(toks);
    parse_reads_decimal(ahead, 0);
    parse_reads_decimal(behind, 0);
    assert(plus.skip(1) =~= decimal(ahead as nat));
    assert(minus.skip(1) =~= decimal(behind as nat));
    let one = StatusModel { ahead, ..st };
    assert(toks.drop_first() =~= seq![minus]);
    assert(seq![minus].drop_first() =~= Seq::<Seq<char>>::empty());
    assert(count_words(one, seq![minus]) == count_words(
        StatusModel { behind, ..one },
        Seq::<Seq<char>>::empty(),
    ));
}

/// Texts as bytes, with a NUL byte behind each.
pub open spec fn ended_by_nul(fields: Seq<Seq<char>>) -> Seq<u8>
    decreases fields.len(),
{
    if fields.len() == 0 {
        Seq::empty()
    } else {
        encode_utf8(fields[0]) + seq![0u8] + ended_by_nul(fields.drop_first())
    }
}

/// The fields that are read are exactly the texts whose bytes stand between the NUL bytes, however
/// long they are and whatever they hold.
pub proof fn fields_are_read_whole(fields: Seq<Seq<char>>)
    requires
        free_of(fields, '\0'),
    ensures
        plain_fields(ended_by_nul(fields)) == fields.push(Seq::empty()),
    decreases fields.len(),
{
    let bytes = ended_by_nul(fields);
    if fields.len() == 0 {
        let none = Seq::<u8>::empty();
        assert(find(none, 0u8) == 0);
        assert(split(none, 0u8) =~= seq![none]);
        encoded_text_reads_back(Seq::empty());
        assert(encode_utf8(Seq::empty()) =~= none);
        assert(plain_fields(bytes) =~= fields.push(Seq::empty()));
    } else {
        let first = encode_utf8(fields[0]);
        let rest = fields.drop_first();
        assert forall|i: int| 0 <= i < rest.len() implies !(#[trigger] rest[i]).contains('\0') by {
            assert(rest[i] == fields[i + 1]);
        }
        fields_are_read_whole(rest);
        assert(!fields[0].contains('\0'));
        only_nul_is_zero(fields[0]);
        assert forall|j: int| 0 <= j < first.len() implies first[j] != 0u8 by {
            assert(first.contains(first[j]));
        }
        find_is(first, 0u8, first.len() as int);
        split_adds_up(first, 0u8, ended_by_nul(rest));
        encoded_text_reads_back(fields[0]);
        let more = ended_by_nul(rest);
        assert(split(first, 0u8) =~= seq![first]);
        assert(split(bytes, 0u8) =~= seq![first] + split(more, 0u8));
        let f = |b: Seq<u8>| output_text(b);
        assert((seq![first] + split(more, 0u8)).map_values(f) =~= seq![fields[0]] + split(
            more,
            0u8,
        ).map_values(f));
        assert(seq![fields[0]] + rest.push(Seq::empty()) =~= fields.push(Seq::empty()));
    }
}

/// The bytes of a status that `git` writes, each field ended by a NUL byte, are read as that
/// status.
pub proof fn status_bytes_read_back(st: StatusModel, columns: Seq<Seq<Seq<char>>>, counted: bool)
    requires
        columns.len() == st.changes.len(),
        forall|i: int|
            0 <= i < st.changes.len() ==> can_be_reported(#[trigger] st.changes[i])
                && fits_between(st.changes[i], columns[i]),
        counted || (st.ahead == 0 && st.behind == 0),
        free_of(header_fields(st, counted) + entries_fields(st.changes, columns), '\0'),
    ensures
        read_fields(
            empty_status(),
            plain_fields(
                ended_by_nul(header_fields(st, counted) + entries_fields(st.changes, columns)),
            ),
        ) == st,
{
    let fields = header_fields(st, counted) + entries_fields(st.changes, columns);
    fields_are_read_whole(fields);
    status_reads_back(st, columns, counted);
    assert(fields.push(Seq::empty()) =~= written_fields(st, columns, counted));
}

/// The counts of a header come from words with a sign, the last of each sign; one that is no number
/// counts as none, and words without a sign say nothing.
pub proof fn counts_come_from_signed_words(st: StatusModel, w: Seq<char>, rest: Seq<Seq<char>>)
    ensures
        count_words(st, Seq::empty()) == st,
        count_words(st, seq![seq!['+'] + w] + rest) == count_words(
            StatusModel {
                ahead: match parse_u32(w) {
                    Some(n) => n,
                    None => 0,
                },
                ..st
            },
            rest,
        ),
        count_words(st, seq![seq!['-'] + w] + rest) == count_words(
            StatusModel {
                behind: match parse_u32(w) {
                    Some(n) => n,
                    None => 0,
                },
                ..st
            },
            rest,
        ),
        w.len() == 0 || (w[0] != '+' && w[0] != '-') ==> count_words(st, seq![w] + rest)
            == count_words(st, rest),
{
    assert((seq![w] + rest).drop_first() =~= rest);
    assert((seq!['+'] + w).skip(1) =~= w);
    assert((seq!['-'] + w).skip(1) =~= w);
    assert((seq![seq!['+'] + w] + rest).drop_first() =~= rest);
    assert((seq![seq!['-'] + w] + rest).drop_first() =~= rest);
}

/// A rename that comes last in cut output has its letters and its path, and no old path.
pub proof fn a_cut_rename_has_its_path(
    st: StatusModel,
    staged: char,
    unstaged: char,
    columns: Seq<Seq<char>>,
    path: Seq<char>,
)
    requires
        staged != ' ' && unstaged != ' ',
        columns.len() == 7,
        forall|i: int| 0 <= i < 7 ==> !(#[trigger] columns[i]).contains(' '),
    ensures
        read_fields(
            st,
            seq!["2"@ + seq![' '] + columned(seq![staged, unstaged], columns, path)],
        ) == (StatusModel {
            changes: st.changes.push(ChangeModel { path, orig_path: None, staged, unstaged }),
            ..st
        }),
{
    reveal_strlit("1");
    reveal_strlit("2");
    let xy = seq![staged, unstaged];
    assert(xy[0] == staged && xy[1] == unstaged);
    assert(!xy.contains(' '));
    assert("1"@[0] != "2"@[0]);
    kind_reads_back("2"@, columned(xy, columns, path));
    columned_reads_back(xy, columns, path);
}

/// An entry with fewer columns than it should have names no path.
pub proof fn short_entries_name_nothing(s: Seq<char>, rest: Seq<char>, n: int)
    requires
        !s.contains(' '),
        n >= 1,
    ensures
        behind_spaces(s, n) == Seq::<char>::empty(),
        behind_spaces(s + seq![' '] + rest, 1) == rest,
        behind_spaces(s + seq![' '] + rest, n + 1) == behind_spaces(rest, n),
        behind_spaces(s, 0) == s,
{
    let line = s + seq![' '] + rest;
    let k = s.len() as int;
    assert forall|j: int| 0 <= j < k implies s[j] != ' ' && line[j] != ' ' by {
        assert(s.contains(s[j]));
    }
    find_is(s, ' ', k);
    find_is(line, ' ', k);
    assert(line.skip(k + 1) =~= rest);
    assert(behind_spaces(rest, 0) == rest);
}

/// A field that is neither a header nor an entry that is known says nothing, and neither does a
/// header with another key.
pub proof fn other_fields_say_nothing(
    st: StatusModel,
    word: Seq<char>,
    tail: Seq<char>,
    rest: Seq<Seq<char>>,
)
    requires
        !word.contains(' '),
    ensures
        word != "1"@ && word != "2"@ && word != "u"@ && word != "?"@ && word != "#"@
            ==> read_fields(st, seq![word + seq![' '] + tail] + rest) == read_fields(st, rest),
        word != "branch.oid"@ && word != "branch.head"@ && word != "branch.upstream"@ && word
            != "branch.ab"@ ==> read_fields(st, seq![header_field(word, tail)] + rest)
            == read_fields(st, rest),
{
    reveal_strlit("#");
    reveal_strlit("# ");
    let f = word + seq![' '] + tail;
    split_first(word, ' ', tail);
    assert((seq![f] + rest).drop_first() =~= rest);
    if word != "#"@ && "# "@.is_prefix_of(f) {
        assert(f.subrange(0, 2)[0] == '#' && f.subrange(0, 2)[1] == ' ');
        if word.len() != 1 {
            if word.len() > 1 {
                assert(word[1] == ' ');
                assert(word.contains(word[1]));
            } else {
                assert(f[0] == ' ');
            }
        }
        assert(word =~= "#"@);
    }
    header_reads_back(st, word, tail, rest);
}

/// The text of a ref: its full name, the mark of the current one, its upstream and its hash.
pub open spec fn ref_record(
    full: Seq<char>,
    mark: Seq<char>,
    upstream: Seq<char>,
    hash: Seq<char>,
) -> Seq<char> {
    join(seq![full, mark, upstream, hash], seq!['\u{1f}'])
}

/// A ref is what its full name says: a branch, a remote branch or a tag, by the rest of the name.
/// The current one is marked with a star. The `HEAD` of a remote is left out.
pub proof fn refs_go_by_their_full_names(
    name: Seq<char>,
    mark: Seq<char>,
    upstream: Seq<char>,
    hash: Seq<char>,
)
    requires
        !name.contains('\u{1f}'),
        !mark.contains('\u{1f}'),
        !upstream.contains('\u{1f}'),
        !hash.contains('\u{1f}'),
    ensures
        ref_of(ref_record("refs/heads/"@ + name, mark, upstream, hash)) == Some(
            RefModel { name, kind: RefKind::Local, current: mark == "*"@, upstream, hash },
        ),
        ref_of(ref_record("refs/tags/"@ + name, mark, upstream, hash)) == Some(
            RefModel { name, kind: RefKind::Tag, current: mark == "*"@, upstream, hash },
        ),
        !"/HEAD"@.is_suffix_of(name) ==> ref_of(
            ref_record("refs/remotes/"@ + name, mark, upstream, hash),
        ) == Some(RefModel { name, kind: RefKind::Remote, current: mark == "*"@, upstream, hash }),
        ref_of(ref_record("refs/remotes/"@ + (name + "/HEAD"@), mark, upstream, hash)) is None,
{
    let local = RefModel {
        name,
        kind: RefKind::Local,
        current: true,
        upstream: seq![],
        hash: seq![],
    };
    let tag = RefModel { kind: RefKind::Tag, ..local };
    let remote = RefModel { kind: RefKind::Remote, ..local };
    kind_of_full_name(local);
    kind_of_full_name(tag);
    kind_of_full_name(remote);
    record_fields("refs/heads/"@ + name, mark, upstream, hash);
    record_fields("refs/tags/"@ + name, mark, upstream, hash);
    record_fields("refs/remotes/"@ + name, mark, upstream, hash);
    reveal_strlit("/HEAD");
    let head = RefModel { name: name + "/HEAD"@, ..remote };
    assert(!"/HEAD"@.contains('\u{1f}'));
    added_is_free(name, "/HEAD"@, '\u{1f}');
    kind_of_full_name(head);
    record_fields("refs/remotes/"@ + head.name, mark, upstream, hash);
    assert("/HEAD"@.is_suffix_of(head.name)) by {
        assert("/HEAD"@ =~= head.name.subrange(name.len() as int, head.name.len() as int));
    }
}

proof fn kind_of_full_name(r: RefModel)
    requires
        !r.name.contains('\u{1f}'),
    ensures
        kind_and_name(full_name(r)) == if r.kind == RefKind::Remote && "/HEAD"@.is_suffix_of(
            r.name,
        ) {
            None
        } else {
            Some((r.kind, r.name))
        },
        !full_name(r).contains('\u{1f}'),
{
    reveal_strlit("refs/heads/");
    reveal_strlit("refs/remotes/");
    reveal_strlit("refs/tags/");
    let p = match r.kind {
        RefKind::Local => "refs/heads/"@,
        RefKind::Remote => "refs/remotes/"@,
        RefKind::Tag => "refs/tags/"@,
    };
    prefixed(p, r.name, '\u{1f}');
    let s = full_name(r);
    assert(s[5] == p[5]);
    assert("refs/heads/"@[5] == 'h');
    assert("refs/remotes/"@[5] == 'r');
    assert("refs/tags/"@[5] == 't');
    if r.kind != RefKind::Local {
        assert(!"refs/heads/"@.is_prefix_of(s)) by {
            if "refs/heads/"@.is_prefix_of(s) {
                assert(s.subrange(0, 11)[5] == 'h');
            }
        }
    }
    if r.kind == RefKind::Tag {
        assert(!"refs/remotes/"@.is_prefix_of(s)) by {
            if "refs/remotes/"@.is_prefix_of(s) {
                assert(s.subrange(0, 13)[5] == 'r');
            }
        }
    }
}

proof fn record_fields(full: Seq<char>, mark: Seq<char>, upstream: Seq<char>, hash: Seq<char>)
    requires
        !full.contains('\u{1f}'),
        !mark.contains('\u{1f}'),
        !upstream.contains('\u{1f}'),
        !hash.contains('\u{1f}'),
    ensures
        split(ref_record(full, mark, upstream, hash), '\u{1f}') == seq![
            full,
            mark,
            upstream,
            hash,
        ],
{
    let fields = seq![full, mark, upstream, hash];
    assert(free_of(fields, '\u{1f}'));
    split_reads_back(fields, '\u{1f}');
}

/// Refs of other kinds (a stash, notes) are left out, and so is a line with fewer fields.
pub proof fn other_refs_are_left_out(
    full: Seq<char>,
    mark: Seq<char>,
    upstream: Seq<char>,
    hash: Seq<char>,
)
    requires
        !full.contains('\u{1f}'),
        !mark.contains('\u{1f}'),
        !upstream.contains('\u{1f}'),
        !hash.contains('\u{1f}'),
        !"refs/heads/"@.is_prefix_of(full),
        !"refs/remotes/"@.is_prefix_of(full),
        !"refs/tags/"@.is_prefix_of(full),
    ensures
        ref_of(ref_record(full, mark, upstream, hash)) is None,
        ref_of(hash) is None,
{
    record_fields(full, mark, upstream, hash);
    split_first(hash, '\u{1f}', seq![]);
}

/// A line of refs is read by itself: what the lines of a list give, one behind the other, is what
/// the list gives.
pub proof fn refs_are_read_line_by_line(line: Seq<char>, rest: Seq<char>)
    requires
        is_plain_line(line),
    ensures
        refs_of(with_break(line) + rest) == match ref_of(line) {
            Some(r) => seq![r],
            None => seq![],
        } + refs_of(rest),
        refs_of(Seq::empty()).len() == 0,
{
    let f = |l: Seq<char>| ref_of(l);
    lines_come_first(line, rest);
    filter_map_adds_up(seq![line], lines(rest), f);
    filter_map_goes_on(Seq::empty(), line, f);
    assert(Seq::empty().push(line) =~= seq![line]);
    assert(filter_map(seq![line], f) =~= match ref_of(line) {
        Some(r) => seq![r],
        None => seq![],
    });
    assert(lines(Seq::<char>::empty()) =~= seq![]);
}

/// The first line comes first, and the lines of the rest behind it.
proof fn lines_come_first(line: Seq<char>, rest: Seq<char>)
    requires
        is_plain_line(line),
    ensures
        lines(with_break(line) + rest) == seq![line] + lines(rest),
{
    let s = with_break(line) + rest;
    let n = line.len() as int;
    assert forall|j: int| 0 <= j < n implies s[j] != '\n' by {
        assert(line.contains(line[j]));
    }
    assert(s[n] == '\n');
    find_is(s, '\n', n);
    assert(s.take(n + 1) =~= with_break(line));
    assert(s.skip(n + 1) =~= rest);
    line_ends_are_dropped(s, line, 0);
    assert(lines(s) =~= seq![line] + lines(rest));
}

/// A record of the log is read by itself: what comes behind it does not change it, and blank ones
/// are left out.
pub proof fn logs_are_read_record_by_record(record: Seq<char>, rest: Seq<char>)
    requires
        !record.contains('\u{1e}'),
    ensures
        commits_of(record + seq!['\u{1e}'] + rest) == match commit_of(record) {
            Some(c) => seq![c],
            None => seq![],
        } + commits_of(rest),
        is_blank(record) ==> commit_of(record) is None,
{
    let f = |r: Seq<char>| commit_of(r);
    split_first(record, '\u{1e}', rest);
    filter_map_adds_up(seq![record], split(rest, '\u{1e}'), f);
    filter_map_goes_on(Seq::empty(), record, f);
    assert(Seq::empty().push(record) =~= seq![record]);
    assert(filter_map(seq![record], f) =~= match commit_of(record) {
        Some(c) => seq![c],
        None => seq![],
    });
    if is_blank(record) {
        let none = Seq::<char>::empty();
        trim_takes_the_ends(record, none, none);
        assert(record + none + none =~= record);
    }
}

/// The fields of a record are the commit's, in the order that was asked for; a time that is no
/// number counts as 0, and a record with fewer fields is left out.
pub proof fn records_are_read_by_their_fields(
    breaks: nat,
    hash: Seq<char>,
    parents: Seq<Seq<char>>,
    author: Seq<char>,
    time: Seq<char>,
    refs: Seq<char>,
    subject: Seq<char>,
)
    requires
        is_field(hash) && is_field(author) && is_field(time) && is_field(refs) && is_field(subject),
        !(hash.len() > 0 && hash[0] == '\n'),
        forall|i: int|
            0 <= i < parents.len() ==> is_word(#[trigger] parents[i]) && is_field(parents[i]),
    ensures
        ({
            let fields = seq![hash, join(parents, seq![' ']), author, time, refs, subject];
            let before = Seq::new(breaks, |i: int| '\n');
            &&& commit_of(before + join(fields, seq!['\u{1f}'])) == Some(
                CommitModel {
                    hash,
                    parents,
                    author,
                    time: match parse_i64(time) {
                        Some(n) => n,
                        None => 0,
                    },
                    refs,
                    subject,
                },
            )
            &&& commit_of(before + join(fields.drop_last(), seq!['\u{1f}'])) is None
        }),
{
    let fields = seq![hash, join(parents, seq![' ']), author, time, refs, subject];
    let before = Seq::new(breaks, |i: int| '\n');
    let fewer = fields.drop_last();
    let s = join(fields, seq!['\u{1f}']);
    let t = join(fewer, seq!['\u{1f}']);
    assert(free_of(parents, '\u{1f}'));
    joined_is_free(parents, ' ', '\u{1f}');
    assert(free_of(fields, '\u{1f}'));
    assert(free_of(fewer, '\u{1f}'));
    split_reads_back(fields, '\u{1f}');
    split_reads_back(fewer, '\u{1f}');
    join_first(fields, seq!['\u{1f}']);
    join_first(fewer, seq!['\u{1f}']);
    let k = hash.len() as int;
    assert(s[k] == '\u{1f}' && t[k] == '\u{1f}');
    assert(s[0] != '\n' && t[0] != '\n');
    trim_start_of_takes(breaks, '\n', s);
    trim_start_of_takes(breaks, '\n', t);
    assert((before + s)[breaks + k] == '\u{1f}');
    trim_keeps_words(before + s, breaks + k);
    words_read_back(parents);
}

} // verus!
