//! What holds of every diff that is read.

use vstd::prelude::*;

use crate::git::diff::{
    content, diff_of, head_word, is_hunk_head, next_no, patch_of, range_start, read_line,
    read_lines, DiffLineModel, DiffModel, LineKind, Reading,
};
use crate::number::{
    decimal, decimal_reads_back, is_digit, other_texts_are_no_numbers, parse_reads_decimal,
};
use crate::text::{concat, find, find_facts, find_is, is_space, split_inclusive, words};
use crate::text_laws::{
    concat_push, is_line, is_word, split_is_well_cut, strip_takes_the_prefix, well_cut,
    well_cut_is_split, words_are_cut_by_space,
};

verus! {

proof fn reading_loses_nothing(raws: Seq<Seq<char>>)
    ensures
        ({
            let d = read_lines(raws).diff;
            d.header + concat(d.hunks) == concat(raws)
        }),
    decreases raws.len(),
{
    let d = read_lines(raws).diff;
    if raws.len() == 0 {
        assert(d.header + concat(d.hunks) =~= concat(raws));
    } else {
        let front = raws.drop_last();
        let raw = raws.last();
        reading_loses_nothing(front);
        let before = read_lines(front).diff;
        if is_hunk_head(raw) {
            concat_push(before.hunks, raw);
        } else if before.hunks.len() == 0 {
            assert(concat(before.hunks) =~= Seq::<char>::empty());
        } else {
            concat_push(before.hunks.drop_last(), before.hunks.last() + raw);
            assert(before.hunks.drop_last().push(before.hunks.last()) =~= before.hunks);
            concat_push(before.hunks.drop_last(), before.hunks.last());
        }
        assert(d.header + concat(d.hunks) =~= concat(raws));
    }
}

/// Nothing of the text is lost: the file header and the hunks, one behind the other, are the
/// text that was read.
pub proof fn diff_loses_nothing(text: Seq<char>)
    ensures
        diff_of(text).header + concat(diff_of(text).hunks) == text,
{
    split_is_well_cut(text);
    reading_loses_nothing(split_inclusive(text, '\n'));
}

/// How many lines of a kind there are.
pub open spec fn count_kind(lines: Seq<DiffLineModel>, kind: LineKind) -> int
    decreases lines.len(),
{
    if lines.len() == 0 {
        0
    } else {
        count_kind(lines.drop_last(), kind) + if lines.last().kind == kind {
            1int
        } else {
            0
        }
    }
}

proof fn reading_counts(raws: Seq<Seq<char>>)
    ensures
        ({
            let d = read_lines(raws).diff;
            &&& d.adds == count_kind(d.lines, LineKind::Add)
            &&& d.dels == count_kind(d.lines, LineKind::Del)
            &&& d.hunks.len() == count_kind(d.lines, LineKind::Hunk)
            &&& d.lines.len() == raws.len()
        }),
    decreases raws.len(),
{
    if raws.len() > 0 {
        reading_counts(raws.drop_last());
        let before = read_lines(raws.drop_last()).diff;
        let d = read_lines(raws).diff;
        assert(d.lines.drop_last() =~= before.lines);
    }
}

/// The counts are those of the lines: `adds` of the added ones, `dels` of the deleted ones, and
/// there is one hunk for each hunk line.
pub proof fn diff_counts_its_lines(text: Seq<char>)
    ensures
        diff_of(text).adds == count_kind(diff_of(text).lines, LineKind::Add),
        diff_of(text).dels == count_kind(diff_of(text).lines, LineKind::Del),
        diff_of(text).hunks.len() == count_kind(diff_of(text).lines, LineKind::Hunk),
        diff_of(text).lines.len() == split_inclusive(text, '\n').len(),
{
    reading_counts(split_inclusive(text, '\n'));
}

/// The hunk that a raw line belongs to when it is read behind others; none in the file header.
spec fn hunk_at(before: Reading, raw: Seq<char>) -> Option<int> {
    if is_hunk_head(raw) {
        Some(before.diff.hunks.len() as int)
    } else if before.diff.hunks.len() == 0 {
        None
    } else {
        Some(before.diff.hunks.len() - 1)
    }
}

/// The raw lines of the file header and of hunk `i`.
spec fn cut(raws: Seq<Seq<char>>, i: int) -> Seq<Seq<char>>
    decreases raws.len(),
{
    if raws.len() == 0 {
        Seq::empty()
    } else {
        let kept = cut(raws.drop_last(), i);
        let hunk = hunk_at(read_lines(raws.drop_last()), raws.last());
        if hunk is None || hunk == Some(i) {
            kept.push(raws.last())
        } else {
            kept
        }
    }
}

/// The lines of a hunk, or those of the file header, in order.
pub open spec fn lines_of(lines: Seq<DiffLineModel>, hunk: Option<int>) -> Seq<DiffLineModel>
    decreases lines.len(),
{
    if lines.len() == 0 {
        Seq::empty()
    } else {
        let before = lines_of(lines.drop_last(), hunk);
        if lines.last().hunk == hunk {
            before.push(lines.last())
        } else {
            before
        }
    }
}

/// A line of a hunk as it is in a diff that has only that hunk.
pub open spec fn alone(line: DiffLineModel) -> DiffLineModel {
    DiffLineModel { hunk: Some(0), ..line }
}

/// The lines of hunk `i` as they are in a diff that has only that hunk.
pub open spec fn lines_alone(lines: Seq<DiffLineModel>, i: int) -> Seq<DiffLineModel> {
    lines_of(lines, Some(i)).map_values(|l: DiffLineModel| alone(l))
}

/// What reading the file header and hunk `i` alone gives of what reading everything gives.
proof fn reading_a_cut(raws: Seq<Seq<char>>, i: int)
    requires
        0 <= i,
    ensures
        ({
            let all = read_lines(raws);
            let one = read_lines(cut(raws, i));
            let lines = lines_of(all.diff.lines, Some(i));
            &&& one.diff.header == all.diff.header
            &&& one.diff.lines == lines_of(all.diff.lines, None) + lines_alone(all.diff.lines, i)
            &&& one.diff.adds == count_kind(lines, LineKind::Add)
            &&& one.diff.dels == count_kind(lines, LineKind::Del)
            &&& i < all.diff.hunks.len() ==> one.diff.hunks == seq![all.diff.hunks[i]]
            &&& i == all.diff.hunks.len() - 1 ==> one.old == all.old && one.new == all.new
            &&& i >= all.diff.hunks.len() ==> one.diff.hunks.len() == 0 && lines.len() == 0
        }),
    decreases raws.len(),
{
    let all = read_lines(raws);
    let one = read_lines(cut(raws, i));
    if raws.len() == 0 {
        assert(one.diff.lines =~= lines_of(all.diff.lines, None) + lines_alone(all.diff.lines, i));
    } else {
        let front = raws.drop_last();
        let raw = raws.last();
        reading_a_cut(front, i);
        let before = read_lines(front);
        let kept = cut(front, i);
        let less = read_lines(kept);
        let hunk = hunk_at(before, raw);
        let line = all.diff.lines.last();
        assert(all.diff.lines.drop_last() =~= before.diff.lines);
        assert(line.hunk == hunk);
        if hunk is None || hunk == Some(i) {
            assert(kept.push(raw).drop_last() =~= kept);
            assert(one == read_line(less, raw));
            let added = lines_of(before.diff.lines, Some(i)).push(line);
            assert(added.drop_last() =~= lines_of(before.diff.lines, Some(i)));
        }
        if hunk == Some(i) {
            assert(one.diff.lines.last() == alone(line));
        }
        assert(one.diff.lines =~= lines_of(all.diff.lines, None) + lines_alone(all.diff.lines, i));
        if i < all.diff.hunks.len() {
            assert(one.diff.hunks =~= seq![all.diff.hunks[i]]);
        }
    }
}

/// Each line of a cut is a line of the whole, the last one only at the end.
proof fn cut_lines(raws: Seq<Seq<char>>, i: int)
    requires
        well_cut(raws),
    ensures
        well_cut(cut(raws, i)),
    decreases raws.len(),
{
    if raws.len() > 0 {
        let front = raws.drop_last();
        let kept = cut(front, i);
        let c = cut(raws, i);
        assert forall|k: int| 0 <= k < front.len() implies is_line(#[trigger] front[k], false) by {
            assert(is_line(raws[k], k == raws.len() - 1));
        }
        cut_of_whole_lines(front, i);
        assert(is_line(raws[raws.len() - 1], true));
        assert forall|k: int| 0 <= k < c.len() implies is_line(
            #[trigger] c[k],
            k == c.len() - 1,
        ) by {
            if k < kept.len() {
                assert(c[k] == kept[k]);
            }
        }
    }
}

proof fn cut_of_whole_lines(raws: Seq<Seq<char>>, i: int)
    requires
        forall|k: int| 0 <= k < raws.len() ==> is_line(#[trigger] raws[k], false),
    ensures
        forall|k: int| 0 <= k < cut(raws, i).len() ==> is_line(#[trigger] cut(raws, i)[k], false),
    decreases raws.len(),
{
    if raws.len() > 0 {
        let front = raws.drop_last();
        assert forall|k: int| 0 <= k < front.len() implies is_line(#[trigger] front[k], false) by {
            assert(is_line(raws[k], false));
        }
        cut_of_whole_lines(front, i);
        assert(is_line(raws[raws.len() - 1], false));
        let kept = cut(front, i);
        let c = cut(raws, i);
        assert forall|k: int| 0 <= k < c.len() implies is_line(#[trigger] c[k], false) by {
            if k < kept.len() {
                assert(c[k] == kept[k]);
            }
        }
    }
}

proof fn header_lines_are_meta(raws: Seq<Seq<char>>)
    ensures
        forall|k: int|
            0 <= k < lines_of(read_lines(raws).diff.lines, None).len() ==> (
            #[trigger] lines_of(read_lines(raws).diff.lines, None)[k]).kind == LineKind::Meta,
    decreases raws.len(),
{
    if raws.len() > 0 {
        header_lines_are_meta(raws.drop_last());
        assert(read_lines(raws).diff.lines.drop_last() =~= read_lines(
            raws.drop_last(),
        ).diff.lines);
    }
}

/// A patch with one hunk reads as just that: the file header of the diff it was taken from, and
/// that hunk alone. Behind the lines of the file header come exactly the lines of the hunk, each
/// with the kind, the text and the numbers that it has in the whole diff, and those are counted.
pub proof fn hunk_patch_reads_back(text: Seq<char>, i: int)
    requires
        0 <= i < diff_of(text).hunks.len(),
    ensures
        ({
            let d = diff_of(text);
            let r = diff_of(patch_of(d, i));
            let header = lines_of(d.lines, None);
            &&& r.header == d.header
            &&& r.hunks == seq![d.hunks[i]]
            &&& r.lines == header + lines_alone(d.lines, i)
            &&& forall|k: int|
                0 <= k < header.len() ==> (#[trigger] header[k]).kind == LineKind::Meta
            &&& r.adds == count_kind(lines_of(d.lines, Some(i)), LineKind::Add)
            &&& r.dels == count_kind(lines_of(d.lines, Some(i)), LineKind::Del)
        }),
{
    let raws = split_inclusive(text, '\n');
    let d = diff_of(text);
    let c = cut(raws, i);
    let one = read_lines(c).diff;
    split_is_well_cut(text);
    cut_lines(raws, i);
    reading_a_cut(raws, i);
    reading_loses_nothing(c);
    well_cut_is_split(c);
    concat_push(Seq::empty(), d.hunks[i]);
    assert(one.hunks =~= Seq::<Seq<char>>::empty().push(d.hunks[i]));
    assert(concat(one.hunks) =~= d.hunks[i]);
    header_lines_are_meta(raws);
}

/// What the patches of the first `n` hunks add and delete, all together.
pub open spec fn patches_change(d: DiffModel, n: int) -> (int, int)
    decreases n,
{
    if n <= 0 {
        (0, 0)
    } else {
        let (adds, dels) = patches_change(d, n - 1);
        let patch = diff_of(patch_of(d, n - 1));
        (adds + patch.adds, dels + patch.dels)
    }
}

/// How many lines of a kind the first `n` hunks have.
spec fn count_in_hunks(lines: Seq<DiffLineModel>, n: int, kind: LineKind) -> int
    decreases n,
{
    if n <= 0 {
        0
    } else {
        count_in_hunks(lines, n - 1, kind) + count_kind(lines_of(lines, Some(n - 1)), kind)
    }
}

proof fn count_one_more(lines: Seq<DiffLineModel>, n: int, kind: LineKind)
    requires
        lines.len() > 0,
    ensures
        count_in_hunks(lines, n, kind) == count_in_hunks(lines.drop_last(), n, kind) + if (
        lines.last().kind == kind && lines.last().hunk is Some && 0 <= lines.last().hunk.unwrap()
            < n) {
            1int
        } else {
            0
        },
    decreases n,
{
    if n > 0 {
        count_one_more(lines, n - 1, kind);
        let before = lines_of(lines.drop_last(), Some(n - 1));
        assert(before.push(lines.last()).drop_last() =~= before);
    }
}

/// Every line that counts is a line of some hunk.
proof fn changes_are_in_hunks(raws: Seq<Seq<char>>, n: int, kind: LineKind)
    requires
        kind == LineKind::Add || kind == LineKind::Del,
        n >= read_lines(raws).diff.hunks.len(),
    ensures
        count_in_hunks(read_lines(raws).diff.lines, n, kind) == count_kind(
            read_lines(raws).diff.lines,
            kind,
        ),
    decreases raws.len(),
{
    let lines = read_lines(raws).diff.lines;
    if raws.len() == 0 {
        no_lines_in_hunks(n, kind);
        assert(lines =~= Seq::<DiffLineModel>::empty());
    } else {
        changes_are_in_hunks(raws.drop_last(), n, kind);
        assert(lines.drop_last() =~= read_lines(raws.drop_last()).diff.lines);
        count_one_more(lines, n, kind);
    }
}

proof fn no_lines_in_hunks(n: int, kind: LineKind)
    ensures
        count_in_hunks(Seq::empty(), n, kind) == 0,
    decreases n,
{
    if n > 0 {
        no_lines_in_hunks(n - 1, kind);
    }
}

proof fn patches_change_their_hunks(text: Seq<char>, n: int)
    requires
        n <= diff_of(text).hunks.len(),
    ensures
        patches_change(diff_of(text), n) == (
            count_in_hunks(diff_of(text).lines, n, LineKind::Add),
            count_in_hunks(diff_of(text).lines, n, LineKind::Del),
        ),
    decreases n,
{
    if n > 0 {
        patches_change_their_hunks(text, n - 1);
        hunk_patch_reads_back(text, n - 1);
    }
}

/// The patches of all hunks together add and delete what the diff does.
pub proof fn patches_make_up_the_diff(text: Seq<char>)
    ensures
        ({
            let d = diff_of(text);
            patches_change(d, d.hunks.len() as int) == (d.adds, d.dels)
        }),
{
    let raws = split_inclusive(text, '\n');
    let n = diff_of(text).hunks.len() as int;
    patches_change_their_hunks(text, n);
    reading_counts(raws);
    changes_are_in_hunks(raws, n, LineKind::Add);
    changes_are_in_hunks(raws, n, LineKind::Del);
}

/// Whether a line of a kind stands on one side of the diff: an added one on the new side, a deleted
/// one on the old side, and one in between on both.
pub open spec fn stands_on(kind: LineKind, new: bool) -> bool {
    kind == LineKind::Context || (new && kind == LineKind::Add) || (!new && kind == LineKind::Del)
}

/// How many of the lines from `from` up to `to` count on one side of the diff.
pub open spec fn side_count(lines: Seq<DiffLineModel>, from: int, to: int, new: bool) -> int
    decreases to - from,
{
    if to <= from {
        0
    } else {
        side_count(lines, from, to - 1, new) + if stands_on(lines[to - 1].kind, new) {
            1int
        } else {
            0
        }
    }
}

/// The number `n` lines behind line `start`, modulo 2^32.
pub open spec fn no_after(start: u32, n: int) -> u32 {
    ((start + n) % 0x1_0000_0000) as u32
}

proof fn no_after_next(start: u32, n: int)
    requires
        n >= 0,
    ensures
        no_after(start, n + 1) == next_no(no_after(start, n)),
        no_after(start, 0) == start,
{
}

proof fn lines_stay(raws: Seq<Seq<char>>, j: int)
    requires
        0 <= j < raws.len(),
    ensures
        read_lines(raws).diff.lines.len() == raws.len(),
        read_lines(raws).diff.lines[j] == read_lines(raws.take(j + 1)).diff.lines[j],
    decreases raws.len(),
{
    reading_counts(raws);
    if j == raws.len() - 1 {
        assert(raws.take(j + 1) =~= raws);
    } else {
        lines_stay(raws.drop_last(), j);
        assert(raws.drop_last().take(j + 1) =~= raws.take(j + 1));
    }
}

/// The numbers of the next lines, and the hunk, below a hunk line.
proof fn numbers_below(raws: Seq<Seq<char>>, a: int, j: int)
    requires
        0 <= a < j <= raws.len(),
        is_hunk_head(raws[a]),
        forall|q: int| a < q < j ==> !is_hunk_head(#[trigger] raws[q]),
    ensures
        ({
            let lines = read_lines(raws).diff.lines;
            let r = read_lines(raws.take(j));
            &&& r.old == no_after(
                range_start(head_word(raws[a], 0), '-'),
                side_count(lines, a, j, false),
            )
            &&& r.new == no_after(
                range_start(head_word(raws[a], 1), '+'),
                side_count(lines, a, j, true),
            )
            &&& r.diff.hunks.len() > 0
            &&& lines[a].hunk == Some(r.diff.hunks.len() - 1)
            &&& side_count(lines, a, j, false) >= 0
            &&& side_count(lines, a, j, true) >= 0
        }),
    decreases j,
{
    let lines = read_lines(raws).diff.lines;
    let start_old = range_start(head_word(raws[a], 0), '-');
    let start_new = range_start(head_word(raws[a], 1), '+');
    lines_stay(raws, j - 1);
    reading_counts(raws.take(j - 1));
    assert(raws.take(j).drop_last() =~= raws.take(j - 1));
    if j == a + 1 {
        assert(lines[a].kind == LineKind::Hunk);
        reveal_with_fuel(side_count, 2);
        no_after_next(start_old, 0);
        no_after_next(start_new, 0);
    } else {
        numbers_below(raws, a, j - 1);
        assert(!is_hunk_head(raws[j - 1]));
        no_after_next(start_old, side_count(lines, a, j - 1, false));
        no_after_next(start_new, side_count(lines, a, j - 1, true));
    }
}

/// Inside a hunk each line carries the number it has on each side it belongs to: the number in
/// the hunk line, plus the lines of that side since. It belongs to the hunk of that hunk line.
pub proof fn lines_are_numbered(text: Seq<char>, a: int, j: int)
    requires
        0 <= a < j < diff_of(text).lines.len(),
        diff_of(text).lines[a].kind == LineKind::Hunk,
        forall|q: int|
            a < q <= j ==> (#[trigger] diff_of(text).lines[q]).kind != LineKind::Hunk,
    ensures
        ({
            let lines = diff_of(text).lines;
            let head = split_inclusive(text, '\n')[a];
            let line = lines[j];
            &&& line.hunk == lines[a].hunk
            &&& line.old_no == if stands_on(line.kind, false) {
                Some(
                    no_after(range_start(head_word(head, 0), '-'), side_count(lines, a, j, false)),
                )
            } else {
                None
            }
            &&& line.new_no == if stands_on(line.kind, true) {
                Some(no_after(range_start(head_word(head, 1), '+'), side_count(lines, a, j, true)))
            } else {
                None
            }
        }),
{
    let raws = split_inclusive(text, '\n');
    let lines = diff_of(text).lines;
    reading_counts(raws);
    lines_stay(raws, a);
    reading_counts(raws.take(a));
    assert(raws.take(a + 1).drop_last() =~= raws.take(a));
    assert(is_hunk_head(raws[a]));
    assert forall|q: int| a < q <= j implies !is_hunk_head(#[trigger] raws[q]) by {
        assert(lines[q].kind != LineKind::Hunk);
        lines_stay(raws, q);
        reading_counts(raws.take(q));
        assert(raws.take(q + 1).drop_last() =~= raws.take(q));
    }
    numbers_below(raws, a, j);
    lines_stay(raws, j);
    reading_counts(raws.take(j));
    assert(raws.take(j + 1).drop_last() =~= raws.take(j));
}

/// A raw line that starts a hunk.
pub open spec fn starts_hunk(raw: Seq<char>) -> bool {
    raw.len() >= 2 && raw[0] == '@' && raw[1] == '@'
}

/// How many of the first `n` raw lines start a hunk.
pub open spec fn heads(raws: Seq<Seq<char>>, n: int) -> int
    decreases n,
{
    if n <= 0 {
        0
    } else {
        heads(raws, n - 1) + if starts_hunk(raws[n - 1]) {
            1int
        } else {
            0
        }
    }
}

proof fn head_is_a_start(raw: Seq<char>)
    requires
        is_line(raw, true),
    ensures
        is_hunk_head(raw) == starts_hunk(raw),
{
    reveal_strlit("@@");
    let c = content(raw);
    if starts_hunk(raw) {
        assert(c.len() >= 2);
        assert("@@"@ =~= c.subrange(0, 2));
    }
    if is_hunk_head(raw) {
        assert(c.subrange(0, 2)[0] == '@' && c.subrange(0, 2)[1] == '@');
        assert(raw[0] == c[0] && raw[1] == c[1]);
    }
}

proof fn hunks_are_counted(raws: Seq<Seq<char>>, n: int)
    requires
        well_cut(raws),
        0 <= n <= raws.len(),
    ensures
        read_lines(raws.take(n)).diff.hunks.len() == heads(raws, n),
    decreases n,
{
    if n > 0 {
        hunks_are_counted(raws, n - 1);
        assert(raws.take(n).drop_last() =~= raws.take(n - 1));
        assert(is_line(raws[n - 1], n - 1 == raws.len() - 1));
        head_is_a_start(raws[n - 1]);
    }
}

/// What a line of a diff shows of the raw line `c`: the line itself, or in a hunk its sign and
/// then its text.
pub open spec fn shows_raw(c: Seq<char>, line: DiffLineModel, before: int) -> bool {
    if starts_hunk(c) {
        &&& line.kind == LineKind::Hunk
        &&& line.text == c
        &&& line.old_no is None && line.new_no is None
        &&& line.hunk == Some(before)
    } else if before == 0 {
        &&& line.kind == LineKind::Meta
        &&& line.text == c
        &&& line.old_no is None && line.new_no is None
        &&& line.hunk is None
    } else {
        &&& line.hunk == Some(before - 1)
        &&& if c.len() > 0 && c[0] == '+' {
            line.kind == LineKind::Add && seq!['+'] + line.text == c
        } else if c.len() > 0 && c[0] == '-' {
            line.kind == LineKind::Del && seq!['-'] + line.text == c
        } else if c.len() > 0 && c[0] == ' ' {
            line.kind == LineKind::Context && seq![' '] + line.text == c
        } else if c.len() > 0 && c[0] == '\\' {
            line.kind == LineKind::Meta && line.text == c
        } else {
            line.kind == LineKind::Context && line.text == c
        }
    }
}

/// Every line of the text is there, in its place. In a hunk, the sign of its kind and then its text
/// are the raw line without its line break, whatever the text is; outside of one it is shown as it
/// is. It belongs to the hunk that was started last.
pub proof fn lines_show_the_text(text: Seq<char>, j: int, c: Seq<char>)
    requires
        0 <= j < split_inclusive(text, '\n').len(),
        !c.contains('\n'),
        split_inclusive(text, '\n')[j] == c || split_inclusive(text, '\n')[j] == c + seq!['\n'],
    ensures
        diff_of(text).lines.len() == split_inclusive(text, '\n').len(),
        shows_raw(c, diff_of(text).lines[j], heads(split_inclusive(text, '\n'), j)),
{
    let raws = split_inclusive(text, '\n');
    let raw = raws[j];
    split_is_well_cut(text);
    lines_stay(raws, j);
    hunks_are_counted(raws, j);
    reading_counts(raws.take(j));
    assert(raws.take(j + 1).drop_last() =~= raws.take(j));
    assert(is_line(raw, j == raws.len() - 1));
    head_is_a_start(raw);
    assert(content(raw) =~= c) by {
        if raw == c {
            assert(c.contains(c.last()));
        }
    }
    assert(starts_hunk(raw) == starts_hunk(c));
    let line = diff_of(text).lines[j];
    if !starts_hunk(c) && heads(raws, j) > 0 && c.len() > 0 {
        assert(seq![c[0]] + c.skip(1) =~= c);
    }
    heads_count_up(raws, j);
}

proof fn heads_count_up(raws: Seq<Seq<char>>, n: int)
    ensures
        heads(raws, n) >= 0,
    decreases n,
{
    if n > 0 {
        heads_count_up(raws, n - 1);
    }
}

/// The raw lines that belong to a hunk, or to none, one behind the other.
pub open spec fn raws_of(
    raws: Seq<Seq<char>>,
    lines: Seq<DiffLineModel>,
    hunk: Option<int>,
) -> Seq<char>
    decreases raws.len(),
{
    if raws.len() == 0 {
        Seq::empty()
    } else {
        raws_of(raws.drop_last(), lines.drop_last(), hunk) + if lines.last().hunk == hunk {
            raws.last()
        } else {
            Seq::empty()
        }
    }
}

proof fn hunks_are_their_raws(raws: Seq<Seq<char>>, i: int)
    requires
        0 <= i,
    ensures
        ({
            let d = read_lines(raws).diff;
            &&& d.lines.len() == raws.len()
            &&& d.header == raws_of(raws, d.lines, None)
            &&& i < d.hunks.len() ==> d.hunks[i] == raws_of(raws, d.lines, Some(i))
            &&& i >= d.hunks.len() ==> raws_of(raws, d.lines, Some(i)).len() == 0
        }),
    decreases raws.len(),
{
    let d = read_lines(raws).diff;
    reading_counts(raws);
    if raws.len() > 0 {
        let front = raws.drop_last();
        let before = read_lines(front).diff;
        hunks_are_their_raws(front, i);
        assert(d.lines.drop_last() =~= before.lines);
        assert(d.header =~= raws_of(raws, d.lines, None));
        if i < d.hunks.len() {
            assert(d.hunks[i] =~= raws_of(raws, d.lines, Some(i)));
        }
    }
}

/// The file header is the raw lines that belong to no hunk, and each hunk is the raw lines that
/// belong to it; there are as many hunks as lines that start one.
pub proof fn hunks_hold_their_lines(text: Seq<char>, i: int)
    requires
        0 <= i < diff_of(text).hunks.len(),
    ensures
        ({
            let raws = split_inclusive(text, '\n');
            let d = diff_of(text);
            &&& d.hunks.len() == heads(raws, raws.len() as int)
            &&& d.header == raws_of(raws, d.lines, None)
            &&& d.hunks[i] == raws_of(raws, d.lines, Some(i))
        }),
{
    let raws = split_inclusive(text, '\n');
    split_is_well_cut(text);
    hunks_are_counted(raws, raws.len() as int);
    assert(raws.take(raws.len() as int) =~= raws);
    hunks_are_their_raws(raws, i);
}

/// A range of lines in the head of a hunk: the first line, and how many there are, where that is
/// said.
pub open spec fn range_text(sign: char, start: u32, count: Option<u32>) -> Seq<char> {
    seq![sign] + decimal(start as nat) + match count {
        Some(n) => seq![','] + decimal(n as nat),
        None => Seq::empty(),
    }
}

/// The head of a hunk: `@@ -old +new @@`, and what follows it.
pub open spec fn hunk_head(old: Seq<char>, new: Seq<char>, tail: Seq<char>) -> Seq<char> {
    seq!['@', '@', ' '] + old + seq![' '] + new + seq![' ', '@', '@'] + tail
}

proof fn range_reads_back(sign: char, start: u32, count: Option<u32>)
    requires
        sign == '-' || sign == '+',
    ensures
        is_word(range_text(sign, start, count)),
        range_start(Some(range_text(sign, start, count)), sign) == start,
{
    let w = range_text(sign, start, count);
    let d = decimal(start as nat);
    decimal_reads_back(start as nat);
    parse_reads_decimal(start, 0);
    let range = w.skip(1);
    match count {
        Some(n) => {
            decimal_reads_back(n as nat);
            assert(range =~= d + seq![','] + decimal(n as nat));
            assert(range[d.len() as int] == ',');
        },
        None => {
            assert(range =~= d);
        },
    }
    assert forall|j: int| 0 <= j < d.len() implies range[j] != ',' by {
        assert(is_digit(d[j]));
        assert(range[j] == d[j]);
    }
    find_is(range, ',', d.len() as int);
    assert(range.take(d.len() as int) =~= d);
    assert forall|i: int| 0 <= i < w.len() implies !is_space(#[trigger] w[i]) by {
        if 0 < i <= d.len() {
            assert(is_digit(d[i - 1]));
        } else if i > d.len() + 1 {
            let more = decimal(count.unwrap() as nat);
            assert(w[i] == more[i - d.len() - 2]);
            assert(is_digit(more[i - d.len() - 2]));
        }
    }
}

/// What follows the start of a head.
pub open spec fn behind_start(a: Seq<char>, b: Seq<char>, end: Seq<char>) -> Seq<char> {
    seq![' '] + a + seq![' '] + b + seq![' '] + end
}

proof fn first_words(a: Seq<char>, b: Seq<char>, end: Seq<char>)
    requires
        is_word(a),
        is_word(b),
    ensures
        words(behind_start(a, b, end)).len() >= 2,
        words(behind_start(a, b, end))[0] == a,
        words(behind_start(a, b, end))[1] == b,
{
    let none = Seq::<char>::empty();
    let rest = behind_start(a, b, end);
    assert(rest =~= none + seq![' '] + (a + seq![' '] + (b + seq![' '] + end)));
    words_are_cut_by_space(none, ' ', a + seq![' '] + (b + seq![' '] + end));
    words_are_cut_by_space(a, ' ', b + seq![' '] + end);
    words_are_cut_by_space(b, ' ', end);
    assert(words(rest) =~= seq![a] + (seq![b] + words(end)));
}

/// The numbers of a hunk start where its head says, on both sides, whatever follows the head.
pub proof fn heads_say_where_hunks_start(
    old: u32,
    olds: Option<u32>,
    new: u32,
    news: Option<u32>,
    tail: Seq<char>,
)
    requires
        !tail.contains('\n'),
    ensures
        ({
            let line = hunk_head(range_text('-', old, olds), range_text('+', new, news), tail);
            let raw = line + seq!['\n'];
            &&& range_start(head_word(raw, 0), '-') == old
            &&& range_start(head_word(raw, 1), '+') == new
            &&& range_start(head_word(line, 0), '-') == old
            &&& range_start(head_word(line, 1), '+') == new
        }),
{
    let a = range_text('-', old, olds);
    let b = range_text('+', new, news);
    let line = hunk_head(a, b, tail);
    let raw = line + seq!['\n'];
    let end = seq!['@', '@'] + tail;
    range_reads_back('-', old, olds);
    range_reads_back('+', new, news);
    reveal_strlit("@@");
    assert(raw.drop_last() =~= line);
    assert(content(raw) == line);
    assert(content(line) == line) by {
        if tail.len() > 0 {
            assert(tail.contains(tail.last()));
            assert(line.last() == tail.last());
        } else {
            assert(line.last() == '@');
        }
    }
    let rest = behind_start(a, b, end);
    assert("@@"@ =~= seq!['@', '@']);
    assert(line =~= "@@"@ + rest);
    strip_takes_the_prefix(line, "@@"@, rest);
    first_words(a, b, end);
}

/// A head that has no range on a side, or one with another sign, starts at nothing there; and so
/// does a range without a number.
pub proof fn heads_may_say_nothing(raw: Seq<char>, w: Seq<char>, sign: char, i: int)
    ensures
        range_start(None, sign) == 0,
        w.len() == 0 || w[0] != sign ==> range_start(Some(w), sign) == 0,
        range_start(Some(seq![sign]), sign) == 0,
        i < 0 ==> head_word(raw, i) is None,
        !is_hunk_head(raw) ==> head_word(raw, i) is None,
{
    let range = seq![sign].skip(1);
    assert(range =~= Seq::empty());
    find_facts(range, ',');
    assert(range.take(find(range, ',')) =~= Seq::empty());
    other_texts_are_no_numbers(Seq::empty(), 0);
}

/// Where the head of a hunk says that it starts at lines `old` and `new`, each line of the hunk
/// carries, on each side that it stands on, that number plus the lines of that side since.
pub proof fn hunks_are_numbered_from_their_heads(
    text: Seq<char>,
    a: int,
    j: int,
    old: u32,
    olds: Option<u32>,
    new: u32,
    news: Option<u32>,
    tail: Seq<char>,
)
    requires
        0 <= a < j < diff_of(text).lines.len(),
        !tail.contains('\n'),
        split_inclusive(text, '\n')[a] == hunk_head(
            range_text('-', old, olds),
            range_text('+', new, news),
            tail,
        ) + seq!['\n'],
        forall|q: int| a < q <= j ==> !starts_hunk(#[trigger] split_inclusive(text, '\n')[q]),
    ensures
        ({
            let lines = diff_of(text).lines;
            let line = lines[j];
            &&& line.old_no == if stands_on(line.kind, false) {
                Some(no_after(old, side_count(lines, a + 1, j, false)))
            } else {
                None
            }
            &&& line.new_no == if stands_on(line.kind, true) {
                Some(no_after(new, side_count(lines, a + 1, j, true)))
            } else {
                None
            }
        }),
{
    let raws = split_inclusive(text, '\n');
    let lines = diff_of(text).lines;
    split_is_well_cut(text);
    reading_counts(raws);
    heads_say_where_hunks_start(old, olds, new, news, tail);
    assert(starts_hunk(raws[a]));
    kind_of_heads(text, a);
    assert forall|q: int| a < q <= j implies (#[trigger] lines[q]).kind != LineKind::Hunk by {
        kind_of_heads(text, q);
        assert(!starts_hunk(raws[q]));
    }
    lines_are_numbered(text, a, j);
    side_count_skips(lines, a, j, false);
    side_count_skips(lines, a, j, true);
}

proof fn kind_of_heads(text: Seq<char>, q: int)
    requires
        0 <= q < split_inclusive(text, '\n').len(),
    ensures
        (diff_of(text).lines[q].kind == LineKind::Hunk) == starts_hunk(
            split_inclusive(text, '\n')[q],
        ),
{
    let raws = split_inclusive(text, '\n');
    split_is_well_cut(text);
    lines_stay(raws, q);
    reading_counts(raws.take(q));
    assert(raws.take(q + 1).drop_last() =~= raws.take(q));
    assert(is_line(raws[q], q == raws.len() - 1));
    head_is_a_start(raws[q]);
}

proof fn side_count_skips(lines: Seq<DiffLineModel>, a: int, j: int, new: bool)
    requires
        a < j,
        !stands_on(lines[a].kind, new),
    ensures
        side_count(lines, a, j, new) == side_count(lines, a + 1, j, new),
    decreases j - a,
{
    if j > a + 1 {
        side_count_skips(lines, a, j - 1, new);
    } else {
        assert(side_count(lines, a, a, new) == 0);
    }
}

} // verus!
