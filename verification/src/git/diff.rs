//! Unified diffs: for display line by line, and raw hunk by hunk for `git apply`.

use vstd::prelude::*;

use crate::number::{or_zero_u32, parse_u32, read_u32};
use crate::text::{
    chars_of, clone_texts, find, find_char, from_index, group_models, models, pieces, push_chars,
    split_inclusive, split_lines, strip, strip_text, text_of, up_to, words, words_of,
};

verus! {

broadcast use group_models;

#[derive(Clone, Copy, Debug, PartialEq, Eq, Structural)]
pub enum LineKind {
    Context,
    Add,
    Del,
    /// `@@ -a,b +c,d @@` (start of a hunk).
    Hunk,
    /// File header lines (`diff --git`, `index`, `---`, `+++`, `Binary files …`).
    Meta,
}

#[derive(Debug, PartialEq, Eq)]
pub struct DiffLine {
    pub kind: LineKind,
    pub old_no: Option<u32>,
    pub new_no: Option<u32>,
    /// Text without the leading `+` / `-` / ` `.
    pub text: String,
    /// Index into [`Diff::hunks`] for hunk header and body lines.
    pub hunk: Option<usize>,
}

/// The contents of a [`DiffLine`].
pub struct DiffLineModel {
    pub kind: LineKind,
    pub old_no: Option<u32>,
    pub new_no: Option<u32>,
    pub text: Seq<char>,
    pub hunk: Option<int>,
}

impl View for DiffLine {
    type V = DiffLineModel;

    open spec fn view(&self) -> DiffLineModel {
        DiffLineModel {
            kind: self.kind,
            old_no: self.old_no,
            new_no: self.new_no,
            text: self.text@,
            hunk: match self.hunk {
                Some(h) => Some(h as int),
                None => None,
            },
        }
    }
}

/// A unified diff, kept both as lines for display and as raw text per hunk so a single hunk
/// can be handed back to `git apply`.
#[derive(Debug, PartialEq, Eq)]
pub struct Diff {
    pub lines: Vec<DiffLine>,
    /// File header (everything before the first `@@`), verbatim.
    pub header: String,
    /// Each hunk verbatim (header line included).
    pub hunks: Vec<String>,
    pub adds: usize,
    pub dels: usize,
}

/// The contents of a [`Diff`].
#[verifier::ext_equal]
pub struct DiffModel {
    pub lines: Seq<DiffLineModel>,
    pub header: Seq<char>,
    pub hunks: Seq<Seq<char>>,
    pub adds: int,
    pub dels: int,
}

impl View for Diff {
    type V = DiffModel;

    open spec fn view(&self) -> DiffModel {
        DiffModel {
            lines: models(self.lines@),
            header: self.header@,
            hunks: models(self.hunks@),
            adds: self.adds as int,
            dels: self.dels as int,
        }
    }
}

impl Clone for DiffLine {
    fn clone(&self) -> (r: DiffLine)
        ensures
            r@ == self@,
    {
        DiffLine {
            kind: self.kind,
            old_no: self.old_no,
            new_no: self.new_no,
            text: self.text.clone(),
            hunk: self.hunk,
        }
    }
}

impl Clone for Diff {
    fn clone(&self) -> (r: Diff)
        ensures
            r@ == self@,
    {
        let mut lines: Vec<DiffLine> = Vec::new();
        let mut i: usize = 0;
        while i < self.lines.len()
            invariant
                i <= self.lines@.len(),
                lines@.len() == i,
                forall|k: int| 0 <= k < i ==> (#[trigger] lines@[k])@ == self.lines@[k]@,
            decreases self.lines@.len() - i,
        {
            lines.push(self.lines[i].clone());
            i += 1;
        }
        assert(models(lines@) =~= models(self.lines@));
        Diff {
            lines,
            header: self.header.clone(),
            hunks: clone_texts(&self.hunks),
            adds: self.adds,
            dels: self.dels,
        }
    }
}

/// The diff of nothing.
pub open spec fn empty_diff() -> DiffModel {
    DiffModel { lines: seq![], header: seq![], hunks: seq![], adds: 0, dels: 0 }
}

impl Default for Diff {
    fn default() -> (d: Diff)
        ensures
            d@ == empty_diff(),
    {
        Diff { lines: Vec::new(), header: String::new(), hunks: Vec::new(), adds: 0, dels: 0 }
    }
}

/// A raw line without the `\n` that ends it.
pub open spec fn content(raw: Seq<char>) -> Seq<char> {
    if raw.len() > 0 && raw.last() == '\n' {
        raw.drop_last()
    } else {
        raw
    }
}

/// Whether a raw line starts a hunk.
pub open spec fn is_hunk_head(raw: Seq<char>) -> bool {
    strip(content(raw), "@@"@) is Some
}

/// The start of a range in a hunk header: in `-12,3` the 12, 0 where there is none.
pub open spec fn range_start(word: Option<Seq<char>>, sign: char) -> u32 {
    match word {
        Some(w) => if w.len() > 0 && w[0] == sign {
            let range = w.skip(1);
            or_zero_u32(parse_u32(range.take(find(range, ','))))
        } else {
            0
        },
        None => 0,
    }
}

/// The word with number `i` of what follows `@@` in a hunk header.
pub open spec fn head_word(raw: Seq<char>, i: int) -> Option<Seq<char>> {
    match strip(content(raw), "@@"@) {
        Some(rest) => if 0 <= i < words(rest).len() {
            Some(words(rest)[i])
        } else {
            None
        },
        None => None,
    }
}

/// The number behind `n`; line numbers count modulo 2^32.
pub open spec fn next_no(n: u32) -> u32 {
    if n == u32::MAX {
        0
    } else {
        (n + 1) as u32
    }
}

/// What a line inside a hunk is, by its first character.
pub open spec fn body_kind(line: Seq<char>) -> LineKind {
    if line.len() > 0 && line[0] == '+' {
        LineKind::Add
    } else if line.len() > 0 && line[0] == '-' {
        LineKind::Del
    } else if line.len() > 0 && line[0] == '\\' {
        LineKind::Meta
    } else {
        LineKind::Context
    }
}

/// The text of a line inside a hunk, without the sign.
pub open spec fn body_text(line: Seq<char>) -> Seq<char> {
    if line.len() > 0 && (line[0] == '+' || line[0] == '-' || line[0] == ' ') {
        line.skip(1)
    } else {
        line
    }
}

/// Whether a line of this kind counts on the old side.
pub open spec fn on_old(kind: LineKind) -> bool {
    kind == LineKind::Del || kind == LineKind::Context
}

/// Whether a line of this kind counts on the new side.
pub open spec fn on_new(kind: LineKind) -> bool {
    kind == LineKind::Add || kind == LineKind::Context
}

/// A diff that has been read so far, with the number of the next line on each side.
#[verifier::ext_equal]
pub struct Reading {
    pub diff: DiffModel,
    pub old: u32,
    pub new: u32,
}

/// The start of a hunk.
pub open spec fn read_head(r: Reading, raw: Seq<char>) -> Reading {
    Reading {
        diff: DiffModel {
            lines: r.diff.lines.push(
                DiffLineModel {
                    kind: LineKind::Hunk,
                    old_no: None,
                    new_no: None,
                    text: content(raw),
                    hunk: Some(r.diff.hunks.len() as int),
                },
            ),
            hunks: r.diff.hunks.push(raw),
            ..r.diff
        },
        old: range_start(head_word(raw, 0), '-'),
        new: range_start(head_word(raw, 1), '+'),
    }
}

/// A line of the file header.
pub open spec fn read_meta(r: Reading, raw: Seq<char>) -> Reading {
    Reading {
        diff: DiffModel {
            lines: r.diff.lines.push(
                DiffLineModel {
                    kind: LineKind::Meta,
                    old_no: None,
                    new_no: None,
                    text: content(raw),
                    hunk: None,
                },
            ),
            header: r.diff.header + raw,
            ..r.diff
        },
        ..r
    }
}

/// A line of the hunk that was started last.
pub open spec fn read_body(r: Reading, raw: Seq<char>) -> Reading {
    let line = content(raw);
    let kind = body_kind(line);
    Reading {
        diff: DiffModel {
            lines: r.diff.lines.push(
                DiffLineModel {
                    kind,
                    old_no: if on_old(kind) {
                        Some(r.old)
                    } else {
                        None
                    },
                    new_no: if on_new(kind) {
                        Some(r.new)
                    } else {
                        None
                    },
                    text: body_text(line),
                    hunk: Some(r.diff.hunks.len() - 1),
                },
            ),
            hunks: r.diff.hunks.drop_last().push(r.diff.hunks.last() + raw),
            adds: r.diff.adds + if kind == LineKind::Add {
                1int
            } else {
                0
            },
            dels: r.diff.dels + if kind == LineKind::Del {
                1int
            } else {
                0
            },
            ..r.diff
        },
        old: if on_old(kind) {
            next_no(r.old)
        } else {
            r.old
        },
        new: if on_new(kind) {
            next_no(r.new)
        } else {
            r.new
        },
    }
}

pub open spec fn read_line(r: Reading, raw: Seq<char>) -> Reading {
    if is_hunk_head(raw) {
        read_head(r, raw)
    } else if r.diff.hunks.len() == 0 {
        read_meta(r, raw)
    } else {
        read_body(r, raw)
    }
}

/// What raw lines make up, read from the first to the last.
pub open spec fn read_lines(raws: Seq<Seq<char>>) -> Reading
    decreases raws.len(),
{
    if raws.len() == 0 {
        Reading { diff: empty_diff(), old: 0, new: 0 }
    } else {
        read_line(read_lines(raws.drop_last()), raws.last())
    }
}

/// The diff that `text` spells.
pub open spec fn diff_of(text: Seq<char>) -> DiffModel {
    read_lines(split_inclusive(text, '\n')).diff
}

/// The patch with only hunk `i` of a diff.
pub open spec fn patch_of(d: DiffModel, i: int) -> Seq<char> {
    d.header + d.hunks[i]
}

impl Diff {
    /// A patch containing only hunk `i`, suitable for `git apply --cached`.
    pub fn hunk_patch(&self, i: usize) -> (r: String)
        requires
            i < self.hunks@.len(),
        ensures
            r@ == patch_of(self@, i as int),
    {
        let mut s: String = self.header.clone();
        s.append(self.hunks[i].as_str());
        s
    }
}

fn without_newline<'a>(raw: &'a [char]) -> (r: &'a [char])
    ensures
        r@ == content(raw@),
{
    let n: usize = raw.len();
    if n > 0 && raw[n - 1] == '\n' {
        assert(raw@.take(n - 1) =~= raw@.drop_last());
        up_to(raw, n - 1)
    } else {
        raw
    }
}

fn number_after(word: Option<&[char]>, sign: char) -> (r: u32)
    ensures
        r == range_start(
            match word {
                Some(w) => Some(w@),
                None => None,
            },
            sign,
        ),
{
    match word {
        Some(w) => {
            if w.len() > 0 && w[0] == sign {
                let range = from_index(w, 1);
                let n: usize = find_char(range, ',');
                match read_u32(up_to(range, n)) {
                    Some(v) => v,
                    None => 0,
                }
            } else {
                0
            }
        },
        None => 0,
    }
}

fn word_at<'a>(v: &Vec<&'a [char]>, i: usize) -> (r: Option<&'a [char]>)
    ensures
        match r {
            Some(w) => i < v@.len() && w@ == v@[i as int]@,
            None => i >= v@.len(),
        },
{
    if i < v.len() {
        Some(v[i])
    } else {
        None
    }
}

/// Parse `git diff` output (one file) into display lines and raw hunks.
pub fn parse_diff(text: &str) -> (d: Diff)
    ensures
        d@ == diff_of(text@),
{
    let chars = chars_of(text);
    let raws = split_lines(chars.as_slice());
    let mut d: Diff = Diff::default();
    let mut old: u32 = 0;
    let mut new: u32 = 0;
    let mut i: usize = 0;
    let ghost all = pieces(raws@);
    assert(all.take(0) =~= Seq::<Seq<char>>::empty());
    while i < raws.len()
        invariant
            i <= raws@.len(),
            all == pieces(raws@),
            d.adds <= i,
            d.dels <= i,
            d.hunks@.len() <= i,
            (Reading { diff: d@, old, new }) == read_lines(all.take(i as int)),
        decreases raws@.len() - i,
    {
        let raw = raws[i];
        let line = without_newline(raw);
        let ghost before = Reading { diff: d@, old, new };
        assert(all.take(i + 1).drop_last() =~= all.take(i as int));
        assert(all.take(i + 1).last() == raw@);
        match strip_text(line, "@@") {
            Some(rest) => {
                let ws = words_of(rest);
                old = number_after(word_at(&ws, 0), '-');
                new = number_after(word_at(&ws, 1), '+');
                let h: usize = d.hunks.len();
                d.hunks.push(text_of(raw));
                d.lines.push(
                    DiffLine {
                        kind: LineKind::Hunk,
                        old_no: None,
                        new_no: None,
                        text: text_of(line),
                        hunk: Some(h),
                    },
                );
                assert((Reading { diff: d@, old, new }) =~= read_head(before, raw@));
            },
            None => {
                if d.hunks.len() == 0 {
                    push_chars(&mut d.header, raw);
                    d.lines.push(
                        DiffLine {
                            kind: LineKind::Meta,
                            old_no: None,
                            new_no: None,
                            text: text_of(line),
                            hunk: None,
                        },
                    );
                    assert((Reading { diff: d@, old, new }) =~= read_meta(before, raw@));
                } else {
                    let h: usize = d.hunks.len() - 1;
                    let ghost hunks_before = d.hunks@;
                    match d.hunks.pop() {
                        Some(mut current) => {
                            push_chars(&mut current, raw);
                            d.hunks.push(current);
                            assert(models(d.hunks@) =~= models(hunks_before).drop_last().push(
                                models(hunks_before).last() + raw@,
                            ));
                        },
                        None => {},
                    }
                    let (kind, text) = if line.len() == 0 {
                        (LineKind::Context, line)
                    } else if line[0] == '+' {
                        (LineKind::Add, from_index(line, 1))
                    } else if line[0] == '-' {
                        (LineKind::Del, from_index(line, 1))
                    } else if line[0] == ' ' {
                        (LineKind::Context, from_index(line, 1))
                    } else if line[0] == '\\' {
                        (LineKind::Meta, line)
                    } else {
                        (LineKind::Context, line)
                    };
                    let mut old_no: Option<u32> = None;
                    let mut new_no: Option<u32> = None;
                    if kind == LineKind::Add || kind == LineKind::Context {
                        new_no = Some(new);
                        new = new.wrapping_add(1);
                    }
                    if kind == LineKind::Del || kind == LineKind::Context {
                        old_no = Some(old);
                        old = old.wrapping_add(1);
                    }
                    if kind == LineKind::Add {
                        d.adds = d.adds + 1;
                    }
                    if kind == LineKind::Del {
                        d.dels = d.dels + 1;
                    }
                    d.lines.push(
                        DiffLine { kind, old_no, new_no, text: text_of(text), hunk: Some(h) },
                    );
                    assert((Reading { diff: d@, old, new }) =~= read_body(before, raw@));
                }
            },
        }
        i += 1;
    }
    assert(all.take(all.len() as int) =~= all);
    d
}

} // verus!
