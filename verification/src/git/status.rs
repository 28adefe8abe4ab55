//! The working tree: `git status --porcelain=v2 -z --branch`.

use vstd::prelude::*;

use crate::git::bytes::{lossy, lossy_text, output_text};
use crate::number::{or_zero_u32, parse_u32, read_u32};
use crate::text::{
    chars_of, find_char, from_index, group_models, is_text, models, opt_model, pieces, split,
    split_bytes, split_once, strip, strip_text, text_of, up_to, words, words_of,
};

verus! {

broadcast use group_models;

/// One entry of `git status`: a path with its index (`staged`) and worktree (`unstaged`) state.
#[derive(Debug, PartialEq, Eq)]
pub struct Change {
    pub path: String,
    /// Old path of a rename / copy.
    pub orig_path: Option<String>,
    /// Index status letter (`M`, `A`, `D`, `R`, `C`, `T`), `.` = nothing staged.
    pub staged: char,
    /// Worktree status letter, `.` = nothing unstaged. `?` = untracked, `U` = unmerged.
    pub unstaged: char,
}

/// The contents of a [`Change`].
pub struct ChangeModel {
    pub path: Seq<char>,
    pub orig_path: Option<Seq<char>>,
    pub staged: char,
    pub unstaged: char,
}

impl View for Change {
    type V = ChangeModel;

    open spec fn view(&self) -> ChangeModel {
        ChangeModel {
            path: self.path@,
            orig_path: opt_model(self.orig_path),
            staged: self.staged,
            unstaged: self.unstaged,
        }
    }
}

impl ChangeModel {
    pub open spec fn untracked(self) -> bool {
        self.unstaged == '?'
    }

    pub open spec fn unmerged(self) -> bool {
        self.unstaged == 'U'
    }

    pub open spec fn in_index(self) -> bool {
        self.staged != '.' && self.staged != '?' && !self.unmerged()
    }

    pub open spec fn in_worktree(self) -> bool {
        self.unstaged != '.'
    }
}

impl Clone for Change {
    fn clone(&self) -> (r: Change)
        ensures
            r@ == self@,
    {
        Change {
            path: self.path.clone(),
            orig_path: match &self.orig_path {
                Some(p) => Some(p.clone()),
                None => None,
            },
            staged: self.staged,
            unstaged: self.unstaged,
        }
    }
}

impl Change {
    pub fn is_untracked(&self) -> (r: bool)
        ensures
            r == self@.untracked(),
    {
        self.unstaged == '?'
    }

    pub fn is_unmerged(&self) -> (r: bool)
        ensures
            r == self@.unmerged(),
    {
        self.unstaged == 'U'
    }

    pub fn has_staged(&self) -> (r: bool)
        ensures
            r == self@.in_index(),
    {
        self.staged != '.' && self.staged != '?' && !self.is_unmerged()
    }

    pub fn has_unstaged(&self) -> (r: bool)
        ensures
            r == self@.in_worktree(),
    {
        self.unstaged != '.'
    }
}

/// The tag of a status letter.
pub open spec fn tag_of(c: char) -> Seq<char> {
    if c == 'M' {
        "MOD"@
    } else if c == 'A' {
        "ADD"@
    } else if c == 'D' {
        "DEL"@
    } else if c == 'R' {
        "REN"@
    } else if c == 'C' {
        "COPY"@
    } else if c == 'T' {
        "TYPE"@
    } else if c == '?' {
        "NEW"@
    } else if c == 'U' {
        "CONFLICT"@
    } else {
        "--"@
    }
}

/// Human tag for a status letter.
pub fn status_tag(c: char) -> (r: &'static str)
    ensures
        r@ == tag_of(c),
{
    match c {
        'M' => "MOD",
        'A' => "ADD",
        'D' => "DEL",
        'R' => "REN",
        'C' => "COPY",
        'T' => "TYPE",
        '?' => "NEW",
        'U' => "CONFLICT",
        _ => "--",
    }
}

#[derive(Debug, PartialEq, Eq)]
pub struct Status {
    pub head: String,
    /// `(detached)` when HEAD is not on a branch.
    pub branch: String,
    pub upstream: String,
    pub ahead: u32,
    pub behind: u32,
    pub changes: Vec<Change>,
}

/// The contents of a [`Status`].
#[verifier::ext_equal]
pub struct StatusModel {
    pub head: Seq<char>,
    pub branch: Seq<char>,
    pub upstream: Seq<char>,
    pub ahead: u32,
    pub behind: u32,
    pub changes: Seq<ChangeModel>,
}

impl View for Status {
    type V = StatusModel;

    open spec fn view(&self) -> StatusModel {
        StatusModel {
            head: self.head@,
            branch: self.branch@,
            upstream: self.upstream@,
            ahead: self.ahead,
            behind: self.behind,
            changes: models(self.changes@),
        }
    }
}

impl Clone for Status {
    fn clone(&self) -> (r: Status)
        ensures
            r@ == self@,
    {
        let mut changes: Vec<Change> = Vec::new();
        let mut i: usize = 0;
        while i < self.changes.len()
            invariant
                i <= self.changes@.len(),
                changes@.len() == i,
                forall|k: int| 0 <= k < i ==> (#[trigger] changes@[k])@ == self.changes@[k]@,
            decreases self.changes@.len() - i,
        {
            changes.push(self.changes[i].clone());
            i += 1;
        }
        assert(models(changes@) =~= models(self.changes@));
        Status {
            head: self.head.clone(),
            branch: self.branch.clone(),
            upstream: self.upstream.clone(),
            ahead: self.ahead,
            behind: self.behind,
            changes,
        }
    }
}

/// Nothing known, nothing changed.
pub open spec fn empty_status() -> StatusModel {
    StatusModel {
        head: seq![],
        branch: seq![],
        upstream: seq![],
        ahead: 0,
        behind: 0,
        changes: seq![],
    }
}

impl Default for Status {
    fn default() -> (st: Status)
        ensures
            st@ == empty_status(),
    {
        Status {
            head: String::new(),
            branch: String::new(),
            upstream: String::new(),
            ahead: 0,
            behind: 0,
            changes: Vec::new(),
        }
    }
}

/// The counts `+ahead -behind` taken from words, later ones over earlier ones.
pub open spec fn count_words(st: StatusModel, toks: Seq<Seq<char>>) -> StatusModel
    decreases toks.len(),
{
    if toks.len() == 0 {
        st
    } else {
        let tok = toks[0];
        let rest = toks.drop_first();
        if tok.len() > 0 && tok[0] == '+' {
            count_words(
                StatusModel { ahead: or_zero_u32(parse_u32(tok.skip(1))), ..st },
                rest,
            )
        } else if tok.len() > 0 && tok[0] == '-' {
            count_words(
                StatusModel { behind: or_zero_u32(parse_u32(tok.skip(1))), ..st },
                rest,
            )
        } else {
            count_words(st, rest)
        }
    }
}

/// The part before the first space, and the part behind it (nothing where there is none).
pub open spec fn first_and_rest(s: Seq<char>) -> (Seq<char>, Seq<char>) {
    match split_once(s, ' ') {
        Some(p) => p,
        None => (s, seq![]),
    }
}

/// A header line `key value`.
pub open spec fn with_header(st: StatusModel, line: Seq<char>) -> StatusModel {
    let (key, value) = first_and_rest(line);
    if key == "branch.oid"@ {
        StatusModel { head: value, ..st }
    } else if key == "branch.head"@ {
        StatusModel { branch: value, ..st }
    } else if key == "branch.upstream"@ {
        StatusModel { upstream: value, ..st }
    } else if key == "branch.ab"@ {
        count_words(st, words(value))
    } else {
        st
    }
}

/// What stands behind the space with number `n`; nothing where there are fewer.
pub open spec fn behind_spaces(s: Seq<char>, n: int) -> Seq<char>
    decreases n,
{
    if n <= 0 {
        s
    } else {
        match split_once(s, ' ') {
            Some((_, rest)) => behind_spaces(rest, n - 1),
            None => seq![],
        }
    }
}

pub open spec fn letter(s: Seq<char>, i: int) -> char {
    if 0 <= i < s.len() {
        s[i]
    } else {
        '.'
    }
}

/// A changed entry `XY ... path` with `n` columns before the path. The status letters are X and
/// Y, unless the entry is unmerged.
pub open spec fn changed_entry(
    rest: Seq<char>,
    n: int,
    orig_path: Option<Seq<char>>,
    unmerged: bool,
) -> ChangeModel {
    let xy = first_and_rest(rest).0;
    ChangeModel {
        path: behind_spaces(rest, n),
        orig_path,
        staged: if unmerged {
            '.'
        } else {
            letter(xy, 0)
        },
        unstaged: if unmerged {
            'U'
        } else {
            letter(xy, 1)
        },
    }
}

pub open spec fn with_change(st: StatusModel, c: ChangeModel) -> StatusModel {
    StatusModel { changes: st.changes.push(c), ..st }
}

/// The status that the fields of the output spell, read on top of `st`: headers (`# key value`),
/// ordinary (`1`), renamed (`2`, with the old path in the next field), unmerged (`u`) and
/// untracked (`?`) entries; other fields say nothing.
pub open spec fn read_fields(st: StatusModel, fields: Seq<Seq<char>>) -> StatusModel
    decreases fields.len(),
{
    if fields.len() == 0 {
        st
    } else {
        let f = fields[0];
        let more = fields.drop_first();
        let (kind, rest) = first_and_rest(f);
        if strip(f, "# "@) is Some {
            read_fields(with_header(st, strip(f, "# "@).unwrap()), more)
        } else if kind == "1"@ {
            read_fields(with_change(st, changed_entry(rest, 7, None, false)), more)
        } else if kind == "2"@ {
            if more.len() > 0 {
                read_fields(
                    with_change(st, changed_entry(rest, 8, Some(more[0]), false)),
                    more.drop_first(),
                )
            } else {
                with_change(st, changed_entry(rest, 8, None, false))
            }
        } else if kind == "u"@ {
            read_fields(with_change(st, changed_entry(rest, 9, None, true)), more)
        } else if kind == "?"@ {
            read_fields(
                with_change(
                    st,
                    ChangeModel { path: rest, orig_path: None, staged: '.', unstaged: '?' },
                ),
                more,
            )
        } else {
            read_fields(st, more)
        }
    }
}

/// The fields of the output: its parts between NUL bytes, as text.
pub open spec fn status_fields(bytes: Seq<u8>) -> Seq<Seq<char>> {
    split(bytes, 0u8).map_values(|b: Seq<u8>| lossy_text(b))
}

/// The fields of the output, each the text that its bytes encode where they are UTF-8.
pub open spec fn plain_fields(bytes: Seq<u8>) -> Seq<Seq<char>> {
    split(bytes, 0u8).map_values(|b: Seq<u8>| output_text(b))
}

fn cut<'a>(s: &'a [char]) -> (r: (&'a [char], &'a [char]))
    ensures
        (r.0@, r.1@) == first_and_rest(s@),
{
    let i: usize = find_char(s, ' ');
    if i < s.len() {
        (up_to(s, i), from_index(s, i + 1))
    } else {
        let end = from_index(s, s.len());
        assert(end@ =~= Seq::<char>::empty());
        (s, end)
    }
}

fn skip_spaces<'a>(s: &'a [char], n: usize) -> (r: &'a [char])
    ensures
        r@ == behind_spaces(s@, n as int),
    decreases n,
{
    if n == 0 {
        s
    } else {
        let i: usize = find_char(s, ' ');
        if i < s.len() {
            skip_spaces(from_index(s, i + 1), n - 1)
        } else {
            let end = from_index(s, s.len());
            assert(end@ =~= Seq::<char>::empty());
            end
        }
    }
}

fn read_entry(rest: &[char], n: usize, orig_path: Option<String>, unmerged: bool) -> (c: Change)
    ensures
        c@ == changed_entry(rest@, n as int, opt_model(orig_path), unmerged),
{
    let xy = cut(rest).0;
    let path = text_of(skip_spaces(rest, n));
    let (staged, unstaged) = if unmerged {
        ('.', 'U')
    } else {
        (
            if xy.len() > 0 {
                xy[0]
            } else {
                '.'
            },
            if xy.len() > 1 {
                xy[1]
            } else {
                '.'
            },
        )
    };
    Change { path, orig_path, staged, unstaged }
}

fn read_counts(st: &mut Status, value: &[char])
    ensures
        final(st)@ == count_words(old(st)@, words(value@)),
{
    let toks = words_of(value);
    let mut i: usize = 0;
    let ghost all = words(value@);
    assert(all.skip(0) =~= all);
    while i < toks.len()
        invariant
            i <= toks@.len(),
            all == pieces(toks@),
            count_words(st@, all.skip(i as int)) == count_words(old(st)@, all),
        decreases toks@.len() - i,
    {
        let tok = toks[i];
        assert(all.skip(i as int)[0] == tok@);
        assert(all.skip(i as int).drop_first() =~= all.skip(i + 1));
        if tok.len() > 0 && tok[0] == '+' {
            st.ahead = match read_u32(from_index(tok, 1)) {
                Some(n) => n,
                None => 0,
            };
        } else if tok.len() > 0 && tok[0] == '-' {
            st.behind = match read_u32(from_index(tok, 1)) {
                Some(n) => n,
                None => 0,
            };
        }
        i += 1;
    }
}

fn read_header(st: &mut Status, line: &[char])
    ensures
        final(st)@ == with_header(old(st)@, line@),
{
    let (key, value) = cut(line);
    if is_text(key, "branch.oid") {
        st.head = text_of(value);
    } else if is_text(key, "branch.head") {
        st.branch = text_of(value);
    } else if is_text(key, "branch.upstream") {
        st.upstream = text_of(value);
    } else if is_text(key, "branch.ab") {
        read_counts(st, value);
    }
}

/// The status that the fields of the output spell.
pub fn status_from_fields(fields: &Vec<String>) -> (st: Status)
    ensures
        st@ == read_fields(empty_status(), models(fields@)),
{
    let mut st: Status = Status::default();
    let mut i: usize = 0;
    let ghost all = models(fields@);
    assert(all.skip(0) =~= all);
    while i < fields.len()
        invariant
            i <= fields@.len(),
            all == models(fields@),
            read_fields(st@, all.skip(i as int)) == read_fields(empty_status(), all),
        decreases fields@.len() - i,
    {
        let chars = chars_of(fields[i].as_str());
        let f = chars.as_slice();
        let ghost todo = all.skip(i as int);
        assert(todo[0] == f@);
        assert(todo.drop_first() =~= all.skip(i + 1));
        let (kind, rest) = cut(f);
        let ghost before = st@;
        if let Some(h) = strip_text(f, "# ") {
            read_header(&mut st, h);
        } else if is_text(kind, "1") {
            st.changes.push(read_entry(rest, 7, None, false));
            assert(st@ =~= with_change(before, changed_entry(rest@, 7, None, false)));
        } else if is_text(kind, "2") {
            if i + 1 < fields.len() {
                let orig = Some(fields[i + 1].clone());
                assert(todo.drop_first()[0] == fields@[i + 1]@);
                assert(todo.drop_first().drop_first() =~= all.skip(i + 2));
                st.changes.push(read_entry(rest, 8, orig, false));
                assert(st@ =~= with_change(
                    before,
                    changed_entry(rest@, 8, Some(fields@[i + 1]@), false),
                ));
                i += 1;
            } else {
                st.changes.push(read_entry(rest, 8, None, false));
                assert(st@ =~= with_change(before, changed_entry(rest@, 8, None, false)));
            }
        } else if is_text(kind, "u") {
            st.changes.push(read_entry(rest, 9, None, true));
            assert(st@ =~= with_change(before, changed_entry(rest@, 9, None, true)));
        } else if is_text(kind, "?") {
            st.changes.push(
                Change { path: text_of(rest), orig_path: None, staged: '.', unstaged: '?' },
            );
            assert(st@ =~= with_change(
                before,
                ChangeModel { path: rest@, orig_path: None, staged: '.', unstaged: '?' },
            ));
        }
        i += 1;
    }
    assert(all.skip(all.len() as int) =~= Seq::<Seq<char>>::empty());
    st
}

/// Parse `git status --porcelain=v2 -z --branch`.
pub fn parse_status(bytes: &[u8]) -> (st: Status)
    ensures
        st@ == read_fields(empty_status(), status_fields(bytes@)),
        st@ == read_fields(empty_status(), plain_fields(bytes@)),
{
    let parts = split_bytes(bytes, 0);
    let mut fields: Vec<String> = Vec::new();
    let mut i: usize = 0;
    while i < parts.len()
        invariant
            i <= parts@.len(),
            fields@.len() == i,
            forall|k: int|
                0 <= k < i ==> (#[trigger] fields@[k])@ == lossy_text(parts@[k]@) && fields@[k]@
                    == output_text(parts@[k]@),
        decreases parts@.len() - i,
    {
        fields.push(lossy(parts[i]));
        i += 1;
    }
    assert(models(fields@) =~= status_fields(bytes@)) by {
        assert forall|k: int| 0 <= k < fields@.len() implies models(fields@)[k] == status_fields(
            bytes@,
        )[k] by {
            assert(pieces(parts@)[k] == parts@[k]@);
            assert(fields@[k]@ == lossy_text(parts@[k]@));
        }
    }
    assert(models(fields@) =~= plain_fields(bytes@)) by {
        assert forall|k: int| 0 <= k < fields@.len() implies models(fields@)[k] == plain_fields(
            bytes@,
        )[k] by {
            assert(pieces(parts@)[k] == parts@[k]@);
            assert(fields@[k]@ == output_text(parts@[k]@));
        }
    }
    status_from_fields(&fields)
}

/// A change is staged exactly when its index letter names one and it is no conflict, whichever
/// letter it is; it is in the working tree exactly when its other letter names one.
pub proof fn sides_go_by_their_letters(c: ChangeModel)
    ensures
        c.in_index() <==> c.staged != '.' && c.staged != '?' && c.unstaged != 'U',
        c.in_worktree() <==> c.unstaged != '.',
        c.untracked() <==> c.unstaged == '?',
        c.unmerged() <==> c.unstaged == 'U',
        c.unstaged != 'U' && (c.staged == 'M' || c.staged == 'A' || c.staged == 'D' || c.staged
            == 'R' || c.staged == 'C' || c.staged == 'T') ==> c.in_index(),
{
}

/// Each letter has a tag of its own, and any other character has dashes.
pub proof fn letters_have_their_tags(c: char)
    ensures
        tag_of('M') == "MOD"@ && tag_of('A') == "ADD"@ && tag_of('D') == "DEL"@,
        tag_of('R') == "REN"@ && tag_of('C') == "COPY"@ && tag_of('T') == "TYPE"@,
        tag_of('?') == "NEW"@ && tag_of('U') == "CONFLICT"@,
        c != 'M' && c != 'A' && c != 'D' && c != 'R' && c != 'C' && c != 'T' && c != '?' && c != 'U'
            ==> tag_of(c) == "--"@,
{
}

} // verus!
