//! The commit history.

use vstd::prelude::*;
use vstd::utf8::{
    decode_utf8, encode_utf8, encode_utf8_decode_utf8, encode_utf8_valid_utf8, is_ascii_chars,
    is_ascii_chars_encode_utf8, is_char_boundary, is_char_boundary_iff_is_leading_byte,
    is_char_boundary_start_end_of_seq,
};

use crate::number::{or_zero_i64, parse_i64, read_i64};
use crate::text::{
    chars_of, clone_texts, filter_map, find_char, from_index, group_models, lines, lines_of, models,
    opt_model, pieces, split, split_chars, split_once, text_of, texts_of, trim, trim_chars,
    trim_start_char, trim_start_of, up_to, words, words_of,
};

verus! {

broadcast use group_models;

/// One commit of `git log`.
#[derive(Debug, PartialEq, Eq)]
pub struct Commit {
    pub hash: String,
    pub parents: Vec<String>,
    pub author: String,
    /// Unix seconds.
    pub time: i64,
    /// Decorations (`HEAD -> main, origin/main`).
    pub refs: String,
    pub subject: String,
}

/// The contents of a [`Commit`].
pub struct CommitModel {
    pub hash: Seq<char>,
    pub parents: Seq<Seq<char>>,
    pub author: Seq<char>,
    pub time: i64,
    pub refs: Seq<char>,
    pub subject: Seq<char>,
}

impl View for Commit {
    type V = CommitModel;

    open spec fn view(&self) -> CommitModel {
        CommitModel {
            hash: self.hash@,
            parents: models(self.parents@),
            author: self.author@,
            time: self.time,
            refs: self.refs@,
            subject: self.subject@,
        }
    }
}

impl Clone for Commit {
    fn clone(&self) -> (r: Commit)
        ensures
            r@ == self@,
    {
        Commit {
            hash: self.hash.clone(),
            parents: clone_texts(&self.parents),
            author: self.author.clone(),
            time: self.time,
            refs: self.refs.clone(),
            subject: self.subject.clone(),
        }
    }
}

/// The commit in one record of the log: six fields with U+001F between them, with line breaks
/// in front; none where the record is blank or has fewer fields.
pub open spec fn commit_of(record: Seq<char>) -> Option<CommitModel> {
    let f = split(trim_start_of(record, '\n'), '\u{1f}');
    if trim(record).len() == 0 || f.len() < 6 {
        None
    } else {
        Some(
            CommitModel {
                hash: f[0],
                parents: words(f[1]),
                author: f[2],
                time: or_zero_i64(parse_i64(f[3])),
                refs: f[4],
                subject: f[5],
            },
        )
    }
}

/// The commits of a log: its records end with U+001E.
pub open spec fn commits_of(text: Seq<char>) -> Seq<CommitModel> {
    filter_map(split(text, '\u{1e}'), |record: Seq<char>| commit_of(record))
}

fn read_commit(record: &[char]) -> (r: Option<Commit>)
    ensures
        match r {
            Some(c) => commit_of(record@) == Some(c@),
            None => commit_of(record@) is None,
        },
{
    if trim_chars(record).len() == 0 {
        return None;
    }
    let f = split_chars(trim_start_char(record, '\n'), '\u{1f}');
    if f.len() < 6 {
        return None;
    }
    let ghost fs = pieces(f@);
    assert(forall|k: int| 0 <= k < f@.len() ==> fs[k] == f@[k]@);
    Some(
        Commit {
            hash: text_of(f[0]),
            parents: texts_of(&words_of(f[1])),
            author: text_of(f[2]),
            time: match read_i64(f[3]) {
                Some(n) => n,
                None => 0,
            },
            refs: text_of(f[4]),
            subject: text_of(f[5]),
        },
    )
}

/// Parse `git log --format=LOG_FORMAT`.
pub fn parse_log(text: &str) -> (r: Vec<Commit>)
    ensures
        models(r@) == commits_of(text@),
{
    let chars = chars_of(text);
    let records = split_chars(chars.as_slice(), '\u{1e}');
    let mut out: Vec<Commit> = Vec::new();
    let mut i: usize = 0;
    let ghost all = pieces(records@);
    let ghost f = |record: Seq<char>| commit_of(record);
    while i < records.len()
        invariant
            i <= records@.len(),
            all == pieces(records@),
            f == (|record: Seq<char>| commit_of(record)),
            models(out@) == filter_map(all.take(i as int), f),
        decreases records@.len() - i,
    {
        assert(all.take(i + 1).drop_last() =~= all.take(i as int));
        assert(all.take(i + 1).last() == records@[i as int]@);
        if let Some(c) = read_commit(records[i]) {
            out.push(c);
        }
        i += 1;
    }
    assert(all.take(all.len() as int) =~= all);
    out
}

/// How many bytes the first `n` bytes of a text are: all of them where it has fewer.
pub open spec fn head_len(s: Seq<char>, n: int) -> int {
    let len = encode_utf8(s).len() as int;
    if len < n {
        len
    } else {
        n
    }
}

/// Whether the first `n` bytes of a text are whole characters.
pub open spec fn cuts_at(s: Seq<char>, n: int) -> bool {
    is_char_boundary(encode_utf8(s), head_len(s, n))
}

/// The first `n` bytes of a text.
pub open spec fn head_text(s: Seq<char>, n: int) -> Seq<char> {
    decode_utf8(encode_utf8(s).take(head_len(s, n)))
}

/// The first `n` bytes of a text, or all where it has fewer.
pub fn head_bytes<'a>(s: &'a str, n: usize) -> (r: &'a str)
    requires
        cuts_at(s@, n as int),
    ensures
        r@ == head_text(s@, n as int),
{
    broadcast use encode_utf8_decode_utf8;

    let len: usize = s.as_bytes().len();
    let end: usize = if len < n {
        len
    } else {
        n
    };
    let r = s.split_at(end).0;
    assert(encode_utf8(r@) =~= encode_utf8(s@).take(end as int));
    r
}

/// The first bytes of a text in ASCII, such as a hash, are its first characters.
pub proof fn heads_of_ascii(s: Seq<char>, n: nat)
    requires
        is_ascii_chars(s),
    ensures
        cuts_at(s, n as int),
        head_text(s, n as int) == if s.len() < n {
            s
        } else {
            s.take(n as int)
        },
{
    let k = head_len(s, n as int);
    let head = s.take(k);
    is_ascii_chars_encode_utf8(s);
    is_ascii_chars_encode_utf8(head);
    encode_utf8_valid_utf8(s);
    assert(encode_utf8(s).take(k) =~= encode_utf8(head));
    encode_utf8_decode_utf8(head);
    assert(s.len() < n ==> head =~= s);
    is_char_boundary_start_end_of_seq(encode_utf8(s));
    if k < s.len() {
        assert(encode_utf8(s)[k] == s[k] as u8);
        is_char_boundary_iff_is_leading_byte(encode_utf8(s), k);
        assert(encode_utf8(s)[k] <= 0x7f);
    }
}

impl Commit {
    pub fn short(&self) -> (r: &str)
        requires
            cuts_at(self@.hash, 8),
        ensures
            r@ == head_text(self@.hash, 8),
    {
        head_bytes(self.hash.as_str(), 8)
    }
}

#[derive(Debug, PartialEq, Eq)]
pub struct CommitDetail {
    pub hash: String,
    pub parents: Vec<String>,
    pub author: String,
    pub email: String,
    pub time: i64,
    pub refs: String,
    /// Full message (subject + body).
    pub message: String,
    /// (status letter, path)
    pub files: Vec<(char, String)>,
}

/// The contents of a [`CommitDetail`].
#[verifier::ext_equal]
pub struct CommitDetailModel {
    pub hash: Seq<char>,
    pub parents: Seq<Seq<char>>,
    pub author: Seq<char>,
    pub email: Seq<char>,
    pub time: i64,
    pub refs: Seq<char>,
    pub message: Seq<char>,
    pub files: Seq<(char, Seq<char>)>,
}

/// The contents of a list of files.
pub open spec fn file_models(files: Seq<(char, String)>) -> Seq<(char, Seq<char>)> {
    files.map_values(|f: (char, String)| (f.0, f.1@))
}

impl View for CommitDetail {
    type V = CommitDetailModel;

    open spec fn view(&self) -> CommitDetailModel {
        CommitDetailModel {
            hash: self.hash@,
            parents: models(self.parents@),
            author: self.author@,
            email: self.email@,
            time: self.time,
            refs: self.refs@,
            message: self.message@,
            files: file_models(self.files@),
        }
    }
}

impl Clone for CommitDetail {
    fn clone(&self) -> (r: CommitDetail)
        ensures
            r@ == self@,
    {
        let mut files: Vec<(char, String)> = Vec::new();
        let mut i: usize = 0;
        while i < self.files.len()
            invariant
                i <= self.files@.len(),
                files@.len() == i,
                forall|k: int|
                    0 <= k < i ==> (#[trigger] files@[k]).0 == self.files@[k].0 && files@[k].1@
                        == self.files@[k].1@,
            decreases self.files@.len() - i,
        {
            files.push((self.files[i].0, self.files[i].1.clone()));
            i += 1;
        }
        assert(file_models(files@) =~= file_models(self.files@));
        CommitDetail {
            hash: self.hash.clone(),
            parents: clone_texts(&self.parents),
            author: self.author.clone(),
            email: self.email.clone(),
            time: self.time,
            refs: self.refs.clone(),
            message: self.message.clone(),
            files,
        }
    }
}

/// A commit of which only the hash is known.
pub open spec fn bare_detail(hash: Seq<char>) -> CommitDetailModel {
    CommitDetailModel {
        hash,
        parents: seq![],
        author: seq![],
        email: seq![],
        time: 0,
        refs: seq![],
        message: seq![],
        files: seq![],
    }
}

impl Default for CommitDetail {
    fn default() -> (d: CommitDetail)
        ensures
            d@ == bare_detail(seq![]),
    {
        let d = CommitDetail {
            hash: String::new(),
            parents: Vec::new(),
            author: String::new(),
            email: String::new(),
            time: 0,
            refs: String::new(),
            message: String::new(),
            files: Vec::new(),
        };
        assert(d@ =~= bare_detail(seq![]));
        d
    }
}

/// One line of `--name-status`: the first letter, and the path behind the last tab (a rename
/// names the old path and then the new one).
pub open spec fn file_of(line: Seq<char>) -> Option<(char, Seq<char>)> {
    match split_once(line, '\t') {
        Some((st, path)) => if st.len() > 0 {
            Some((st[0], split(path, '\t').last()))
        } else {
            None
        },
        None => None,
    }
}

/// The files in the lines behind the record.
pub open spec fn files_of(text: Seq<char>) -> Seq<(char, Seq<char>)> {
    filter_map(lines(text), |line: Seq<char>| file_of(line))
}

/// The commit that `git show` prints: a record of seven fields with U+001F between them, U+001E,
/// and the changed files; none where there is no U+001E or there are fewer fields.
pub open spec fn detail_of(text: Seq<char>) -> Option<CommitDetailModel> {
    match split_once(text, '\u{1e}') {
        Some((rec, files)) => {
            let f = split(rec, '\u{1f}');
            if f.len() < 7 {
                None
            } else {
                Some(
                    CommitDetailModel {
                        hash: f[0],
                        parents: words(f[1]),
                        author: f[2],
                        email: f[3],
                        time: or_zero_i64(parse_i64(f[4])),
                        refs: f[5],
                        message: trim(f[6]),
                        files: files_of(files),
                    },
                )
            }
        },
        None => None,
    }
}

fn read_file(line: &[char]) -> (r: Option<(char, String)>)
    ensures
        match r {
            Some(f) => file_of(line@) == Some((f.0, f.1@)),
            None => file_of(line@) is None,
        },
{
    let i: usize = find_char(line, '\t');
    if i >= line.len() {
        return None;
    }
    let st = up_to(line, i);
    if st.len() == 0 {
        return None;
    }
    let paths = split_chars(from_index(line, i + 1), '\t');
    assert(pieces(paths@).last() == paths@[paths@.len() - 1]@);
    Some((st[0], text_of(paths[paths.len() - 1])))
}

fn read_files(text: &[char]) -> (r: Vec<(char, String)>)
    ensures
        file_models(r@) == files_of(text@),
{
    let ls = lines_of(text);
    let mut out: Vec<(char, String)> = Vec::new();
    let mut i: usize = 0;
    let ghost all = pieces(ls@);
    let ghost f = |line: Seq<char>| file_of(line);
    assert(file_models(out@) =~= filter_map(all.take(0), f));
    while i < ls.len()
        invariant
            i <= ls@.len(),
            all == pieces(ls@),
            f == (|line: Seq<char>| file_of(line)),
            file_models(out@) == filter_map(all.take(i as int), f),
        decreases ls@.len() - i,
    {
        assert(all.take(i + 1).drop_last() =~= all.take(i as int));
        assert(all.take(i + 1).last() == ls@[i as int]@);
        if let Some(file) = read_file(ls[i]) {
            let ghost before = out@;
            out.push(file);
            assert(file_models(out@) =~= file_models(before).push((file.0, file.1@)));
        }
        i += 1;
    }
    assert(all.take(all.len() as int) =~= all);
    out
}

/// Parse `git show --format=SHOW_FORMAT --name-status <hash>`.
pub fn parse_detail(text: &str) -> (r: Option<CommitDetail>)
    ensures
        opt_model(r) == detail_of(text@),
{
    let chars = chars_of(text);
    let s = chars.as_slice();
    let i: usize = find_char(s, '\u{1e}');
    if i >= s.len() {
        return None;
    }
    let rec = up_to(s, i);
    let files = from_index(s, i + 1);
    let f = split_chars(rec, '\u{1f}');
    if f.len() < 7 {
        return None;
    }
    let ghost fs = pieces(f@);
    assert(forall|k: int| 0 <= k < f@.len() ==> fs[k] == f@[k]@);
    let d = CommitDetail {
        hash: text_of(f[0]),
        parents: texts_of(&words_of(f[1])),
        author: text_of(f[2]),
        email: text_of(f[3]),
        time: match read_i64(f[4]) {
            Some(n) => n,
            None => 0,
        },
        refs: text_of(f[5]),
        message: text_of(trim_chars(f[6])),
        files: read_files(files),
    };
    Some(d)
}

} // verus!
