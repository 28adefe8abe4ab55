//! Branches, remote branches and tags: `git for-each-ref`.

use vstd::prelude::*;

use crate::text::{
    chars_of, ends_with_text, filter_map, group_models, is_text, lines, lines_of, models, pieces,
    split, split_chars, strip, strip_text, text_of,
};

verus! {

broadcast use group_models;

#[derive(Clone, Copy, Debug, PartialEq, Eq, Structural)]
pub enum RefKind {
    Local,
    Remote,
    Tag,
}

#[derive(Debug, PartialEq, Eq)]
pub struct Ref {
    pub name: String,
    pub kind: RefKind,
    pub current: bool,
    pub upstream: String,
    pub hash: String,
}

/// The contents of a [`Ref`].
pub struct RefModel {
    pub name: Seq<char>,
    pub kind: RefKind,
    pub current: bool,
    pub upstream: Seq<char>,
    pub hash: Seq<char>,
}

impl View for Ref {
    type V = RefModel;

    open spec fn view(&self) -> RefModel {
        RefModel {
            name: self.name@,
            kind: self.kind,
            current: self.current,
            upstream: self.upstream@,
            hash: self.hash@,
        }
    }
}

impl Clone for Ref {
    fn clone(&self) -> (r: Ref)
        ensures
            r@ == self@,
    {
        Ref {
            name: self.name.clone(),
            kind: self.kind,
            current: self.current,
            upstream: self.upstream.clone(),
            hash: self.hash.clone(),
        }
    }
}

/// What a full ref name is: a branch, a remote branch (but not the `HEAD` of a remote) or a tag,
/// with its short name.
pub open spec fn kind_and_name(full: Seq<char>) -> Option<(RefKind, Seq<char>)> {
    if strip(full, "refs/heads/"@) is Some {
        Some((RefKind::Local, strip(full, "refs/heads/"@).unwrap()))
    } else if strip(full, "refs/remotes/"@) is Some {
        let name = strip(full, "refs/remotes/"@).unwrap();
        if "/HEAD"@.is_suffix_of(name) {
            None
        } else {
            Some((RefKind::Remote, name))
        }
    } else if strip(full, "refs/tags/"@) is Some {
        Some((RefKind::Tag, strip(full, "refs/tags/"@).unwrap()))
    } else {
        None
    }
}

/// The ref in one line: four fields with U+001F between them.
pub open spec fn ref_of(line: Seq<char>) -> Option<RefModel> {
    let f = split(line, '\u{1f}');
    if f.len() < 4 {
        None
    } else {
        match kind_and_name(f[0]) {
            Some((kind, name)) => Some(
                RefModel { name, kind, current: f[1] == "*"@, upstream: f[2], hash: f[3] },
            ),
            None => None,
        }
    }
}

/// The refs that the lines name.
pub open spec fn refs_of(text: Seq<char>) -> Seq<RefModel> {
    filter_map(lines(text), |line: Seq<char>| ref_of(line))
}

fn classify<'a>(full: &'a [char]) -> (r: Option<(RefKind, &'a [char])>)
    ensures
        match r {
            Some(kn) => kind_and_name(full@) == Some((kn.0, kn.1@)),
            None => kind_and_name(full@) is None,
        },
{
    if let Some(name) = strip_text(full, "refs/heads/") {
        Some((RefKind::Local, name))
    } else if let Some(name) = strip_text(full, "refs/remotes/") {
        if ends_with_text(name, "/HEAD") {
            None
        } else {
            Some((RefKind::Remote, name))
        }
    } else if let Some(name) = strip_text(full, "refs/tags/") {
        Some((RefKind::Tag, name))
    } else {
        None
    }
}

fn read_ref(line: &[char]) -> (r: Option<Ref>)
    ensures
        match r {
            Some(x) => ref_of(line@) == Some(x@),
            None => ref_of(line@) is None,
        },
{
    let f = split_chars(line, '\u{1f}');
    if f.len() < 4 {
        return None;
    }
    let ghost fs = pieces(f@);
    assert(forall|k: int| 0 <= k < f@.len() ==> fs[k] == f@[k]@);
    match classify(f[0]) {
        Some((kind, name)) => Some(
            Ref {
                name: text_of(name),
                kind,
                current: is_text(f[1], "*"),
                upstream: text_of(f[2]),
                hash: text_of(f[3]),
            },
        ),
        None => None,
    }
}

/// Parse `git for-each-ref --format=REF_FORMAT refs/heads refs/remotes refs/tags`.
pub fn parse_refs(text: &str) -> (r: Vec<Ref>)
    ensures
        models(r@) == refs_of(text@),
{
    let chars = chars_of(text);
    let ls = lines_of(chars.as_slice());
    let mut out: Vec<Ref> = Vec::new();
    let mut i: usize = 0;
    let ghost all = pieces(ls@);
    let ghost f = |line: Seq<char>| ref_of(line);
    while i < ls.len()
        invariant
            i <= ls@.len(),
            all == pieces(ls@),
            f == (|line: Seq<char>| ref_of(line)),
            models(out@) == filter_map(all.take(i as int), f),
        decreases ls@.len() - i,
    {
        assert(all.take(i + 1).drop_last() =~= all.take(i as int));
        assert(all.take(i + 1).last() == ls@[i as int]@);
        if let Some(x) = read_ref(ls[i]) {
            out.push(x);
        }
        i += 1;
    }
    assert(all.take(all.len() as int) =~= all);
    out
}

} // verus!
