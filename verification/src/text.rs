//! Text as a sequence of characters: the cuts, trims and prefixes that the parsers are made of.
//!
//! Executable functions work on `&[char]`, so a text is decoded once ([`chars_of`]) and cut
//! without copying; [`text_of`] turns a cut back into a `String`.

use vstd::prelude::*;
use vstd::slice::slice_subrange;

verus! {

/// `String::push` appends one character.
pub assume_specification[ String::push ](s: &mut String, c: char)
    ensures
        final(s)@ == old(s)@.push(c),
;

/// The models of the items of a sequence, in order.
pub open spec fn models<T: View>(items: Seq<T>) -> Seq<T::V> {
    items.map_values(|item: T| item@)
}

/// The model of an optional value.
pub open spec fn opt_model<T: View>(o: Option<T>) -> Option<T::V> {
    match o {
        Some(v) => Some(v@),
        None => None,
    }
}

pub broadcast proof fn models_push<T: View>(items: Seq<T>, item: T)
    ensures
        #[trigger] models(items.push(item)) == models(items).push(item@),
{
    assert(models(items.push(item)) =~= models(items).push(item@));
}

pub broadcast proof fn models_len<T: View>(items: Seq<T>)
    ensures
        #[trigger] models(items).len() == items.len(),
{
}

pub broadcast proof fn models_empty<T: View>()
    ensures
        #[trigger] models(Seq::<T>::empty()) == Seq::<T::V>::empty(),
{
    assert(models(Seq::<T>::empty()) =~= Seq::<T::V>::empty());
}

pub broadcast proof fn models_add<T: View>(a: Seq<T>, b: Seq<T>)
    ensures
        #[trigger] models(a + b) == models(a) + models(b),
{
    assert(models(a + b) =~= models(a) + models(b));
}

pub broadcast group group_models {
    models_push,
    models_len,
    models_empty,
    models_add,
}

/// Where `x` first occurs in `s`; the length of `s` when it does not.
pub open spec fn find<T>(s: Seq<T>, x: T) -> int
    decreases s.len(),
{
    if s.len() == 0 || s[0] == x {
        0
    } else {
        1 + find(s.drop_first(), x)
    }
}

/// `find` is the only index with `x` at it (or the end) and no `x` before it.
pub proof fn find_facts<T>(s: Seq<T>, x: T)
    ensures
        0 <= find(s, x) <= s.len(),
        find(s, x) < s.len() ==> s[find(s, x)] == x,
        forall|j: int| 0 <= j < find(s, x) ==> s[j] != x,
    decreases s.len(),
{
    if s.len() > 0 && s[0] != x {
        find_facts(s.drop_first(), x);
        let n = find(s.drop_first(), x);
        assert forall|j: int| 0 <= j < find(s, x) implies s[j] != x by {
            if j > 0 {
                assert(s.drop_first()[j - 1] == s[j]);
            }
        }
    }
}

pub proof fn find_is<T>(s: Seq<T>, x: T, i: int)
    requires
        0 <= i <= s.len(),
        i < s.len() ==> s[i] == x,
        forall|j: int| 0 <= j < i ==> s[j] != x,
    ensures
        find(s, x) == i,
{
    find_facts(s, x);
    let f = find(s, x);
    if f < i {
        assert(s[f] != x);
    }
    if i < f {
        assert(s[i] != x);
    }
}

/// `s` cut at every `sep`: the pieces between the separators, one more than there are
/// separators.
pub open spec fn split<T>(s: Seq<T>, sep: T) -> Seq<Seq<T>>
    decreases s.len(),
{
    let i = find(s, sep);
    if 0 <= i < s.len() {
        seq![s.take(i)] + split(s.skip(i + 1), sep)
    } else {
        seq![s]
    }
}

/// `s` cut behind every `sep`: each piece keeps the separator that ends it.
pub open spec fn split_inclusive<T>(s: Seq<T>, sep: T) -> Seq<Seq<T>>
    decreases s.len(),
{
    let i = find(s, sep);
    if s.len() == 0 {
        Seq::empty()
    } else if 0 <= i < s.len() {
        seq![s.take(i + 1)] + split_inclusive(s.skip(i + 1), sep)
    } else {
        seq![s]
    }
}

/// The parts before and behind the first `sep`.
pub open spec fn split_once<T>(s: Seq<T>, sep: T) -> Option<(Seq<T>, Seq<T>)> {
    let i = find(s, sep);
    if 0 <= i < s.len() {
        Some((s.take(i), s.skip(i + 1)))
    } else {
        None
    }
}

/// What is left of `s` behind the prefix `p`.
pub open spec fn strip<T>(s: Seq<T>, p: Seq<T>) -> Option<Seq<T>> {
    if p.is_prefix_of(s) {
        Some(s.skip(p.len() as int))
    } else {
        None
    }
}

/// The results of `f` on the items of `s`, in order, without those that are `None`.
pub open spec fn filter_map<A, B>(s: Seq<A>, f: spec_fn(A) -> Option<B>) -> Seq<B>
    decreases s.len(),
{
    if s.len() == 0 {
        Seq::empty()
    } else {
        let before = filter_map(s.drop_last(), f);
        match f(s.last()) {
            Some(b) => before.push(b),
            None => before,
        }
    }
}

/// The characters of a text.
pub fn chars_of(s: &str) -> (r: Vec<char>)
    ensures
        r@ == s@,
{
    let mut v: Vec<char> = Vec::new();
    for c in it: s.chars()
        invariant
            v@ == it.seq().take(it.index() as int),
            it.seq() == s@,
    {
        v.push(c);
        assert(it.seq().take(it.index() as int).push(c) =~= it.seq().take(it.index() + 1));
    }
    assert(s@.take(s@.len() as int) =~= s@);
    v
}

/// Appends characters to a text.
pub fn push_chars(out: &mut String, s: &[char])
    ensures
        final(out)@ == old(out)@ + s@,
{
    let mut i: usize = 0;
    assert(old(out)@ + s@.take(0) =~= old(out)@);
    while i < s.len()
        invariant
            i <= s@.len(),
            out@ == old(out)@ + s@.take(i as int),
        decreases s@.len() - i,
    {
        out.push(s[i]);
        assert((old(out)@ + s@.take(i as int)).push(s@[i as int]) =~= old(out)@ + s@.take(i + 1));
        i += 1;
    }
    assert(s@.take(s@.len() as int) =~= s@);
}

/// The text that some characters spell.
pub fn text_of(s: &[char]) -> (r: String)
    ensures
        r@ == s@,
{
    let mut out: String = String::new();
    push_chars(&mut out, s);
    assert(out@ =~= s@);
    out
}

/// The characters with the Unicode property White_Space.
pub open spec fn is_space(c: char) -> bool {
    ||| '\u{9}' <= c <= '\u{d}'
    ||| c == ' '
    ||| c == '\u{85}'
    ||| c == '\u{a0}'
    ||| c == '\u{1680}'
    ||| '\u{2000}' <= c <= '\u{200a}'
    ||| c == '\u{2028}'
    ||| c == '\u{2029}'
    ||| c == '\u{202f}'
    ||| c == '\u{205f}'
    ||| c == '\u{3000}'
}

/// `s` without the leading white space.
pub open spec fn trim_start(s: Seq<char>) -> Seq<char>
    decreases s.len(),
{
    if s.len() > 0 && is_space(s[0]) {
        trim_start(s.drop_first())
    } else {
        s
    }
}

/// `s` without the trailing white space.
pub open spec fn trim_end(s: Seq<char>) -> Seq<char>
    decreases s.len(),
{
    if s.len() > 0 && is_space(s.last()) {
        trim_end(s.drop_last())
    } else {
        s
    }
}

/// `s` without the white space around it.
pub open spec fn trim(s: Seq<char>) -> Seq<char> {
    trim_end(trim_start(s))
}

/// `s` without the leading characters `c`.
pub open spec fn trim_start_of(s: Seq<char>, c: char) -> Seq<char>
    decreases s.len(),
{
    if s.len() > 0 && s[0] == c {
        trim_start_of(s.drop_first(), c)
    } else {
        s
    }
}

/// How many characters stand before the first white space.
pub open spec fn word_len(s: Seq<char>) -> int
    decreases s.len(),
{
    if s.len() == 0 || is_space(s[0]) {
        0
    } else {
        1 + word_len(s.drop_first())
    }
}

/// The maximal runs of characters that are no white space.
pub open spec fn words(s: Seq<char>) -> Seq<Seq<char>>
    decreases s.len(),
{
    let n = word_len(s);
    if s.len() == 0 {
        Seq::empty()
    } else if 0 < n <= s.len() {
        seq![s.take(n)] + words(s.skip(n))
    } else {
        words(s.drop_first())
    }
}

/// A line without the line break (`\n` or `\r\n`) that ends it.
pub open spec fn line_body(raw: Seq<char>) -> Seq<char> {
    if raw.len() > 0 && raw.last() == '\n' {
        let line = raw.drop_last();
        if line.len() > 0 && line.last() == '\r' {
            line.drop_last()
        } else {
            line
        }
    } else {
        raw
    }
}

/// The lines of a text, without their line breaks.
pub open spec fn lines(s: Seq<char>) -> Seq<Seq<char>> {
    split_inclusive(s, '\n').map_values(|raw: Seq<char>| line_body(raw))
}

/// The pieces one behind the other, with `sep` between each two.
pub open spec fn join(pieces: Seq<Seq<char>>, sep: Seq<char>) -> Seq<char>
    decreases pieces.len(),
{
    if pieces.len() == 0 {
        Seq::empty()
    } else if pieces.len() == 1 {
        pieces[0]
    } else {
        join(pieces.drop_last(), sep) + sep + pieces.last()
    }
}

/// The pieces one behind the other.
pub open spec fn concat(pieces: Seq<Seq<char>>) -> Seq<char>
    decreases pieces.len(),
{
    if pieces.len() == 0 {
        Seq::empty()
    } else {
        concat(pieces.drop_last()) + pieces.last()
    }
}

/// The characters that some slices hold.
pub open spec fn pieces<T>(v: Seq<&[T]>) -> Seq<Seq<T>> {
    v.map_values(|x: &[T]| x@)
}

pub proof fn pieces_push<T>(v: Seq<&[T]>, x: &[T])
    ensures
        pieces(v.push(x)) == pieces(v).push(x@),
{
    assert(pieces(v.push(x)) =~= pieces(v).push(x@));
}

pub fn is_whitespace(c: char) -> (r: bool)
    ensures
        r == is_space(c),
{
    let blank = ('\u{9}' <= c && c <= '\u{d}') || c == ' ';
    let wide = ('\u{2000}' <= c && c <= '\u{200a}') || c == '\u{205f}' || c == '\u{3000}';
    let break_or_fixed = c == '\u{85}' || c == '\u{2028}' || c == '\u{2029}' || c == '\u{a0}';
    blank || wide || break_or_fixed || c == '\u{1680}' || c == '\u{202f}'
}

/// Where `x` first occurs in `s`; the length of `s` when it does not.
pub fn find_char(s: &[char], x: char) -> (r: usize)
    ensures
        r == find(s@, x),
        r <= s@.len(),
{
    let mut i: usize = 0;
    while i < s.len() && s[i] != x
        invariant
            i <= s@.len(),
            forall|j: int| 0 <= j < i ==> s@[j] != x,
        decreases s@.len() - i,
    {
        i += 1;
    }
    proof {
        find_is(s@, x, i as int);
    }
    i
}

pub fn find_byte(s: &[u8], x: u8) -> (r: usize)
    ensures
        r == find(s@, x),
        r <= s@.len(),
{
    let mut i: usize = 0;
    while i < s.len() && s[i] != x
        invariant
            i <= s@.len(),
            forall|j: int| 0 <= j < i ==> s@[j] != x,
        decreases s@.len() - i,
    {
        i += 1;
    }
    proof {
        find_is(s@, x, i as int);
    }
    i
}

/// The suffix of `s` from `from` on.
pub fn from_index<'a, T>(s: &'a [T], from: usize) -> (r: &'a [T])
    requires
        from <= s@.len(),
    ensures
        r@ == s@.skip(from as int),
{
    let r = slice_subrange(s, from, s.len());
    assert(r@ =~= s@.skip(from as int));
    r
}

/// The first `to` items of `s`.
pub fn up_to<'a, T>(s: &'a [T], to: usize) -> (r: &'a [T])
    requires
        to <= s@.len(),
    ensures
        r@ == s@.take(to as int),
{
    let r = slice_subrange(s, 0, to);
    assert(r@ =~= s@.take(to as int));
    r
}

pub fn split_chars<'a>(s: &'a [char], sep: char) -> (r: Vec<&'a [char]>)
    ensures
        pieces(r@) == split(s@, sep),
        r@.len() >= 1,
{
    let mut out: Vec<&'a [char]> = Vec::new();
    let mut rest: &'a [char] = s;
    let mut i: usize = find_char(rest, sep);
    assert(pieces(out@) + split(rest@, sep) =~= split(s@, sep));
    while i < rest.len()
        invariant
            i == find(rest@, sep),
            pieces(out@) + split(rest@, sep) == split(s@, sep),
        decreases rest@.len(),
    {
        let ghost before = rest@;
        let ghost old_out = out@;
        let piece = up_to(rest, i);
        out.push(piece);
        rest = from_index(rest, i + 1);
        i = find_char(rest, sep);
        proof {
            pieces_push(old_out, piece);
            assert(pieces(old_out) + (seq![piece@] + split(rest@, sep)) =~= pieces(out@) + split(
                rest@,
                sep,
            ));
        }
    }
    proof {
        pieces_push(out@, rest);
        assert(pieces(out@) + seq![rest@] =~= pieces(out@.push(rest)));
    }
    out.push(rest);
    out
}

pub fn split_bytes<'a>(s: &'a [u8], sep: u8) -> (r: Vec<&'a [u8]>)
    ensures
        pieces(r@) == split(s@, sep),
        r@.len() >= 1,
{
    let mut out: Vec<&'a [u8]> = Vec::new();
    let mut rest: &'a [u8] = s;
    let mut i: usize = find_byte(rest, sep);
    assert(pieces(out@) + split(rest@, sep) =~= split(s@, sep));
    while i < rest.len()
        invariant
            i == find(rest@, sep),
            pieces(out@) + split(rest@, sep) == split(s@, sep),
        decreases rest@.len(),
    {
        let ghost old_out = out@;
        let piece = up_to(rest, i);
        out.push(piece);
        rest = from_index(rest, i + 1);
        i = find_byte(rest, sep);
        proof {
            pieces_push(old_out, piece);
            assert(pieces(old_out) + (seq![piece@] + split(rest@, sep)) =~= pieces(out@) + split(
                rest@,
                sep,
            ));
        }
    }
    proof {
        pieces_push(out@, rest);
        assert(pieces(out@) + seq![rest@] =~= pieces(out@.push(rest)));
    }
    out.push(rest);
    out
}

pub fn split_lines<'a>(s: &'a [char]) -> (r: Vec<&'a [char]>)
    ensures
        pieces(r@) == split_inclusive(s@, '\n'),
{
    let mut out: Vec<&'a [char]> = Vec::new();
    let mut rest: &'a [char] = s;
    let mut i: usize = find_char(rest, '\n');
    assert(pieces(out@) + split_inclusive(rest@, '\n') =~= split_inclusive(s@, '\n'));
    while i < rest.len()
        invariant
            i == find(rest@, '\n'),
            pieces(out@) + split_inclusive(rest@, '\n') == split_inclusive(s@, '\n'),
        decreases rest@.len(),
    {
        let ghost old_out = out@;
        let piece = up_to(rest, i + 1);
        out.push(piece);
        rest = from_index(rest, i + 1);
        i = find_char(rest, '\n');
        proof {
            pieces_push(old_out, piece);
            assert(pieces(old_out) + (seq![piece@] + split_inclusive(rest@, '\n')) =~= pieces(out@)
                + split_inclusive(rest@, '\n'));
        }
    }
    if rest.len() > 0 {
        proof {
            find_facts(rest@, '\n');
            pieces_push(out@, rest);
            assert(pieces(out@) + seq![rest@] =~= pieces(out@.push(rest)));
        }
        out.push(rest);
    } else {
        assert(pieces(out@) + Seq::<Seq<char>>::empty() =~= pieces(out@));
    }
    out
}

/// A line without the line break that ends it.
pub fn without_break<'a>(raw: &'a [char]) -> (r: &'a [char])
    ensures
        r@ == line_body(raw@),
{
    let n: usize = raw.len();
    if n > 0 && raw[n - 1] == '\n' {
        assert(raw@.take(n - 1) =~= raw@.drop_last());
        if n > 1 && raw[n - 2] == '\r' {
            assert(raw@.take(n - 2) =~= raw@.drop_last().drop_last());
            up_to(raw, n - 2)
        } else {
            up_to(raw, n - 1)
        }
    } else {
        raw
    }
}

pub fn lines_of<'a>(s: &'a [char]) -> (r: Vec<&'a [char]>)
    ensures
        pieces(r@) == lines(s@),
{
    let raws = split_lines(s);
    let mut out: Vec<&'a [char]> = Vec::new();
    let mut i: usize = 0;
    while i < raws.len()
        invariant
            i <= raws@.len(),
            out@.len() == i,
            forall|k: int| 0 <= k < i ==> (#[trigger] out@[k])@ == line_body(raws@[k]@),
        decreases raws@.len() - i,
    {
        out.push(without_break(raws[i]));
        i += 1;
    }
    assert(pieces(out@) =~= lines(s@)) by {
        assert forall|k: int| 0 <= k < out@.len() implies pieces(out@)[k] == lines(s@)[k] by {
            assert(pieces(raws@)[k] == raws@[k]@);
            assert(out@[k]@ == line_body(raws@[k]@));
        }
    }
    out
}

pub fn trim_start_chars<'a>(s: &'a [char]) -> (r: &'a [char])
    ensures
        r@ == trim_start(s@),
{
    let mut i: usize = 0;
    assert(s@.skip(0) =~= s@);
    while i < s.len() && is_whitespace(s[i])
        invariant
            i <= s@.len(),
            trim_start(s@.skip(i as int)) == trim_start(s@),
        decreases s@.len() - i,
    {
        assert(s@.skip(i as int).drop_first() =~= s@.skip(i + 1));
        i += 1;
    }
    from_index(s, i)
}

pub fn trim_start_char<'a>(s: &'a [char], c: char) -> (r: &'a [char])
    ensures
        r@ == trim_start_of(s@, c),
{
    let mut i: usize = 0;
    assert(s@.skip(0) =~= s@);
    while i < s.len() && s[i] == c
        invariant
            i <= s@.len(),
            trim_start_of(s@.skip(i as int), c) == trim_start_of(s@, c),
        decreases s@.len() - i,
    {
        assert(s@.skip(i as int).drop_first() =~= s@.skip(i + 1));
        i += 1;
    }
    from_index(s, i)
}

pub fn trim_end_chars<'a>(s: &'a [char]) -> (r: &'a [char])
    ensures
        r@ == trim_end(s@),
{
    let mut n: usize = s.len();
    assert(s@.take(s@.len() as int) =~= s@);
    while n > 0 && is_whitespace(s[n - 1])
        invariant
            n <= s@.len(),
            trim_end(s@.take(n as int)) == trim_end(s@),
        decreases n,
    {
        assert(s@.take(n as int).drop_last() =~= s@.take(n - 1));
        n -= 1;
    }
    up_to(s, n)
}

pub fn trim_chars<'a>(s: &'a [char]) -> (r: &'a [char])
    ensures
        r@ == trim(s@),
{
    trim_end_chars(trim_start_chars(s))
}

pub proof fn word_len_is(s: Seq<char>, n: int)
    requires
        0 <= n <= s.len(),
        n < s.len() ==> is_space(s[n]),
        forall|j: int| 0 <= j < n ==> !is_space(#[trigger] s[j]),
    ensures
        word_len(s) == n,
    decreases s.len(),
{
    if n > 0 {
        assert(!is_space(s[0]));
        assert forall|j: int| 0 <= j < n - 1 implies !is_space(#[trigger] s.drop_first()[j]) by {
            assert(!is_space(s[j + 1]));
        }
        word_len_is(s.drop_first(), n - 1);
    }
}

pub fn words_of<'a>(s: &'a [char]) -> (r: Vec<&'a [char]>)
    ensures
        pieces(r@) == words(s@),
{
    let mut out: Vec<&'a [char]> = Vec::new();
    let mut rest: &'a [char] = s;
    assert(pieces(out@) + words(rest@) =~= words(s@));
    while rest.len() > 0
        invariant
            pieces(out@) + words(rest@) == words(s@),
        decreases rest@.len(),
    {
        let mut n: usize = 0;
        while n < rest.len() && !is_whitespace(rest[n])
            invariant
                n <= rest@.len(),
                forall|j: int| 0 <= j < n ==> !is_space(#[trigger] rest@[j]),
            decreases rest@.len() - n,
        {
            n += 1;
        }
        proof {
            word_len_is(rest@, n as int);
        }
        if n > 0 {
            let ghost old_out = out@;
            let piece = up_to(rest, n);
            out.push(piece);
            rest = from_index(rest, n);
            proof {
                pieces_push(old_out, piece);
                assert(pieces(old_out) + (seq![piece@] + words(rest@)) =~= pieces(out@) + words(
                    rest@,
                ));
            }
        } else {
            assert(rest@.skip(1) =~= rest@.drop_first());
            rest = from_index(rest, 1);
        }
    }
    assert(pieces(out@) + words(rest@) =~= pieces(out@));
    out
}

pub fn strip_chars<'a>(s: &'a [char], p: &[char]) -> (r: Option<&'a [char]>)
    ensures
        match r {
            Some(rest) => strip(s@, p@) == Some(rest@),
            None => strip(s@, p@) is None,
        },
{
    if s.len() < p.len() {
        return None;
    }
    let mut i: usize = 0;
    while i < p.len()
        invariant
            i <= p@.len() <= s@.len(),
            forall|j: int| 0 <= j < i ==> s@[j] == p@[j],
        decreases p@.len() - i,
    {
        if s[i] != p[i] {
            assert(s@.take(p@.len() as int)[i as int] != p@[i as int]);
            return None;
        }
        i += 1;
    }
    assert(s@.take(p@.len() as int) =~= p@);
    Some(from_index(s, p.len()))
}

/// Whether two texts hold the same characters.
pub fn same_chars(a: &[char], b: &[char]) -> (r: bool)
    ensures
        r == (a@ == b@),
{
    if a.len() != b.len() {
        return false;
    }
    let mut i: usize = 0;
    while i < a.len()
        invariant
            i <= a@.len() == b@.len(),
            forall|j: int| 0 <= j < i ==> a@[j] == b@[j],
        decreases a@.len() - i,
    {
        if a[i] != b[i] {
            return false;
        }
        i += 1;
    }
    assert(a@ =~= b@);
    true
}

/// The characters of a literal, for comparisons.
pub fn is_text(s: &[char], t: &str) -> (r: bool)
    ensures
        r == (s@ == t@),
{
    let v = chars_of(t);
    same_chars(s, v.as_slice())
}

/// What is left of `s` behind the prefix `t`.
pub fn strip_text<'a>(s: &'a [char], t: &str) -> (r: Option<&'a [char]>)
    ensures
        match r {
            Some(rest) => strip(s@, t@) == Some(rest@),
            None => strip(s@, t@) is None,
        },
{
    let v = chars_of(t);
    strip_chars(s, v.as_slice())
}

pub fn texts_of(v: &Vec<&[char]>) -> (r: Vec<String>)
    ensures
        models(r@) == pieces(v@),
{
    let mut out: Vec<String> = Vec::new();
    let mut i: usize = 0;
    while i < v.len()
        invariant
            i <= v@.len(),
            out@.len() == i,
            forall|k: int| 0 <= k < i ==> (#[trigger] out@[k])@ == v@[k]@,
        decreases v@.len() - i,
    {
        out.push(text_of(v[i]));
        i += 1;
    }
    assert(models(out@) =~= pieces(v@));
    out
}

/// Whether `s` ends with `t`.
pub fn ends_with_text(s: &[char], t: &str) -> (r: bool)
    ensures
        r == t@.is_suffix_of(s@),
{
    let v = chars_of(t);
    if s.len() < v.len() {
        return false;
    }
    let tail = from_index(s, s.len() - v.len());
    assert(tail@ =~= s@.subrange(s@.len() - t@.len(), s@.len() as int));
    same_chars(tail, v.as_slice())
}

/// Copies of some texts.
pub fn clone_texts(v: &Vec<String>) -> (r: Vec<String>)
    ensures
        models(r@) == models(v@),
{
    let mut out: Vec<String> = Vec::new();
    let mut i: usize = 0;
    while i < v.len()
        invariant
            i <= v@.len(),
            out@.len() == i,
            forall|k: int| 0 <= k < i ==> (#[trigger] out@[k])@ == v@[k]@,
        decreases v@.len() - i,
    {
        out.push(v[i].clone());
        i += 1;
    }
    assert(models(out@) =~= models(v@));
    out
}

/// The copy of an optional text.
pub fn clone_opt(o: &Option<String>) -> (r: Option<String>)
    ensures
        opt_model(r) == opt_model(*o),
{
    match o {
        Some(s) => Some(s.clone()),
        None => None,
    }
}

/// A text as a `String`.
pub fn owned(s: &str) -> (r: String)
    ensures
        r@ == s@,
{
    s.to_owned()
}

/// Two texts one behind the other.
pub fn cat2(a: &str, b: &str) -> (r: String)
    ensures
        r@ == a@ + b@,
{
    let mut s = a.to_owned();
    s.append(b);
    s
}

/// Three texts one behind the other.
pub fn cat3(a: &str, b: &str, c: &str) -> (r: String)
    ensures
        r@ == a@ + b@ + c@,
{
    let mut s = cat2(a, b);
    s.append(c);
    s
}

/// Four texts one behind the other.
pub fn cat4(a: &str, b: &str, c: &str, d: &str) -> (r: String)
    ensures
        r@ == a@ + b@ + c@ + d@,
{
    let mut s = cat3(a, b, c);
    s.append(d);
    s
}

/// The texts one behind the other, with `sep` between each two.
pub fn join_texts(v: &Vec<String>, sep: &str) -> (r: String)
    ensures
        r@ == join(models(v@), sep@),
{
    let mut out = String::new();
    let mut i: usize = 0;
    let ghost all = models(v@);
    while i < v.len()
        invariant
            i <= v@.len(),
            all == models(v@),
            out@ == join(all.take(i as int), sep@),
        decreases v@.len() - i,
    {
        assert(all.take(i + 1).drop_last() =~= all.take(i as int));
        assert(all.take(i + 1).last() == v@[i as int]@);
        if i > 0 {
            out.append(sep);
        }
        out.append(v[i].as_str());
        assert(i == 0 ==> out@ =~= v@[0]@);
        i += 1;
    }
    assert(all.take(all.len() as int) =~= all);
    out
}

/// Whether `p` occurs in `s` at index `i`.
pub open spec fn occurs_at(s: Seq<char>, p: Seq<char>, i: int) -> bool {
    0 <= i && i + p.len() <= s.len() && s.subrange(i, i + p.len()) == p
}

/// The index at which `p` first occurs in `s`; the length of `s` when it does not.
pub open spec fn find_text(s: Seq<char>, p: Seq<char>) -> int
    decreases s.len(),
{
    if p.is_prefix_of(s) || s.len() == 0 {
        0
    } else {
        1 + find_text(s.drop_first(), p)
    }
}

/// The part of `s` before the first `p`; all of it where there is none.
pub open spec fn before_text(s: Seq<char>, p: Seq<char>) -> Seq<char> {
    s.take(find_text(s, p))
}

/// Whether `p` occurs anywhere in `s`.
pub open spec fn contains_text(s: Seq<char>, p: Seq<char>) -> bool {
    exists|i: int| occurs_at(s, p, i)
}

/// What [`find_text`] finds.
pub proof fn find_text_facts(s: Seq<char>, p: Seq<char>)
    requires
        p.len() > 0,
    ensures
        0 <= find_text(s, p) <= s.len(),
        find_text(s, p) < s.len() ==> occurs_at(s, p, find_text(s, p)),
        forall|j: int| 0 <= j < find_text(s, p) ==> !occurs_at(s, p, j),
        contains_text(s, p) <==> find_text(s, p) < s.len(),
    decreases s.len(),
{
    if p.is_prefix_of(s) {
        assert(s.subrange(0, p.len() as int) =~= p);
        assert(occurs_at(s, p, 0));
    } else if s.len() > 0 {
        let rest = s.drop_first();
        find_text_facts(rest, p);
        let k = find_text(rest, p);
        if k < rest.len() {
            assert(s.subrange(k + 1, k + 1 + p.len()) =~= rest.subrange(k, k + p.len()));
            assert(occurs_at(s, p, k + 1));
        }
        assert forall|j: int| 0 <= j < k + 1 implies !occurs_at(s, p, j) by {
            if occurs_at(s, p, j) {
                if j == 0 {
                    assert forall|x: int| 0 <= x < p.len() implies p[x] == s[x] by {
                        assert(s.subrange(0, p.len() as int)[x] == s[x]);
                    }
                    assert(p =~= s.subrange(0, p.len() as int));
                } else {
                    assert(rest.subrange(j - 1, j - 1 + p.len()) =~= s.subrange(j, j + p.len()));
                    assert(occurs_at(rest, p, j - 1));
                }
            }
        }
        if contains_text(s, p) {
            let j = choose|j: int| occurs_at(s, p, j);
            if k + 1 >= s.len() {
                assert(j >= s.len());
            }
        }
    }
}

/// Where `p` first occurs in `s`; the length of `s` when it does not.
pub fn find_chars(s: &[char], p: &[char]) -> (r: usize)
    requires
        p@.len() > 0,
    ensures
        r == find_text(s@, p@),
        r <= s@.len(),
{
    proof {
        find_text_facts(s@, p@);
    }
    let mut i: usize = 0;
    assert(s@.skip(0) =~= s@);
    while i < s.len()
        invariant
            i <= s@.len(),
            p@.len() > 0,
            find_text(s@, p@) == i + find_text(s@.skip(i as int), p@),
        decreases s@.len() - i,
    {
        let rest = from_index(s, i);
        proof {
            find_text_facts(rest@, p@);
        }
        if strip_chars(rest, p).is_some() {
            return i;
        }
        assert(rest@.drop_first() =~= s@.skip(i + 1));
        i += 1;
    }
    i
}

/// The part of `s` before the first `p`; all of it where there is none.
pub fn before(s: &str, p: &str) -> (r: String)
    requires
        p@.len() > 0,
    ensures
        r@ == before_text(s@, p@),
{
    let chars = chars_of(s);
    let what = chars_of(p);
    let i: usize = find_chars(chars.as_slice(), what.as_slice());
    text_of(up_to(chars.as_slice(), i))
}

/// Whether `p` occurs in `s`.
pub fn has_text(s: &str, p: &str) -> (r: bool)
    requires
        p@.len() > 0,
    ensures
        r == contains_text(s@, p@),
{
    let chars = chars_of(s);
    let what = chars_of(p);
    proof {
        find_text_facts(s@, p@);
    }
    find_chars(chars.as_slice(), what.as_slice()) < chars.len()
}

/// Whether a text starts with another.
pub fn starts_with(s: &str, p: &str) -> (r: bool)
    ensures
        r == p@.is_prefix_of(s@),
{
    let chars = chars_of(s);
    strip_text(chars.as_slice(), p).is_some()
}

/// `s` with `by` in place of each `c`.
pub open spec fn replaced(s: Seq<char>, c: char, by: Seq<char>) -> Seq<char>
    decreases s.len(),
{
    if s.len() == 0 {
        Seq::empty()
    } else if s.last() == c {
        replaced(s.drop_last(), c, by) + by
    } else {
        replaced(s.drop_last(), c, by).push(s.last())
    }
}

/// A copy of `s` with `by` in place of each `c`.
pub fn replace_char(s: &str, c: char, by: &str) -> (r: String)
    ensures
        r@ == replaced(s@, c, by@),
{
    let chars = chars_of(s);
    let mut out = String::new();
    let mut i: usize = 0;
    while i < chars.len()
        invariant
            i <= chars@.len(),
            chars@ == s@,
            out@ == replaced(s@.take(i as int), c, by@),
        decreases chars@.len() - i,
    {
        assert(s@.take(i + 1).drop_last() =~= s@.take(i as int));
        if chars[i] == c {
            out.append(by);
        } else {
            out.push(chars[i]);
        }
        i += 1;
    }
    assert(s@.take(s@.len() as int) =~= s@);
    out
}

/// The first line of a text, without its line break; nothing where the text is empty.
pub open spec fn first_line(s: Seq<char>) -> Seq<char> {
    if lines(s).len() > 0 {
        lines(s)[0]
    } else {
        Seq::empty()
    }
}

/// A text without white space at its ends.
pub fn trimmed(s: &str) -> (r: String)
    ensures
        r@ == trim(s@),
{
    let chars = chars_of(s);
    text_of(trim_chars(chars.as_slice()))
}

/// The characters that some borrowed texts hold.
pub open spec fn strs(items: Seq<&str>) -> Seq<Seq<char>> {
    items.map_values(|x: &str| x@)
}

/// Copies of some borrowed texts.
pub fn list(items: &[&str]) -> (r: Vec<String>)
    ensures
        models(r@) == strs(items@),
{
    let mut out: Vec<String> = Vec::new();
    let mut i: usize = 0;
    while i < items.len()
        invariant
            i <= items@.len(),
            out@.len() == i,
            forall|k: int| 0 <= k < i ==> (#[trigger] out@[k])@ == items@[k]@,
        decreases items@.len() - i,
    {
        out.push(owned(items[i]));
        i += 1;
    }
    assert(models(out@) =~= strs(items@));
    out
}

} // verus!
