//! What holds of texts that are put together and taken apart.

use vstd::prelude::*;

use crate::text::{
    before_text, concat, contains_text, filter_map, find, find_facts, find_is, find_text,
    find_text_facts, first_line, is_space, join, line_body, lines, occurs_at, replaced, split,
    split_inclusive, split_once, strip, trim, trim_end, trim_start, trim_start_of, word_len,
    word_len_is, words,
};

verus! {

/// Lines as `split_inclusive` cuts them: none is empty, a `\n` stands at the end of each but
/// possibly the last, and nowhere else.
pub open spec fn well_cut(raws: Seq<Seq<char>>) -> bool {
    forall|i: int| 0 <= i < raws.len() ==> is_line(#[trigger] raws[i], i == raws.len() - 1)
}

pub open spec fn is_line(raw: Seq<char>, last: bool) -> bool {
    &&& raw.len() > 0
    &&& forall|j: int| 0 <= j < raw.len() - 1 ==> raw[j] != '\n'
    &&& raw.last() == '\n' || last
}

pub proof fn concat_push(raws: Seq<Seq<char>>, raw: Seq<char>)
    ensures
        concat(raws.push(raw)) == concat(raws) + raw,
{
    assert(raws.push(raw).drop_last() =~= raws);
}

pub proof fn concat_add(a: Seq<Seq<char>>, b: Seq<Seq<char>>)
    ensures
        concat(a + b) == concat(a) + concat(b),
    decreases b.len(),
{
    if b.len() == 0 {
        assert(a + b =~= a);
        assert(concat(a) + concat(b) =~= concat(a));
    } else {
        assert((a + b).drop_last() =~= a + b.drop_last());
        concat_add(a, b.drop_last());
        assert(concat(a + b) =~= concat(a) + concat(b));
    }
}

pub proof fn concat_first(a: Seq<char>, b: Seq<Seq<char>>)
    ensures
        concat(seq![a] + b) == a + concat(b),
{
    concat_add(seq![a], b);
    assert(seq![a].drop_last() =~= Seq::<Seq<char>>::empty());
    assert(concat(seq![a]) =~= a) by {
        assert(concat(seq![a].drop_last()) =~= Seq::<char>::empty());
    }
}

pub proof fn split_is_well_cut(s: Seq<char>)
    ensures
        well_cut(split_inclusive(s, '\n')),
        concat(split_inclusive(s, '\n')) == s,
        split_inclusive(s, '\n').len() == 0 <==> s.len() == 0,
    decreases s.len(),
{
    let i = find(s, '\n');
    find_facts(s, '\n');
    let r = split_inclusive(s, '\n');
    if s.len() == 0 {
        assert(concat(r) =~= s);
    } else if i < s.len() {
        let rest = s.skip(i + 1);
        split_is_well_cut(rest);
        concat_first(s.take(i + 1), split_inclusive(rest, '\n'));
        assert(s.take(i + 1) + rest =~= s);
        assert forall|k: int| 0 <= k < r.len() implies is_line(
            #[trigger] r[k],
            k == r.len() - 1,
        ) by {
            if k > 0 {
                assert(r[k] == split_inclusive(rest, '\n')[k - 1]);
            }
        }
    } else {
        concat_first(s, Seq::empty());
        assert(seq![s] + Seq::<Seq<char>>::empty() =~= seq![s]);
        assert(s + concat(Seq::empty()) =~= s);
    }
}

pub proof fn well_cut_is_split(raws: Seq<Seq<char>>)
    requires
        well_cut(raws),
    ensures
        split_inclusive(concat(raws), '\n') == raws,
    decreases raws.len(),
{
    if raws.len() == 0 {
        assert(split_inclusive(concat(raws), '\n') =~= raws);
    } else {
        let head = raws[0];
        let tail = raws.drop_first();
        assert(raws =~= seq![head] + tail);
        concat_first(head, tail);
        let s = concat(raws);
        assert(is_line(raws[0], 0 == raws.len() - 1));
        assert forall|k: int| 0 <= k < tail.len() implies is_line(
            #[trigger] tail[k],
            k == tail.len() - 1,
        ) by {
            assert(is_line(raws[k + 1], k + 1 == raws.len() - 1));
        }
        well_cut_is_split(tail);
        if head.last() == '\n' {
            find_is(s, '\n', head.len() - 1);
            assert(s.take(head.len() as int) =~= head);
            assert(s.skip(head.len() as int) =~= concat(tail));
            assert(split_inclusive(s, '\n') =~= raws);
        } else {
            assert(tail.len() == 0);
            assert(concat(tail) =~= Seq::<char>::empty());
            assert(s =~= head);
            find_is(s, '\n', s.len() as int);
            assert(split_inclusive(s, '\n') =~= raws);
        }
    }
}

/// The pieces of a text that was put together start with the first one.
pub proof fn join_first(ps: Seq<Seq<char>>, sep: Seq<char>)
    requires
        ps.len() > 1,
    ensures
        join(ps, sep) == ps[0] + sep + join(ps.drop_first(), sep),
    decreases ps.len(),
{
    if ps.len() == 2 {
        assert(join(ps.drop_last(), sep) == ps[0]);
        assert(join(ps.drop_first(), sep) == ps[1]);
    } else {
        join_first(ps.drop_last(), sep);
        assert(ps.drop_last().drop_first() =~= ps.drop_first().drop_last());
        assert(join(ps, sep) =~= ps[0] + sep + join(ps.drop_first(), sep));
    }
}

/// None of some texts holds a character.
pub open spec fn free_of(ps: Seq<Seq<char>>, c: char) -> bool {
    forall|i: int| 0 <= i < ps.len() ==> !(#[trigger] ps[i]).contains(c)
}

/// What stands before the first separator, and what stands behind it.
pub proof fn split_first(p: Seq<char>, sep: char, rest: Seq<char>)
    requires
        !p.contains(sep),
    ensures
        split_once(p + seq![sep] + rest, sep) == Some((p, rest)),
        split(p + seq![sep] + rest, sep) == seq![p] + split(rest, sep),
        split_once(p, sep) is None,
        split(p, sep) == seq![p],
{
    let s = p + seq![sep] + rest;
    assert forall|j: int| 0 <= j < p.len() implies s[j] != sep by {
        assert(p.contains(p[j]));
    }
    assert(s[p.len() as int] == sep);
    find_is(s, sep, p.len() as int);
    assert(s.take(p.len() as int) =~= p);
    assert(s.skip(p.len() as int + 1) =~= rest);
    assert forall|j: int| 0 <= j < p.len() implies p[j] != sep by {
        assert(p.contains(p[j]));
    }
    find_is(p, sep, p.len() as int);
}

/// Pieces that hold no separator, put together with one between each two and taken apart again,
/// are the same.
pub proof fn split_reads_back(ps: Seq<Seq<char>>, sep: char)
    requires
        ps.len() > 0,
        free_of(ps, sep),
    ensures
        split(join(ps, seq![sep]), sep) == ps,
    decreases ps.len(),
{
    assert(!ps[0].contains(sep));
    if ps.len() == 1 {
        split_first(ps[0], sep, seq![]);
        assert(ps =~= seq![ps[0]]);
    } else {
        let rest = ps.drop_first();
        assert forall|i: int| 0 <= i < rest.len() implies !(#[trigger] rest[i]).contains(sep) by {
            assert(rest[i] == ps[i + 1]);
        }
        join_first(ps, seq![sep]);
        split_first(ps[0], sep, join(rest, seq![sep]));
        split_reads_back(rest, sep);
        assert(ps =~= seq![ps[0]] + rest);
    }
}

/// Text without a separator behind the last piece makes that piece longer.
pub proof fn split_extends(s: Seq<char>, sep: char, x: Seq<char>)
    requires
        !x.contains(sep),
    ensures
        split(s, sep).len() > 0,
        split(s + x, sep) == split(s, sep).drop_last().push(split(s, sep).last() + x),
    decreases s.len(),
{
    let i = find(s, sep);
    find_facts(s, sep);
    let t = s + x;
    if i < s.len() {
        let rest = s.skip(i + 1);
        split_extends(rest, sep, x);
        find_is(t, sep, i);
        assert(t.take(i) =~= s.take(i));
        assert(t.skip(i + 1) =~= rest + x);
        assert(split(t, sep) =~= split(s, sep).drop_last().push(split(s, sep).last() + x));
    } else {
        assert forall|j: int| 0 <= j < t.len() implies t[j] != sep by {
            if j >= s.len() {
                assert(x.contains(x[j - s.len()]));
            }
        }
        find_is(t, sep, t.len() as int);
        assert(split(t, sep) =~= split(s, sep).drop_last().push(split(s, sep).last() + x));
    }
}

/// A separator behind a text starts a new piece.
pub proof fn split_ends(s: Seq<char>, sep: char, x: Seq<char>)
    requires
        !x.contains(sep),
    ensures
        split(s + seq![sep] + x, sep) == split(s, sep).push(x),
    decreases s.len(),
{
    let i = find(s, sep);
    find_facts(s, sep);
    let t = s + seq![sep] + x;
    if i < s.len() {
        let rest = s.skip(i + 1);
        split_ends(rest, sep, x);
        find_is(t, sep, i);
        assert(t.take(i) =~= s.take(i));
        assert(t.skip(i + 1) =~= rest + seq![sep] + x);
        assert(split(t, sep) =~= split(s, sep).push(x));
    } else {
        assert(!s.contains(sep)) by {
            if s.contains(sep) {
                let j = choose|j: int| 0 <= j < s.len() && s[j] == sep;
                assert(s[j] != sep);
            }
        }
        split_first(s, sep, x);
        split_first(s, sep, seq![]);
        split_first(x, sep, seq![]);
        assert(split(t, sep) =~= split(s, sep).push(x));
    }
}

/// A line as it is written.
pub open spec fn with_break(line: Seq<char>) -> Seq<char> {
    line + seq!['\n']
}

/// A line that can be written and read: no line break in it, and no carriage return at its end.
pub open spec fn is_plain_line(line: Seq<char>) -> bool {
    !line.contains('\n') && !(line.len() > 0 && line.last() == '\r')
}

/// Lines that are written with a line break behind each and read again are the same.
pub proof fn lines_read_back(ls: Seq<Seq<char>>)
    requires
        forall|i: int| 0 <= i < ls.len() ==> is_plain_line(#[trigger] ls[i]),
    ensures
        lines(concat(ls.map_values(|l: Seq<char>| with_break(l)))) == ls,
{
    let raws = ls.map_values(|l: Seq<char>| with_break(l));
    assert forall|i: int| 0 <= i < raws.len() implies is_line(
        #[trigger] raws[i],
        i == raws.len() - 1,
    ) by {
        assert(is_plain_line(ls[i]));
        assert(raws[i] == with_break(ls[i]));
        assert forall|j: int| 0 <= j < raws[i].len() - 1 implies raws[i][j] != '\n' by {
            assert(ls[i].contains(ls[i][j]));
        }
    }
    well_cut_is_split(raws);
    let read = lines(concat(raws));
    assert forall|i: int| 0 <= i < ls.len() implies read[i] == ls[i] by {
        assert(is_plain_line(ls[i]));
        assert(raws[i].drop_last() =~= ls[i]);
        assert(read[i] == line_body(raws[i]));
    }
    assert(read =~= ls);
}

/// A text that is no white space throughout does not vanish when it is trimmed.
pub proof fn trim_keeps_words(s: Seq<char>, i: int)
    requires
        0 <= i < s.len(),
        !is_space(s[i]),
    ensures
        trim(s).len() > 0,
    decreases s.len(),
{
    if is_space(s[0]) {
        trim_keeps_words(s.drop_first(), i - 1);
    } else {
        trim_end_keeps(s, 0);
    }
}

proof fn trim_end_keeps(s: Seq<char>, i: int)
    requires
        0 <= i < s.len(),
        !is_space(s[i]),
    ensures
        trim_end(s).len() > i,
    decreases s.len(),
{
    if is_space(s.last()) {
        trim_end_keeps(s.drop_last(), i);
    }
}

/// A word: not empty, and without white space.
pub open spec fn is_word(w: Seq<char>) -> bool {
    w.len() > 0 && forall|i: int| 0 <= i < w.len() ==> !is_space(#[trigger] w[i])
}

/// Words with a space between each two, read again, are the same.
pub proof fn words_read_back(ws: Seq<Seq<char>>)
    requires
        forall|i: int| 0 <= i < ws.len() ==> is_word(#[trigger] ws[i]),
    ensures
        words(join(ws, seq![' '])) == ws,
    decreases ws.len(),
{
    let s = join(ws, seq![' ']);
    if ws.len() == 0 {
        assert(words(s) =~= ws);
    } else {
        let w = ws[0];
        assert(is_word(w));
        let rest = ws.drop_first();
        assert forall|i: int| 0 <= i < rest.len() implies is_word(#[trigger] rest[i]) by {
            assert(rest[i] == ws[i + 1]);
        }
        words_read_back(rest);
        assert(ws =~= seq![w] + rest);
        if ws.len() == 1 {
            word_len_is(s, s.len() as int);
            assert(s.take(s.len() as int) =~= w);
            assert(s.skip(s.len() as int) =~= Seq::<char>::empty());
            assert(words(s.skip(s.len() as int)) =~= Seq::<Seq<char>>::empty());
            assert(rest =~= Seq::<Seq<char>>::empty());
        } else {
            join_first(ws, seq![' ']);
            let more = join(rest, seq![' ']);
            assert(s[w.len() as int] == ' ');
            assert forall|j: int| 0 <= j < w.len() implies !is_space(#[trigger] s[j]) by {
                assert(s[j] == w[j]);
            }
            word_len_is(s, w.len() as int);
            assert(s.take(w.len() as int) =~= w);
            let behind = s.skip(w.len() as int);
            assert(behind[0] == ' ');
            assert(word_len(behind) == 0);
            assert(behind.drop_first() =~= more);
            assert(words(behind) == words(more));
        }
    }
}

/// White space throughout.
pub open spec fn is_blank(s: Seq<char>) -> bool {
    forall|i: int| 0 <= i < s.len() ==> is_space(#[trigger] s[i])
}

/// A text with no white space at its ends.
pub open spec fn is_tight(s: Seq<char>) -> bool {
    s.len() > 0 ==> !is_space(s[0]) && !is_space(s.last())
}

proof fn trim_start_takes(pre: Seq<char>, m: Seq<char>)
    requires
        is_blank(pre),
        m.len() > 0 ==> !is_space(m[0]),
    ensures
        trim_start(pre + m) == m,
    decreases pre.len(),
{
    if pre.len() == 0 {
        assert(pre + m =~= m);
    } else {
        let rest = pre.drop_first();
        assert forall|i: int| 0 <= i < rest.len() implies is_space(#[trigger] rest[i]) by {
            assert(rest[i] == pre[i + 1]);
        }
        assert(is_space(pre[0]));
        assert((pre + m).drop_first() =~= rest + m);
        trim_start_takes(rest, m);
    }
}

/// The white space at the end of a text is what goes when its end is trimmed.
pub proof fn trim_end_takes(m: Seq<char>, post: Seq<char>)
    requires
        is_blank(post),
        m.len() > 0 ==> !is_space(m.last()),
    ensures
        trim_end(m + post) == m,
    decreases post.len(),
{
    if post.len() == 0 {
        assert(m + post =~= m);
    } else {
        let rest = post.drop_last();
        assert forall|i: int| 0 <= i < rest.len() implies is_space(#[trigger] rest[i]) by {
            assert(rest[i] == post[i]);
        }
        assert(is_space(post[post.len() - 1]));
        assert((m + post).drop_last() =~= m + rest);
        trim_end_takes(m, rest);
    }
}

/// The white space around a text, and nothing else, is what goes when it is trimmed.
pub proof fn trim_takes_the_ends(pre: Seq<char>, m: Seq<char>, post: Seq<char>)
    requires
        is_blank(pre),
        is_blank(post),
        is_tight(m),
    ensures
        trim(pre + m + post) == m,
{
    if m.len() == 0 {
        let all = pre + post;
        assert(pre + m + post =~= all + m);
        assert forall|i: int| 0 <= i < all.len() implies is_space(#[trigger] all[i]) by {
            if i >= pre.len() {
                assert(all[i] == post[i - pre.len()]);
            }
        }
        trim_start_takes(all, m);
    } else {
        assert(pre + m + post =~= pre + (m + post));
        trim_start_takes(pre, m + post);
        trim_end_takes(m, post);
    }
}

/// What is left of a text when leading characters are taken away.
pub proof fn trim_start_of_takes(n: nat, c: char, m: Seq<char>)
    requires
        m.len() > 0 ==> m[0] != c,
    ensures
        trim_start_of(Seq::new(n, |i: int| c) + m, c) == m,
    decreases n,
{
    let pre = Seq::new(n, |i: int| c);
    if n == 0 {
        assert(pre + m =~= m);
    } else {
        assert((pre + m).drop_first() =~= Seq::new((n - 1) as nat, |i: int| c) + m);
        trim_start_of_takes((n - 1) as nat, c, m);
    }
}

proof fn words_of_one(w: Seq<char>)
    requires
        is_word(w),
    ensures
        words(w) == seq![w],
{
    words_read_back(seq![w]);
    assert(seq![w].drop_last() =~= Seq::<Seq<char>>::empty());
    assert(join(seq![w], seq![' ']) == w);
}

/// White space of any kind ends a word and starts no other one: the words on both sides of it are
/// those of the text.
pub proof fn words_are_cut_by_space(a: Seq<char>, c: char, b: Seq<char>)
    requires
        is_space(c),
    ensures
        words(a + seq![c] + b) == words(a) + words(b),
        words(Seq::<char>::empty()) == Seq::<Seq<char>>::empty(),
        is_word(a) ==> words(a) == seq![a],
    decreases a.len(),
{
    let s = a + seq![c] + b;
    if is_word(a) {
        words_of_one(a);
    }
    if a.len() == 0 {
        assert(s[0] == c);
        assert(word_len(s) == 0);
        assert(s.drop_first() =~= b);
        assert(words(a) + words(b) =~= words(b));
    } else if is_space(a[0]) {
        assert(s.drop_first() =~= a.drop_first() + seq![c] + b);
        assert(word_len(s) == 0 && word_len(a) == 0);
        words_are_cut_by_space(a.drop_first(), c, b);
    } else {
        let n = word_len(a);
        word_len_facts(a);
        assert forall|j: int| 0 <= j < n implies !is_space(#[trigger] s[j]) by {
            assert(s[j] == a[j]);
        }
        if n < a.len() {
            assert(s[n] == a[n]);
        } else {
            assert(s[n] == c);
        }
        word_len_is(s, n);
        assert(s.take(n) =~= a.take(n));
        assert(s.skip(n) =~= a.skip(n) + seq![c] + b);
        words_are_cut_by_space(a.skip(n), c, b);
        assert(words(s) =~= words(a) + words(b));
    }
}

proof fn word_len_facts(s: Seq<char>)
    ensures
        0 <= word_len(s) <= s.len(),
        word_len(s) < s.len() ==> is_space(s[word_len(s)]),
        forall|j: int| 0 <= j < word_len(s) ==> !is_space(#[trigger] s[j]),
        s.len() > 0 && !is_space(s[0]) ==> word_len(s) > 0,
    decreases s.len(),
{
    if s.len() > 0 && !is_space(s[0]) {
        let rest = s.drop_first();
        word_len_facts(rest);
        assert forall|j: int| 0 <= j < word_len(s) implies !is_space(#[trigger] s[j]) by {
            if j > 0 {
                assert(s[j] == rest[j - 1]);
            }
        }
        if word_len(s) < s.len() {
            assert(s[word_len(s)] == rest[word_len(rest)]);
        }
    }
}

/// Taken apart at a separator and put together again, a text is the same, and no piece holds the
/// separator.
pub proof fn split_joins_back(s: Seq<char>, sep: char)
    ensures
        split(s, sep).len() > 0,
        free_of(split(s, sep), sep),
        join(split(s, sep), seq![sep]) == s,
    decreases s.len(),
{
    let i = find(s, sep);
    find_facts(s, sep);
    let parts = split(s, sep);
    if i < s.len() {
        let rest = s.skip(i + 1);
        split_joins_back(rest, sep);
        assert forall|k: int| 0 <= k < parts.len() implies !(#[trigger] parts[k]).contains(sep) by {
            if k > 0 {
                assert(parts[k] == split(rest, sep)[k - 1]);
            }
        }
        join_first(parts, seq![sep]);
        assert(parts.drop_first() =~= split(rest, sep));
        assert(s =~= s.take(i) + seq![sep] + rest);
    } else {
        assert(join(parts, seq![sep]) == s);
    }
}

/// Pieces put together: none is nothing, one is itself, and each further one comes behind the
/// separator.
pub proof fn join_goes_on(ps: Seq<Seq<char>>, p: Seq<char>, sep: Seq<char>)
    ensures
        join(Seq::<Seq<char>>::empty(), sep) == Seq::<char>::empty(),
        join(seq![p], sep) == p,
        ps.len() > 0 ==> join(ps.push(p), sep) == join(ps, sep) + sep + p,
{
    assert(ps.push(p).drop_last() =~= ps);
}

/// What is behind a prefix is what was put behind it, and there is nothing behind one that is not
/// there.
pub proof fn strip_takes_the_prefix(s: Seq<char>, p: Seq<char>, rest: Seq<char>)
    ensures
        strip(p + rest, p) == Some(rest),
        strip(s, p) is Some <==> s.len() >= p.len() && s.take(p.len() as int) == p,
{
    assert((p + rest).skip(p.len() as int) =~= rest);
    assert(p.is_prefix_of(p + rest)) by {
        assert(p =~= (p + rest).subrange(0, p.len() as int));
    }
    if s.len() >= p.len() {
        assert(s.take(p.len() as int) =~= s.subrange(0, p.len() as int));
    }
}

/// A line ends with `\n` or with `\r\n`, and that end is not part of it; a last line may have none,
/// and keeps what it ends with.
pub proof fn line_ends_are_dropped(text: Seq<char>, line: Seq<char>, i: int)
    requires
        !line.contains('\n'),
        0 <= i < split_inclusive(text, '\n').len(),
    ensures
        lines(text).len() == split_inclusive(text, '\n').len(),
        split_inclusive(text, '\n')[i] == line + seq!['\r', '\n'] ==> lines(text)[i] == line,
        split_inclusive(text, '\n')[i] == line + seq!['\n'] && !(line.len() > 0 && line.last()
            == '\r') ==> lines(text)[i] == line,
        split_inclusive(text, '\n')[i] == line ==> lines(text)[i] == line,
{
    let raw = split_inclusive(text, '\n')[i];
    assert(lines(text)[i] == line_body(raw));
    if raw == line + seq!['\r', '\n'] {
        assert(raw.drop_last() =~= line.push('\r'));
        assert(line.push('\r').drop_last() =~= line);
    }
    if raw == line + seq!['\n'] {
        assert(raw.drop_last() =~= line);
    }
    if raw == line && line.len() > 0 {
        assert(line.contains(line.last()));
    }
}

/// The first line of a text is what stands before its first line break.
pub proof fn first_lines_end_at_a_break(line: Seq<char>, rest: Seq<char>)
    requires
        !line.contains('\n'),
        !(line.len() > 0 && line.last() == '\r'),
    ensures
        first_line(line + seq!['\n'] + rest) == line,
        first_line(line + seq!['\r', '\n'] + rest) == line,
        first_line(line) == line,
{
    let s = line + seq!['\n'] + rest;
    let t = line + seq!['\r', '\n'] + rest;
    let n = line.len() as int;
    assert forall|j: int| 0 <= j < n implies s[j] != '\n' && t[j] != '\n' && line[j] != '\n' by {
        assert(line.contains(line[j]));
    }
    assert(s[n] == '\n');
    assert(t[n] == '\r' && t[n + 1] == '\n');
    find_is(s, '\n', n);
    find_is(t, '\n', n + 1);
    find_is(line, '\n', n);
    assert(s.take(n + 1) =~= line + seq!['\n']);
    assert(t.take(n + 2) =~= line + seq!['\r', '\n']);
    line_ends_are_dropped(s, line, 0);
    line_ends_are_dropped(t, line, 0);
    if n > 0 {
        line_ends_are_dropped(line, line, 0);
    } else {
        assert(first_line(line) =~= line);
    }
}

/// A character is replaced wherever it stands, and no other one is.
pub proof fn replacing_goes_by_characters(a: Seq<char>, x: char, c: char, by: Seq<char>)
    ensures
        replaced(Seq::<char>::empty(), c, by) == Seq::<char>::empty(),
        replaced(a.push(x), c, by) == replaced(a, c, by) + if x == c {
            by
        } else {
            seq![x]
        },
{
    assert(a.push(x).drop_last() =~= a);
}

/// Of items that are asked one by one, those that give something are kept, in their order.
pub proof fn filter_map_goes_on<A, B>(s: Seq<A>, a: A, f: spec_fn(A) -> Option<B>)
    ensures
        filter_map(Seq::<A>::empty(), f) == Seq::<B>::empty(),
        filter_map(s.push(a), f) == filter_map(s, f) + match f(a) {
            Some(b) => seq![b],
            None => seq![],
        },
{
    assert(s.push(a).drop_last() =~= s);
}

/// The part of a text before another one ends where that one first starts.
pub proof fn before_text_ends_at_it(s: Seq<char>, p: Seq<char>, rest: Seq<char>)
    requires
        p.len() > 0,
        !contains_text((s + p).drop_last(), p),
    ensures
        before_text(s + p + rest, p) == s,
        !contains_text(s, p) ==> before_text(s, p) == s,
{
    let t = s + p + rest;
    let n = s.len() as int;
    find_text_facts(t, p);
    find_text_facts(s, p);
    assert(t.subrange(n, n + p.len()) =~= p);
    assert(occurs_at(t, p, n));
    let k = find_text(t, p);
    if k < n {
        assert(occurs_at(t, p, k));
        assert((s + p).drop_last().subrange(k, k + p.len()) =~= t.subrange(k, k + p.len()));
        assert(occurs_at((s + p).drop_last(), p, k));
    }
    assert(t.take(n) =~= s);
    if !contains_text(s, p) {
        assert(s.take(s.len() as int) =~= s);
    }
}

/// A separator between two texts cuts between their pieces.
pub proof fn split_adds_up<T>(a: Seq<T>, sep: T, b: Seq<T>)
    ensures
        split(a + seq![sep] + b, sep) == split(a, sep) + split(b, sep),
        split(a, sep).len() > 0,
    decreases a.len(),
{
    let s = a + seq![sep] + b;
    let i = find(a, sep);
    find_facts(a, sep);
    if i < a.len() {
        let rest = a.skip(i + 1);
        split_adds_up(rest, sep, b);
        find_is(s, sep, i);
        assert(s.take(i) =~= a.take(i));
        assert(s.skip(i + 1) =~= rest + seq![sep] + b);
        assert(split(s, sep) =~= split(a, sep) + split(b, sep));
    } else {
        assert(s[a.len() as int] == sep);
        find_is(s, sep, a.len() as int);
        assert(s.take(a.len() as int) =~= a);
        assert(s.skip(a.len() as int + 1) =~= b);
        assert(split(s, sep) =~= split(a, sep) + split(b, sep));
    }
}

/// What one list gives and what another gives is what both give.
pub proof fn filter_map_adds_up<A, B>(a: Seq<A>, b: Seq<A>, f: spec_fn(A) -> Option<B>)
    ensures
        filter_map(a + b, f) == filter_map(a, f) + filter_map(b, f),
    decreases b.len(),
{
    if b.len() == 0 {
        assert(a + b =~= a);
        assert(filter_map(a, f) + filter_map(b, f) =~= filter_map(a, f));
    } else {
        assert((a + b).drop_last() =~= a + b.drop_last());
        filter_map_adds_up(a, b.drop_last(), f);
        assert(filter_map(a + b, f) =~= filter_map(a, f) + filter_map(b, f));
    }
}

} // verus!
