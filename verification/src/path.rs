//! Paths as text: what they are made of, as on Unix.

use vstd::prelude::*;

use crate::text::{
    chars_of, filter_map, group_models, is_text, models, opt_model, pieces, split, split_chars,
    text_of,
};
use crate::text_laws::{filter_map_adds_up, split_adds_up, split_first};

verus! {

broadcast use group_models;

/// One component of a path.
pub enum Component {
    /// The slash that an absolute path starts with.
    Root,
    /// A `.` at the start of a relative path.
    Here,
    /// `..`
    Up,
    Name(String),
}

/// The contents of a [`Component`].
pub enum ComponentModel {
    Root,
    Here,
    Up,
    Name(Seq<char>),
}

impl View for Component {
    type V = ComponentModel;

    open spec fn view(&self) -> ComponentModel {
        match self {
            Component::Root => ComponentModel::Root,
            Component::Here => ComponentModel::Here,
            Component::Up => ComponentModel::Up,
            Component::Name(name) => ComponentModel::Name(name@),
        }
    }
}

/// What stands between two slashes; an empty part and `.` are nothing.
pub open spec fn component_of(part: Seq<char>) -> Option<ComponentModel> {
    if part.len() == 0 || part == "."@ {
        None
    } else if part == ".."@ {
        Some(ComponentModel::Up)
    } else {
        Some(ComponentModel::Name(part))
    }
}

/// What a path starts with.
pub open spec fn start_of(path: Seq<char>) -> Seq<ComponentModel> {
    if path.len() > 0 && path[0] == '/' {
        seq![ComponentModel::Root]
    } else if split(path, '/')[0] == "."@ {
        seq![ComponentModel::Here]
    } else {
        seq![]
    }
}

/// The components of a path.
pub open spec fn components(path: Seq<char>) -> Seq<ComponentModel> {
    start_of(path) + filter_map(split(path, '/'), |part: Seq<char>| component_of(part))
}

/// Two paths are the same when their components are: repeated and trailing slashes, and `.` but
/// for one at the start, make no difference.
pub open spec fn same_path(a: Seq<char>, b: Seq<char>) -> bool {
    components(a) == components(b)
}

/// The name that a path ends with; none for `/` and for one that ends with `..` or is empty.
pub open spec fn file_name(path: Seq<char>) -> Option<Seq<char>> {
    let c = components(path);
    if c.len() > 0 {
        match c.last() {
            ComponentModel::Name(name) => Some(name),
            _ => None,
        }
    } else {
        None
    }
}

/// The components of a path.
pub fn components_of(path: &str) -> (r: Vec<Component>)
    ensures
        models(r@) == components(path@),
{
    let chars = chars_of(path);
    let parts = split_chars(chars.as_slice(), '/');
    let ghost all = pieces(parts@);
    assert(all[0] == parts@[0]@);
    let ghost f = |part: Seq<char>| component_of(part);
    let mut out: Vec<Component> = Vec::new();
    if chars.len() > 0 && chars[0] == '/' {
        out.push(Component::Root);
    } else if is_text(parts[0], ".") {
        out.push(Component::Here);
    }
    assert(models(out@) =~= start_of(path@) + filter_map(all.take(0), f));
    let mut i: usize = 0;
    while i < parts.len()
        invariant
            i <= parts@.len(),
            all == pieces(parts@),
            f == (|part: Seq<char>| component_of(part)),
            models(out@) == start_of(path@) + filter_map(all.take(i as int), f),
        decreases parts@.len() - i,
    {
        assert(all.take(i + 1).drop_last() =~= all.take(i as int));
        assert(all.take(i + 1).last() == parts@[i as int]@);
        let part = parts[i];
        if part.len() == 0 || is_text(part, ".") {
        } else if is_text(part, "..") {
            out.push(Component::Up);
        } else {
            out.push(Component::Name(text_of(part)));
        }
        assert(models(out@) =~= start_of(path@) + filter_map(all.take(i + 1), f));
        i += 1;
    }
    assert(all.take(all.len() as int) =~= all);
    out
}

fn same_component(a: &Component, b: &Component) -> (r: bool)
    ensures
        r == (a@ == b@),
{
    match (a, b) {
        (Component::Root, Component::Root) => true,
        (Component::Here, Component::Here) => true,
        (Component::Up, Component::Up) => true,
        (Component::Name(x), Component::Name(y)) => *x == *y,
        _ => false,
    }
}

/// Whether two paths are the same.
pub fn same(a: &str, b: &str) -> (r: bool)
    ensures
        r == same_path(a@, b@),
{
    let x = components_of(a);
    let y = components_of(b);
    if x.len() != y.len() {
        assert(models(x@).len() != models(y@).len());
        return false;
    }
    let mut i: usize = 0;
    while i < x.len()
        invariant
            i <= x@.len(),
            x@.len() == y@.len(),
            models(x@) == components(a@),
            models(y@) == components(b@),
            forall|k: int| 0 <= k < i ==> models(x@)[k] == models(y@)[k],
        decreases x@.len() - i,
    {
        if !same_component(&x[i], &y[i]) {
            assert(models(x@)[i as int] != models(y@)[i as int]);
            return false;
        }
        assert(models(x@)[i as int] == models(y@)[i as int]);
        i += 1;
    }
    assert(models(x@) =~= models(y@));
    true
}

/// The name that a path ends with.
pub fn name_of(path: &str) -> (r: Option<String>)
    ensures
        opt_model(r) == file_name(path@),
{
    let mut c = components_of(path);
    let ghost all = models(c@);
    match c.pop() {
        Some(Component::Name(name)) => {
            assert(all.last() == ComponentModel::Name(name@));
            Some(name)
        },
        Some(_) => None,
        None => None,
    }
}

/// A path is the same as itself, whichever of two comes first makes no difference, and two that
/// are the same as a third are the same.
pub proof fn same_path_is_an_equivalence(a: Seq<char>, b: Seq<char>, c: Seq<char>)
    ensures
        same_path(a, a),
        same_path(a, b) == same_path(b, a),
        same_path(a, b) && same_path(b, c) ==> same_path(a, c),
        same_path(a, b) ==> file_name(a) == file_name(b),
{
}

/// A name that can stand between slashes.
pub open spec fn is_name(s: Seq<char>) -> bool {
    s.len() > 0 && !s.contains('/') && s != "."@ && s != ".."@
}

/// What a path has below another: `path`, a slash, and `below`.
pub open spec fn below(path: Seq<char>, below: Seq<char>) -> Seq<char> {
    path + seq!['/'] + below
}

proof fn parts_below(path: Seq<char>, rest: Seq<char>)
    requires
        path.len() > 0,
    ensures
        components(below(path, rest)) == components(path) + filter_map(
            split(rest, '/'),
            |part: Seq<char>| component_of(part),
        ),
{
    let f = |part: Seq<char>| component_of(part);
    let all = below(path, rest);
    split_adds_up(path, '/', rest);
    filter_map_adds_up(split(path, '/'), split(rest, '/'), f);
    assert(all[0] == path[0]);
    assert(split(all, '/')[0] == split(path, '/')[0]);
    assert(components(all) =~= components(path) + filter_map(split(rest, '/'), f));
}

proof fn one_part(part: Seq<char>)
    requires
        !part.contains('/'),
    ensures
        filter_map(split(part, '/'), |p: Seq<char>| component_of(p)) == match component_of(part) {
            Some(c) => seq![c],
            None => seq![],
        },
{
    let f = |p: Seq<char>| component_of(p);
    split_first(part, '/', seq![]);
    assert(split(part, '/').drop_last() =~= Seq::<Seq<char>>::empty());
    assert(filter_map(split(part, '/').drop_last(), f) =~= Seq::<ComponentModel>::empty());
}

/// A path ends with the name that was put below it, with a slash behind it or not; one that ends
/// with `..` ends with no name.
pub proof fn names_come_last(path: Seq<char>, name: Seq<char>)
    requires
        path.len() > 0,
        is_name(name),
    ensures
        file_name(below(path, name)) == Some(name),
        file_name(below(below(path, name), seq![])) == Some(name),
        file_name(below(path, ".."@)) is None,
        file_name(name) == Some(name),
        file_name(seq!['/']) is None,
        file_name(seq![]) is None,
{
    reveal_strlit(".");
    reveal_strlit("..");
    parts_below(path, name);
    one_part(name);
    parts_below(below(path, name), seq![]);
    one_part(seq![]);
    assert(!".."@.contains('/'));
    assert(".."@.len() == 2 && "."@.len() == 1);
    parts_below(path, ".."@);
    one_part(".."@);
    split_first(name, '/', seq![]);
    assert(name[0] != '/') by {
        assert(name.contains(name[0]));
    }
    assert(components(name) =~= seq![ComponentModel::Name(name)]);
    let none = Seq::<char>::empty();
    assert(seq!['/'] =~= none + seq!['/'] + none);
    split_adds_up(none, '/', none);
    split_first(none, '/', none);
    assert(split(seq!['/'], '/') =~= seq![none, none]);
    let f = |p: Seq<char>| component_of(p);
    assert(seq![none, none].drop_last() =~= seq![none]);
    assert(filter_map(seq![none], f) == filter_map(Seq::<Seq<char>>::empty(), f)) by {
        assert(seq![none].drop_last() =~= Seq::<Seq<char>>::empty());
    }
    assert(filter_map(seq![none, none], f) =~= seq![]);
    assert(components(seq!['/']) =~= seq![ComponentModel::Root]);
    assert(components(none) =~= seq![]) by {
        assert(filter_map(seq![none], f) =~= seq![]);
        assert("."@ != none);
    }
}

/// Slashes that are repeated or come last, and `.` between slashes, make no difference; another
/// name does, and so does one more.
pub proof fn spellings_of_a_path(
    path: Seq<char>,
    rest: Seq<char>,
    name: Seq<char>,
    other: Seq<char>,
)
    requires
        path.len() > 0,
        is_name(name),
        is_name(other),
    ensures
        same_path(below(path, seq![]), path),
        same_path(below(path, "."@), path),
        same_path(below(below(path, seq![]), rest), below(path, rest)),
        same_path(below(below(path, "."@), rest), below(path, rest)),
        same_path(below(path, name), below(path, other)) <==> name == other,
        !same_path(below(path, name), path),
        !same_path(below(path, ".."@), path),
        !same_path(name, seq!['/'] + name),
{
    reveal_strlit(".");
    reveal_strlit("..");
    assert(!"."@.contains('/') && !".."@.contains('/'));
    assert(".."@.len() == 2 && "."@.len() == 1);
    let none = Seq::<char>::empty();
    parts_below(path, none);
    one_part(none);
    parts_below(path, "."@);
    one_part("."@);
    parts_below(path, rest);
    parts_below(below(path, none), rest);
    parts_below(below(path, "."@), rest);
    parts_below(path, name);
    parts_below(path, other);
    one_part(name);
    one_part(other);
    parts_below(path, ".."@);
    one_part(".."@);
    let c = components(path);
    assert(c + seq![] =~= c);
    assert((c + seq![ComponentModel::Name(name)]).last() == ComponentModel::Name(name));
    assert((c + seq![ComponentModel::Name(other)]).last() == ComponentModel::Name(other));
    assert((c + seq![ComponentModel::Name(name)]).len() == c.len() + 1);
    assert((c + seq![ComponentModel::Up]).len() == c.len() + 1);
    assert(name[0] != '/') by {
        assert(name.contains(name[0]));
    }
    split_first(name, '/', seq![]);
    assert(components(name) =~= seq![ComponentModel::Name(name)]);
    assert(components(seq!['/'] + name)[0] == ComponentModel::Root);
}

} // verus!
