//! What is asked of `git`, and how it is started.

use vstd::prelude::*;

use crate::number::{decimal, decimal_text};
use crate::text::{
    cat2, chars_of, clone_texts, group_models, join, join_texts, list, models, opt_model, owned,
    pieces, split, split_chars, text_of,
};

verus! {

broadcast use group_models;

/// How `git log` writes a commit.
pub const LOG_FORMAT: &'static str = "%H%x1f%P%x1f%an%x1f%at%x1f%D%x1f%s%x1e";

/// How `git for-each-ref` writes a ref.
pub const REF_FORMAT: &'static str =
    "%(refname)%1f%(HEAD)%1f%(upstream:short)%1f%(objectname:short)";

/// How `git show` writes a commit.
pub const SHOW_FORMAT: &'static str = "%H%x1f%P%x1f%an%x1f%ae%x1f%at%x1f%D%x1f%B%x1e";

/// Which diff is on screen.
#[derive(Debug, PartialEq, Eq)]
pub enum DiffKey {
    /// Worktree vs index (`git diff`), or the whole file for an untracked one.
    Unstaged(String),
    /// Index vs HEAD (`git diff --cached`).
    Staged(String),
    /// One file of a commit (`git show <hash> -- path`).
    Commit(String, String),
}

/// The contents of a [`DiffKey`].
pub enum DiffKeyModel {
    Unstaged(Seq<char>),
    Staged(Seq<char>),
    Commit(Seq<char>, Seq<char>),
}

impl View for DiffKey {
    type V = DiffKeyModel;

    open spec fn view(&self) -> DiffKeyModel {
        match self {
            DiffKey::Unstaged(p) => DiffKeyModel::Unstaged(p@),
            DiffKey::Staged(p) => DiffKeyModel::Staged(p@),
            DiffKey::Commit(h, p) => DiffKeyModel::Commit(h@, p@),
        }
    }
}

impl Clone for DiffKey {
    fn clone(&self) -> (r: DiffKey)
        ensures
            r@ == self@,
    {
        match self {
            DiffKey::Unstaged(p) => DiffKey::Unstaged(p.clone()),
            DiffKey::Staged(p) => DiffKey::Staged(p.clone()),
            DiffKey::Commit(h, p) => DiffKey::Commit(h.clone(), p.clone()),
        }
    }
}

impl DiffKey {
    /// Whether two keys stand for the same diff.
    pub fn same(&self, other: &DiffKey) -> (r: bool)
        ensures
            r == (self@ == other@),
    {
        match (self, other) {
            (DiffKey::Unstaged(a), DiffKey::Unstaged(b)) => *a == *b,
            (DiffKey::Staged(a), DiffKey::Staged(b)) => *a == *b,
            (DiffKey::Commit(h, a), DiffKey::Commit(k, b)) => *h == *k && *a == *b,
            _ => false,
        }
    }
}

/// What a read of the repository is for.
pub enum Reads {
    Status,
    Log,
    Refs,
    /// The diff of a key; the file is not tracked.
    Diff(DiffKey, bool),
    /// The commit with this hash.
    Detail(String),
}

/// The contents of a [`Reads`].
pub enum ReadsModel {
    Status,
    Log,
    Refs,
    Diff(DiffKeyModel, bool),
    Detail(Seq<char>),
}

impl View for Reads {
    type V = ReadsModel;

    open spec fn view(&self) -> ReadsModel {
        match self {
            Reads::Status => ReadsModel::Status,
            Reads::Log => ReadsModel::Log,
            Reads::Refs => ReadsModel::Refs,
            Reads::Diff(key, untracked) => ReadsModel::Diff(key@, *untracked),
            Reads::Detail(hash) => ReadsModel::Detail(hash@),
        }
    }
}

/// A `git` command that only reads, in the directory `repo`.
pub struct Query {
    pub repo: String,
    pub reads: Reads,
    pub args: Vec<String>,
}

/// The contents of a [`Query`].
pub struct QueryModel {
    pub repo: Seq<char>,
    pub reads: ReadsModel,
    pub args: Seq<Seq<char>>,
}

impl View for Query {
    type V = QueryModel;

    open spec fn view(&self) -> QueryModel {
        QueryModel { repo: self.repo@, reads: self.reads@, args: models(self.args@) }
    }
}

/// A `git` command that changes something, in the directory `repo`.
pub struct Job {
    pub repo: String,
    pub label: String,
    pub args: Vec<String>,
    /// What the command reads (patches for `apply`, the message for `commit`).
    pub stdin: Option<String>,
}

/// The contents of a [`Job`].
pub struct JobModel {
    pub repo: Seq<char>,
    pub label: Seq<char>,
    pub args: Seq<Seq<char>>,
    pub stdin: Option<Seq<char>>,
}

impl View for Job {
    type V = JobModel;

    open spec fn view(&self) -> JobModel {
        JobModel {
            repo: self.repo@,
            label: self.label@,
            args: models(self.args@),
            stdin: opt_model(self.stdin),
        }
    }
}

pub open spec fn status_query(repo: Seq<char>) -> QueryModel {
    QueryModel {
        repo,
        reads: ReadsModel::Status,
        args: seq![
            "status"@,
            "--porcelain=v2"@,
            "-z"@,
            "--branch"@,
            "--untracked-files=all"@,
        ],
    }
}

/// The newest `limit` commits reachable from any ref.
pub open spec fn log_query(repo: Seq<char>, limit: int) -> QueryModel {
    QueryModel {
        repo,
        reads: ReadsModel::Log,
        args: seq![
            "log"@,
            "--all"@,
            "--topo-order"@,
            "-n"@ + decimal(limit as nat),
            "--format="@ + LOG_FORMAT@,
        ],
    }
}

pub open spec fn refs_query(repo: Seq<char>) -> QueryModel {
    QueryModel {
        repo,
        reads: ReadsModel::Refs,
        args: seq![
            "for-each-ref"@,
            "--format="@ + REF_FORMAT@,
            "refs/heads"@,
            "refs/remotes"@,
            "refs/tags"@,
        ],
    }
}

pub open spec fn diff_args(key: DiffKeyModel, untracked: bool) -> Seq<Seq<char>> {
    match key {
        DiffKeyModel::Unstaged(p) => if untracked {
            seq!["diff"@, "--no-index"@, "--"@, "/dev/null"@, p]
        } else {
            seq!["diff"@, "--"@, p]
        },
        DiffKeyModel::Staged(p) => seq!["diff"@, "--cached"@, "--"@, p],
        DiffKeyModel::Commit(h, p) => seq!["show"@, "--format="@, h, "--"@, p],
    }
}

pub open spec fn diff_query(repo: Seq<char>, key: DiffKeyModel, untracked: bool) -> QueryModel {
    QueryModel {
        repo,
        reads: ReadsModel::Diff(key, untracked),
        args: diff_args(key, untracked),
    }
}

pub open spec fn detail_query(repo: Seq<char>, hash: Seq<char>) -> QueryModel {
    QueryModel {
        repo,
        reads: ReadsModel::Detail(hash),
        args: seq!["show"@, "--format="@ + SHOW_FORMAT@, "--name-status"@, hash],
    }
}

pub fn query_status(repo: &str) -> (r: Query)
    ensures
        r@ == status_query(repo@),
{
    let args = list(
        &["status", "--porcelain=v2", "-z", "--branch", "--untracked-files=all"],
    );
    assert(models(args@) =~= status_query(repo@).args);
    Query { repo: owned(repo), reads: Reads::Status, args }
}

pub fn query_log(repo: &str, limit: usize) -> (r: Query)
    ensures
        r@ == log_query(repo@, limit as int),
{
    let n = cat2("-n", decimal_text(limit as u128).as_str());
    let format = cat2("--format=", LOG_FORMAT);
    let args = list(&["log", "--all", "--topo-order", n.as_str(), format.as_str()]);
    assert(models(args@) =~= log_query(repo@, limit as int).args);
    Query { repo: owned(repo), reads: Reads::Log, args }
}

pub fn query_refs(repo: &str) -> (r: Query)
    ensures
        r@ == refs_query(repo@),
{
    let format = cat2("--format=", REF_FORMAT);
    let args = list(
        &["for-each-ref", format.as_str(), "refs/heads", "refs/remotes", "refs/tags"],
    );
    assert(models(args@) =~= refs_query(repo@).args);
    Query { repo: owned(repo), reads: Reads::Refs, args }
}

pub fn query_diff(repo: &str, key: DiffKey, untracked: bool) -> (r: Query)
    ensures
        r@ == diff_query(repo@, key@, untracked),
{
    let args = match &key {
        DiffKey::Unstaged(p) => if untracked {
            list(&["diff", "--no-index", "--", "/dev/null", p.as_str()])
        } else {
            list(&["diff", "--", p.as_str()])
        },
        DiffKey::Staged(p) => list(&["diff", "--cached", "--", p.as_str()]),
        DiffKey::Commit(h, p) => list(&["show", "--format=", h.as_str(), "--", p.as_str()]),
    };
    assert(models(args@) =~= diff_args(key@, untracked));
    Query { repo: owned(repo), reads: Reads::Diff(key, untracked), args }
}

pub fn query_detail(repo: &str, hash: &str) -> (r: Query)
    ensures
        r@ == detail_query(repo@, hash@),
{
    let format = cat2("--format=", SHOW_FORMAT);
    let args = list(&["show", format.as_str(), "--name-status", hash]);
    assert(models(args@) =~= detail_query(repo@, hash@).args);
    Query { repo: owned(repo), reads: Reads::Detail(owned(hash)), args }
}

/// Where `git` is looked for, in this order.
pub open spec fn git_places() -> Seq<Seq<char>> {
    seq!["/opt/homebrew/bin/git"@, "/usr/local/bin/git"@, "/usr/bin/git"@]
}

/// The places where `git` is looked for, in this order.
pub fn places_of_git() -> (r: Vec<String>)
    ensures
        models(r@) == git_places(),
{
    let r = list(&["/opt/homebrew/bin/git", "/usr/local/bin/git", "/usr/bin/git"]);
    assert(models(r@) =~= git_places());
    r
}

/// The first of `places` at which there is a file; `git` (to be found on `PATH`) where there is
/// none at any.
pub open spec fn first_place(places: Seq<Seq<char>>, is_file: Seq<bool>) -> Seq<char>
    decreases places.len(),
{
    if places.len() == 0 || is_file.len() == 0 {
        "git"@
    } else if is_file[0] {
        places[0]
    } else {
        first_place(places.drop_first(), is_file.drop_first())
    }
}

/// Locate `git`: `FUIDE_GIT_BIN` overrides it (none then), else the first place that holds a
/// file, or whatever `PATH` finds. `is_file` says for each of [`places_of_git`] whether there is
/// one.
pub fn git_executable(overridden: bool, is_file: &Vec<bool>) -> (r: Option<String>)
    ensures
        opt_model(r) == if overridden {
            None
        } else {
            Some(first_place(git_places(), is_file@))
        },
{
    if overridden {
        return None;
    }
    let places = places_of_git();
    let ghost all = git_places();
    let mut i: usize = 0;
    assert(all.skip(0) =~= all);
    assert(is_file@.skip(0) =~= is_file@);
    while i < places.len() && i < is_file.len()
        invariant
            i <= places@.len(),
            i <= is_file@.len(),
            all == models(places@),
            all == git_places(),
            !overridden,
            first_place(all, is_file@) == first_place(all.skip(i as int), is_file@.skip(i as int)),
        decreases places@.len() - i,
    {
        if is_file[i] {
            return Some(places[i].clone());
        }
        assert(all.skip(i as int).drop_first() =~= all.skip(i + 1));
        assert(is_file@.skip(i as int).drop_first() =~= is_file@.skip(i + 1));
        i += 1;
    }
    Some(owned("git"))
}

/// `s` without the items that equal the one before them.
pub open spec fn dedup<T>(s: Seq<T>) -> Seq<T>
    decreases s.len(),
{
    if s.len() < 2 {
        s
    } else if s.last() == s[s.len() - 2] {
        dedup(s.drop_last())
    } else {
        dedup(s.drop_last()).push(s.last())
    }
}

/// The directories that a search path names.
pub open spec fn path_parts(path: Seq<char>) -> Seq<Seq<char>> {
    split(path, ':').filter(|s: Seq<char>| s.len() > 0)
}

/// The search path of `git`: the Homebrew directories, and those of `path`.
pub open spec fn search_path(path: Option<Seq<char>>) -> Seq<char> {
    let given = match path {
        Some(p) => p,
        None => "/usr/bin:/bin:/usr/sbin:/sbin"@,
    };
    join(dedup(seq!["/opt/homebrew/bin"@, "/usr/local/bin"@] + path_parts(given)), ":"@)
}

/// A copy without the texts that equal the one before them.
fn dedup_texts(v: &Vec<String>) -> (r: Vec<String>)
    ensures
        models(r@) == dedup(models(v@)),
{
    let mut out: Vec<String> = Vec::new();
    let mut i: usize = 0;
    let ghost all = models(v@);
    while i < v.len()
        invariant
            i <= v@.len(),
            all == models(v@),
            models(out@) == dedup(all.take(i as int)),
        decreases v@.len() - i,
    {
        let ghost now = all.take(i + 1);
        assert(now.drop_last() =~= all.take(i as int));
        assert(now.last() == v@[i as int]@);
        if i == 0 || v[i] != v[i - 1] {
            out.push(v[i].clone());
            assert(i == 0 ==> models(out@) =~= now);
        }
        i += 1;
    }
    assert(all.take(all.len() as int) =~= all);
    out
}

/// `PATH` with the Homebrew bin directories prepended: apps started from Finder get a minimal
/// `PATH`, and credential helpers (`gh`, `git-credential-osxkeychain`) must still resolve.
pub fn augmented_path(path: Option<String>) -> (r: String)
    ensures
        r@ == search_path(opt_model(path)),
{
    let given = match path {
        Some(p) => p,
        None => owned("/usr/bin:/bin:/usr/sbin:/sbin"),
    };
    let mut parts = list(&["/opt/homebrew/bin", "/usr/local/bin"]);
    let chars = chars_of(given.as_str());
    let dirs = split_chars(chars.as_slice(), ':');
    let mut i: usize = 0;
    let ghost all = pieces(dirs@);
    let ghost first = seq!["/opt/homebrew/bin"@, "/usr/local/bin"@];
    let ghost kept = |s: Seq<char>| s.len() > 0;
    assert(models(parts@) =~= first + all.take(0).filter(kept)) by {
        reveal(Seq::filter);
    }
    while i < dirs.len()
        invariant
            i <= dirs@.len(),
            all == pieces(dirs@),
            kept == (|s: Seq<char>| s.len() > 0),
            models(parts@) == first + all.take(i as int).filter(kept),
        decreases dirs@.len() - i,
    {
        assert(all.take(i + 1).drop_last() =~= all.take(i as int));
        assert(all.take(i + 1).last() == dirs@[i as int]@);
        assert(all.take(i + 1).filter(kept) == if kept(dirs@[i as int]@) {
            all.take(i as int).filter(kept).push(dirs@[i as int]@)
        } else {
            all.take(i as int).filter(kept)
        }) by {
            reveal(Seq::filter);
        }
        if dirs[i].len() > 0 {
            parts.push(text_of(dirs[i]));
            assert(models(parts@) =~= first + all.take(i + 1).filter(kept));
        }
        i += 1;
    }
    assert(all.take(all.len() as int) =~= all);
    join_texts(&dedup_texts(&parts), ":")
}

/// The variables that `git` is started with. A read takes no optional locks.
pub open spec fn env_of(path: Option<Seq<char>>, read: bool) -> Seq<(Seq<char>, Seq<char>)> {
    let base = seq![
        ("PATH"@, search_path(path)),
        ("GIT_TERMINAL_PROMPT"@, "0"@),
        ("LC_ALL"@, "C"@),
    ];
    if read {
        base.push(("GIT_OPTIONAL_LOCKS"@, "0"@))
    } else {
        base
    }
}

/// Whatever is started, `git` never asks at a terminal, and writes its messages in English.
pub proof fn git_never_prompts(path: Option<Seq<char>>, read: bool)
    ensures
        env_of(path, read).contains(("GIT_TERMINAL_PROMPT"@, "0"@)),
        env_of(path, read).contains(("LC_ALL"@, "C"@)),
        env_of(path, true).contains(("GIT_OPTIONAL_LOCKS"@, "0"@)),
{
    assert(env_of(path, read)[1] == ("GIT_TERMINAL_PROMPT"@, "0"@));
    assert(env_of(path, read)[2] == ("LC_ALL"@, "C"@));
    assert(env_of(path, true)[3] == ("GIT_OPTIONAL_LOCKS"@, "0"@));
}

/// The contents of a list of variables.
pub open spec fn env_models(env: Seq<(String, String)>) -> Seq<(Seq<char>, Seq<char>)> {
    env.map_values(|v: (String, String)| (v.0@, v.1@))
}

/// The variables that `git` is started with: no prompts, messages in English, and the augmented
/// `PATH`.
pub fn environment(path: Option<String>, read: bool) -> (r: Vec<(String, String)>)
    ensures
        env_models(r@) == env_of(opt_model(path), read),
{
    let mut env: Vec<(String, String)> = Vec::new();
    let ghost given = opt_model(path);
    env.push((owned("PATH"), augmented_path(path)));
    env.push((owned("GIT_TERMINAL_PROMPT"), owned("0")));
    env.push((owned("LC_ALL"), owned("C")));
    if read {
        env.push((owned("GIT_OPTIONAL_LOCKS"), owned("0")));
    }
    assert(env_models(env@) =~= env_of(given, read));
    env
}

/// The whole argument list: colours off, and then the command.
pub open spec fn full_args(args: Seq<Seq<char>>) -> Seq<Seq<char>> {
    seq!["-c"@, "color.ui=never"@] + args
}

/// The whole argument list that `git` is started with.
pub fn arguments(args: &Vec<String>) -> (r: Vec<String>)
    ensures
        models(r@) == full_args(models(args@)),
{
    let mut r = list(&["-c", "color.ui=never"]);
    let mut rest = clone_texts(args);
    let ghost head = r@;
    let ghost tail = rest@;
    r.append(&mut rest);
    assert(models(r@) =~= models(head) + models(tail));
    assert(models(head) =~= seq!["-c"@, "color.ui=never"@]);
    r
}

/// Whether a read is started as one: the diff of an untracked file compares two files outside
/// the index, and is not.
pub open spec fn is_read(reads: ReadsModel) -> bool {
    !(reads matches ReadsModel::Diff(DiffKeyModel::Unstaged(_), true))
}

impl Query {
    /// Whether the command is started without optional locks.
    pub fn reads_only(&self) -> (r: bool)
        ensures
            r == is_read(self@.reads),
    {
        match &self.reads {
            Reads::Diff(DiffKey::Unstaged(_), untracked) => !*untracked,
            _ => true,
        }
    }
}

/// The directory in which `git` looks for the repository around a path.
#[derive(Clone, Copy, Debug, PartialEq, Eq, Structural)]
pub enum LookIn {
    Itself,
    Parent,
}

/// A directory is looked in itself, anything else through its parent, where it has one.
pub fn look_in(is_dir: bool, has_parent: bool) -> (r: LookIn)
    ensures
        r == if !is_dir && has_parent {
            LookIn::Parent
        } else {
            LookIn::Itself
        },
{
    if !is_dir && has_parent {
        LookIn::Parent
    } else {
        LookIn::Itself
    }
}

/// The command that names the top of the working tree.
pub open spec fn toplevel_args() -> Seq<Seq<char>> {
    seq!["rev-parse"@, "--show-toplevel"@]
}

/// The command that names the top of the working tree.
pub fn args_toplevel() -> (r: Vec<String>)
    ensures
        models(r@) == toplevel_args(),
{
    let r = list(&["rev-parse", "--show-toplevel"]);
    assert(models(r@) =~= toplevel_args());
    r
}

/// Of items that stand one behind the other and are equal, only the first is kept; nothing else
/// goes, and what comes first stays first.
pub proof fn dedup_leaves_no_repeats<T>(s: Seq<T>)
    ensures
        dedup(s).len() <= s.len(),
        s.len() > 0 ==> dedup(s).len() > 0 && dedup(s)[0] == s[0] && dedup(s).last() == s.last(),
        forall|i: int| 0 <= i < dedup(s).len() - 1 ==> #[trigger] dedup(s)[i] != dedup(s)[i + 1],
        forall|i: int| 0 <= i < s.len() ==> dedup(s).contains(#[trigger] s[i]),
    decreases s.len(),
{
    if s.len() == 1 {
        assert(dedup(s)[0] == s[0]);
    } else if s.len() > 1 {
        let front = s.drop_last();
        let before = dedup(front);
        dedup_leaves_no_repeats(front);
        let now = dedup(s);
        assert forall|i: int| 0 <= i < s.len() implies now.contains(#[trigger] s[i]) by {
            if i < front.len() {
                assert(front[i] == s[i]);
                assert(before.contains(front[i]));
                let k = choose|k: int| 0 <= k < before.len() && before[k] == s[i];
                assert(now[k] == s[i]);
            } else {
                assert(now[now.len() - 1] == s[i]);
            }
        }
    }
}

} // verus!
