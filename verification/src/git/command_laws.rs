//! What holds of everything that `git` is asked, and of how it is started.

use vstd::prelude::*;

use crate::git::command::{
    dedup, detail_query, diff_query, env_of, first_place, full_args, git_places, is_read, log_query,
    path_parts, refs_query, search_path, status_query, toplevel_args, DiffKeyModel, ReadsModel,
};
use crate::number::decimal;
use crate::text::{join, split};
use crate::text_laws::{free_of, join_first, split_adds_up, split_first, split_reads_back};

verus! {

/// Every read is asked in the repository that it is for, and answered for what it was asked.
pub proof fn reads_are_asked_where_they_belong(
    repo: Seq<char>,
    limit: int,
    key: DiffKeyModel,
    untracked: bool,
    hash: Seq<char>,
)
    ensures
        status_query(repo).repo == repo && status_query(repo).reads == ReadsModel::Status,
        log_query(repo, limit).repo == repo && log_query(repo, limit).reads == ReadsModel::Log,
        refs_query(repo).repo == repo && refs_query(repo).reads == ReadsModel::Refs,
        diff_query(repo, key, untracked).repo == repo,
        diff_query(repo, key, untracked).reads == ReadsModel::Diff(key, untracked),
        detail_query(repo, hash).repo == repo,
        detail_query(repo, hash).reads == ReadsModel::Detail(hash),
{
}

/// The status is asked for machines, with the branch, NUL bytes between the fields, and every file
/// that is not tracked; the log of all refs, children before parents, with as many commits as
/// wanted; and the refs by their full names.
pub proof fn reads_ask_for_their_formats(repo: Seq<char>, limit: nat)
    ensures
        status_query(repo).args == seq![
            "status"@,
            "--porcelain=v2"@,
            "-z"@,
            "--branch"@,
            "--untracked-files=all"@,
        ],
        log_query(repo, limit as int).args == seq![
            "log"@,
            "--all"@,
            "--topo-order"@,
            "-n"@ + decimal(limit),
            "--format="@ + "%H%x1f%P%x1f%an%x1f%at%x1f%D%x1f%s%x1e"@,
        ],
        refs_query(repo).args == seq![
            "for-each-ref"@,
            "--format="@ + "%(refname)%1f%(HEAD)%1f%(upstream:short)%1f%(objectname:short)"@,
            "refs/heads"@,
            "refs/remotes"@,
            "refs/tags"@,
        ],
{
}

/// Git is looked for where it is installed by hand before where the system has it, and the top of a
/// working tree is asked of git itself.
pub proof fn git_is_looked_for_in_order()
    ensures
        git_places() == seq![
            "/opt/homebrew/bin/git"@,
            "/usr/local/bin/git"@,
            "/usr/bin/git"@,
        ],
        toplevel_args() == seq!["rev-parse"@, "--show-toplevel"@],
{
}

/// A diff is asked for its own path, behind `--`, whatever the path looks like: against the index,
/// of the index, or of a commit. A file that is not tracked is compared with nothing.
pub proof fn diffs_are_asked_by_path(repo: Seq<char>, path: Seq<char>, hash: Seq<char>)
    ensures
        diff_query(repo, DiffKeyModel::Unstaged(path), false).args == seq!["diff"@, "--"@, path],
        diff_query(repo, DiffKeyModel::Unstaged(path), true).args == seq![
            "diff"@,
            "--no-index"@,
            "--"@,
            "/dev/null"@,
            path,
        ],
        forall|untracked: bool|
            (#[trigger] diff_query(repo, DiffKeyModel::Staged(path), untracked)).args == seq![
                "diff"@,
                "--cached"@,
                "--"@,
                path,
            ],
        forall|untracked: bool|
            (#[trigger] diff_query(repo, DiffKeyModel::Commit(hash, path), untracked)).args == seq![
                "show"@,
                "--format="@,
                hash,
                "--"@,
                path,
            ],
        detail_query(repo, hash).args == seq![
            "show"@,
            "--format="@ + "%H%x1f%P%x1f%an%x1f%ae%x1f%at%x1f%D%x1f%B%x1e"@,
            "--name-status"@,
            hash,
        ],
{
}

/// `git` is taken from the first place that has it, and from `PATH` where none has.
pub proof fn git_comes_from_the_first_place(places: Seq<Seq<char>>, is_file: Seq<bool>, i: int)
    requires
        is_file.len() == places.len(),
        0 <= i <= places.len(),
        forall|j: int| 0 <= j < i ==> !#[trigger] is_file[j],
        i < places.len() ==> is_file[i],
    ensures
        first_place(places, is_file) == if i < places.len() {
            places[i]
        } else {
            "git"@
        },
    decreases places.len(),
{
    if i > 0 {
        let rest = is_file.drop_first();
        assert(!is_file[0]);
        assert forall|j: int| 0 <= j < i - 1 implies !#[trigger] rest[j] by {
            assert(rest[j] == is_file[j + 1]);
        }
        git_comes_from_the_first_place(places.drop_first(), rest, i - 1);
    }
}

/// The directories of a search path are what stands between the colons, without what is empty.
pub proof fn directories_stand_between_colons(a: Seq<char>, b: Seq<char>, dir: Seq<char>)
    requires
        !dir.contains(':'),
    ensures
        path_parts(a + seq![':'] + b) == path_parts(a) + path_parts(b),
        path_parts(dir) == if dir.len() > 0 {
            seq![dir]
        } else {
            seq![]
        },
{
    let kept = |s: Seq<char>| s.len() > 0;
    split_adds_up(a, ':', b);
    filter_adds_up(split(a, ':'), split(b, ':'));
    split_first(dir, ':', seq![]);
    reveal(Seq::filter);
    assert(seq![dir].drop_last() =~= Seq::<Seq<char>>::empty());
    assert(Seq::<Seq<char>>::empty().filter(kept) =~= Seq::<Seq<char>>::empty());
    assert(seq![dir].filter(kept) =~= if dir.len() > 0 {
        seq![dir]
    } else {
        seq![]
    });
}

proof fn filter_adds_up(a: Seq<Seq<char>>, b: Seq<Seq<char>>)
    ensures
        (a + b).filter(|s: Seq<char>| s.len() > 0) == a.filter(|s: Seq<char>| s.len() > 0)
            + b.filter(|s: Seq<char>| s.len() > 0),
    decreases b.len(),
{
    let kept = |s: Seq<char>| s.len() > 0;
    reveal(Seq::filter);
    if b.len() == 0 {
        assert(a + b =~= a);
        assert(a.filter(kept) + b.filter(kept) =~= a.filter(kept));
    } else {
        assert((a + b).drop_last() =~= a + b.drop_last());
        filter_adds_up(a, b.drop_last());
        assert((a + b).filter(kept) =~= a.filter(kept) + b.filter(kept));
    }
}

/// Only what repeats the item right before it goes.
pub proof fn only_repeats_go<T>(s: Seq<T>, x: T)
    ensures
        dedup(Seq::<T>::empty()) == Seq::<T>::empty(),
        dedup(seq![x]) == seq![x],
        s.len() > 0 ==> dedup(s.push(x)) == if s.last() == x {
            dedup(s)
        } else {
            dedup(s).push(x)
        },
{
    assert(s.push(x).drop_last() =~= s);
}

proof fn nothing_goes<T>(s: Seq<T>)
    requires
        forall|i: int| 0 <= i < s.len() - 1 ==> #[trigger] s[i] != s[i + 1],
    ensures
        dedup(s) == s,
    decreases s.len(),
{
    if s.len() >= 2 {
        let front = s.drop_last();
        assert forall|i: int| 0 <= i < front.len() - 1 implies #[trigger] front[i]
            != front[i + 1] by {
            assert(s[i] != s[i + 1]);
        }
        nothing_goes(front);
        assert(s[s.len() - 2] != s[s.len() - 2 + 1]);
        assert(front.push(s.last()) =~= s);
    }
}

proof fn all_are_kept(dirs: Seq<Seq<char>>)
    requires
        forall|i: int| 0 <= i < dirs.len() ==> (#[trigger] dirs[i]).len() > 0,
    ensures
        dirs.filter(|s: Seq<char>| s.len() > 0) == dirs,
    decreases dirs.len(),
{
    reveal(Seq::filter);
    if dirs.len() > 0 {
        let front = dirs.drop_last();
        assert forall|i: int| 0 <= i < front.len() implies (#[trigger] front[i]).len() > 0 by {
            assert(front[i] == dirs[i]);
        }
        all_are_kept(front);
        assert(dirs[dirs.len() - 1].len() > 0);
        assert(front.push(dirs.last()) =~= dirs);
    }
}

/// The Homebrew directories come first, and then the directories that were given, in their order.
pub proof fn homebrew_comes_first(dirs: Seq<Seq<char>>)
    requires
        dirs.len() > 0,
        free_of(dirs, ':'),
        forall|i: int| 0 <= i < dirs.len() ==> (#[trigger] dirs[i]).len() > 0,
        forall|i: int| 0 <= i < dirs.len() - 1 ==> #[trigger] dirs[i] != dirs[i + 1],
        dirs[0] != "/usr/local/bin"@,
    ensures
        search_path(Some(join(dirs, seq![':']))) == "/opt/homebrew/bin"@ + ":"@
            + "/usr/local/bin"@ + ":"@ + join(dirs, seq![':']),
        search_path(None) == search_path(Some("/usr/bin:/bin:/usr/sbin:/sbin"@)),
{
    let (one, two) = ("/opt/homebrew/bin"@, "/usr/local/bin"@);
    let all = seq![one, two] + dirs;
    split_reads_back(dirs, ':');
    all_are_kept(dirs);
    the_two_places_differ();
    assert forall|i: int| 0 <= i < all.len() - 1 implies #[trigger] all[i] != all[i + 1] by {
        if i >= 2 {
            assert(dirs[i - 2] != dirs[i - 2 + 1]);
        }
    }
    nothing_goes(all);
    joined_behind_two(one, two, dirs, ":"@);
}

proof fn the_two_places_differ()
    ensures
        "/opt/homebrew/bin"@ != "/usr/local/bin"@,
        ":"@ == seq![':'],
{
    reveal_strlit("/opt/homebrew/bin");
    reveal_strlit("/usr/local/bin");
    reveal_strlit(":");
    assert("/opt/homebrew/bin"@.len() != "/usr/local/bin"@.len());
    assert(":"@ =~= seq![':']);
}

proof fn joined_behind_two(a: Seq<char>, b: Seq<char>, dirs: Seq<Seq<char>>, sep: Seq<char>)
    requires
        dirs.len() > 0,
    ensures
        join(seq![a, b] + dirs, sep) == a + sep + b + sep + join(dirs, sep),
{
    let all = seq![a, b] + dirs;
    join_first(all, sep);
    assert(all.drop_first() =~= seq![b] + dirs);
    join_first(all.drop_first(), sep);
    assert(all.drop_first().drop_first() =~= dirs);
    assert(a + sep + (b + sep + join(dirs, sep)) =~= a + sep + b + sep + join(dirs, sep));
}

/// What `git` is started with: the search path, no prompts, messages in English, and for a read no
/// optional locks; colours are off, and the command follows as it is.
pub proof fn commands_are_started_alike(
    path: Option<Seq<char>>,
    read: bool,
    args: Seq<Seq<char>>,
    i: int,
)
    ensures
        env_of(path, read).len() == if read {
            4int
        } else {
            3
        },
        env_of(path, read)[0] == ("PATH"@, search_path(path)),
        env_of(path, read)[1] == ("GIT_TERMINAL_PROMPT"@, "0"@),
        env_of(path, read)[2] == ("LC_ALL"@, "C"@),
        read ==> env_of(path, read)[3] == ("GIT_OPTIONAL_LOCKS"@, "0"@),
        full_args(args).len() == args.len() + 2,
        full_args(args)[0] == "-c"@ && full_args(args)[1] == "color.ui=never"@,
        0 <= i < args.len() ==> full_args(args)[i + 2] == args[i],
{
}

/// Every read takes no optional locks, but for the comparison of a file that is not tracked.
pub proof fn reads_take_no_locks(path: Seq<char>, hash: Seq<char>, untracked: bool)
    ensures
        is_read(ReadsModel::Status) && is_read(ReadsModel::Log) && is_read(ReadsModel::Refs),
        is_read(ReadsModel::Detail(hash)),
        is_read(ReadsModel::Diff(DiffKeyModel::Unstaged(path), false)),
        is_read(ReadsModel::Diff(DiffKeyModel::Staged(path), untracked)),
        is_read(ReadsModel::Diff(DiffKeyModel::Commit(hash, path), untracked)),
        !is_read(ReadsModel::Diff(DiffKeyModel::Unstaged(path), true)),
{
}

} // verus!
