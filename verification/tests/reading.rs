//! What is read from `git`, and what is asked of it.

use fuide_git::git::command::{
    arguments, environment, look_in, places_of_git, query_detail, query_diff, query_log,
    query_refs, query_status, LookIn,
};
use fuide_git::git::status::status_from_fields;
use fuide_git::git::time::{ago_text, shown, FIRST_SECOND, LAST_SECOND};
use fuide_git::git::worker::{compare, ended, lines_in, not_started, query, stream};
use fuide_git::git::{
    answer, augmented_path, fmt_ago, fmt_time, git_executable, graph, parse_detail, parse_diff,
    parse_log, parse_refs, parse_status, status_tag, toplevel, Commit, DiffKey, Git, Msg, Outcome,
    Reads,
};
use fuide_git::number::{decimal_text, read_i64, read_u32, signed_text};
use fuide_git::path::{name_of, same};
use fuide_git::text::{
    before, chars_of, has_text, is_whitespace, join_texts, lines_of, replace_char, split_chars,
    text_of, trimmed, words_of,
};

fn chars(s: &str) -> Vec<char> {
    chars_of(s)
}

fn strings(v: &[&str]) -> Vec<String> {
    v.iter().map(|s| s.to_string()).collect()
}

fn good(stdout: &[u8]) -> Outcome {
    Outcome::Ended {
        success: true,
        code: Some(0),
        stdout: stdout.to_vec(),
        stderr: Vec::new(),
    }
}

fn bad(code: Option<i32>, stdout: &[u8], stderr: &[u8]) -> Outcome {
    Outcome::Ended {
        success: false,
        code,
        stdout: stdout.to_vec(),
        stderr: stderr.to_vec(),
    }
}

#[test]
fn white_space_is_that_of_char() {
    for n in 0..=0x10ffff_u32 {
        if let Some(c) = char::from_u32(n) {
            assert_eq!(is_whitespace(c), c.is_whitespace(), "{n:x}");
        }
    }
}

#[test]
fn texts_are_cut_as_str_cuts_them() {
    for s in [
        "", "\n", "a", "a\n", "a\nb", "a\r\nb\r\n", "\r\n\r", "x\n\ny", " a  b\tc ", "é\u{3000}ü",
    ] {
        let c = chars(s);
        let lines: Vec<String> = lines_of(&c).iter().map(|l| text_of(l)).collect();
        assert_eq!(lines, s.lines().collect::<Vec<_>>());
        let words: Vec<String> = words_of(&c).iter().map(|l| text_of(l)).collect();
        assert_eq!(words, s.split_whitespace().collect::<Vec<_>>());
        let parts: Vec<String> = split_chars(&c, 'a').iter().map(|l| text_of(l)).collect();
        assert_eq!(parts, s.split('a').collect::<Vec<_>>());
        assert_eq!(join_texts(&parts, "a"), s);
        assert_eq!(trimmed(s), s.trim());
        assert_eq!(replace_char(s, '\t', "    "), s.replace('\t', "    "));
    }
}

#[test]
fn texts_are_found() {
    assert_eq!(before("stage // a.txt", " //"), "stage");
    assert_eq!(before("pull", " //"), "pull");
    assert_eq!(before(" /x // y", " //"), " /x");
    assert!(has_text("--- /dev/null\n", "--- /dev/null"));
    assert!(!has_text("--- /dev/nul", "--- /dev/null"));
}

#[test]
fn numbers_are_read_as_str_reads_them() {
    for s in [
        "", "0", "7", "+7", "-7", "--7", "+", "-", "007", "4294967295", "4294967296", "x1", "1x",
        "9223372036854775807", "-9223372036854775808", "9223372036854775808", " 1",
    ] {
        assert_eq!(read_u32(&chars(s)), s.parse::<u32>().ok(), "{s:?}");
        assert_eq!(read_i64(&chars(s)), s.parse::<i64>().ok(), "{s:?}");
    }
}

#[test]
fn numbers_read_back() {
    for n in [0, 9, 10, 4_294_967_295_u32] {
        assert_eq!(decimal_text(n as u128), n.to_string());
        assert_eq!(read_u32(&chars(&decimal_text(n as u128))), Some(n));
    }
    for n in [i64::MIN, -1, 0, 42, i64::MAX] {
        assert_eq!(signed_text(n), n.to_string());
        assert_eq!(read_i64(&chars(&signed_text(n))), Some(n));
    }
    assert_eq!(decimal_text(u128::MAX), u128::MAX.to_string());
}

#[test]
fn paths_are_compared_by_their_components() {
    for (a, b) in [
        ("/a/b", "/a//b/"),
        ("/a/b", "/a/./b/."),
        ("a", "./a"),
        ("/a", "a"),
        ("/a/../b", "/b"),
        ("", "."),
        ("/", "//"),
        ("..", "../"),
    ] {
        let (p, q) = (std::path::Path::new(a), std::path::Path::new(b));
        assert_eq!(same(a, b), p == q, "{a} {b}");
        for s in [a, b] {
            let name = std::path::Path::new(s)
                .file_name()
                .map(|n| n.to_string_lossy().into_owned());
            assert_eq!(name_of(s), name, "{s}");
        }
    }
    assert!(same("/a/b", "/a//b/"));
    assert!(!same("/a", "a"));
    assert_eq!(name_of("/src/repo/"), Some("repo".to_string()));
}

#[test]
fn status_letters() {
    let tags: Vec<&str> = "MADRCT?U.".chars().map(status_tag).collect();
    assert_eq!(
        tags,
        ["MOD", "ADD", "DEL", "REN", "COPY", "TYPE", "NEW", "CONFLICT", "--"]
    );
}

#[test]
fn a_status_reads_back() {
    let fields = strings(&[
        "# branch.oid 00ff",
        "# branch.head main",
        "# branch.upstream origin/main",
        "# branch.ab +12 -3",
        "1 M. N... 1 2 3 4 5 a b.txt",
        "2 R. N... 1 2 3 4 5 R100 to.txt",
        "from.txt",
        "u UU N... 1 2 3 4 5 6 7 both.txt",
        "? a file with spaces",
        "! ignored",
    ]);
    let st = status_from_fields(&fields);
    assert_eq!((st.head.as_str(), st.branch.as_str()), ("00ff", "main"));
    assert_eq!((st.ahead, st.behind), (12, 3));
    let paths: Vec<&str> = st.changes.iter().map(|c| c.path.as_str()).collect();
    assert_eq!(
        paths,
        ["a b.txt", "to.txt", "both.txt", "a file with spaces"]
    );
    assert_eq!(st.changes[1].orig_path.as_deref(), Some("from.txt"));
    assert_eq!((st.changes[2].staged, st.changes[2].unstaged), ('.', 'U'));
    assert!(!st.changes[2].has_staged());
    let fields = strings(&[
        "# branch.oid (initial)",
        "# branch.head new",
        "1 A. N... 000000 100644 100644 0 ab a.txt",
        "1 .D S..U 100755 100755 000000 cd ef b.txt",
        "",
    ]);
    let st = status_from_fields(&fields);
    assert_eq!((st.head.as_str(), st.branch.as_str()), ("(initial)", "new"));
    assert_eq!((st.upstream.as_str(), st.ahead, st.behind), ("", 0, 0));
    let changes: Vec<(&str, char, char)> = st
        .changes
        .iter()
        .map(|c| (c.path.as_str(), c.staged, c.unstaged))
        .collect();
    assert_eq!(changes, [("a.txt", 'A', '.'), ("b.txt", '.', 'D')]);
}

#[test]
fn bytes_that_are_no_text_are_replaced() {
    let st = parse_status(b"? caf\xc3\xa9\0? bad\xff\0");
    assert_eq!(st.changes[0].path, "café");
    assert_eq!(st.changes[1].path, "bad\u{fffd}");
}

#[test]
fn a_log_reads_back() {
    let commits = parse_log(
        "h1\x1fp1 p2\x1fA\nB\x1f-5\x1fHEAD -> main\x1fsubject\x1e\nh2\x1f\x1f\x1f\x1f\x1f\x1e\n",
    );
    assert_eq!(commits.len(), 2);
    assert_eq!(commits[0].author, "A\nB");
    assert_eq!(commits[0].time, -5);
    assert_eq!(commits[0].parents, ["p1", "p2"]);
    assert_eq!((commits[1].hash.as_str(), commits[1].time), ("h2", 0));
    assert!(parse_log("too\x1ffew\x1e\n").is_empty());
    assert!(parse_log("").is_empty());
}

#[test]
fn refs_read_back() {
    let r = parse_refs("refs/heads/a\x1f*\x1f\x1f1\nrefs/stash\x1f \x1f\x1f2\nshort\n");
    assert_eq!(r.len(), 1);
    assert_eq!((r[0].name.as_str(), r[0].current), ("a", true));
}

#[test]
fn a_commit_that_cannot_be_read() {
    assert!(parse_detail("no separator").is_none());
    assert!(parse_detail("a\x1fb\x1e\n").is_none());
    let d = parse_detail("h\x1f\x1fA\x1fe\x1f1\x1f\x1fm\x1e\nno tab\n\tno letter\nM\tx\n").unwrap();
    assert_eq!(d.files, vec![('M', "x".to_string())]);
}

#[test]
fn a_hunk_patch_reads_back() {
    let text = "diff --git a/f b/f\n--- a/f\n+++ b/f\n@@ -1 +1 @@\n-a\n+b\n@@ -9 +9,2 @@\n c\n+d\n";
    let d = parse_diff(text);
    let mut all = d.header.clone();
    for h in &d.hunks {
        all += h;
    }
    assert_eq!(all, text, "nothing is lost");
    let (mut adds, mut dels) = (0, 0);
    for i in 0..d.hunks.len() {
        let one = parse_diff(&d.hunk_patch(i));
        assert_eq!(one.hunks, vec![d.hunks[i].clone()]);
        assert_eq!(one.header, d.header);
        assert_eq!(one.lines[..3], d.lines[..3]);
        let mut of_hunk: Vec<_> = d.lines.iter().filter(|l| l.hunk == Some(i)).cloned().collect();
        for line in &mut of_hunk {
            line.hunk = Some(0);
        }
        assert_eq!(one.lines[3..], of_hunk[..]);
        adds += one.adds;
        dels += one.dels;
    }
    assert_eq!((adds, dels), (d.adds, d.dels));
    assert_eq!((d.adds, d.dels), (2, 1));
    assert_eq!(d.lines[8].new_no, Some(10));
}

#[test]
fn short_hashes() {
    let mut c = Commit {
        hash: "0123456789".into(),
        parents: Vec::new(),
        author: String::new(),
        time: 0,
        refs: String::new(),
        subject: String::new(),
    };
    assert_eq!(c.short(), "01234567");
    c.hash = "abc".into();
    assert_eq!(c.short(), "abc");
    assert_eq!(graph(&[c])[0].width, 1);
}

#[test]
fn times() {
    assert_eq!(fmt_time(i64::MAX), "--");
    assert_eq!(fmt_time(LAST_SECOND + 1), "--");
    assert_eq!(fmt_time(FIRST_SECOND - 1), "--");
    assert_ne!(fmt_time(LAST_SECOND), "--");
    assert_ne!(fmt_time(FIRST_SECOND), "--");
    let t = fmt_time(1_700_000_000);
    assert_eq!(t.len(), "2023-11-14 22:13".len());
    assert!(t.starts_with("2023-11-1"));
    assert_eq!(shown(None), "--");
    assert_eq!(shown(Some("noon".into())), "noon");
}

#[test]
fn how_long_ago() {
    assert_eq!(ago_text(0, 59).as_deref(), Some("now"));
    assert_eq!(ago_text(0, 60).as_deref(), Some("1 min ago"));
    assert_eq!(ago_text(0, 3599).as_deref(), Some("59 min ago"));
    assert_eq!(ago_text(0, 3600).as_deref(), Some("1 h ago"));
    assert_eq!(ago_text(0, 86_399).as_deref(), Some("23 h ago"));
    assert_eq!(ago_text(0, 86_400).as_deref(), Some("1 d ago"));
    assert_eq!(ago_text(0, 2_591_999).as_deref(), Some("29 d ago"));
    assert_eq!(ago_text(0, 2_592_000), None);
    assert_eq!(fmt_ago(50, 0), "now");
    assert_eq!(fmt_ago(-7_000, 0), "1 h ago");
    assert_eq!(fmt_ago(1_693_000, 1_700_000), "1 h ago");
    assert_eq!(fmt_ago(0, 2_592_000), fmt_time(0));
}

#[test]
fn what_is_asked() {
    let q = query_status("/r");
    assert_eq!(q.repo, "/r");
    assert_eq!(
        q.args,
        ["status", "--porcelain=v2", "-z", "--branch", "--untracked-files=all"]
    );
    assert_eq!(
        query_log("/r", 500).args,
        [
            "log",
            "--all",
            "--topo-order",
            "-n500",
            "--format=%H%x1f%P%x1f%an%x1f%at%x1f%D%x1f%s%x1e"
        ]
    );
    assert_eq!(
        query_refs("/r").args,
        [
            "for-each-ref",
            "--format=%(refname)%1f%(HEAD)%1f%(upstream:short)%1f%(objectname:short)",
            "refs/heads",
            "refs/remotes",
            "refs/tags"
        ]
    );
    assert_eq!(
        query_detail("/r", "abc").args,
        [
            "show",
            "--format=%H%x1f%P%x1f%an%x1f%ae%x1f%at%x1f%D%x1f%B%x1e",
            "--name-status",
            "abc"
        ]
    );
    let q = query_diff("/r", DiffKey::Unstaged("f".into()), true);
    assert_eq!(q.args, ["diff", "--no-index", "--", "/dev/null", "f"]);
    assert!(!q.reads_only());
    let q = query_diff("/r", DiffKey::Unstaged("f".into()), false);
    assert_eq!(q.args, ["diff", "--", "f"]);
    assert!(q.reads_only());
    let q = query_diff("/r", DiffKey::Staged("f".into()), false);
    assert_eq!(q.args, ["diff", "--cached", "--", "f"]);
    let q = query_diff("/r", DiffKey::Commit("h".into(), "f".into()), false);
    assert_eq!(q.args, ["show", "--format=", "h", "--", "f"]);
}

#[test]
fn how_git_is_started() {
    assert_eq!(
        arguments(&strings(&["push"])),
        ["-c", "color.ui=never", "push"]
    );
    let env = environment(Some("/bin".into()), true);
    let names: Vec<&str> = env.iter().map(|v| v.0.as_str()).collect();
    assert_eq!(
        names,
        ["PATH", "GIT_TERMINAL_PROMPT", "LC_ALL", "GIT_OPTIONAL_LOCKS"]
    );
    let values: Vec<&str> = env[1..].iter().map(|v| v.1.as_str()).collect();
    assert_eq!(values, ["0", "C", "0"]);
    assert_eq!(environment(None, false).len(), 3);
    assert_eq!(look_in(true, true), LookIn::Itself);
    assert_eq!(look_in(false, true), LookIn::Parent);
    assert_eq!(look_in(false, false), LookIn::Itself);
}

#[test]
fn the_search_path() {
    assert_eq!(
        augmented_path(None),
        "/opt/homebrew/bin:/usr/local/bin:/usr/bin:/bin:/usr/sbin:/sbin"
    );
    assert_eq!(
        augmented_path(Some("/usr/local/bin::/a:/a:/b:/a".into())),
        "/opt/homebrew/bin:/usr/local/bin:/a:/b:/a"
    );
}

#[test]
fn where_git_is() {
    assert_eq!(places_of_git().len(), 3);
    assert_eq!(git_executable(true, &vec![true, true, true]), None);
    assert_eq!(
        git_executable(false, &vec![false, true, true]).as_deref(),
        Some("/usr/local/bin/git")
    );
    assert_eq!(
        git_executable(false, &vec![false, false, false]).as_deref(),
        Some("git")
    );
}

#[test]
fn outcomes() {
    assert_eq!(query(good(b"out")), Ok(b"out".to_vec()));
    assert_eq!(
        query(bad(Some(128), b"out", b" fatal: no\n")),
        Err("fatal: no".to_string())
    );
    assert_eq!(
        query(Outcome::NotStarted("gone".into())),
        Err("cannot start git: gone".to_string())
    );
    assert_eq!(compare(bad(Some(1), b"d", b"")), Ok(b"d".to_vec()));
    assert_eq!(compare(bad(Some(0), b"d", b"")), Ok(b"d".to_vec()));
    assert_eq!(compare(bad(Some(2), b"", b"e\n")), Err("e".to_string()));
    assert_eq!(compare(bad(None, b"", b"e\n")), Err("e".to_string()));
    assert_eq!(
        compare(Outcome::NotStarted("gone".into())),
        Err("gone".to_string())
    );
    assert_eq!(toplevel(good(b"/r\n")), Ok("/r".to_string()));
    assert_eq!(toplevel(bad(Some(128), b"", b"no\n")), Err("no".to_string()));
}

#[test]
fn answers() {
    assert!(matches!(
        answer(Reads::Status, good(b"# branch.head x\0")),
        Msg::Status(Ok(st)) if st.branch == "x"
    ));
    assert!(matches!(
        answer(Reads::Log, bad(Some(1), b"", b"no log")),
        Msg::Log(Err(e)) if e == "no log"
    ));
    assert!(matches!(
        answer(Reads::Refs, good(b"refs/tags/v1\x1f \x1f\x1f1\n")),
        Msg::Refs(Ok(r)) if r[0].name == "v1"
    ));
    assert!(matches!(
        answer(Reads::Detail("h".into()), good(b"nothing")),
        Msg::Detail(Err(e)) if e == "unparsable show"
    ));
    let key = DiffKey::Unstaged("f".into());
    assert!(matches!(
        answer(Reads::Diff(key, true), bad(Some(1), b"@@ -0,0 +1 @@\n+x\n", b"")),
        Msg::Diff(DiffKey::Unstaged(p), Ok(d)) if p == "f" && d.adds == 1
    ));
    let key = DiffKey::Staged("f".into());
    assert!(matches!(
        answer(Reads::Diff(key, true), bad(Some(1), b"", b"no")),
        Msg::Diff(DiffKey::Staged(_), Err(e)) if e == "no"
    ));
}

fn texts(msgs: Vec<Msg>) -> Vec<(String, bool)> {
    msgs.into_iter()
        .map(|m| match m {
            Msg::Line { text, stderr } => (text, stderr),
            _ => panic!("a line"),
        })
        .collect()
}

#[test]
fn streamed_output() {
    assert_eq!(
        texts(lines_in("  10%\r  20% \r\r done.\n", true)),
        vec![
            ("  10%".to_string(), true),
            ("  20%".to_string(), true),
            (" done.".to_string(), true)
        ]
    );
    for (line, _) in texts(lines_in("a\rb\r\n", false)) {
        assert!(!line.contains('\n') && !line.contains('\r'));
    }
    assert_eq!(texts(lines_in("\r \r\n", false)), vec![]);
    assert_eq!(
        texts(stream(b"bad \xff\n", false)),
        vec![("bad \u{fffd}".to_string(), false)]
    );
    let msgs = not_started("push".into(), strings(&["push"]), "gone");
    assert!(matches!(
        &msgs[..],
        [
            Msg::Line { text, stderr: true },
            Msg::Exit { ok: false, code: None, .. }
        ] if text == "cannot start git: gone"
    ));
    assert!(matches!(
        ended("l".into(), Vec::new(), Some((true, Some(0))), "1.00".into()),
        Msg::Exit { ok: true, code: Some(0), .. }
    ));
    assert!(matches!(
        ended("l".into(), Vec::new(), None, "1.00".into()),
        Msg::Exit { ok: false, code: None, .. }
    ));
}

#[test]
fn commands_in_flight() {
    let mut git = Git::default();
    assert!(!git.busy());
    let q = git.fetch_status("/r");
    assert!(git.busy() && git.running().is_none());
    let msg = answer(q.reads, good(b""));
    assert_eq!(git.poll(vec![msg]).len(), 1);
    assert!(!git.busy());
    let none: Option<String> = None;
    let job = git.run("/r", "pull", &strings(&["pull"]), &none).unwrap();
    assert_eq!((job.label.as_str(), job.repo.as_str()), ("pull", "/r"));
    assert!(git.run("/r", "push", &strings(&["push"]), &none).is_none());
    assert_eq!(git.running(), Some("pull"));
    git.poll(lines_in("x", false));
    assert!(git.busy());
    git.poll(vec![ended("pull".into(), Vec::new(), None, String::new())]);
    assert!(!git.busy());
    // an answer too many is no harm
    git.poll(vec![answer(Reads::Refs, good(b""))]);
    assert_eq!(git.pending, 0);
    assert_eq!(git.fetch_log("/r", 3).args[3], "-n3");
    git.fetch_refs("/r");
    git.fetch_diff("/r", DiffKey::Staged("f".into()), false);
    git.fetch_detail("/r", "h");
    assert_eq!(git.pending, 4);
}

#[test]
fn lines_of_the_graph_continue() {
    let mk = |h: &str, ps: &[&str]| Commit {
        hash: h.into(),
        parents: strings(ps),
        author: String::new(),
        time: 0,
        refs: String::new(),
        subject: String::new(),
    };
    let commits = [
        mk("f", &["c", "e", "b"]),
        mk("e", &["d"]),
        mk("d", &["b"]),
        mk("c", &["a"]),
        mk("b", &["a"]),
        mk("a", &[]),
    ];
    let rows = graph(&commits);
    for (i, row) in rows.iter().enumerate() {
        assert_eq!(row.out.len(), commits[i].parents.len());
        for (k, p) in commits[i].parents.iter().enumerate() {
            let j = commits.iter().position(|c| c.hash == *p).unwrap();
            assert!(rows[j].into.contains(&row.out[k]), "the line reaches its parent");
            for between in &rows[i + 1..j] {
                assert!(between.through.contains(&row.out[k]));
            }
        }
    }
    for pair in rows.windows(2) {
        let sorted = |a: &[usize], b: &[usize]| {
            let mut v: Vec<usize> = a.iter().chain(b).copied().collect();
            v.sort();
            v.dedup();
            v
        };
        assert_eq!(
            sorted(&pair[0].through, &pair[0].out),
            sorted(&pair[1].into, &pair[1].through)
        );
    }
    assert_eq!(rows[0].clone(), rows[0]);
}

#[test]
fn lines_to_parents_out_of_sight_run_on() {
    let mk = |h: &str, ps: &[&str]| Commit {
        hash: h.into(),
        parents: strings(ps),
        author: String::new(),
        time: 0,
        refs: String::new(),
        subject: String::new(),
    };
    let rows = graph(&[
        mk("c", &["older"]),
        mk("b", &["a"]),
        mk("a", &[]),
        mk("z", &[]),
    ]);
    assert_eq!(rows[0].out, [0]);
    for row in &rows[1..] {
        assert!(row.through.contains(&0));
    }
    let widths: Vec<usize> = rows.iter().map(|r| r.width).collect();
    assert_eq!(widths, [1, 2, 2, 2]);
}

#[test]
fn copies_are_the_same() {
    let st = parse_status(b"# branch.head x\0? f\0");
    assert_eq!(st.clone(), st);
    let d = parse_diff("h\n@@ -1 +1 @@\n-a\n+b\n");
    assert_eq!(d.clone(), d);
    let c = parse_detail("h\x1fp\x1fA\x1fe\x1f1\x1fr\x1fm\x1e\nM\tx\n").unwrap();
    assert_eq!(c.clone(), c);
    let r = parse_refs("refs/tags/v\x1f \x1f\x1f1\n");
    assert_eq!(r.clone(), r);
    let key = DiffKey::Commit("h".into(), "p".into());
    assert!(key.clone() == key && key.same(&key));
    assert!(!key.same(&DiffKey::Staged("p".into())));
}
