use fuide_git::git::{
    fmt_ago, graph, parse_detail, parse_diff, parse_log, parse_refs, parse_status, Commit,
    LineKind, RefKind,
};

#[test]
fn status_v2_parses_headers_ordinary_renames_and_untracked() {
    let raw = b"# branch.oid abc123\0# branch.head main\0# branch.upstream origin/main\0# branch.ab +2 -1\0\
1 .M N... 100644 100644 100644 aaaa bbbb src/app.rs\0\
1 A. N... 000000 100644 100644 0000 cccc new file.txt\0\
2 R. N... 100644 100644 100644 dddd dddd R100 new/name.rs\0old/name.rs\0\
u UU N... 100644 100644 100644 100644 e1 e2 e3 conflict.rs\0\
? notes.md\0";
    let st = parse_status(raw);
    assert_eq!(st.branch, "main");
    assert_eq!(st.upstream, "origin/main");
    assert_eq!((st.ahead, st.behind), (2, 1));
    assert_eq!(st.changes.len(), 5);
    assert_eq!(st.changes[0].path, "src/app.rs");
    assert_eq!((st.changes[0].staged, st.changes[0].unstaged), ('.', 'M'));
    assert_eq!(st.changes[1].path, "new file.txt");
    assert!(st.changes[1].has_staged() && !st.changes[1].has_unstaged());
    assert_eq!(st.changes[2].path, "new/name.rs");
    assert_eq!(st.changes[2].orig_path.as_deref(), Some("old/name.rs"));
    assert!(st.changes[3].is_unmerged());
    assert!(st.changes[4].is_untracked());
    assert!(!st.changes[4].has_staged());
}

#[test]
fn log_and_refs_parse() {
    let log = "a1\x1fp1 p2\x1fkobago\x1f1700000000\x1fHEAD -> main, origin/main\x1ffirst: subject\x1e\nb2\x1f\x1fsomeone\x1f1600000000\x1f\x1froot\x1e\n";
    let c = parse_log(log);
    assert_eq!(c.len(), 2);
    assert_eq!(c[0].parents, ["p1", "p2"]);
    assert_eq!(c[0].subject, "first: subject");
    assert!(c[1].parents.is_empty());
    assert_eq!(c[1].refs, "");

    let refs = "refs/heads/main\x1f*\x1forigin/main\x1fa1b2c3d\nrefs/heads/feat\x1f \x1f\x1f1234567\nrefs/remotes/origin/HEAD\x1f \x1f\x1fa1b2c3d\nrefs/remotes/origin/main\x1f \x1f\x1fa1b2c3d\nrefs/tags/v1\x1f \x1f\x1f9999999\n";
    let r = parse_refs(refs);
    assert_eq!(r.len(), 4, "origin/HEAD is dropped");
    assert!(r[0].current && r[0].kind == RefKind::Local && r[0].upstream == "origin/main");
    assert_eq!(r[2].kind, RefKind::Remote);
    assert_eq!((r[3].name.as_str(), r[3].kind), ("v1", RefKind::Tag));
}

#[test]
fn diff_lines_numbers_and_hunk_patches() {
    let text = "diff --git a/f b/f\nindex 1..2 100644\n--- a/f\n+++ b/f\n@@ -1,3 +1,3 @@\n a\n-b\n+B\n c\n@@ -10,2 +10,3 @@ fn x()\n d\n+e\n f\n";
    let d = parse_diff(text);
    assert_eq!(d.hunks.len(), 2);
    assert_eq!((d.adds, d.dels), (2, 1));
    assert_eq!(
        d.header,
        "diff --git a/f b/f\nindex 1..2 100644\n--- a/f\n+++ b/f\n"
    );
    assert_eq!(
        d.hunk_patch(1),
        "diff --git a/f b/f\nindex 1..2 100644\n--- a/f\n+++ b/f\n@@ -10,2 +10,3 @@ fn x()\n d\n+e\n f\n"
    );
    let del = &d.lines[6];
    assert_eq!(
        (del.kind, del.old_no, del.new_no),
        (LineKind::Del, Some(2), None)
    );
    let add = &d.lines[7];
    assert_eq!(
        (add.kind, add.old_no, add.new_no),
        (LineKind::Add, None, Some(2))
    );
    let ctx = &d.lines[8];
    assert_eq!(
        (ctx.old_no, ctx.new_no, ctx.text.as_str()),
        (Some(3), Some(3), "c")
    );
    assert_eq!(d.lines[9].kind, LineKind::Hunk);
    assert_eq!(d.lines[11].new_no, Some(11));
}

#[test]
fn detail_parses_message_and_files() {
    let text = "abc\x1fp1\x1fkobago\x1fk@x\x1f1700000000\x1ftag: v1\x1fsubject\n\nbody line\n\x1e\nM\tsrc/a.rs\nR100\told.rs\tnew.rs\nA\tnew.txt\n";
    let d = parse_detail(text).unwrap();
    assert_eq!(d.message, "subject\n\nbody line");
    assert_eq!(d.email, "k@x");
    assert_eq!(
        d.files,
        vec![
            ('M', "src/a.rs".into()),
            ('R', "new.rs".into()),
            ('A', "new.txt".into())
        ]
    );
}

#[test]
fn graph_lanes_branch_and_merge() {
    // e (merge of d and c) ← d ← b ← a ; c ← b   (topo order: e d c b a)
    let mk = |h: &str, ps: &[&str]| Commit {
        hash: h.into(),
        parents: ps.iter().map(|s| s.to_string()).collect(),
        author: String::new(),
        time: 0,
        refs: String::new(),
        subject: String::new(),
    };
    let commits = [
        mk("e", &["d", "c"]),
        mk("d", &["b"]),
        mk("c", &["b"]),
        mk("b", &["a"]),
        mk("a", &[]),
    ];
    let g = graph(&commits);
    // e: new lane 0, first parent d stays in lane 0, second parent c opens lane 1
    assert_eq!(
        (g[0].lane, &g[0].out[..], &g[0].into[..]),
        (0, &[0, 1][..], &[][..])
    );
    // d: lane 0, lane 1 (waiting for c) passes through
    assert_eq!(
        (g[1].lane, &g[1].through[..], &g[1].into[..]),
        (0, &[1][..], &[0][..])
    );
    // c: lane 1 keeps its lane down to the fork point (first parent b); lane 0 passes through
    assert_eq!(
        (g[2].lane, &g[2].out[..], &g[2].through[..]),
        (1, &[1][..], &[0][..])
    );
    // b: both lanes come into the node (lane 0 owns it, lane 1 merges in)
    assert_eq!(
        (g[3].lane, &g[3].into[..], &g[3].out[..]),
        (0, &[0, 1][..], &[0][..])
    );
    assert_eq!(g[3].width, 2);
    // a: root, nothing goes out; width back to 1
    assert_eq!((g[4].lane, &g[4].out[..], g[4].width), (0, &[][..], 1));
}

#[test]
fn ago() {
    assert_eq!(fmt_ago(1000, 1030), "now");
    assert_eq!(fmt_ago(1000, 1000 + 180), "3 min ago");
    assert_eq!(fmt_ago(1000, 1000 + 7200), "2 h ago");
    assert_eq!(fmt_ago(1000, 1000 + 5 * 86_400), "5 d ago");
}
