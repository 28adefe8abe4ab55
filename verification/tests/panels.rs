//! What the panels show, and what the state does beside them.

use fuide_git::app::frame::{Dev, Start};
use fuide_git::app::keys::Keys;
use fuide_git::app::open::read_recent;
use fuide_git::app::run::short_list;
use fuide_git::app::{
    Action, Confirm, DialogState, Effect, Focus, GitApp, Level, OpenDialog, Screen, Settings,
};
use fuide_git::git::{
    graph, parse_detail, parse_diff, parse_refs, parse_status, Commit, DiffKey, Msg,
};
use fuide_git::panel::dialog::{DialogInput, DialogPanel};
use fuide_git::panel::history::lane_tone;
use fuide_git::panel::tone::level_tone;
use fuide_git::panel::Tone;

fn settings() -> Settings {
    Settings {
        palette: "green".into(),
        chamfer: true,
        compact: false,
        transparent: true,
        agent: true,
        agent_confirm: false,
        log_open: true,
    }
}

fn blank() -> GitApp {
    let dev = Dev {
        dialog: None,
        close_frame: None,
        log: None,
    };
    GitApp::with_context(settings(), dev, 1_000_000, "00:00:00")
}

fn at_repo() -> GitApp {
    let mut app = blank();
    app.opened("1", "/src/repo", Ok("/src/repo".into()));
    let st = parse_status(
        b"# branch.oid 0123456789\0# branch.head main\0# branch.upstream origin/main\0# branch.ab +2 -0\0\
1 MM N... 1 1 1 a b a.txt\0\
2 R. N... 1 1 1 a b R100 to.txt\0from.txt\0\
? new.txt\0",
    );
    let commits = vec![Commit {
        hash: "0123456789".into(),
        parents: Vec::new(),
        author: "kobago".into(),
        time: 1_000_000 - 7200,
        refs: "HEAD -> main".into(),
        subject: "first".into(),
    }];
    app.poll(
        "1",
        vec![
            Msg::Status(Ok(st)),
            Msg::Log(Ok(commits)),
            Msg::Refs(Ok(parse_refs(
                "refs/heads/main\x1f*\x1forigin/main\x1f1\nrefs/remotes/origin/feat\x1f \x1f\x1f2\nrefs/tags/v1\x1f \x1f\x1f3\n",
            ))),
        ],
    );
    app
}

fn run_args(app: &mut GitApp, action: Action) -> Vec<String> {
    match app.apply("1", action).pop() {
        Some(Effect::Start(job)) => job.args,
        _ => Vec::new(),
    }
}

#[test]
fn the_start() {
    let app = blank();
    let lines: Vec<&str> = app.log.iter().map(|e| e.text.as_str()).collect();
    assert_eq!(
        lines,
        ["git console online", "agent // interface on :: waiting for a client"]
    );
    assert_eq!(app.log[0].time, "[00:00:00]");
    let dev = Dev {
        dialog: Some("open".into()),
        close_frame: Some("2".into()),
        log: Some("look".into()),
    };
    let app = GitApp::new(settings(), dev, 0, "0", Some("/a\n\n/b\n".into()));
    assert_eq!(app.recent, ["/a", "/b"]);
    assert_eq!(app.dev_close_frame, Some(2));
    assert_eq!(app.log.last().unwrap().level, Level::Danger);
    assert!(matches!(app.start(true, true), Some(Start::Given)));
    assert!(matches!(app.start(false, true), Some(Start::Recent(p)) if p == "/a"));
    assert!(matches!(blank().start(false, true), Some(Start::Here)));
    assert!(blank().start(false, false).is_none());
}

#[test]
fn frames_of_the_environment() {
    for (kind, action) in [
        ("open", Action::OpenDialog),
        ("diff", Action::Select(Focus::Unstaged, Some(0))),
        ("history", Action::Select(Focus::History, Some(0))),
        ("branch", Action::BranchDialog),
        ("error", Action::Refresh),
        ("discard", Action::Refresh),
        ("other", Action::Refresh),
    ] {
        let mut app = blank();
        app.dev_dialog = Some(kind.into());
        assert_eq!(app.begin_frame(), vec![action]);
        assert!(app.begin_frame().is_empty());
        assert_eq!(app.screen == Screen::History, kind == "history");
    }
    let mut app = blank();
    app.dev_dialog = Some("success".into());
    app.dev_close_frame = Some(2);
    assert_eq!(app.begin_frame(), vec![Action::Refresh]);
    assert_eq!(app.begin_frame(), vec![Action::CloseDialog]);
    assert!(matches!(
        &app.dialog,
        Some(OpenDialog { state: DialogState::Notice { success: true, line }, .. })
            if line == "commit // example"
    ));
    let mut app = at_repo();
    app.dev_dialog = Some("discard".into());
    app.refresh();
    assert!(app.begin_frame().is_empty(), "reads are still out");
    app.git.pending = 0;
    assert_eq!(
        app.begin_frame(),
        vec![Action::Discard("a.txt".into(), false)]
    );
}

#[test]
fn notices_wait_their_turn() {
    let mut app = blank();
    app.fail("1", "one".into(), "why");
    app.notice(true, "two".into());
    app.begin_frame();
    assert!(matches!(
        &app.dialog,
        Some(OpenDialog { state: DialogState::Notice { success: false, line }, .. }) if line == "one"
    ));
    app.begin_frame();
    assert_eq!(app.notice_queue.len(), 1);
    app.end_dialog(true);
    app.begin_frame();
    assert!(matches!(
        &app.dialog,
        Some(OpenDialog { state: DialogState::Notice { success: true, line }, .. }) if line == "two"
    ));
}

#[test]
fn the_log_is_bounded() {
    let mut app = blank();
    for i in 0..3000 {
        app.push_log("1", i.to_string(), Level::Info);
        assert!(app.log.len() <= 2000);
        assert_eq!(app.log.last().unwrap().text, i.to_string());
    }
    assert_eq!(app.log_tag(), format!("{} lines", app.log.len()));
}

#[test]
fn recent_repositories() {
    let mut app = blank();
    for i in 0..10 {
        app.remember(&format!("/r{i}"));
    }
    assert_eq!(app.recent.len(), 8);
    let text = app.remember(&"/r5/".to_string());
    assert_eq!(
        app.recent,
        ["/r5/", "/r9", "/r8", "/r7", "/r6", "/r4", "/r3", "/r2"]
    );
    assert_eq!(read_recent(&text), app.recent);
    app.repo = Some("/r9".into());
    let names: Vec<String> = app.repo_panel().recent.into_iter().map(|r| r.name).collect();
    assert_eq!(names, ["r5", "r8", "r7"]);
}

#[test]
fn the_frame_around() {
    let app = blank();
    assert_eq!(app.subtitle(), "no repository");
    assert_eq!(app.lamps()[0].text, "NO REPOSITORY");
    let mut app = at_repo();
    app.git.pending = 0;
    assert_eq!(app.subtitle(), "repo :: main");
    let lamps = app.lamps();
    assert_eq!((lamps.len(), lamps[0].text.as_str()), (1, "GIT LINK OK"));
    assert_eq!(
        app.status_line("00:01:02", "60"),
        "00:01:02 :: 2 UNSTAGED :: 2 STAGED :: 1 COMMITS :: 60 FPS"
    );
    app.refresh();
    assert_eq!(app.lamps()[1].text, "READING");
    app.apply("1", Action::Stage(vec!["a.txt".into()]));
    assert_eq!(app.lamps()[1].text, "GIT STAGE");
    assert_eq!(app.lamps_with("X".into())[1].text, "X");
    app.poll("1", vec![Msg::Status(Err("broken".into()))]);
    assert_eq!(app.lamps()[0].text, "GIT LINK FAILED");
    assert_eq!(app.last_error.as_deref(), Some("broken"));
}

#[test]
fn settings_are_logged() {
    let mut app = blank();
    app.settings_changed("1");
    assert_eq!(
        app.log.last().unwrap().text,
        "settings // palette green :: chamfer :: normal :: translucent :: agent on"
    );
    app.settings.agent_confirm = true;
    app.settings.chamfer = false;
    app.settings_changed("1");
    assert_eq!(
        app.log.last().unwrap().text,
        "settings // palette green :: square :: normal :: translucent :: agent on (may confirm)"
    );
    app.save_failed("1", "disk full");
    assert_eq!(
        app.log.last().unwrap().text,
        "settings // save failed: disk full"
    );
    app.toggle_log();
    assert!(!app.settings.log_open);
}

#[test]
fn repository_and_toolbar() {
    let app = at_repo();
    let info = app.repo_panel().info.unwrap();
    assert_eq!((info.name.as_str(), info.path.as_str()), ("repo", "/src/repo"));
    assert_eq!((info.counts.as_str(), info.counts_tone), ("+2 / -0", Tone::Good));
    assert_eq!(info.upstream, "origin/main");
    let bar = app.toolbar();
    assert_eq!((bar.push.label.as_str(), bar.push.tone), ("PUSH  2", Tone::Good));
    assert_eq!((bar.pull.label.as_str(), bar.pull.tone), ("PULL", Tone::Accent));
    assert_eq!(bar.history.label, "HISTORY  1");
    assert_eq!((bar.changes.tone, bar.history.tone), (Tone::Accent, Tone::Dim));
    assert!(blank().repo_panel().info.is_none());
    assert!(!blank().toolbar().can_refresh);
}

#[test]
fn branches() {
    let app = at_repo();
    let panel = app.refs_panel();
    assert_eq!(panel.tag, "1 local");
    let titles: Vec<&str> = panel.groups.iter().map(|g| g.title.as_str()).collect();
    assert_eq!(titles, ["Local", "Remotes", "Tags"]);
    assert_eq!(panel.groups[0].rows[0].double_clicked(), None);
    assert_eq!(
        panel.groups[1].rows[0].double_clicked(),
        Some(Action::Switch("origin/feat".into()))
    );
}

#[test]
fn switching_goes_by_kind() {
    let name = |s: &str| Action::Switch(s.into());
    assert_eq!(
        run_args(&mut at_repo(), name("origin/feat")),
        ["switch", "feat"]
    );
    assert_eq!(
        run_args(&mut at_repo(), name("v1")),
        ["switch", "--detach", "v1"]
    );
    assert_eq!(run_args(&mut at_repo(), name("main")), ["switch", "main"]);
    assert_eq!(run_args(&mut at_repo(), name("gone")), ["switch", "gone"]);
}

#[test]
fn pushing_and_pulling() {
    assert_eq!(run_args(&mut at_repo(), Action::Push), ["push"]);
    let mut app = at_repo();
    app.status.upstream = String::new();
    assert_eq!(
        run_args(&mut app, Action::Push),
        ["push", "-u", "origin", "main"]
    );
    let mut app = at_repo();
    app.status.upstream = String::new();
    app.status.branch = "(detached)".into();
    assert_eq!(run_args(&mut app, Action::Push), ["push"]);
    assert_eq!(run_args(&mut at_repo(), Action::Pull), ["pull", "--ff-only"]);
    assert_eq!(
        run_args(&mut at_repo(), Action::Fetch),
        ["fetch", "--all", "--prune"]
    );
}

#[test]
fn commits_need_files_and_a_message() {
    let mut app = at_repo();
    app.commit_msg = " \n".into();
    assert!(!app.commit_panel().can_commit);
    assert!(app.apply("1", Action::Commit).is_empty());
    app.commit_msg = format!("{}\nbody\n\n", "x".repeat(70));
    assert!(app.commit_panel().can_commit);
    let effects = app.apply("1", Action::Commit);
    match &effects[..] {
        [Effect::Start(job)] => {
            assert_eq!(job.label, format!("commit // {}", "x".repeat(60)));
            assert_eq!(job.stdin, Some(format!("{}\nbody\n", "x".repeat(70))));
        }
        _ => panic!("a commit"),
    }
    let mut app = blank();
    app.commit_msg = "m".into();
    assert!(app.apply("1", Action::Commit).is_empty(), "nothing is staged");
    assert!(app.notice_queue.is_empty());
}

#[test]
fn a_failed_commit_keeps_its_message() {
    let mut app = at_repo();
    app.commit_msg = "m".into();
    let exit = |ok: bool| Msg::Exit {
        label: "commit // m".into(),
        args: vec!["commit".into()],
        ok,
        code: None,
        elapsed: "0.25".into(),
    };
    let effects = app.poll("1", vec![exit(false)]);
    assert_eq!(effects.len(), 3);
    assert_eq!(app.commit_msg, "m");
    assert_eq!(
        app.log.last().unwrap().text,
        "commit // m :: failed :: terminated"
    );
    app.poll("1", vec![exit(true)]);
    assert_eq!(app.commit_msg, "");
    assert_eq!(
        app.log.last().unwrap().text,
        "commit // m :: git commit done in 0.25 s"
    );
}

#[test]
fn lines_of_output() {
    let mut app = blank();
    let line = |text: &str, stderr: bool| Msg::Line {
        text: text.into(),
        stderr,
    };
    app.poll(
        "1",
        vec![
            line("error: x", false),
            line("fatal: x", true),
            line("warning: x", false),
            line("hint: x", true),
            line("remote: x", true),
            line("done", false),
        ],
    );
    let levels: Vec<Level> = app.log[2..].iter().map(|e| e.level).collect();
    assert_eq!(
        levels,
        [
            Level::Danger,
            Level::Danger,
            Level::Warn,
            Level::Warn,
            Level::Info,
            Level::Good
        ]
    );
    assert_eq!(level_tone(Level::Warn), Tone::Warn);
    app.poll(
        "1",
        vec![
            Msg::Log(Err("l".into())),
            Msg::Refs(Err("r".into())),
            Msg::Detail(Err("d".into())),
        ],
    );
    let texts: Vec<&str> = app.log[8..].iter().map(|e| e.text.as_str()).collect();
    assert_eq!(texts, ["log :: l", "refs :: r", "show :: d"]);
}

#[test]
fn lists_of_changes() {
    let mut app = at_repo();
    let panel = app.changes_panel(true);
    assert_eq!((panel.title.as_str(), panel.tag.as_str()), ("Unstaged", "2 files"));
    assert_eq!(panel.tag_tone, Tone::Accent);
    assert!(!panel.discard.unwrap().enabled);
    assert!(app.changes_panel(false).discard.is_none());
    let row = app.change_row(false, 1);
    assert_eq!(row.path, "from.txt → to.txt");
    assert_eq!((row.tag.as_str(), row.tone), ("REN", Tone::Warn));
    assert_eq!(app.change_row(true, 1).tone, Tone::Good);
    assert_eq!(
        app.change_double_clicked(true, 1),
        Some(Action::Stage(vec!["new.txt".into()]))
    );
    assert_eq!(
        app.change_double_clicked(false, 0),
        Some(Action::Unstage(vec!["a.txt".into()]))
    );
    assert_eq!(app.change_double_clicked(false, 9), None);
    assert_eq!(app.discard_clicked(), None);
    app.apply("1", Action::Select(Focus::Unstaged, Some(1)));
    assert!(app.unstaged_table.scroll_to_selected);
    assert_eq!(
        app.discard_clicked(),
        Some(Action::Discard("new.txt".into(), true))
    );
    assert_eq!(short_list(&vec!["x".to_string()]), "x");
    assert_eq!(short_list(&vec!["x".to_string(), "y".to_string()]), "2 files");
    assert_eq!(short_list(&Vec::new()), "0 files");
}

#[test]
fn unstaging_and_restoring() {
    assert_eq!(
        run_args(&mut at_repo(), Action::Unstage(vec!["a".into(), "b".into()])),
        ["restore", "--staged", "--", "a", "b"]
    );
    assert_eq!(run_args(&mut at_repo(), Action::UnstageAll), ["reset", "-q"]);
    let mut app = at_repo();
    app.apply("1", Action::Discard("a.txt".into(), false));
    assert_eq!(
        run_args(&mut app, Action::ConfirmDialog),
        ["restore", "--", "a.txt"]
    );
    assert!(app.agent_blocked().is_empty(), "the dialog is closing");
}

#[test]
fn the_agent_may_confirm_where_it_is_let() {
    let mut app = at_repo();
    app.settings.agent_confirm = true;
    app.apply("1", Action::Discard("a.txt".into(), false));
    assert!(app.agent_blocked().is_empty());
}

#[test]
fn the_history() {
    let mut app = at_repo();
    let row = app.history_row(0);
    assert_eq!((row.hash.as_str(), row.hash_tone), ("01234567", Tone::Accent));
    assert_eq!(row.subject, "[HEAD -> main] first");
    assert_eq!((row.when.as_str(), row.is_head), ("2 h ago", true));
    assert_eq!(app.lanes(), 1);
    assert_eq!(app.history_tag(), "1 commits");
    assert_eq!(lane_tone(5), Tone::Good);
    assert_eq!(lane_tone(7), Tone::AccentDim);
    let head = app.commit_panel().head;
    assert_eq!(head, Some(("01234567".to_string(), "first".to_string())));
    let commits: Vec<Commit> = (0..10)
        .map(|i| Commit {
            hash: format!("c{i}"),
            parents: vec![format!("p{i}")],
            author: String::new(),
            time: 0,
            refs: String::new(),
            subject: String::new(),
        })
        .collect();
    assert_eq!(graph(&commits)[9].width, 10);
    app.poll("1", vec![Msg::Log(Ok(commits))]);
    assert_eq!(app.lanes(), 8);
}

#[test]
fn the_history_follows_the_log() {
    let mk = |h: &str, ps: &[&str]| Commit {
        hash: h.into(),
        parents: ps.iter().map(|p| p.to_string()).collect(),
        author: String::new(),
        time: 0,
        refs: String::new(),
        subject: String::new(),
    };
    let mut app = at_repo();
    app.poll("1", vec![Msg::Log(Ok(vec![mk("b", &["a"]), mk("a", &[])]))]);
    app.hist_table.selected = Some(1);
    let more = vec![mk("d", &["b"]), mk("c", &["b"]), mk("b", &["a"]), mk("a", &[]), mk("a", &[])];
    app.poll("1", vec![Msg::Refs(Ok(Vec::new())), Msg::Log(Ok(more.clone()))]);
    assert_eq!(app.commits, more);
    assert_eq!(app.graph, graph(&more));
    assert_eq!(app.hist_table.selected, Some(3), "the first commit with that hash");
    app.poll("1", vec![Msg::Log(Err("gone".into())), Msg::Detail(Err("gone".into()))]);
    assert_eq!(app.commits, more);
    assert_eq!(app.graph, graph(&more));
    assert_eq!(app.hist_table.selected, Some(3));
    app.poll("1", vec![Msg::Log(Ok(vec![mk("b", &[])]))]);
    assert_eq!(app.graph.len(), 1);
    assert_eq!(app.hist_table.selected, None, "that commit is no longer listed");
}

#[test]
fn the_commit_on_screen() {
    let mut app = at_repo();
    assert_eq!(app.detail_panel().tag, "none");
    app.apply("1", Action::SetView(Screen::History));
    app.apply("1", Action::Select(Focus::History, Some(0)));
    assert_eq!(app.sync_diff().len(), 1);
    assert!(app.sync_diff().is_empty(), "asked for once");
    assert!(app.detail_panel().body.is_none(), "not read yet");
    let d = parse_detail(
        "0123456789\x1faaaaaaaaaa bb\x1fkobago\x1fk@x\x1f1700000000\x1ftag: v1\x1fsubject\n\nbody\n\nmore\n\x1e\nM\ta.txt\nD\tb.txt\n",
    );
    app.poll("1", vec![Msg::Detail(Ok(d.unwrap()))]);
    assert_eq!(app.detail_table.selected, Some(0));
    let panel = app.detail_panel();
    assert_eq!(panel.tag, "01234567");
    let body = panel.body.unwrap();
    assert_eq!(body.title, "subject");
    assert_eq!(body.text.as_deref(), Some("body\n\nmore"));
    assert_eq!(body.parents, "aaaaaaaa bb");
    assert_eq!(body.refs.as_deref(), Some("tag: v1"));
    assert_eq!(body.hash, "0123456789");
    assert_eq!(app.detail_row(1).unwrap().tone, Tone::Danger);
    assert_eq!(app.detail_row(2), None);
    app.apply("1", Action::SelectDetailFile(Some(1)));
    let effects = app.sync_diff();
    assert!(matches!(
        &effects[..],
        [Effect::Ask(q)] if q.args == ["show", "--format=", "0123456789", "--", "b.txt"]
    ));
    app.detail =
        parse_detail("01234567\u{3042}\u{3042}\x1f\u{3042}\u{3042}\u{3042}\x1f\x1f\x1f0\x1f\x1fs\x1e");
    assert!(app.detail.is_some());
    let panel = app.detail_panel();
    assert_eq!((panel.tag.as_str(), panel.body), ("01234567", None), "only the tag is cut");
}

#[test]
fn the_diff_on_screen() {
    let mut app = at_repo();
    assert_eq!(app.diff_panel().message.as_deref(), Some("SELECT A FILE"));
    app.apply("1", Action::Select(Focus::Unstaged, Some(0)));
    app.sync_diff();
    assert_eq!(app.diff_panel().message.as_deref(), Some("READING DIFF"));
    let text = "--- a/a.txt\n+++ b/a.txt\n@@ -1,2 +1,2 @@\n x\n-\ty\n+z\n";
    let key = DiffKey::Unstaged("a.txt".into());
    app.poll("1", vec![Msg::Diff(key, Ok(parse_diff(text)))]);
    let panel = app.diff_panel();
    assert_eq!((panel.title.as_str(), panel.tag.as_deref()), ("a.txt", Some("+1 -1")));
    assert_eq!((panel.tag_tone, panel.message), (Tone::Good, None));
    let head = app.diff_row(2).unwrap();
    assert_eq!((head.tone, head.sign.as_str(), head.shaded), (Tone::Accent, "@", true));
    let button = head.button.unwrap();
    assert_eq!(
        (button.label.as_str(), button.enabled, button.action),
        ("STAGE HUNK", true, Action::StageHunk(0))
    );
    let row = app.diff_row(4).unwrap();
    assert_eq!((row.sign.as_str(), row.text.as_str()), ("-", "    y"));
    assert_eq!((row.old_no.as_deref(), row.new_no.as_deref()), (Some("2"), None));
    assert!(row.button.is_none());
    assert!(app.diff_row(6).is_none());
    let mut running = app.apply("1", Action::StageHunk(0));
    match running.pop() {
        Some(Effect::Start(job)) => {
            assert_eq!(job.args, ["apply", "--cached"]);
            assert_eq!(job.label, "stage hunk // a.txt #1");
            assert_eq!(job.stdin.as_deref(), Some(text));
        }
        _ => panic!("a patch"),
    }
    assert!(!app.diff_row(2).unwrap().button.unwrap().enabled);
    assert!(app.apply("1", Action::StageHunk(1)).is_empty(), "no such hunk");
    app.diff = Some((DiffKey::Commit("h".into(), "f".into()), parse_diff(text)));
    assert_eq!(app.hunk_verb(), None);
    assert!(app.apply("1", Action::StageHunk(0)).is_empty());
    app.diff = Some((DiffKey::Staged("f".into()), parse_diff("")));
    assert_eq!(app.diff_panel().message.as_deref(), Some("NO TEXTUAL CHANGES"));
    assert_eq!(app.hunk_verb().as_deref(), Some("UNSTAGE HUNK"));
}

const KEYS: Keys = Keys {
    command: false,
    focused: false,
    enter: false,
    space: false,
    down: false,
    up: false,
    a: false,
    r: false,
    o: false,
    comma: false,
    one: false,
    two: false,
};

#[test]
fn keys() {
    let mut app = at_repo();
    let all = Keys {
        command: true,
        enter: true,
        a: true,
        r: true,
        o: true,
        comma: true,
        one: true,
        two: true,
        ..KEYS
    };
    assert_eq!(
        app.handle_keys(all),
        vec![
            Action::Commit,
            Action::StageAll,
            Action::Refresh,
            Action::OpenDialog,
            Action::OpenSettings,
            Action::SetView(Screen::Changes),
            Action::SetView(Screen::History)
        ]
    );
    let typing = Keys { focused: true, ..all };
    assert_eq!(app.handle_keys(typing), vec![Action::Commit]);
    let enter = Keys { enter: true, ..KEYS };
    let space = Keys { space: true, ..KEYS };
    assert_eq!(app.handle_keys(enter), vec![Action::ToggleSelected]);
    assert_eq!(app.handle_keys(space), vec![Action::ToggleSelected]);
    let commit = Keys { command: true, ..enter };
    assert_eq!(app.handle_keys(commit), vec![Action::Commit], "commits, and stages nothing");
    let down = Keys { down: true, ..KEYS };
    let up = Keys { up: true, ..KEYS };
    let select = |row: usize| vec![Action::Select(Focus::Unstaged, Some(row))];
    assert_eq!(app.handle_keys(down), select(0));
    app.unstaged_table.selected = Some(0);
    assert_eq!(app.handle_keys(down), select(1));
    assert_eq!(app.handle_keys(up), select(0));
    app.unstaged_table.selected = Some(1);
    assert_eq!(app.handle_keys(down), select(1));
    app.unstaged_table.selected = Some(7);
    assert_eq!(app.handle_keys(up), select(1));
    app.apply("1", Action::BranchDialog);
    assert!(app.handle_keys(all).is_empty());
    assert!(blank().handle_keys(down).is_empty(), "no rows");
}

const INPUT: DialogInput = DialogInput {
    should_close: false,
    clicked: None,
    acknowledged: false,
    enter: false,
    tab: false,
    field_focused: false,
    field_left: false,
    field_changed: false,
};

#[test]
fn the_dialog_for_a_path() {
    let mut app = at_repo();
    app.apply("1", Action::OpenDialog);
    assert_eq!(
        app.wants_suggestions(),
        Some(("/src/repo/".to_string(), Some("/src/repo".to_string())))
    );
    app.suggest(Vec::new());
    assert_eq!(app.wants_suggestions(), None);
    assert_eq!(
        app.dialog_panel(),
        Some(DialogPanel::Open {
            hint: "TAB COMPLETES DIRECTORY NAMES".into(),
            tone: Tone::Dim
        })
    );
    assert!(app.apply("1", Action::CompleteOpen).is_empty());
    app.suggest(vec!["/src/repo/abc/".into(), "/src/repo/abd/".into()]);
    assert_eq!(
        app.dialog_panel(),
        Some(DialogPanel::Open {
            hint: "abc  abd".into(),
            tone: Tone::Dim
        })
    );
    let tab = DialogInput {
        tab: true,
        field_left: true,
        ..INPUT
    };
    assert_eq!(app.dialog_action(tab), Some(Action::CompleteOpen));
    app.field_shown(tab);
    let effects = app.apply("1", Action::CompleteOpen);
    assert!(matches!(&effects[..], [Effect::CommonPrefix(t)] if t.len() == 2));
    app.completed("/src/repo/ab".into());
    app.completed("short".into());
    app.suggest(vec!["/src/repo/abc/".into()]);
    app.apply("1", Action::CompleteOpen);
    assert!(matches!(
        &app.dialog,
        Some(OpenDialog { state: DialogState::Open { input, focus: true, .. }, .. })
            if input == "/src/repo/abc/"
    ));
    let enter = DialogInput {
        enter: true,
        field_left: true,
        ..INPUT
    };
    assert_eq!(app.dialog_action(enter), Some(Action::ConfirmOpen));
    let effects = app.apply("1", Action::ConfirmOpen);
    assert!(matches!(
        &effects[..],
        [Effect::Expand { input, cwd: Some(cwd) }] if input == "/src/repo/abc/" && cwd == "/src/repo"
    ));
    app.confirm_opened("1", "/src/repo/abc", Err("not a repository".into()));
    assert_eq!(
        app.dialog_panel(),
        Some(DialogPanel::Open {
            hint: "not a repository".into(),
            tone: Tone::Danger
        })
    );
    assert!(app.agent_state().contains("  error: not a repository\n"));
    app.field_shown(DialogInput {
        field_changed: true,
        ..INPUT
    });
    app.confirm_opened("1", "/src/other", Ok("/src/other".into()));
    assert_eq!(app.repo.as_deref(), Some("/src/other"));
    assert_eq!(app.recent, ["/src/other", "/src/repo"]);
    assert!(app.dialog.as_ref().unwrap().closing);
    app.field_shown(tab);
    assert_eq!(app.dialog_action(tab), None);
    assert!(
        matches!(
            &app.dialog,
            Some(OpenDialog { state: DialogState::Open { focus: false, .. }, closing: true })
        ),
        "a dialog that is closing does not ask for the focus"
    );
}

#[test]
fn the_dialog_for_a_branch() {
    let mut app = at_repo();
    app.apply("1", Action::BranchDialog);
    assert!(app.apply("1", Action::ConfirmBranch).is_empty(), "no name");
    app.dialog = Some(OpenDialog {
        state: DialogState::Branch {
            input: " x ".into(),
            focus: true,
        },
        closing: false,
    });
    assert_eq!(
        app.dialog_panel(),
        Some(DialogPanel::Branch {
            command: "git switch -c x".into(),
            can_create: true
        })
    );
    app.field_shown(INPUT);
    let confirm = DialogInput {
        clicked: Some(1),
        ..INPUT
    };
    assert_eq!(app.dialog_action(confirm), Some(Action::ConfirmBranch));
    assert_eq!(
        run_args(&mut app, Action::ConfirmBranch),
        ["switch", "-c", "x"]
    );
    assert_eq!(app.dialog_action(confirm), None);
}

#[test]
fn questions() {
    let mut app = blank();
    app.confirm(Confirm {
        title: "Straße".into(),
        line: "l".into(),
        note: "n".into(),
        verb: "GO".into(),
        danger: false,
        label: "label".into(),
        args: vec!["a".into(), "b".into()],
    });
    assert_eq!(
        app.dialog_panel(),
        Some(DialogPanel::Confirm {
            title: "Straße".into(),
            tone: Tone::Warn,
            line: "l".into(),
            command: "git a b".into(),
            note: "n".into(),
            verb: "GO".into()
        })
    );
    assert!(app
        .agent_state()
        .contains("dialog: CONFIRM STRASSE :: l :: git a b :: buttons CANCEL / GO\n"));
    let enter = DialogInput { enter: true, ..INPUT };
    assert_eq!(app.dialog_action(enter), Some(Action::ConfirmDialog));
    let cancel = DialogInput {
        clicked: Some(0),
        ..enter
    };
    assert_eq!(app.dialog_action(cancel), Some(Action::CloseDialog));
}

#[test]
fn what_the_agent_is_told() {
    let app = blank();
    assert_eq!(
        app.agent_state(),
        "repo: none (OPEN or Cmd+O)\n\
view: Changes :: unstaged 0 :: staged 0 :: commits 0\n\
unstaged: \n\
staged: \n\
log (latest last):\n  \
[00:00:00] git console online\n  \
[00:00:00] agent // interface on :: waiting for a client\n"
    );
    let mut app = at_repo();
    app.apply("1", Action::Select(Focus::Unstaged, Some(1)));
    app.apply("1", Action::Select(Focus::History, Some(0)));
    app.commit_msg = "a \"b\"\n".into();
    app.diff = Some((
        DiffKey::Commit("h\"".into(), "p".into()),
        parse_diff("@@ -1 +1 @@\n-a\n+b\n+c\n"),
    ));
    app.last_error = Some("e".into());
    app.apply("1", Action::Fetch);
    app.log.clear();
    assert_eq!(
        app.agent_state(),
        "repo: /src/repo :: branch main :: upstream origin/main :: ahead 2 behind 0\n\
view: Changes :: unstaged 2 :: staged 2 :: commits 1\n\
unstaged: a.txt, new.txt\n\
unstaged selected: new.txt\n\
staged: a.txt, to.txt\n\
selected commit: 01234567 first\n\
diff: Commit(\"h\\\"\", \"p\") :: +2 -1\n\
commit message: \"a \\\"b\\\"\\n\"\n\
running: fetch // all\n\
last error: e\n\
log (latest last):\n"
    );
    app.status.upstream = String::new();
    app.dialog = Some(OpenDialog {
        state: DialogState::Branch {
            input: "x".into(),
            focus: false,
        },
        closing: false,
    });
    for i in 0..8 {
        app.push_log("2", i.to_string(), Level::Info);
    }
    let state = app.agent_state();
    assert!(state.contains(":: upstream - ::"));
    assert!(state.ends_with(
        "dialog: NEW BRANCH :: input \"x\"\nlog (latest last):\n  [2] 2\n  [2] 3\n  [2] 4\n  [2] 5\n  [2] 6\n  [2] 7\n"
    ));
}

#[test]
fn copying_and_settings() {
    let mut app = at_repo();
    let effects = app.apply("1", Action::Copy("hash".into()));
    assert!(matches!(&effects[..], [Effect::CopyText(t)] if t == "hash"));
    assert_eq!(app.log.last().unwrap().text, "copied to clipboard");
    let effects = app.apply("1", Action::OpenSettings);
    assert!(matches!(&effects[..], [Effect::OpenSettings]));
}

#[test]
fn a_conflict_is_not_staged() {
    let mut app = at_repo();
    let st = parse_status(
        b"u UU N... 1 1 1 1 a b c both.txt\01 A. N... 1 1 1 a b new.rs\01 .D N... 1 1 1 a b gone.rs\0",
    );
    app.poll("1", vec![Msg::Status(Ok(st))]);
    assert_eq!(app.unstaged, [0, 2]);
    assert_eq!(app.staged, [1]);
    assert_eq!(app.change_row(true, 0).tag, "CONFLICT");
}
