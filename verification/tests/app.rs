//! The application against a repository in memory: it answers the commands that it is asked to
//! run, so that the whole way from an action to the state that follows is covered.

use std::collections::BTreeMap;

use fuide_git::app::frame::Dev;
use fuide_git::app::keys::Keys;
use fuide_git::app::{
    Action, DialogState, Effect, Focus, GitApp, OpenDialog, Screen, Settings,
};
use fuide_git::git::command::{args_toplevel, arguments};
use fuide_git::git::worker::{answer, ended, stream};
use fuide_git::git::{toplevel, DiffKey, Job, Msg, Outcome};
use fuide_git::panel::dialog::DialogInput;

type Tree = BTreeMap<String, String>;

struct Snapshot {
    hash: String,
    parents: Vec<String>,
    message: String,
    tree: Tree,
}

struct Repo {
    dir: String,
    /// Oldest first.
    commits: Vec<Snapshot>,
    branches: BTreeMap<String, usize>,
    current: String,
    index: Tree,
    work: Tree,
}

/// A fresh repository with one commit (`a.txt` = three lines), then `a.txt` modified in the
/// worktree and an untracked `new.txt`.
fn temp_repo(dir: &str) -> Repo {
    let mut tree = Tree::new();
    tree.insert("a.txt".into(), "one\ntwo\nthree\n".into());
    let mut work = tree.clone();
    work.insert("a.txt".into(), "one\nTWO\nthree\n".into());
    work.insert("new.txt".into(), "hello\n".into());
    let mut branches = BTreeMap::new();
    branches.insert("main".to_string(), 0);
    Repo {
        dir: dir.into(),
        commits: vec![Snapshot {
            hash: "0123456789abcdef0123456789abcdef01234567".into(),
            parents: Vec::new(),
            message: "initial".into(),
            tree: tree.clone(),
        }],
        branches,
        current: "main".into(),
        index: tree,
        work,
    }
}

fn letter(old: Option<&String>, new: Option<&String>) -> char {
    match (old, new) {
        (None, None) => '.',
        (None, Some(_)) => 'A',
        (Some(_), None) => 'D',
        (Some(a), Some(b)) => {
            if a == b {
                '.'
            } else {
                'M'
            }
        }
    }
}

fn diff_text(path: &str, old: Option<&String>, new: Option<&String>) -> String {
    let a: Vec<&str> = old.map(|s| s.lines().collect()).unwrap_or_default();
    let b: Vec<&str> = new.map(|s| s.lines().collect()).unwrap_or_default();
    if old == new {
        return String::new();
    }
    let mut head = 0;
    while head < a.len() && head < b.len() && a[head] == b[head] {
        head += 1;
    }
    let mut tail = 0;
    while tail < a.len() - head && tail < b.len() - head
        && a[a.len() - 1 - tail] == b[b.len() - 1 - tail]
    {
        tail += 1;
    }
    let mut s = format!("diff --git a/{path} b/{path}\nindex 1..2 100644\n");
    s += &match old {
        Some(_) => format!("--- a/{path}\n"),
        None => "--- /dev/null\n".to_string(),
    };
    s += &format!("+++ b/{path}\n@@ -1,{} +1,{} @@\n", a.len(), b.len());
    for l in &a[..head] {
        s += &format!(" {l}\n");
    }
    for l in &a[head..a.len() - tail] {
        s += &format!("-{l}\n");
    }
    for l in &b[head..b.len() - tail] {
        s += &format!("+{l}\n");
    }
    for l in &a[a.len() - tail..] {
        s += &format!(" {l}\n");
    }
    s
}

fn ok(stdout: String) -> Outcome {
    Outcome::Ended {
        success: true,
        code: Some(0),
        stdout: stdout.into_bytes(),
        stderr: Vec::new(),
    }
}

fn failed(stderr: &str) -> Outcome {
    Outcome::Ended {
        success: false,
        code: Some(128),
        stdout: Vec::new(),
        stderr: stderr.as_bytes().to_vec(),
    }
}

impl Repo {
    fn head(&self) -> &Snapshot {
        &self.commits[self.branches[&self.current]]
    }

    fn status(&self) -> String {
        let mut s = format!(
            "# branch.oid {}\0# branch.head {}\0",
            self.head().hash,
            self.current
        );
        let mut untracked = String::new();
        let mut paths: Vec<&String> = self.head().tree.keys().collect();
        paths.extend(self.index.keys());
        paths.extend(self.work.keys());
        paths.sort();
        paths.dedup();
        for p in paths {
            let (h, i, w) = (
                self.head().tree.get(p),
                self.index.get(p),
                self.work.get(p),
            );
            if h.is_none() && i.is_none() {
                untracked += &format!("? {p}\0");
                continue;
            }
            let (x, y) = (letter(h, i), letter(i, w));
            if x != '.' || y != '.' {
                s += &format!("1 {x}{y} N... 100644 100644 100644 aaaa bbbb {p}\0");
            }
        }
        s + &untracked
    }

    fn log(&self) -> String {
        let mut s = String::new();
        for c in self.commits.iter().rev() {
            s += &format!(
                "{}\x1f{}\x1ftest\x1f1700000000\x1f\x1f{}\x1e\n",
                c.hash,
                c.parents.join(" "),
                c.message.lines().next().unwrap_or("")
            );
        }
        s
    }

    fn refs(&self) -> String {
        let mut s = String::new();
        for (name, at) in &self.branches {
            let star = if *name == self.current { "*" } else { " " };
            let hash = &self.commits[*at].hash[..7];
            s += &format!("refs/heads/{name}\x1f{star}\x1f\x1f{hash}\n");
        }
        s
    }

    fn parent_tree(&self, c: &Snapshot) -> Tree {
        match c.parents.first() {
            Some(p) => self
                .commits
                .iter()
                .find(|x| x.hash == *p)
                .map(|x| x.tree.clone())
                .unwrap_or_default(),
            None => Tree::new(),
        }
    }

    fn query(&self, args: &[String]) -> Outcome {
        let a: Vec<&str> = args.iter().map(String::as_str).collect();
        match a.as_slice() {
            ["rev-parse", "--show-toplevel"] => ok(format!("{}\n", self.dir)),
            ["status", "--porcelain=v2", "-z", "--branch", "--untracked-files=all"] => {
                ok(self.status())
            }
            ["log", "--all", "--topo-order", "-n500", _] => ok(self.log()),
            ["for-each-ref", _, "refs/heads", "refs/remotes", "refs/tags"] => ok(self.refs()),
            ["diff", "--no-index", "--", "/dev/null", p] => Outcome::Ended {
                success: false,
                code: Some(1),
                stdout: diff_text(p, None, self.work.get(*p)).into_bytes(),
                stderr: Vec::new(),
            },
            ["diff", "--", p] => ok(diff_text(p, self.index.get(*p), self.work.get(*p))),
            ["diff", "--cached", "--", p] => {
                ok(diff_text(p, self.head().tree.get(*p), self.index.get(*p)))
            }
            ["show", "--format=", h, "--", p] => {
                let c = self.commits.iter().find(|c| c.hash == *h).unwrap();
                let before = self.parent_tree(c);
                ok(diff_text(p, before.get(*p), c.tree.get(*p)))
            }
            ["show", _, "--name-status", h] => {
                let c = self.commits.iter().find(|c| c.hash == *h).unwrap();
                let before = self.parent_tree(c);
                let mut s = format!(
                    "{}\x1f{}\x1ftest\x1ftest@example.com\x1f1700000000\x1f\x1f{}\n\x1e\n",
                    c.hash,
                    c.parents.join(" "),
                    c.message
                );
                for (p, text) in &c.tree {
                    match letter(before.get(p), Some(text)) {
                        '.' => {}
                        l => s += &format!("{l}\t{p}\n"),
                    }
                }
                ok(s)
            }
            _ => failed("fatal: unknown command"),
        }
    }

    fn apply(&mut self, reverse: bool, patch: &str) {
        let mut path = String::new();
        let mut out = String::new();
        let mut in_hunk = false;
        for l in patch.lines() {
            if let Some(p) = l.strip_prefix("+++ b/") {
                path = p.to_string();
            } else if l.starts_with("@@") {
                in_hunk = true;
            } else if in_hunk {
                let keep = match l.as_bytes().first() {
                    Some(b'+') => !reverse,
                    Some(b'-') => reverse,
                    _ => true,
                };
                if keep {
                    out += &format!("{}\n", &l[1..]);
                }
            }
        }
        self.index.insert(path, out);
    }

    fn run(&mut self, job: Job) -> Vec<Msg> {
        assert_eq!(job.repo, self.dir);
        let args = job.args.clone();
        let a: Vec<&str> = args.iter().map(String::as_str).collect();
        let mut good = true;
        match a.as_slice() {
            ["add", "-A"] => self.index = self.work.clone(),
            ["add", "--", p] => {
                let text = self.work[*p].clone();
                self.index.insert(p.to_string(), text);
            }
            ["restore", "--staged", "--", p] => match self.head().tree.get(*p).cloned() {
                Some(text) => {
                    self.index.insert(p.to_string(), text);
                }
                None => {
                    self.index.remove(*p);
                }
            },
            ["reset", "-q"] => self.index = self.head().tree.clone(),
            ["clean", "-f", "--", p] => {
                self.work.remove(*p);
            }
            ["apply", "--cached"] => {
                let patch = job.stdin.clone().unwrap();
                self.apply(false, &patch);
            }
            ["apply", "--cached", "-R"] => {
                let patch = job.stdin.clone().unwrap();
                self.apply(true, &patch);
            }
            ["commit", "-F", "-"] => {
                let message = job.stdin.clone().unwrap().trim_end().to_string();
                let n = self.commits.len();
                let parent = self.head().hash.clone();
                self.commits.push(Snapshot {
                    hash: format!("{n:040x}"),
                    parents: vec![parent],
                    message,
                    tree: self.index.clone(),
                });
                self.branches.insert(self.current.clone(), n);
            }
            ["switch", "-c", name] => {
                let at = self.branches[&self.current];
                self.branches.insert(name.to_string(), at);
                self.current = name.to_string();
            }
            ["switch", name] if self.branches.contains_key(*name) => {
                self.current = name.to_string();
            }
            _ => good = false,
        }
        let mut msgs = stream(b"Working\r\n", true);
        let code = if good { 0 } else { 1 };
        msgs.push(ended(job.label, job.args, Some((good, Some(code))), "0.01".into()));
        msgs
    }
}

fn settings() -> Settings {
    Settings {
        palette: "green".into(),
        chamfer: false,
        compact: false,
        transparent: false,
        agent: false,
        agent_confirm: false,
        log_open: true,
    }
}

fn blank() -> GitApp {
    let dev = Dev {
        dialog: None,
        close_frame: None,
        log: None,
    };
    GitApp::with_context(settings(), dev, 1_700_000_100, "0")
}

/// Does what the application asks for, and hands it the answers, until nothing is in flight (a
/// finished command re-reads the repository; a new status re-requests the diff).
fn pump(app: &mut GitApp, repo: &mut Repo, effects: Vec<Effect>) {
    let mut effects = effects;
    for _ in 0..50 {
        let mut received: Vec<Msg> = Vec::new();
        let mut more: Vec<Effect> = Vec::new();
        for e in effects {
            match e {
                Effect::Ask(q) => {
                    assert_eq!(q.repo, repo.dir);
                    let outcome = repo.query(&q.args);
                    received.push(answer(q.reads, outcome));
                }
                Effect::Start(job) => received.extend(repo.run(job)),
                Effect::FindTop(path) => {
                    let top = toplevel(repo.query(&args_toplevel()));
                    more.extend(app.opened("0", &path, top));
                }
                Effect::Expand { input, .. } => {
                    let top = toplevel(repo.query(&args_toplevel()));
                    more.extend(app.confirm_opened("0", &input, top));
                }
                Effect::SaveRecent(text) => assert_eq!(text, format!("{}\n", repo.dir)),
                Effect::CopyText(_) | Effect::CommonPrefix(_) | Effect::OpenSettings => {}
            }
        }
        more.extend(app.poll("0", received));
        more.extend(app.sync_diff());
        if more.is_empty() {
            assert!(!app.git.busy(), "every read is answered");
            return;
        }
        effects = more;
    }
    panic!("git did not finish");
}

fn act(app: &mut GitApp, repo: &mut Repo, action: Action) {
    let effects = app.apply("0", action);
    pump(app, repo, effects);
}

fn open(repo: &mut Repo) -> GitApp {
    let mut app = blank();
    let dir = repo.dir.clone();
    act(&mut app, repo, Action::Open(dir));
    app
}

fn paths(app: &GitApp, list: &[usize]) -> Vec<String> {
    list.iter()
        .map(|&i| app.status.changes[i].path.clone())
        .collect()
}

fn log_has(app: &GitApp, needle: &str) -> bool {
    app.log.iter().any(|e| e.text.contains(needle))
}

const NO_KEYS: Keys = Keys {
    command: false,
    focused: false,
    enter: false,
    space: false,
    down: false,
    up: false,
    a: false,
    r: false,
    o: false,
    comma: false,
    one: false,
    two: false,
};

const NO_INPUT: DialogInput = DialogInput {
    should_close: false,
    clicked: None,
    acknowledged: false,
    enter: false,
    tab: false,
    field_focused: false,
    field_left: false,
    field_changed: false,
};

fn press(app: &mut GitApp, repo: &mut Repo, keys: Keys) {
    for a in app.handle_keys(keys) {
        act(app, repo, a);
    }
}

#[test]
fn open_reads_status_log_and_refs() {
    let mut repo = temp_repo("/tmp/repo");
    let app = open(&mut repo);
    assert_eq!(app.repo.as_deref(), Some("/tmp/repo"));
    assert_eq!(app.status.branch, "main");
    assert_eq!(paths(&app, &app.unstaged), ["a.txt", "new.txt"]);
    assert!(app.staged.is_empty());
    assert_eq!(app.commits.len(), 1);
    assert_eq!(app.commits[0].subject, "initial");
    assert!(app.refs.iter().any(|r| r.name == "main" && r.current));
    assert!(app.last_error.is_none());
}

#[test]
fn open_rejects_a_directory_that_is_not_a_repository() {
    let mut app = blank();
    let effects = app.apply("0", Action::Open("/tmp".into()));
    assert!(matches!(effects.as_slice(), [Effect::FindTop(p)] if p == "/tmp"));
    let top = toplevel(failed("fatal: not a git repository\n"));
    assert!(app.opened("0", "/tmp", top).is_empty());
    assert!(app.repo.is_none());
    assert!(matches!(app.notice_queue.first(), Some((false, _))));
}

#[test]
fn stage_unstage_and_commit() {
    let mut repo = temp_repo("/tmp/repo");
    let mut app = open(&mut repo);
    act(&mut app, &mut repo, Action::Select(Focus::Unstaged, Some(0)));
    let (key, d) = app.diff.as_ref().expect("diff of a.txt");
    assert_eq!(*key, DiffKey::Unstaged("a.txt".into()));
    assert_eq!((d.adds, d.dels), (1, 1));

    act(&mut app, &mut repo, Action::ToggleSelected);
    assert_eq!(paths(&app, &app.staged), ["a.txt"]);
    assert_eq!(paths(&app, &app.unstaged), ["new.txt"]);

    act(&mut app, &mut repo, Action::Select(Focus::Staged, Some(0)));
    act(&mut app, &mut repo, Action::ToggleSelected);
    assert!(app.staged.is_empty());

    act(&mut app, &mut repo, Action::StageAll);
    assert_eq!(paths(&app, &app.staged), ["a.txt", "new.txt"]);

    app.commit_msg = "feat: second\n\nbody".into();
    act(&mut app, &mut repo, Action::Commit);
    assert_eq!(app.commits.len(), 2, "log re-read after the commit");
    assert_eq!(app.commits[0].subject, "feat: second");
    assert!(app.commit_msg.is_empty(), "message cleared on success");
    assert!(app.staged.is_empty() && app.unstaged.is_empty());
    assert!(matches!(app.notice_queue.first(), Some((true, _))));
    assert!(repo.head().message.contains("body"));
}

#[test]
fn a_single_hunk_is_staged_with_git_apply() {
    let mut repo = temp_repo("/tmp/repo");
    let mut app = open(&mut repo);
    act(&mut app, &mut repo, Action::Select(Focus::Unstaged, Some(0)));
    act(&mut app, &mut repo, Action::StageHunk(0));
    assert_eq!(paths(&app, &app.staged), ["a.txt"]);
    assert_eq!(paths(&app, &app.unstaged), ["new.txt"]);
    // and back
    act(&mut app, &mut repo, Action::Select(Focus::Staged, Some(0)));
    assert!(matches!(&app.diff, Some((DiffKey::Staged(p), _)) if p == "a.txt"));
    act(&mut app, &mut repo, Action::UnstageHunk(0));
    assert!(app.staged.is_empty());
}

#[test]
fn discard_asks_first_and_the_agent_may_not_confirm() {
    let mut repo = temp_repo("/tmp/repo");
    let mut app = open(&mut repo);
    act(&mut app, &mut repo, Action::Discard("new.txt".into(), true));
    assert!(matches!(
        &app.dialog,
        Some(OpenDialog {
            state: DialogState::Confirm(c),
            ..
        }) if c.danger && c.args[0] == "clean"
    ));
    assert_eq!(app.agent_blocked(), ["DISCARD"]);
    act(&mut app, &mut repo, Action::ConfirmDialog);
    assert!(!repo.work.contains_key("new.txt"));
    assert_eq!(paths(&app, &app.unstaged), ["a.txt"]);
}

#[test]
fn history_selection_loads_the_commit_detail_and_its_diff() {
    let mut repo = temp_repo("/tmp/repo");
    let mut app = open(&mut repo);
    act(&mut app, &mut repo, Action::SetView(Screen::History));
    act(&mut app, &mut repo, Action::Select(Focus::History, Some(0)));
    let d = app.detail.as_ref().expect("detail");
    assert_eq!(d.author, "test");
    assert_eq!(d.files, vec![('A', "a.txt".to_string())]);
    let (key, diff) = app.diff.as_ref().expect("diff of the first file");
    assert!(matches!(key, DiffKey::Commit(_, p) if p == "a.txt"));
    assert_eq!(diff.adds, 3);
}

#[test]
fn new_branch_and_switch() {
    let mut repo = temp_repo("/tmp/repo");
    let mut app = open(&mut repo);
    act(&mut app, &mut repo, Action::BranchDialog);
    if let Some(OpenDialog {
        state: DialogState::Branch { input, .. },
        ..
    }) = &mut app.dialog
    {
        *input = "feat/x".into();
    }
    act(&mut app, &mut repo, Action::ConfirmBranch);
    assert_eq!(app.status.branch, "feat/x");
    act(&mut app, &mut repo, Action::Switch("main".into()));
    assert_eq!(app.status.branch, "main");
    assert!(app.refs.iter().any(|r| r.name == "feat/x" && !r.current));
}

#[test]
fn stage_all_unstage_all_and_commit_by_button() {
    let mut repo = temp_repo("/tmp/repo");
    let mut app = open(&mut repo);
    assert_eq!(app.toolbar().changes.label, "CHANGES  2");
    let all = app.changes_panel(true).all;
    assert_eq!((all.label.as_str(), all.enabled), ("STAGE ALL", true));
    let action = app.all_clicked(true);
    act(&mut app, &mut repo, action);
    assert!(log_has(&app, "$ git add -A"));
    assert_eq!(app.staged.len(), 2);

    assert_eq!(app.changes_panel(false).all.label, "UNSTAGE ALL");
    let action = app.all_clicked(false);
    act(&mut app, &mut repo, action);
    assert_eq!(app.staged.len(), 0);

    // stage all files again, then commit with Cmd+Enter
    let action = app.all_clicked(true);
    act(&mut app, &mut repo, action);
    app.commit_msg = "e2e: commit".into();
    assert!(app.commit_panel().can_commit);
    let keys = Keys {
        command: true,
        enter: true,
        ..NO_KEYS
    };
    press(&mut app, &mut repo, keys);
    assert!(log_has(&app, "$ git commit -F -"));
    assert_eq!(app.commits.len(), 2);
    assert_eq!(app.commits[0].subject, "e2e: commit");

    // the SUCCESS card is acknowledged by its button
    assert!(app.begin_frame().is_empty());
    assert!(app.agent_state().contains("press ACKNOWLEDGE"), "no live success card");
    let input = DialogInput {
        acknowledged: true,
        ..NO_INPUT
    };
    let action = app.dialog_action(input).expect("ACKNOWLEDGE closes the card");
    act(&mut app, &mut repo, action);
    app.end_dialog(true);
    assert!(app.dialog.is_none());
}

#[test]
fn history_view_shows_the_commit_and_its_files() {
    let mut repo = temp_repo("/tmp/repo");
    let mut app = open(&mut repo);
    let keys = Keys {
        command: true,
        two: true,
        ..NO_KEYS
    };
    press(&mut app, &mut repo, keys);
    assert_eq!(app.screen, Screen::History);
    let keys = Keys {
        down: true,
        ..NO_KEYS
    };
    press(&mut app, &mut repo, keys);
    assert_eq!(app.selected_commit().unwrap().subject, "initial");
    assert_eq!(app.detail.as_ref().unwrap().files.len(), 1);
    let body = app.detail_panel().body.expect("COPY HASH");
    assert_eq!(body.hash, "0123456789ab");
    assert!(matches!(&app.diff, Some((DiffKey::Commit(_, p), _)) if p == "a.txt"));
}

#[test]
fn open_dialog_takes_a_typed_path() {
    let mut repo = temp_repo("/tmp/repo");
    let mut other = temp_repo("/tmp/other");
    let mut app = open(&mut repo);
    let keys = Keys {
        command: true,
        o: true,
        ..NO_KEYS
    };
    press(&mut app, &mut repo, keys);
    assert!(
        matches!(
            &app.dialog,
            Some(OpenDialog {
                state: DialogState::Open { .. },
                ..
            })
        ),
        "Cmd+O opens the dialog"
    );
    app.dialog = Some(OpenDialog {
        state: DialogState::Open {
            input: "/tmp/other".into(),
            error: None,
            focus: true,
            suggestions: Vec::new(),
            suggested_for: String::new(),
        },
        closing: false,
    });
    let input = DialogInput {
        clicked: Some(1),
        ..NO_INPUT
    };
    let action = app.dialog_action(input).expect("OPEN REPOSITORY");
    app.recent.clear();
    act(&mut app, &mut other, action);
    assert_eq!(app.repo.as_deref(), Some("/tmp/other"));
    app.end_dialog(true);
    assert!(app.dialog.is_none());
}

#[test]
fn commands_run_one_at_a_time() {
    let mut repo = temp_repo("/tmp/repo");
    let mut app = open(&mut repo);
    let first = app.apply("0", Action::Fetch);
    assert_eq!(first.len(), 1);
    assert_eq!(app.git.running(), Some("fetch // all"));
    assert!(app.apply("1", Action::Pull).is_empty());
    assert_eq!(app.git.running(), Some("fetch // all"));
    assert_eq!(app.notice_queue, vec![(false, "pull".to_string())]);
    assert!(log_has(&app, "pull :: failed :: another git command is still running"));
    // the repository does not know the command: it fails, and everything is read again
    pump(&mut app, &mut repo, first);
    assert_eq!(app.git.running(), None);
    assert!(log_has(&app, "fetch // all :: failed :: exit code 1"));
    assert!(log_has(&app, "Working"));
}

#[test]
fn nothing_runs_without_a_repository() {
    let mut app = blank();
    assert!(app.apply("0", Action::StageAll).is_empty());
    assert_eq!(app.notice_queue, vec![(false, "stage // all".to_string())]);
    assert_eq!(
        app.log.last().unwrap().text,
        "stage // all :: failed :: no repository open"
    );
}

#[test]
fn the_whole_command_line() {
    let args = arguments(&vec!["status".to_string()]);
    assert_eq!(args, ["-c", "color.ui=never", "status"]);
}

#[test]
fn an_untracked_file_is_compared_with_nothing() {
    let mut repo = temp_repo("/tmp/repo");
    let mut app = open(&mut repo);
    act(&mut app, &mut repo, Action::Select(Focus::Unstaged, Some(1)));
    let (key, d) = app.diff.as_ref().unwrap();
    assert_eq!(*key, DiffKey::Unstaged("new.txt".into()));
    assert_eq!((d.adds, d.dels), (1, 0));
    assert_eq!(app.hunk_verb(), None, "a new file is staged whole");
}

#[test]
fn selections_stay_on_their_paths() {
    let mut repo = temp_repo("/tmp/repo");
    let mut app = open(&mut repo);
    act(&mut app, &mut repo, Action::Select(Focus::Unstaged, Some(1)));
    repo.work.insert("a.txt".into(), "one\ntwo\nthree\n".into());
    act(&mut app, &mut repo, Action::Refresh);
    assert_eq!(paths(&app, &app.unstaged), ["new.txt"]);
    assert_eq!(app.unstaged_table.selected, Some(0));
    repo.work.remove("new.txt");
    act(&mut app, &mut repo, Action::Refresh);
    assert_eq!(app.unstaged_table.selected, None);
    assert!(app.diff.is_none());
}

#[test]
fn stale_answers_are_dropped() {
    let mut repo = temp_repo("/tmp/repo");
    let mut app = open(&mut repo);
    act(&mut app, &mut repo, Action::Select(Focus::Unstaged, Some(0)));
    let before = app.log.len();
    let key = DiffKey::Unstaged("other.txt".into());
    app.poll("0", vec![Msg::Diff(key, Err("late".into()))]);
    assert!(app.diff.is_some());
    assert_eq!(app.log.len(), before);
    let key = DiffKey::Unstaged("a.txt".into());
    app.poll("0", vec![Msg::Diff(key, Err("broken".into()))]);
    assert!(app.diff.is_none());
    assert!(log_has(&app, "diff :: broken"));
}

#[test]
fn reopening_reads_again() {
    let mut repo = temp_repo("/tmp/repo");
    let mut app = open(&mut repo);
    app.commit_msg = "draft".into();
    let effects = app.opened("0", "/tmp/repo/", Ok("/tmp//repo/.".into()));
    assert_eq!(effects.len(), 3);
    assert_eq!(app.repo.as_deref(), Some("/tmp/repo"));
    assert_eq!(app.commit_msg, "draft");
    pump(&mut app, &mut repo, effects);
}

#[test]
fn a_discard_that_is_cancelled_runs_nothing() {
    let mut repo = temp_repo("/tmp/repo");
    let mut app = open(&mut repo);
    act(&mut app, &mut repo, Action::Discard("a.txt".into(), false));
    let input = DialogInput {
        should_close: true,
        enter: true,
        ..NO_INPUT
    };
    assert_eq!(app.dialog_action(input), Some(Action::CloseDialog));
    act(&mut app, &mut repo, Action::CloseDialog);
    assert_eq!(app.dialog_action(input), None);
    assert!(app.apply("0", Action::ConfirmDialog).is_empty());
    assert!(app.agent_blocked().is_empty());
    assert_eq!(repo.work["a.txt"], "one\nTWO\nthree\n");
}
