//! The two file browsers.
use probe_shell::browser::{ShellBrowser, ShellOpOf, ShellReply, ShellTurn};
use probe_shell::commands::{SftpCommand, SftpHandle};
use probe_shell::events::{EntryKind, RemoteEntry, SessionEvent};
use probe_shell::lang::Lang;
use probe_shell::listing::{list_command, ExecOutput};
use probe_shell::tree::{build_tree_nodes, TreeState};
use probe_shell::worker::{OpOf, ReadFaultOf, Reply, SftpWorker, Turn};

fn dir(path: &str) -> RemoteEntry {
    RemoteEntry {
        name: path.rsplit('/').next().unwrap().to_string(),
        full_path: path.to_string(),
        is_dir: true,
        kind: EntryKind::Dir,
        size: 0,
        modified: 0,
        mode: 0o755,
    }
}

fn show(e: &SessionEvent) -> String {
    format!("{e:?}")
}

fn texts(events: &[SessionEvent]) -> Vec<String> {
    events
        .iter()
        .map(|e| match e {
            SessionEvent::SftpStatus(s) => s.clone(),
            SessionEvent::SftpError(s) => format!("error {s}"),
            SessionEvent::SftpEntries { path, entries } => {
                format!("entries {path} {}", entries.len())
            }
            SessionEvent::SftpTreeUpdate(rows) => {
                let paths: Vec<String> = rows
                    .iter()
                    .map(|r| {
                        format!("{}{}{}", r.path, if r.expanded { "+" } else { "" }, r.depth)
                    })
                    .collect();
                format!("tree {}", paths.join(" "))
            }
            other => show(other),
        })
        .collect()
}

fn listed(t: &Turn) -> String {
    match &t.op {
        OpOf::List(p) => p.clone(),
        _ => panic!("no listing is wanted"),
    }
}

fn ok(paths: &[&str]) -> Reply {
    Reply::Listing(Ok(paths.iter().map(|p| dir(p)).collect()))
}

fn is_idle(t: &Turn) -> bool {
    matches!(t.op, OpOf::Idle)
}

/// A browser with its tree expanded down to `/home/u`.
fn ready() -> SftpWorker {
    let (mut w, t) = SftpWorker::start(Lang::En);
    assert_eq!(texts(&t.events), vec!["SFTP mode"]);
    assert!(matches!(t.op, OpOf::Home));
    let t = w.on_reply(Reply::Home(Some("/home/u".to_string())));
    assert_eq!(texts(&t.events), vec!["SFTP loading /home/u..."]);
    assert_eq!(listed(&t), "/home/u");
    let t = w.on_reply(ok(&["/home/u/x"]));
    assert_eq!(texts(&t.events), vec!["entries /home/u 1", "/home/u"]);
    assert_eq!(listed(&t), "/");
    let t = w.on_reply(ok(&["/etc", "/home"]));
    assert_eq!(listed(&t), "/home");
    let t = w.on_reply(ok(&["/home/u"]));
    assert_eq!(listed(&t), "/home/u");
    let t = w.on_reply(ok(&["/home/u/x"]));
    assert_eq!(texts(&t.events), vec!["tree /+0 /etc1 /home+1 /home/u+2 /home/u/x3"]);
    assert!(is_idle(&t));
    w
}

#[test]
fn the_browser_starts_at_home() {
    ready();
    let (mut w, _) = SftpWorker::start(Lang::Zh);
    let t = w.on_reply(Reply::Home(None));
    assert_eq!(listed(&t), "/");
    let t = w.on_reply(Reply::Listing(Err("Permission denied".to_string())));
    assert_eq!(texts(&t.events), vec!["error 无法访问 / [Permission Denied]: Permission denied"]);
    let t = w.on_reply(Reply::Listing(Err("x".to_string())));
    assert_eq!(texts(&t.events), vec!["tree /+0"]);
}

#[test]
fn directories_are_listed() {
    let mut w = ready();
    let t = w.accept(SftpCommand::ListDir("/etc/ssl".to_string()));
    assert_eq!(texts(&t.events), vec!["Loading /etc/ssl..."]);
    let t = w.on_reply(ok(&[]));
    assert_eq!(texts(&t.events), vec!["entries /etc/ssl 0"]);
    // The tree needs `/etc`, but not the target itself.
    assert_eq!(listed(&t), "/etc");
    let t = w.on_reply(ok(&["/etc/ssl"]));
    assert_eq!(
        texts(&t.events),
        vec!["tree /+0 /etc+1 /etc/ssl+2 /home+1 /home/u+2 /home/u/x3", "/etc/ssl"]
    );
    let t = w.accept(SftpCommand::ListDir("/no".to_string()));
    assert_eq!(listed(&t), "/no");
    let t = w.on_reply(Reply::Listing(Err("no such file".to_string())));
    assert_eq!(texts(&t.events), vec!["error Cannot open /no [Not Found]: no such file"]);
    assert!(is_idle(&t));
}

#[test]
fn a_refresh_lists_every_expanded_directory() {
    let mut w = ready();
    w.accept(SftpCommand::RefreshDir("/home/u".to_string()));
    let t = w.on_reply(ok(&[]));
    assert_eq!(texts(&t.events), vec!["entries /home/u 0", "/home/u"]);
    let mut asked = vec![listed(&t)];
    let t = w.on_reply(ok(&["/home"]));
    asked.push(listed(&t));
    let t = w.on_reply(Reply::Listing(Err("x".to_string())));
    asked.push(listed(&t));
    let t = w.on_reply(ok(&[]));
    asked.sort();
    assert_eq!(asked, vec!["/", "/home", "/home/u"]);
    // `/etc` is gone, and `/home` could not be listed and keeps what is known of it.
    assert_eq!(texts(&t.events), vec!["tree /+0 /home+1 /home/u+2"]);
}

#[test]
fn tree_rows_are_toggled() {
    let mut w = ready();
    let t = w.accept(SftpCommand::ToggleTreeNode("/home".to_string()));
    assert_eq!(texts(&t.events), vec!["tree /+0 /etc1 /home1"]);
    let t = w.accept(SftpCommand::ToggleTreeNode("/home".to_string()));
    assert_eq!(texts(&t.events), vec!["tree /+0 /etc1 /home+1 /home/u2"]);
    let t = w.accept(SftpCommand::ToggleTreeNode("/etc".to_string()));
    assert_eq!(listed(&t), "/etc");
    let t = w.on_reply(ok(&["/etc/a"]));
    assert_eq!(texts(&t.events), vec!["tree /+0 /etc+1 /etc/a2 /home+1 /home/u2"]);
    let t = w.accept(SftpCommand::ToggleTreeNode("/".to_string()));
    assert_eq!(texts(&t.events), vec!["tree /0"]);
    let t = w.accept(SftpCommand::ToggleTreeNode("/".to_string()));
    assert_eq!(listed(&t), "/");
    let t = w.on_reply(Reply::Listing(Err("x".to_string())));
    assert_eq!(texts(&t.events), vec!["tree /+0 /etc1 /home1"]);
}

#[test]
fn deleted_directories_leave_the_tree() {
    let mut w = ready();
    let t = w.accept(SftpCommand::Delete("/home/u".to_string()));
    assert_eq!(texts(&t.events), vec!["Deleting u..."]);
    assert!(matches!(&t.op, OpOf::Lstat(p) if p == "/home/u"));
    let t = w.on_reply(Reply::Mode(Some(Some(0o040_755))));
    assert!(matches!(&t.op, OpOf::RemoveTree(p) if p == "/home/u"));
    let t = w.on_reply(Reply::Done(Ok(())));
    assert_eq!(listed(&t), "/home");
    let t = w.on_reply(ok(&[]));
    assert_eq!(texts(&t.events), vec!["entries /home 0"]);
    assert_eq!(listed(&t), "/home");
    let t = w.on_reply(ok(&[]));
    assert_eq!(texts(&t.events), vec!["tree /+0 /etc1 /home+1", "Deleted: u"]);
}

#[test]
fn files_are_deleted_and_dangers_refused() {
    let mut w = ready();
    w.accept(SftpCommand::Delete("/var/f".to_string()));
    let t = w.on_reply(Reply::Mode(None));
    assert!(matches!(&t.op, OpOf::RemoveFile(p) if p == "/var/f"));
    let t = w.on_reply(Reply::Done(Err("no".to_string())));
    assert_eq!(texts(&t.events), vec!["Delete failed: no"]);
    for p in ["/", "", "/a/.."] {
        let t = w.accept(SftpCommand::Delete(p.to_string()));
        assert!(is_idle(&t));
        assert_eq!(texts(&t.events)[1], "Delete failed: Refusing to delete a dangerous path");
    }
}

#[test]
fn renaming_updates_both_directories() {
    let mut w = ready();
    let t = w.accept(SftpCommand::Rename { from: "/home/u/x".to_string(), to: "/home/y".to_string() });
    assert!(matches!(&t.op, OpOf::Rename { from, to } if from == "/home/u/x" && to == "/home/y"));
    let t = w.on_reply(Reply::Done(Ok(())));
    assert_eq!(texts(&t.events), vec!["Renamed: y"]);
    assert_eq!(listed(&t), "/home/u");
    let t = w.on_reply(ok(&[]));
    assert_eq!(listed(&t), "/home");
    let t = w.on_reply(ok(&["/home/u", "/home/y"]));
    assert_eq!(texts(&t.events), vec!["tree /+0 /etc1 /home+1 /home/u+2 /home/y2"]);
    assert_eq!(listed(&t), "/home/u");
    let t = w.on_reply(ok(&[]));
    assert_eq!(texts(&t.events), vec!["entries /home/u 0"]);
    w.accept(SftpCommand::Rename { from: "/q/a".to_string(), to: "/q/b".to_string() });
    let t = w.on_reply(Reply::Done(Err("busy".to_string())));
    assert_eq!(texts(&t.events), vec!["Rename failed: busy"]);
    assert_eq!(listed(&t), "/q");
    let t = w.on_reply(Reply::Listing(Err("x".to_string())));
    assert!(t.events.is_empty() && is_idle(&t));
}

#[test]
fn modes_directories_and_files_are_made() {
    let mut w = ready();
    w.accept(SftpCommand::Chmod { path: "/v/f".to_string(), mode: 0o644 });
    let t = w.on_reply(Reply::Done(Ok(())));
    assert_eq!(texts(&t.events), vec!["Permissions changed: f → 644"]);
    assert_eq!(listed(&t), "/v");
    w.on_reply(ok(&[]));
    w.accept(SftpCommand::Chmod { path: "/v/f".to_string(), mode: 0o644 });
    let t = w.on_reply(Reply::Done(Err("no".to_string())));
    assert_eq!(texts(&t.events), vec!["chmod failed: no"]);
    w.on_reply(ok(&[]));
    let t = w.accept(SftpCommand::MkDir("/home/n".to_string()));
    assert!(matches!(&t.op, OpOf::MakeDir(p) if p == "/home/n"));
    let t = w.on_reply(Reply::Done(Ok(())));
    assert_eq!(texts(&t.events), vec!["Folder created: n"]);
    assert_eq!(listed(&t), "/home");
    let t = w.on_reply(ok(&["/home/n", "/home/u"]));
    assert_eq!(texts(&t.events), vec!["tree /+0 /etc1 /home+1 /home/n2 /home/u+2 /home/u/x3"]);
    w.on_reply(ok(&[]));
    w.accept(SftpCommand::MkDir("/v/n".to_string()));
    let t = w.on_reply(Reply::Done(Err("no".to_string())));
    assert_eq!(texts(&t.events), vec!["Create folder failed: no"]);
    w.on_reply(ok(&[]));
    let t = w.accept(SftpCommand::TouchFile("/v/f".to_string()));
    assert!(matches!(&t.op, OpOf::Stat(p) if p == "/v/f"));
    let t = w.on_reply(Reply::Present(true));
    assert_eq!(texts(&t.events), vec!["File already exists: f"]);
    w.on_reply(ok(&[]));
    w.accept(SftpCommand::TouchFile("/v/f".to_string()));
    let t = w.on_reply(Reply::Present(false));
    assert!(matches!(&t.op, OpOf::Create(p) if p == "/v/f"));
    let t = w.on_reply(Reply::Done(Ok(())));
    assert_eq!(texts(&t.events), vec!["File created: f"]);
    w.on_reply(ok(&[]));
    w.accept(SftpCommand::TouchFile("/v/f".to_string()));
    w.on_reply(Reply::Present(false));
    let t = w.on_reply(Reply::Done(Err("no".to_string())));
    assert_eq!(texts(&t.events), vec!["Create file failed: no"]);
}

#[test]
fn files_are_opened_outside() {
    let mut w = ready();
    let open = |edit| SftpCommand::OpenTemp { remote: "/v/a:b".to_string(), edit };
    let t = w.accept(open(true));
    assert_eq!(texts(&t.events), vec!["Opening a_b..."]);
    assert!(matches!(&t.op, OpOf::FetchTemp { name, .. } if name == "a_b"));
    let t = w.on_reply(Reply::Fetched { local: "/t/a_b".to_string(), moved: Ok(true) });
    assert!(matches!(&t.op, OpOf::OpenLocal(p) if p == "/t/a_b"));
    let t = w.on_reply(Reply::Ready);
    assert_eq!(texts(&t.events), vec!["Opened for editing: a_b"]);
    assert!(matches!(&t.op, OpOf::Watch { local, .. } if local == "/t/a_b"));
    w.accept(open(false));
    w.on_reply(Reply::Fetched { local: "/t/a_b".to_string(), moved: Ok(true) });
    let t = w.on_reply(Reply::Ready);
    assert_eq!(texts(&t.events), vec!["Opened: a_b"]);
    assert!(is_idle(&t));
    w.accept(open(false));
    let t = w.on_reply(Reply::Fetched { local: "/t/a_b".to_string(), moved: Ok(false) });
    assert!(matches!(&t.op, OpOf::RemoveLocal(p) if p == "/t/a_b"));
    assert_eq!(texts(&w.on_reply(Reply::Ready).events), vec!["Cancelled: a_b"]);
    w.accept(open(false));
    let t = w.on_reply(Reply::Fetched { local: String::new(), moved: Err("e".to_string()) });
    assert_eq!(texts(&t.events), vec!["Open failed: e"]);
}

#[test]
fn the_editor_reads_and_writes() {
    let mut w = ready();
    let read = || SftpCommand::ReadText { remote: "/v/f".to_string(), edit: true };
    w.accept(read());
    let t = w.on_reply(Reply::Size(Some(2_097_153)));
    assert!(show(&t.events[0]).contains("Too large"));
    w.accept(read());
    let t = w.on_reply(Reply::Size(None));
    assert!(matches!(&t.op, OpOf::ReadAll(p) if p == "/v/f"));
    let t = w.on_reply(Reply::Bytes(Ok(b"hi".to_vec())));
    assert_eq!(
        show(&t.events[0]),
        "SftpFileText { path: \"/v/f\", name: \"f\", content: \"hi\", edit: true, error: \"\" }"
    );
    w.accept(read());
    w.on_reply(Reply::Size(Some(1)));
    let t = w.on_reply(Reply::Bytes(Err(ReadFaultOf::Open("o".to_string()))));
    assert!(show(&t.events[0]).contains("error: \"Open failed: o\""));
    w.accept(read());
    w.on_reply(Reply::Size(Some(1)));
    let t = w.on_reply(Reply::Bytes(Err(ReadFaultOf::Read("r".to_string()))));
    assert!(show(&t.events[0]).contains("error: \"Read failed: r\""));
    let write = || SftpCommand::WriteText { remote: "/v/f".to_string(), content: "x".to_string() };
    let t = w.accept(write());
    assert!(matches!(&t.op, OpOf::WriteAll { content, .. } if content == "x"));
    assert_eq!(texts(&w.on_reply(Reply::Done(Ok(()))).events), vec!["Saved: f"]);
    w.accept(write());
    assert_eq!(
        texts(&w.on_reply(Reply::Done(Err("full".to_string()))).events),
        vec!["Save failed: full"]
    );
}

#[test]
fn searches_and_transfers_are_started() {
    let mut w = ready();
    let t = w.accept(SftpCommand::CancelSearch);
    assert_eq!(texts(&t.events), vec!["No active search"]);
    let t = w.accept(SftpCommand::Search {
        search_id: "s".to_string(),
        root: "/".to_string(),
        query: " q ".to_string(),
    });
    assert!(matches!(&t.op, OpOf::StartSearch { query, .. } if query == "q"));
    let t = w.accept(SftpCommand::CancelSearch);
    assert!(matches!(t.op, OpOf::AbortSearch));
    let t = w.on_reply(Reply::Ready);
    assert!(show(&t.events[0]).contains("state: Cancelled"));
    let t = w.accept(SftpCommand::CancelSearch);
    assert_eq!(texts(&t.events), vec!["No active search"]);
    let mut ids: Vec<String> = Vec::new();
    for _ in 0..2 {
        let t = w.accept(SftpCommand::Download {
            remote: "/r".to_string(),
            local_dir: "/l".to_string(),
        });
        match t.op {
            OpOf::StartDownload { id, .. } => ids.push(id),
            _ => panic!("not expected"),
        }
    }
    assert_eq!(ids[0].len(), 36);
    assert_ne!(ids[0], ids[1]);
    let t = w.on_command(
        SftpCommand::Upload { local: "/l".to_string(), remote_dir: "/r".to_string() },
        "ID".to_string(),
    );
    assert!(matches!(&t.op, OpOf::StartUpload { id, .. } if id == "ID"));
    let t = w.on_command(
        SftpCommand::DownloadArchive {
            remote_dir: "/r".to_string(),
            names: vec!["a".to_string()],
            local_dir: "/l".to_string(),
        },
        "ID".to_string(),
    );
    assert!(matches!(&t.op, OpOf::StartArchive { names, .. } if names.len() == 1));
    let t = w.accept(SftpCommand::CancelTransfer("ID".to_string()));
    assert!(matches!(&t.op, OpOf::CancelTransfer(id) if id == "ID"));
    let t = w.accept(SftpCommand::Close);
    assert!(matches!(t.op, OpOf::Halt));
    let t = w.on_reply(Reply::Ready);
    assert_eq!(texts(&t.events), vec!["File connection disconnected"]);
    assert!(matches!(t.op, OpOf::Stop));
}

#[test]
fn answers_to_nothing_are_passed_over() {
    let mut w = ready();
    let t = w.on_reply(ok(&["/x"]));
    assert!(t.events.is_empty() && is_idle(&t));
}

fn paths(t: &TreeState) -> Vec<(String, u32)> {
    t.nodes().into_iter().map(|n| (n.path, n.depth)).collect()
}

fn row(path: &str, depth: u32) -> (String, u32) {
    (path.to_string(), depth)
}

fn kid(path: &str) -> (String, String) {
    ("n".to_string(), path.to_string())
}

#[test]
fn every_listing_is_kept_and_no_way_is_gone_twice() {
    let mut t = TreeState::new();
    for dir in ["/", "/a", "/a/"] {
        t.expand(dir);
    }
    t.keep("/", Some(vec![kid("/a"), kid("/z")]));
    t.keep("/a", Some(vec![kid("/a/"), kid("/a/b")]));
    assert!(t.dirs.contains_key("/a"));
    // A name of slashes alone leads back to its own directory: it has a row and nothing below.
    t.keep("/a/", Some(vec![kid("/a/"), kid("/a/b")]));
    assert_eq!(
        paths(&t),
        vec![
            row("/", 0),
            row("/a", 1),
            row("/a/", 2),
            row("/a/", 3),
            row("/a/b", 3),
            row("/a/b", 2),
            row("/z", 1),
        ]
    );
    t.keep("/a", None);
    assert_eq!(paths(&t).len(), 7);
    t.keep("/a", Some(Vec::new()));
    assert_eq!(paths(&t), vec![row("/", 0), row("/a", 1), row("/z", 1)]);
}

#[test]
fn rows_come_in_preorder_whatever_the_paths_are() {
    let mut t = TreeState::new();
    t.expand("/");
    t.expand("x");
    t.keep("/", Some(vec![kid("x"), kid("/")]));
    t.keep("x", Some(vec![kid(""), kid("y")]));
    assert_eq!(
        paths(&t),
        vec![row("/", 0), row("x", 1), row("", 2), row("y", 2), row("/", 1)]
    );
    let mut nodes = Vec::new();
    build_tree_nodes("x", 7, &t, &mut nodes);
    let rows: Vec<(String, u32)> = nodes.into_iter().map(|n| (n.path, n.depth)).collect();
    assert_eq!(rows, vec![row("x", 7), row("", 8), row("y", 8)]);
}

// ---------------------------------------------------------------------------
// Over a shell
// ---------------------------------------------------------------------------

fn run(code: u32, out: &str, err: &str) -> ShellReply {
    ShellReply::Exec(Ok(ExecOutput {
        code,
        out: out.as_bytes().to_vec(),
        err: err.as_bytes().to_vec(),
    }))
}

fn dirs(names: &[&str]) -> ShellReply {
    let lines: Vec<String> = names.iter().map(|n| format!("d\t0\t0\t755\t{n}\n")).collect();
    run(0, &lines.join(""), "")
}

fn command(t: &ShellTurn) -> String {
    match &t.op {
        ShellOpOf::Exec(c) => c.clone(),
        _ => panic!("no command is wanted"),
    }
}

fn shell_ready() -> ShellBrowser {
    let (mut b, t) = ShellBrowser::start(Lang::En);
    assert_eq!(command(&t), "pwd");
    let t = b.on_reply(run(0, "/root\n", ""));
    assert_eq!(
        texts(&t.events),
        vec!["Standard SFTP unavailable; using SSH-compatible transfer", "Loading /root..."]
    );
    assert_eq!(command(&t), list_command("/root"));
    let t = b.on_reply(dirs(&["x"]));
    assert_eq!(texts(&t.events), vec!["entries /root 1", "/root · SSH browser"]);
    assert_eq!(command(&t), list_command("/"));
    let t = b.on_reply(dirs(&["etc", "root"]));
    assert_eq!(texts(&t.events), vec!["tree /+0 /etc1 /root+1"]);
    assert!(matches!(t.op, ShellOpOf::Idle));
    b
}

#[test]
fn the_shell_browser_starts_at_home() {
    shell_ready();
    let (mut b, _) = ShellBrowser::start(Lang::En);
    let t = b.on_reply(ShellReply::Exec(Err("x".to_string())));
    assert_eq!(command(&t), list_command("/"));
}

#[test]
fn the_shell_browser_lists_and_refreshes() {
    let mut b = shell_ready();
    let t = b.accept(SftpCommand::ListDir("/etc".to_string()));
    assert_eq!(texts(&t.events), vec!["Loading /etc..."]);
    let t = b.on_reply(run(2, "", ""));
    assert_eq!(
        texts(&t.events),
        vec![
            "error Cannot open /etc [Open Failed]: cannot list /etc",
            "tree /+0 /etc+1 /root+1"
        ]
    );
    b.accept(SftpCommand::RefreshDir("/etc".to_string()));
    let t = b.on_reply(dirs(&["a"]));
    assert_eq!(texts(&t.events), vec!["entries /etc 1", "/etc · SSH browser"]);
    let mut n = 0;
    let mut t = t;
    while let ShellOpOf::Exec(_) = &t.op {
        n += 1;
        t = b.on_reply(dirs(&[]));
    }
    assert_eq!(n, 3);
    assert_eq!(texts(&t.events), vec!["tree /+0"]);
}

#[test]
fn the_shell_browser_changes_things() {
    let mut b = shell_ready();
    let t = b.accept(SftpCommand::MkDir("/n".to_string()));
    assert_eq!(command(&t), "mkdir -p '/n'");
    let t = b.on_reply(run(1, "", "denied\n"));
    assert_eq!(texts(&t.events), vec!["Create folder failed: denied"]);
    assert_eq!(command(&t), list_command("/"));
    let t = b.on_reply(dirs(&["n"]));
    assert_eq!(texts(&t.events), vec!["tree /+0 /n1", "Loading /..."]);
    let t = b.on_reply(dirs(&["n"]));
    assert_eq!(texts(&t.events), vec!["entries / 1", "/ · SSH browser"]);
    for (c, want, title) in [
        (SftpCommand::TouchFile("/v/f".to_string()), "test -e '/v/f' || : > '/v/f'", "Create file failed"),
        (
            SftpCommand::Rename { from: "/a".to_string(), to: "/v/b".to_string() },
            "mv '/a' '/v/b'",
            "Rename failed",
        ),
        (SftpCommand::Chmod { path: "/v/f".to_string(), mode: 0o100_600 }, "chmod 600 '/v/f'", "chmod failed"),
    ] {
        let t = b.accept(c);
        assert_eq!(command(&t), want);
        let t = b.on_reply(ShellReply::Exec(Err("e".to_string())));
        assert_eq!(texts(&t.events), vec![format!("{title}: e"), "Loading /v...".to_string()]);
        b.on_reply(dirs(&[]));
    }
    let t = b.accept(SftpCommand::Delete("/v/f".to_string()));
    assert!(command(&t).starts_with("p='/v/f'; "));
    let t = b.on_reply(run(0, "", ""));
    assert_eq!(texts(&t.events), vec!["Loading /v..."]);
    b.on_reply(dirs(&[]));
    let t = b.accept(SftpCommand::Delete("/".to_string()));
    assert!(matches!(t.op, ShellOpOf::Idle));
    assert_eq!(
        texts(&t.events),
        vec!["Delete failed: Refusing to delete a dangerous path"]
    );
}

#[test]
fn the_shell_browser_moves_files() {
    let mut b = shell_ready();
    let t = b.accept(SftpCommand::Download {
        remote: "/v/a:b".to_string(),
        local_dir: "/l".to_string(),
    });
    assert_eq!(command(&t), "test -f '/v/a:b' || exit 3; base64 '/v/a:b'");
    let t = b.on_reply(run(0, "aGk=\n", ""));
    match t.op {
        ShellOpOf::WriteLocal { dir, name, bytes } => {
            assert_eq!((dir.as_str(), name.as_str(), bytes), ("/l", "a_b", b"hi".to_vec()));
        }
        _ => panic!("not expected"),
    }
    let t = b.on_reply(ShellReply::Written { local: "/l/a_b".to_string(), written: true });
    assert_eq!(texts(&t.events), vec!["Downloaded: a_b"]);
    b.accept(SftpCommand::Download { remote: "/v/f".to_string(), local_dir: "/l".to_string() });
    b.on_reply(run(0, "aGk=\n", ""));
    let t = b.on_reply(ShellReply::Written { local: "/l/f".to_string(), written: false });
    assert_eq!(texts(&t.events), vec!["Download failed: write local /l/f"]);
    b.accept(SftpCommand::Download { remote: "/v/f".to_string(), local_dir: "/l".to_string() });
    let t = b.on_reply(run(1, "", ""));
    assert_eq!(texts(&t.events), vec!["Download failed: download failed"]);
    b.accept(SftpCommand::OpenTemp { remote: "/v/f".to_string(), edit: true });
    let t = b.on_reply(run(0, "aGk=", ""));
    assert!(matches!(&t.op, ShellOpOf::WriteTemp { name, .. } if name == "f"));
    let t = b.on_reply(ShellReply::Written { local: "/t/f".to_string(), written: true });
    assert!(matches!(&t.op, ShellOpOf::OpenLocal(p) if p == "/t/f"));
    let t = b.on_reply(ShellReply::Ready);
    assert_eq!(
        texts(&t.events),
        vec!["SSH file-browser mode does not auto-upload external edits yet"]
    );
    let t = b.accept(SftpCommand::DownloadArchive {
        remote_dir: "/".to_string(),
        names: Vec::new(),
        local_dir: "/l".to_string(),
    });
    assert_eq!(
        texts(&t.events),
        vec!["SSH-compatible mode does not support archive downloads yet"]
    );
    let t = b.accept(SftpCommand::Upload { local: "/l".to_string(), remote_dir: "/r".to_string() });
    assert!(matches!(&t.op, ShellOpOf::StartUpload { id, .. } if id.len() == 36));
}

#[test]
fn the_shell_browser_edits_texts() {
    let mut b = shell_ready();
    let t = b.accept(SftpCommand::WriteText {
        remote: "/v/f".to_string(),
        content: "hi".to_string(),
    });
    let cmd = command(&t);
    assert_eq!(cmd, "printf %s 'aGk=' | base64 -d > '/v/f'");
    let t = b.on_reply(run(0, "", ""));
    assert_eq!(texts(&t.events), vec!["Saved: f", "Loading /v..."]);
    b.on_reply(dirs(&[]));
    // What was saved is read back.
    b.accept(SftpCommand::ReadText { remote: "/v/f".to_string(), edit: false });
    let t = b.on_reply(run(0, "aG\nk=\n", ""));
    assert_eq!(
        show(&t.events[0]),
        "SftpFileText { path: \"/v/f\", name: \"f\", content: \"hi\", edit: false, error: \"\" }"
    );
    b.accept(SftpCommand::ReadText { remote: "/v/f".to_string(), edit: false });
    let t = b.on_reply(ShellReply::Exec(Err("gone".to_string())));
    assert!(show(&t.events[0]).contains("error: \"gone\""));
    b.accept(SftpCommand::WriteText { remote: "/v/f".to_string(), content: String::new() });
    let t = b.on_reply(run(1, "", " full\n"));
    assert_eq!(texts(&t.events), vec!["Save failed: full", "Loading /v..."]);
}

#[test]
fn requests_are_logged() {
    let h = SftpHandle::new();
    assert_eq!(h.grace_ms, 250);
    assert!(h.list_dir("/".to_string()).log.is_none());
    assert!(h.refresh_dir("/".to_string()).log.is_none());
    assert!(h.toggle_tree_node("/".to_string()).log.is_none());
    assert!(h.cancel_transfer("i".to_string()).log.is_none());
    assert!(h.close().log.is_none());
    let r = h.chmod("/f\tx".to_string(), 0o100_644);
    let log = r.log.unwrap();
    assert_eq!((log.action.as_str(), log.target.as_str()), ("修改权限", "/f x"));
    assert_eq!((log.status.as_str(), log.detail.as_str()), ("请求", "644"));
    assert!(matches!(r.command, SftpCommand::Chmod { mode: 0o100_644, .. }));
    let log = h.write_text("/f".to_string(), "secret".to_string()).log.unwrap();
    assert_eq!((log.action.as_str(), log.detail.as_str()), ("保存编辑", "SFTP/SSH文件操作"));
    let log = h
        .download_archive("/d".to_string(), vec!["a".to_string(), "b".to_string()], "/l".to_string())
        .log
        .unwrap();
    assert_eq!((log.action.as_str(), log.detail.as_str()), ("打包下载", "2 项"));
    let log = h.rename("/a".to_string(), "/b".to_string()).log.unwrap();
    assert_eq!(log.detail, "-> /b");
    assert_eq!(h.open_temp("/a".to_string(), true).log.unwrap().action, "外部编辑");
    assert_eq!(h.open_temp("/a".to_string(), false).log.unwrap().action, "外部查看");
    assert_eq!(h.read_text("/a".to_string(), true).log.unwrap().action, "内置编辑");
    assert_eq!(h.read_text("/a".to_string(), false).log.unwrap().action, "查看");
    assert_eq!(h.download("/a".to_string(), "/l".to_string()).log.unwrap().action, "下载");
    assert_eq!(h.upload("/l".to_string(), "/r".to_string()).log.unwrap().detail, "/l");
    assert_eq!(
        h.search("s".to_string(), "/r".to_string(), "q".to_string()).log.unwrap().detail,
        "q"
    );
    assert_eq!(h.cancel_search().log.unwrap().action, "停止搜索");
    assert_eq!(h.delete("/a".to_string()).log.unwrap().action, "删除");
    assert_eq!(h.mkdir("/a".to_string()).log.unwrap().action, "新建文件夹");
    assert_eq!(h.touch("/a".to_string()).log.unwrap().action, "新建文件");
}
