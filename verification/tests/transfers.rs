//! Transfers of files and folders.
use probe_shell::events::{EntryKind, RemoteEntry, SessionEvent, TransferState};
use probe_shell::folder::{
    rmdir_error, DirDownload, DirRemoval, FetchStep, RemovalStep, MAX_NODES,
};
use probe_shell::folder_upload::{
    ArchiveAction, ArchiveWalk, DirStep, DirUpload, LocalEntry, LocalKind, SendStep,
};
use probe_shell::job::{Job, JobOp, JobOpOf, JobReply, JobTurn};
use probe_shell::lang::Lang;
use probe_shell::transfer::{
    download_setup_error, is_cancelled, upload_setup_error, Chunk, ChunkFill, ChunkOutcome,
    Download, ReadReply, SetupStep, TransferEnd, Upload, CHUNK, MAX_INFLIGHT,
};

fn entry(path: &str, kind: EntryKind) -> RemoteEntry {
    RemoteEntry {
        name: path.rsplit('/').next().unwrap().to_string(),
        full_path: path.to_string(),
        is_dir: matches!(kind, EntryKind::Dir | EntryKind::SymlinkDir),
        kind,
        size: 0,
        modified: 0,
        mode: 0,
    }
}

fn show(e: &SessionEvent) -> String {
    format!("{e:?}")
}

fn transfer(e: &SessionEvent) -> (u64, u64, TransferState) {
    match e {
        SessionEvent::SftpTransfer { transferred, total, state, .. } => {
            (*transferred, *total, *state)
        }
        _ => panic!("not a transfer"),
    }
}

/// A transfer that failed leaves no partial file and no report.
fn assert_failed(end: TransferEnd, msg: &str, partial: &str) {
    assert_eq!(end.result, Err(msg.to_string()));
    assert!(end.report.is_none());
    assert_eq!(end.remove.as_deref(), Some(partial));
}

/// A transfer that was cancelled leaves no partial file, and says so.
fn assert_cancelled(end: TransferEnd, partial: &str) -> SessionEvent {
    assert_eq!(end.result, Ok(false));
    assert_eq!(end.remove.as_deref(), Some(partial));
    let e = end.report.unwrap();
    assert_eq!(transfer(&e).2, TransferState::Cancelled);
    e
}

/// A transfer that is done keeps the file.
fn assert_done(end: TransferEnd, done: u64, total: u64) {
    assert_eq!(end.result, Ok(true));
    assert_eq!(end.remove, None);
    assert_eq!(transfer(&end.report.unwrap()), (done, total, TransferState::Done));
}

#[test]
fn chunks_cover_the_file() {
    let total = CHUNK * 40 + 5;
    let (mut d, first) = Download::new("i", "n", total);
    assert_eq!(transfer(&first), (0, total, TransferState::Running));
    let mut asked: Vec<Chunk> = d.plan(false);
    assert_eq!(asked.len(), MAX_INFLIGHT);
    let mut waiting = asked.clone();
    while let Some(c) = waiting.pop() {
        d.on_chunk(ChunkOutcome::Written(c.len), 0);
        let more = d.plan(false);
        asked.extend(more.iter().copied());
        waiting.extend(more);
    }
    asked.sort_by_key(|c| c.off);
    let mut at = 0;
    for c in &asked {
        assert_eq!(c.off, at);
        assert!(c.len > 0 && c.len <= CHUNK);
        at += c.len;
    }
    assert_eq!(at, total);
    assert!(d.wants_flush());
    assert_done(d.end(true, "/l/n", Lang::En), total, total);
    assert_failed(d.end(false, "/l/n", Lang::En), "flush local file", "/l/n");
}

#[test]
fn downloads_stop_when_they_are_told() {
    let (mut d, _) = Download::new("i", "n", CHUNK * 100);
    assert_eq!(d.plan(false).len(), 32);
    d.on_chunk(ChunkOutcome::Written(CHUNK), 0);
    assert!(d.plan(true).is_empty());
    assert_eq!(d.inflight, 31);
    assert!(!d.wants_flush());
    let e = assert_cancelled(d.end(false, "/l/n", Lang::En), "/l/n");
    assert_eq!(transfer(&e), (CHUNK, CHUNK * 100, TransferState::Cancelled));
    assert!(show(&e).contains("msg: \"Cancelled\""));
    // A failure outweighs the request to stop.
    d.on_chunk(ChunkOutcome::WriteFailed("disk".to_string()), 0);
    assert!(!d.wants_flush());
    assert_failed(d.end(false, "/l/n", Lang::En), "write local: disk", "/l/n");
}

#[test]
fn download_failures_are_told() {
    for (outcome, want) in [
        (ChunkOutcome::SeekFailed("a".to_string()), "seek local: a"),
        (ChunkOutcome::WriteFailed("b".to_string()), "write local: b"),
        (ChunkOutcome::ReadFailed("read remote: c".to_string()), "read remote: c"),
    ] {
        let (mut d, _) = Download::new("i", "n", 10);
        d.plan(false);
        d.on_chunk(outcome, 0);
        assert!(d.plan(false).is_empty());
        assert_failed(d.end(true, "/l/n", Lang::En), want, "/l/n");
    }
}

#[test]
fn downloads_report_now_and_then() {
    let (mut d, _) = Download::new("i", "n", CHUNK * 4);
    d.plan(false);
    assert!(d.on_chunk(ChunkOutcome::Written(CHUNK), 149).is_none());
    let e = d.on_chunk(ChunkOutcome::Written(CHUNK), 150).unwrap();
    assert_eq!(transfer(&e), (CHUNK * 2, CHUNK * 4, TransferState::Running));
    assert!(d.on_chunk(ChunkOutcome::Written(CHUNK), 299).is_none());
    assert!(d.on_chunk(ChunkOutcome::Written(0), 300).is_some());
}

#[test]
fn files_of_unknown_size_are_drained() {
    let (mut d, _) = Download::new("i", "n", 0);
    assert!(d.plan(false).is_empty());
    assert_eq!(d.drain_next(false), Some(Chunk { off: 0, len: CHUNK }));
    assert!(d.drain_reply(&ReadReply::Data(vec![1, 2, 3])));
    assert!(d.drain_written(3, 10).is_none());
    assert_eq!(d.drain_next(false), Some(Chunk { off: 3, len: CHUNK }));
    assert!(d.drain_reply(&ReadReply::Data(vec![4])));
    assert_eq!(transfer(&d.drain_written(1, 200).unwrap()), (4, 4, TransferState::Running));
    assert!(!d.drain_reply(&ReadReply::Data(Vec::new())));
    assert!(!d.drain_reply(&ReadReply::Eof));
    assert_done(d.end(true, "/l/n", Lang::En), 4, 4);
    assert_eq!(d.drain_next(true), None);
    assert_cancelled(d.end(false, "/l/n", Lang::En), "/l/n");
    assert!(!d.drain_reply(&ReadReply::Failed("x".to_string())));
    assert_failed(d.end(false, "/l/n", Lang::En), "read remote: x", "/l/n");
    d.drain_write_failed();
    assert_failed(d.end(false, "/l/n", Lang::En), "write local file", "/l/n");
}

#[test]
fn drained_bytes_are_the_file() {
    let file: Vec<u8> = (0..1000u32).map(|i| (i % 251) as u8).collect();
    let (mut d, _) = Download::new("i", "n", 0);
    let mut local: Vec<u8> = Vec::new();
    while let Some(want) = d.drain_next(false) {
        let from = (want.off as usize).min(file.len());
        let to = (from + 300).min(file.len());
        let reply = ReadReply::Data(file[from..to].to_vec());
        if !d.drain_reply(&reply) {
            break;
        }
        local.extend_from_slice(&file[from..to]);
        d.drain_written((to - from) as u64, 0);
    }
    assert_eq!(local, file);
    assert_done(d.end(true, "/l/n", Lang::En), 1000, 1000);
}

#[test]
fn short_reads_are_filled_up() {
    let mut f = ChunkFill::new(Chunk { off: 10, len: 5 });
    assert_eq!(f.wanted(), Some(Chunk { off: 10, len: 5 }));
    f.absorb(ReadReply::Data(vec![1, 2])).unwrap();
    assert_eq!(f.wanted(), Some(Chunk { off: 12, len: 3 }));
    f.absorb(ReadReply::Data(vec![3, 4, 5])).unwrap();
    assert_eq!(f.wanted(), None);
    assert_eq!(f.data, vec![1, 2, 3, 4, 5]);
    let mut f = ChunkFill::new(Chunk { off: 0, len: 5 });
    f.absorb(ReadReply::Data(Vec::new())).unwrap();
    assert_eq!(f.wanted(), None);
    let mut f = ChunkFill::new(Chunk { off: 0, len: 5 });
    f.absorb(ReadReply::Eof).unwrap();
    assert_eq!(f.wanted(), None);
    let mut f = ChunkFill::new(Chunk { off: 0, len: 5 });
    assert_eq!(f.absorb(ReadReply::Failed("x".to_string())), Err("read remote: x".to_string()));
}

#[test]
fn uploads_write_without_gaps() {
    let (mut u, first) = Upload::new("i", "n", 100);
    assert_eq!(transfer(&first), (0, 100, TransferState::Running));
    assert!(u.begin_round(false));
    assert!(u.wants_read());
    assert_eq!(u.on_read(Ok(30)), Some(0));
    assert_eq!(u.on_read(Ok(70)), Some(30));
    assert_eq!(u.on_read(Ok(0)), None);
    assert!(!u.wants_read());
    assert!(u.on_written(Ok(70), 10).is_none());
    assert!(u.begin_round(false));
    let e = u.on_written(Ok(30), 160).unwrap();
    assert_eq!(transfer(&e), (100, 100, TransferState::Running));
    assert!(!u.begin_round(false));
    assert_done(u.end("/r/n", Lang::En), 100, 100);
}

#[test]
fn uploads_keep_a_bounded_number_of_writes() {
    let (mut u, _) = Upload::new("i", "n", 0);
    u.begin_round(false);
    let mut n = 0;
    while u.wants_read() {
        u.on_read(Ok(1));
        n += 1;
    }
    assert_eq!(n, MAX_INFLIGHT);
    // A file that grew is reported with what was sent.
    u.on_written(Ok(1), 0);
    assert_done(u.end("/r/n", Lang::En), 1, 1);
}

#[test]
fn uploads_stop_when_they_are_told() {
    let (mut u, _) = Upload::new("i", "n", 9);
    u.begin_round(false);
    u.on_read(Ok(3));
    assert!(u.begin_round(true));
    assert!(!u.wants_read());
    u.on_written(Ok(3), 0);
    assert!(!u.begin_round(true));
    let e = assert_cancelled(u.end("/r/n", Lang::Zh), "/r/n");
    assert!(show(&e).contains("已取消"));
    let (mut u, _) = Upload::new("i", "n", 9);
    u.begin_round(false);
    u.on_read(Err("io".to_string()));
    assert!(!u.begin_round(false));
    assert_failed(u.end("/r/n", Lang::En), "read local file: io", "/r/n");
    let (mut u, _) = Upload::new("i", "n", 9);
    u.begin_round(false);
    u.on_read(Ok(3));
    assert!(u.on_written(Err("full".to_string()), 999).is_none());
    assert_failed(u.end("/r/n", Lang::En), "write remote file: full", "/r/n");
}

#[test]
fn setup_failures_are_told() {
    for (step, down, up) in [
        (SetupStep::OpenChannel, "open sftp download channel", "open sftp upload channel"),
        (SetupStep::RequestSubsystem, "request sftp subsystem", "request sftp subsystem"),
        (SetupStep::Handshake, "sftp download handshake", "sftp upload handshake"),
        (SetupStep::OpenSource, "open remote /r", "open local /l"),
        (SetupStep::CreateTarget, "create local /l", "create remote /r"),
    ] {
        assert_eq!(download_setup_error(step, "/r", "/l"), down);
        assert_eq!(upload_setup_error(step, "/l", "/r"), up);
    }
    assert!(is_cancelled(false, true) && is_cancelled(true, false) && !is_cancelled(false, false));
}

#[test]
fn folders_are_mirrored() {
    let mut d = DirDownload::new("/srv/da:ta/", "/home/u/");
    assert!(matches!(d.next(false), FetchStep::MakeLocalDir(p) if p == "/home/u/da_ta"));
    assert!(matches!(d.made(true), FetchStep::List(p) if p == "/srv/da:ta"));
    assert!(matches!(d.made(false), FetchStep::Fail(m) if m == "create local dir /home/u/da_ta"));
    let list = vec![
        entry("/srv/da:ta/sub", EntryKind::Dir),
        entry("/srv/da:ta/link", EntryKind::SymlinkDir),
        entry("/srv/da:ta/a|b", EntryKind::File),
    ];
    match d.listed(Ok(list), false) {
        FetchStep::Fetch { remote, local, name } => {
            assert_eq!(remote, "/srv/da:ta/a|b");
            assert_eq!(local, "/home/u/da_ta/a_b");
            assert_eq!(name, "a_b");
        }
        _ => panic!("not expected"),
    }
    assert!(matches!(
        d.fetched(Ok(true), false),
        FetchStep::MakeLocalDir(p) if p == "/home/u/da_ta/sub"
    ));
    // A directory that was mirrored is not mirrored again.
    assert!(matches!(
        d.listed(Ok(vec![entry("/srv/da:ta", EntryKind::Dir)]), false),
        FetchStep::Complete
    ));
}

#[test]
fn folder_downloads_can_fail_and_be_cancelled() {
    let mut d = DirDownload::new("/x", "/l");
    d.next(false);
    assert!(matches!(d.listed(Err("why".to_string()), false), FetchStep::Fail(m) if m == "why"));
    assert!(matches!(
        d.listed(Ok(vec![entry("/x/f", EntryKind::File)]), true),
        FetchStep::DropLocal(p) if p == "/l/x"
    ));
    assert!(matches!(d.fetched(Ok(false), false), FetchStep::DropLocal(p) if p == "/l/x"));
    assert!(matches!(d.fetched(Err("e".to_string()), false), FetchStep::Fail(m) if m == "e"));
    let many: Vec<RemoteEntry> =
        (0..MAX_NODES + 1).map(|i| entry(&format!("/x/{i}"), EntryKind::SymlinkDir)).collect();
    let mut d = DirDownload::new("/x", "/l");
    d.next(false);
    assert!(matches!(
        d.listed(Ok(many), false),
        FetchStep::Fail(m) if m == "recursive download exceeded node limit"
    ));
    let mut d = DirDownload::new("/x", "/l");
    assert!(matches!(d.next(true), FetchStep::DropLocal(_)));
}

#[test]
fn folders_are_removed_from_below() {
    assert_eq!(
        DirRemoval::new("/a/../b").err(),
        Some("refusing to delete dangerous path".to_string())
    );
    let mut r = DirRemoval::new("/a/").unwrap();
    assert!(matches!(r.next(), RemovalStep::List(p) if p == "/a"));
    let list = vec![
        entry("/a/s", EntryKind::Dir),
        entry("/a/l", EntryKind::SymlinkDir),
        entry("/a/f", EntryKind::File),
    ];
    assert!(matches!(r.on_listing(Ok(list)), RemovalStep::RemoveFile(p) if p == "/a/l"));
    assert!(matches!(r.on_file("/a/l", Ok(())), RemovalStep::RemoveFile(p) if p == "/a/f"));
    assert!(matches!(r.on_file("/a/f", Ok(())), RemovalStep::List(p) if p == "/a/s"));
    assert!(matches!(
        r.on_listing(Ok(Vec::new())),
        RemovalStep::RemoveDirs(v) if v == vec!["/a/s".to_string(), "/a".to_string()]
    ));
    assert!(matches!(
        r.on_file("/f", Err("no".to_string())),
        RemovalStep::Fail(m) if m == "remove file /f: no"
    ));
    assert!(matches!(r.on_listing(Err("no".to_string())), RemovalStep::Fail(m) if m == "no"));
    assert_eq!(rmdir_error("/a", "busy"), "remove dir /a: busy");
    let many: Vec<RemoteEntry> =
        (0..MAX_NODES).map(|i| entry(&format!("/x/{i}"), EntryKind::Dir)).collect();
    let mut r = DirRemoval::new("/x").unwrap();
    r.next();
    assert!(matches!(
        r.on_listing(Ok(many[..200].iter().map(|e| e.copy()).collect())),
        RemovalStep::List(_)
    ));
}

/// A remote folder: what each of its directories holds.
fn remote_listing(dir: &str) -> Vec<RemoteEntry> {
    match dir {
        "/srv/w" => vec![
            entry("/srv/w/a", EntryKind::Dir),
            entry("/srv/w/b", EntryKind::Dir),
            entry("/srv/w/l", EntryKind::SymlinkDir),
            entry("/srv/w/x:1", EntryKind::File),
        ],
        "/srv/w/a" => vec![
            entry("/srv/w/a/deep", EntryKind::Dir),
            entry("/srv/w/a/y", EntryKind::File),
        ],
        "/srv/w/a/deep" => vec![entry("/srv/w/a/deep/z", EntryKind::SymlinkFile)],
        _ => Vec::new(),
    }
}

#[test]
fn a_removal_takes_the_whole_tree() {
    let mut r = DirRemoval::new("/srv/w/").unwrap();
    let mut listed = Vec::new();
    let mut removed = Vec::new();
    let mut step = r.next();
    let dirs = loop {
        step = match step {
            RemovalStep::List(d) => {
                listed.push(d.clone());
                r.on_listing(Ok(remote_listing(&d)))
            }
            RemovalStep::RemoveFile(p) => {
                removed.push(p.clone());
                r.on_file(&p, Ok(()))
            }
            RemovalStep::RemoveDirs(v) => break v,
            RemovalStep::Fail(m) => panic!("{m}"),
        };
    };
    removed.sort();
    assert_eq!(removed, vec!["/srv/w/a/deep/z", "/srv/w/a/y", "/srv/w/l", "/srv/w/x:1"]);
    assert_eq!(dirs, vec!["/srv/w/a/deep", "/srv/w/b", "/srv/w/a", "/srv/w"]);
    listed.reverse();
    assert_eq!(listed, dirs);
}

#[test]
fn a_download_brings_the_whole_folder() {
    let mut d = DirDownload::new("/srv/w", "/home");
    let mut made = Vec::new();
    let mut fetched = Vec::new();
    let mut step = d.next(false);
    loop {
        step = match step {
            FetchStep::MakeLocalDir(p) => {
                made.push(p);
                d.made(true)
            }
            FetchStep::List(p) => d.listed(Ok(remote_listing(&p)), false),
            FetchStep::Fetch { remote, local, .. } => {
                fetched.push((remote, local));
                d.fetched(Ok(true), false)
            }
            FetchStep::Complete => break,
            other => panic!("{other:?}"),
        };
    }
    made.sort();
    assert_eq!(made, vec!["/home/w", "/home/w/a", "/home/w/a/deep", "/home/w/b"]);
    fetched.sort();
    let want = [
        ("/srv/w/a/deep/z", "/home/w/a/deep/z"),
        ("/srv/w/a/y", "/home/w/a/y"),
        ("/srv/w/x:1", "/home/w/x_1"),
    ];
    assert_eq!(fetched.len(), want.len());
    for (got, (remote, local)) in fetched.iter().zip(want) {
        assert_eq!((got.0.as_str(), got.1.as_str()), (remote, local));
    }
}

#[test]
fn an_upload_sends_the_whole_folder() {
    let content = |dir: &str| -> Vec<(&'static str, LocalKind)> {
        match dir {
            "/l" => vec![
                ("d", LocalKind::Dir),
                ("f", LocalKind::File),
                ("s", LocalKind::Symlink),
                ("again", LocalKind::Dir),
            ],
            "/l/d" => vec![("g", LocalKind::File)],
            _ => panic!("not expected"),
        }
    };
    let mut u = DirUpload::new("/l", "/r");
    let mut rest: Vec<(String, (&str, LocalKind))> = Vec::new();
    let mut resolved = Vec::new();
    let mut sent = Vec::new();
    let mut step = u.next(false);
    loop {
        step = match step {
            SendStep::Resolve(d) => {
                resolved.push(d.clone());
                // One of the directories is another name of a place that is mirrored already.
                let real = if d == "/l/again" { "/l".to_string() } else { d };
                u.resolved(real, false)
            }
            SendStep::MakeDir(_) => u.made(true),
            SendStep::OpenDir(d) => {
                rest = content(&d).into_iter().rev().map(|e| (d.clone(), e)).collect();
                u.opened(true)
            }
            SendStep::NextEntry => match rest.pop() {
                Some((dir, (name, kind))) => u.read(
                    DirStep::Entry(LocalEntry {
                        name: name.to_string(),
                        path: format!("{dir}/{name}"),
                        kind: Some(kind),
                    }),
                    false,
                ),
                None => u.read(DirStep::End, false),
            },
            SendStep::Send { local, remote, .. } => {
                sent.push((local, remote.clone()));
                u.sent(remote, Ok(true))
            }
            SendStep::Complete => break,
            other => panic!("{other:?}"),
        };
    }
    resolved.sort();
    assert_eq!(resolved, vec!["/l", "/l/again", "/l/d"]);
    sent.sort();
    assert_eq!(sent.len(), 2);
    assert_eq!((sent[0].0.as_str(), sent[0].1.as_str()), ("/l/d/g", "/r/l/d/g"));
    assert_eq!((sent[1].0.as_str(), sent[1].1.as_str()), ("/l/f", "/r/l/f"));
}

fn local(name: &str, kind: Option<LocalKind>) -> DirStep {
    DirStep::Entry(LocalEntry { name: name.to_string(), path: format!("/l/{name}"), kind })
}

#[test]
fn folders_are_uploaded_and_undone() {
    let mut u = DirUpload::new("/home/l", "/r/");
    assert!(matches!(u.next(false), SendStep::Resolve(p) if p == "/home/l"));
    assert!(matches!(u.resolved("/home/l".to_string(), false), SendStep::MakeDir(p) if p == "/r/l"));
    assert!(matches!(u.made(true), SendStep::OpenDir(p) if p == "/home/l"));
    assert!(matches!(u.opened(true), SendStep::NextEntry));
    assert!(matches!(u.opened(false), SendStep::Fail(m) if m == "read local dir /home/l"));
    assert!(matches!(u.read(local("s", Some(LocalKind::Symlink)), false), SendStep::NextEntry));
    assert!(matches!(u.read(local("o", Some(LocalKind::Other)), false), SendStep::NextEntry));
    assert!(matches!(u.read(local("d", Some(LocalKind::Dir)), false), SendStep::NextEntry));
    match u.read(local("f", Some(LocalKind::File)), false) {
        SendStep::Send { local, remote, name } => {
            assert_eq!((local.as_str(), remote.as_str(), name.as_str()), ("/l/f", "/r/l/f", "f"));
        }
        _ => panic!("not expected"),
    }
    assert!(matches!(u.sent("/r/l/f".to_string(), Ok(true)), SendStep::NextEntry));
    assert!(matches!(u.read(DirStep::End, false), SendStep::Resolve(p) if p == "/l/d"));
    assert!(matches!(u.resolved("/l/d".to_string(), false), SendStep::MakeDir(p) if p == "/r/l/d"));
    assert!(matches!(u.made(true), SendStep::OpenDir(_)));
    match u.sent("/r/l/d/g".to_string(), Ok(false)) {
        SendStep::Undo { files, dirs } => {
            assert_eq!(files, vec!["/r/l/f"]);
            assert_eq!(dirs, vec!["/r/l/d", "/r/l"]);
        }
        _ => panic!("not expected"),
    }
    assert!(matches!(u.read(local("x", Some(LocalKind::File)), true), SendStep::Undo { .. }));
    assert!(matches!(u.read(local("x", None), false), SendStep::Fail(m) if m == "file type"));
    assert!(matches!(u.read(DirStep::Failed, false), SendStep::Fail(m) if m == "read dir entry"));
    assert!(matches!(u.sent("p".to_string(), Err("e".to_string())), SendStep::Fail(m) if m == "e"));
    // Already there: entered without being made, and not undone.
    assert!(matches!(u.made(false), SendStep::OpenDir(_)));
    assert!(matches!(u.resolved("/l/d".to_string(), false), SendStep::Complete));
}

#[test]
fn upload_walks_are_bounded() {
    let mut u = DirUpload::new("/l", "/r");
    u.next(false);
    u.resolved("/l".to_string(), false);
    let mut last = SendStep::NextEntry;
    for _ in 0..MAX_NODES {
        last = u.read(local("s", Some(LocalKind::Symlink)), false);
    }
    assert!(matches!(last, SendStep::Fail(m) if m == "recursive upload exceeded node limit"));
    let mut w = ArchiveWalk::new(0);
    assert_eq!(w.next_dir(false), Ok(Some(0)));
    assert_eq!(w.entry(LocalKind::File, 1), Ok(ArchiveAction::AppendFile));
    assert_eq!(w.entry(LocalKind::Symlink, 2), Ok(ArchiveAction::Skip));
    assert_eq!(w.entry(LocalKind::Dir, 3), Ok(ArchiveAction::Skip));
    assert_eq!(w.entry(LocalKind::Other, 4), Ok(ArchiveAction::Skip));
    assert_eq!(w.next_dir(true), Err("upload cancelled".to_string()));
    assert_eq!(w.next_dir(true), Ok(None));
    let mut w = ArchiveWalk::new(0);
    w.next_dir(false).unwrap();
    for i in 1..MAX_NODES as u64 {
        w.entry(LocalKind::File, i).unwrap();
    }
    assert_eq!(
        w.entry(LocalKind::File, 0),
        Err("folder upload exceeded node limit".to_string())
    );
}

#[test]
fn every_directory_goes_into_the_archive() {
    let below = |n: u64| -> Vec<u64> {
        match n {
            0 => vec![1, 2],
            2 => vec![3],
            _ => Vec::new(),
        }
    };
    let mut w = ArchiveWalk::new(0);
    let mut dirs = Vec::new();
    while let Some(n) = w.next_dir(false).unwrap() {
        dirs.push(n);
        for child in below(n) {
            w.entry(LocalKind::Dir, child).unwrap();
        }
        w.entry(LocalKind::File, 100 + n).unwrap();
    }
    dirs.sort();
    assert_eq!(dirs, vec![0, 1, 2, 3]);
}

fn ask(t: &JobTurn) -> &JobOp {
    &t.op
}

#[test]
fn a_file_is_downloaded() {
    let (mut j, t) = Job::download(
        "id".to_string(),
        "/r/con".to_string(),
        "/l/".to_string(),
        Lang::En,
    );
    assert!(matches!(ask(&t), JobOpOf::Lstat(p) if p == "/r/con"));
    let t = j.step(JobReply::Mode(Some(Some(0o100_644))));
    assert!(matches!(
        ask(&t),
        JobOpOf::FetchFile { remote, local, name }
            if remote == "/r/con" && local == "/l/_con" && name == "_con"
    ));
    assert_eq!(show(&t.events[0]), "SftpStatus(\"Downloading _con...\")");
    let t = j.step(JobReply::Moved(Err("why".to_string())));
    assert!(matches!(ask(&t), JobOpOf::Stop));
    assert_eq!(t.events.len(), 2);
    assert!(show(&t.events[0]).contains("state: Failed"));
    assert_eq!(show(&t.events[1]), "SftpStatus(\"Download failed: why\")");
}

#[test]
fn a_folder_is_downloaded_unless_it_is_empty() {
    let start = || {
        let (mut j, _) =
            Job::download("id".to_string(), "/r/d".to_string(), "/l".to_string(), Lang::En);
        let t = j.step(JobReply::Mode(Some(Some(0o040_755))));
        assert!(matches!(ask(&t), JobOpOf::List(p) if p == "/r/d"));
        j
    };
    let mut j = start();
    let t = j.step(JobReply::Listing(Ok(Vec::new())));
    assert!(matches!(ask(&t), JobOpOf::Stop));
    assert_eq!(show(&t.events[0]), "SftpStatus(\"Empty folder: d\")");
    let mut j = start();
    let t = j.step(JobReply::Listing(Err("x".to_string())));
    assert!(matches!(ask(&t), JobOpOf::FetchTree { remote, .. } if remote == "/r/d"));
    assert_eq!(show(&t.events[0]), "SftpStatus(\"Downloading folder d/...\")");
    let t = j.step(JobReply::Moved(Ok(false)));
    assert_eq!(show(&t.events[0]), "SftpStatus(\"Cancelled: d\")");
}

#[test]
fn an_archive_is_always_removed() {
    let names = vec!["a.txt".to_string(), "b".to_string()];
    let start =
        || Job::download_archive("id".to_string(), "T", "/r", &names, "/l", Lang::En);
    let (mut j, t) = start();
    assert_eq!(show(&t.events[0]), "SftpStatus(\"Archiving 2 items...\")");
    assert!(show(&t.events[1]).contains("state: Preparing"));
    assert!(matches!(
        ask(&t),
        JobOpOf::Exec(c) if c == "tar -cf '/tmp/probe-shell-T.tar' -C '/r' 'a.txt' 'b'"
    ));
    let t = j.step(JobReply::Exit(Some(0)));
    assert!(matches!(
        ask(&t),
        JobOpOf::FetchFile { remote, local, name }
            if remote == "/tmp/probe-shell-T.tar" && local == "/l/a-and-more.tar"
                && name == "a-and-more.tar"
    ));
    let t = j.step(JobReply::Moved(Ok(true)));
    assert!(matches!(ask(&t), JobOpOf::Exec(c) if c == "rm -f '/tmp/probe-shell-T.tar'"));
    let t = j.step(JobReply::Exit(None));
    assert_eq!(show(&t.events[0]), "SftpStatus(\"Downloaded: a-and-more.tar\")");
    let (_, t) = Job::pack_and_download("id".to_string(), "/r", &names, "/l", Lang::En);
    match ask(&t) {
        JobOpOf::Exec(c) => {
            assert!(c.starts_with("tar -cf '/tmp/probe-shell-") && c.ends_with(" 'a.txt' 'b'"));
            assert_eq!(c.find(".tar'").unwrap(), "tar -cf '/tmp/probe-shell-".len() + 36);
        }
        _ => panic!("not expected"),
    }
    for (exit, want) in [(None, "tar on remote"), (Some(2), "remote tar failed")] {
        let (mut j, _) = start();
        let t = j.step(JobReply::Exit(exit));
        assert!(matches!(ask(&t), JobOpOf::Exec(c) if c.starts_with("rm -f ")));
        let t = j.step(JobReply::Exit(Some(0)));
        assert_eq!(show(&t.events[1]), format!("SftpStatus(\"Download failed: {want}\")"));
    }
}

#[test]
fn an_upload_shows_its_directory_again() {
    let (mut j, t) = Job::upload("id".to_string(), "/l/f".to_string(), "/r/".to_string(), Lang::En);
    assert!(matches!(ask(&t), JobOpOf::LocalKind(p) if p == "/l/f"));
    let t = j.step(JobReply::Kind(Some(LocalKind::Symlink)));
    assert!(matches!(ask(&t), JobOpOf::SendFile { remote, .. } if remote == "/r/f"));
    let t = j.step(JobReply::Moved(Ok(true)));
    assert!(matches!(ask(&t), JobOpOf::List(p) if p == "/r/"));
    let t = j.step(JobReply::Listing(Ok(Vec::new())));
    assert!(show(&t.events[0]).starts_with("SftpEntries"));
    assert_eq!(show(&t.events[1]), "SftpStatus(\"Uploaded: f\")");
    let (mut j, _) = Job::upload("id".to_string(), "/l/d".to_string(), "/r".to_string(), Lang::En);
    let t = j.step(JobReply::Kind(Some(LocalKind::Dir)));
    assert!(matches!(ask(&t), JobOpOf::SendTree { .. }));
    assert_eq!(show(&t.events[0]), "SftpStatus(\"Uploading folder d/...\")");
    let t = j.step(JobReply::Moved(Err("e".to_string())));
    assert!(matches!(ask(&t), JobOpOf::List(_)));
    let t = j.step(JobReply::Listing(Err("x".to_string())));
    assert_eq!(t.events.len(), 1);
    assert_eq!(show(&t.events[0]), "SftpStatus(\"Upload failed: e\")");
    let (mut j, _) = Job::upload("id".to_string(), "/l/f".to_string(), "/r".to_string(), Lang::En);
    j.step(JobReply::Kind(None));
    let t = j.step(JobReply::Moved(Err("e".to_string())));
    assert!(matches!(ask(&t), JobOpOf::Stop));
    assert_eq!(t.events.len(), 2);
}

#[test]
fn a_download_gives_the_file_in_any_order() {
    let file: Vec<u8> = (0..CHUNK as usize * 3 + 77).map(|i| (i * 7 % 251) as u8).collect();
    let mut local = vec![0u8; file.len()];
    let (mut d, _) = Download::new("i", "n", file.len() as u64);
    let mut open = d.plan(false);
    while let Some(chunk) = open.pop() {
        let mut fill = ChunkFill::new(chunk);
        while let Some(want) = fill.wanted() {
            let from = want.off as usize;
            let to = (from + 1000).min(from + want.len as usize);
            fill.absorb(ReadReply::Data(file[from..to].to_vec())).unwrap();
        }
        let off = chunk.off as usize;
        local[off..off + fill.data.len()].copy_from_slice(&fill.data);
        d.on_chunk(ChunkOutcome::Written(fill.data.len() as u64), 0);
        open.extend(d.plan(false));
    }
    assert_eq!(d.inflight, 0);
    assert_eq!(local, file);
    assert_eq!(d.done, file.len() as u64);
}

#[test]
fn an_upload_gives_the_file_in_any_order() {
    let file: Vec<u8> = (0..1_000_003usize).map(|i| (i * 11 % 253) as u8).collect();
    let mut remote = vec![0u8; file.len()];
    let (mut u, _) = Upload::new("i", "n", file.len() as u64);
    let mut at = 0usize;
    let mut open: Vec<(u64, Vec<u8>)> = Vec::new();
    while u.begin_round(false) {
        while u.wants_read() {
            let n = (file.len() - at).min(CHUNK as usize);
            let data = file[at..at + n].to_vec();
            at += n;
            if let Some(off) = u.on_read(Ok(n as u64)) {
                open.push((off, data));
            }
        }
        if let Some((off, data)) = open.pop() {
            let off = off as usize;
            remote[off..off + data.len()].copy_from_slice(&data);
            u.on_written(Ok(data.len() as u64), 0);
        }
    }
    assert_eq!(remote, file);
    assert_eq!(u.done, file.len() as u64);
    assert_done(u.end("/r/n", Lang::En), file.len() as u64, file.len() as u64);
}
