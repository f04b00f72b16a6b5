//! Directory listings, searches and the navigation tree.
use probe_shell::events::{EntryKind, RemoteEntry, SessionEvent, SftpSearchState};
use probe_shell::lang::Lang;
use probe_shell::listing::{
    after_read_failure, child_dirs, links_to_follow, list_command, list_entries, shell_list_dir,
    sort_entries, ExecOutput, RawEntry, ReadFailure, ReadVerdict,
};
use probe_shell::messages::{friendly_sftp_error, list_error_msg, shell_upload_error};
use probe_shell::search::{Search, SearchKind, MAX_DIRS, MAX_RESULTS};

fn entry(name: &str, is_dir: bool) -> RemoteEntry {
    RemoteEntry {
        name: name.to_string(),
        full_path: format!("/d/{name}"),
        is_dir,
        kind: if is_dir { EntryKind::Dir } else { EntryKind::File },
        size: 0,
        modified: 0,
        mode: 0,
    }
}

fn names(list: &[RemoteEntry]) -> Vec<String> {
    list.iter().map(|e| e.name.clone()).collect()
}

fn raw(name: &str, permissions: Option<u32>) -> RawEntry {
    RawEntry { name: name.to_string(), permissions, size: Some(3), mtime: None }
}

#[test]
fn directories_come_first_and_names_in_order() {
    let list = vec![
        entry("b", false),
        entry("Z", true),
        entry("A", false),
        entry("a", true),
        entry("É", false),
        entry("a", false),
    ];
    let sorted = sort_entries(list);
    assert_eq!(names(&sorted), vec!["a", "Z", "A", "a", "b", "É"]);
}

#[test]
fn sorting_is_that_of_the_standard_library() {
    let mut list = Vec::new();
    let mut want: Vec<(bool, String, usize)> = Vec::new();
    let mut x: u32 = 12345;
    for i in 0..500usize {
        x = x.wrapping_mul(1_103_515_245).wrapping_add(12_345);
        let name = format!("{}{}", ["n", "N", "ä", "Ä", "数"][(x >> 16) as usize % 5], (x >> 8) % 7);
        let is_dir = x % 3 == 0;
        let mut e = entry(&name, is_dir);
        e.size = i as u64;
        list.push(e);
        want.push((!is_dir, name.to_lowercase(), i));
    }
    want.sort_by(|a, b| (a.0, &a.1).cmp(&(b.0, &b.1)));
    let got = sort_entries(list);
    let got_order: Vec<usize> = got.iter().map(|e| e.size as usize).collect();
    let want_order: Vec<usize> = want.iter().map(|w| w.2).collect();
    assert_eq!(got_order, want_order);
}

#[test]
fn entries_are_made_of_what_the_server_sends() {
    let list = vec![
        raw(".", Some(0o040_755)),
        raw("..", Some(0o040_755)),
        raw("dir", Some(0o040_750)),
        raw("link1", Some(0o120_777)),
        raw("file", Some(0o100_644)),
        raw("link2", Some(0o120_777)),
        raw("link3", Some(0o120_777)),
        raw("odd", None),
    ];
    assert_eq!(links_to_follow("/p/", &list), vec!["/p/link1", "/p/link2", "/p/link3"]);
    let targets = vec![Some(0o040_755), Some(0o100_644), None];
    let out = list_entries("/p/", &list, &targets);
    assert_eq!(names(&out), vec!["dir", "link1", "file", "link2", "link3", "odd"]);
    let kinds: Vec<EntryKind> = out.iter().map(|e| e.kind).collect();
    assert_eq!(
        kinds,
        vec![
            EntryKind::Dir,
            EntryKind::SymlinkDir,
            EntryKind::File,
            EntryKind::SymlinkFile,
            EntryKind::DeadLink,
            EntryKind::File,
        ]
    );
    assert_eq!(out[0].full_path, "/p/dir");
    assert_eq!(out[0].mode, 0o750);
    assert_eq!(out[2].size, 3);
    assert_eq!(out[5].mode, 0);
    let kids = child_dirs(&out);
    assert_eq!(
        kids,
        vec![
            ("dir".to_string(), "/p/dir".to_string()),
            ("link1".to_string(), "/p/link1".to_string()),
        ]
    );
    assert_eq!(EntryKind::DeadLink.name(), "dead-link");
}

#[test]
fn a_failed_reading_is_tried_once_more() {
    let busy = ReadFailure::Refused("Failure".to_string());
    assert!(matches!(after_read_failure("/p", true, &busy), ReadVerdict::Again));
    assert!(matches!(after_read_failure("/p", true, &ReadFailure::TimedOut), ReadVerdict::Again));
    match after_read_failure("/p", false, &busy) {
        ReadVerdict::GiveUp { shown, full } => {
            assert_eq!(shown, "read_dir /p failed");
            assert_eq!(full, "read_dir /p failed: Failure");
        }
        ReadVerdict::Again => panic!("not expected"),
    }
    match after_read_failure("/p", false, &ReadFailure::TimedOut) {
        ReadVerdict::GiveUp { shown, .. } => {
            assert_eq!(shown, "Connection Timeout: read_dir /p exceeded 22s")
        }
        ReadVerdict::Again => panic!("not expected"),
    }
    for m in ["Permission denied", "access DENIED", "No such file"] {
        let r = ReadFailure::Refused(m.to_string());
        assert!(matches!(after_read_failure("/p", true, &r), ReadVerdict::GiveUp { .. }));
    }
}

#[test]
fn shell_listings_are_asked_for() {
    let want = [
        "PATH=/usr/bin:/bin:/usr/sbin:/sbin; export PATH; ",
        "p='/a b'; cd \"$p\" 2>/dev/null || exit 2; ",
        "for f in .[!.]* ..?* *; do ",
        "[ -e \"$f\" ] || continue; ",
        "[ \"$f\" = . ] && continue; [ \"$f\" = .. ] && continue; ",
        "if [ -L \"$f\" ]; then ",
        "  if [ ! -e \"$f\" ]; then typ=dead; ",
        "  elif [ -d \"$f\" ]; then typ=ld; else typ=lf; fi; ",
        "elif [ -d \"$f\" ]; then typ=d; else typ=f; fi; ",
        "sz=$(stat -c %s \"$f\" 2>/dev/null || wc -c < \"$f\" 2>/dev/null || echo 0); ",
        "mt=$(stat -c %Y \"$f\" 2>/dev/null || echo 0); ",
        "md=$(stat -c %a \"$f\" 2>/dev/null || echo 0); ",
        "printf '%s\\t%s\\t%s\\t%s\\t%s\\n' \"$typ\" \"$sz\" \"$mt\" \"$md\" \"$f\"; ",
        "done",
    ];
    assert_eq!(list_command("/a b"), want.join(""));
}

fn done(code: u32, out: &str, err: &str) -> ExecOutput {
    ExecOutput { code, out: out.as_bytes().to_vec(), err: err.as_bytes().to_vec() }
}

#[test]
fn shell_listings_are_read() {
    let out = "f\t12\t1700000000\t644\tb.txt\nd\t4096\tx\t755\tsub\nld\t1\t2\t777\tlink\nlf\t+3\t4\t9\tl f\ndead\t\t\t\tgone\nf\t1\t2\t3\ta\tb\nshort\n\nd\t0\t0\t0\t.\n";
    let list = shell_list_dir("/p/", &done(0, out, "")).unwrap();
    assert_eq!(names(&list), vec!["link", "sub", "a\tb", "b.txt", "gone", "l f"]);
    let b = &list[3];
    assert_eq!((b.size, b.modified, b.mode), (12, 1_700_000_000, 0o644));
    assert_eq!(b.full_path, "/p/b.txt");
    assert_eq!(list[0].kind, EntryKind::SymlinkDir);
    assert!(list[0].is_dir);
    assert_eq!(list[4].kind, EntryKind::DeadLink);
    assert!(!list[4].is_dir);
    assert_eq!(list[5].kind, EntryKind::SymlinkFile);
    assert_eq!((list[5].size, list[5].mode), (3, 0));
    assert_eq!(list[1].modified, 0);
    assert_eq!(shell_list_dir("/", &done(0, "d\t0\t0\t0\tx\n", "")).unwrap()[0].full_path, "/x");
    assert_eq!(shell_list_dir("/p", &done(2, "", " \n")).unwrap_err(), "cannot list /p");
    assert_eq!(shell_list_dir("/p", &done(2, "", " no \n")).unwrap_err(), "no");
}

#[test]
fn failures_are_classified() {
    for (raw, class) in [
        ("Permission DENIED", "Permission Denied"),
        ("operation timed out", "Connection Timeout"),
        ("No Such file", "Not Found"),
        ("channel open failure", "Exec Channel Refused"),
        ("connection reset", "Connection Closed"),
        ("weird", "Open Failed"),
    ] {
        assert_eq!(
            list_error_msg("/p", raw, Lang::En),
            format!("Cannot open /p [{class}]: {raw}")
        );
    }
    assert_eq!(list_error_msg("/p", "x", Lang::Zh), "无法访问 /p [Open Failed]: x");
}

#[test]
fn a_refused_file_service_is_explained() {
    let chain = vec!["request sftp Subsystem".to_string(), "eof".to_string()];
    assert_eq!(
        friendly_sftp_error(&chain, Lang::En),
        "SFTP unavailable — check whether you have permission (server may not allow SFTP)"
    );
    let chain = vec!["sftp connect h:22 failed".to_string(), "refused".to_string()];
    assert_eq!(
        friendly_sftp_error(&chain, Lang::En),
        "SFTP error: sftp connect h:22 failed: refused"
    );
    assert_eq!(friendly_sftp_error(&chain, Lang::Zh), "SFTP 错误: sftp connect h:22 failed: refused");
}

#[test]
fn upload_failures_are_explained() {
    assert_eq!(
        shell_upload_error(25, b"", Lang::En),
        "Remote file size verification failed (exit 25)"
    );
    assert_eq!(
        shell_upload_error(31, b" sh: tar \n", Lang::En),
        "The remote host has no tar command for folder upload (exit 31): sh: tar"
    );
    assert_eq!(shell_upload_error(1, b"x", Lang::Zh), "远端上传命令执行失败 (exit 1): x");
    let mut seen: Vec<String> = Vec::new();
    for code in [21, 22, 23, 24, 25, 26, 27, 31, 32, 33, 34, 35, 36, 37, 38] {
        let m = shell_upload_error(code, b"", Lang::En);
        let head = m.split(" (exit").next().unwrap().to_string();
        assert!(!seen.contains(&head));
        seen.push(head);
    }
}

fn found_in(events: &[SessionEvent]) -> usize {
    events
        .iter()
        .map(|e| match e {
            SessionEvent::SftpSearchBatch { entries, .. } => entries.len(),
            _ => 0,
        })
        .sum()
}

fn last_state(events: &[SessionEvent]) -> Option<(SftpSearchState, usize, usize)> {
    match events.last() {
        Some(SessionEvent::SftpSearchStatus { state, found, scanned, .. }) => {
            Some((*state, *found, *scanned))
        }
        _ => None,
    }
}

fn at(path: &str, is_dir: bool) -> RemoteEntry {
    let name = path.rsplit('/').next().unwrap().to_string();
    RemoteEntry {
        name,
        full_path: path.to_string(),
        is_dir,
        kind: if is_dir { EntryKind::Dir } else { EntryKind::File },
        size: 0,
        modified: 0,
        mode: 0,
    }
}

#[test]
fn a_search_walks_the_tree() {
    let (mut s, started) = Search::start("id", "/r", "LOG", SearchKind::Native);
    assert!(matches!(
        started,
        SessionEvent::SftpSearchStatus { state: SftpSearchState::Started, found: 0, .. }
    ));
    let turn = s.begin(false, 1);
    assert_eq!(turn.ask.as_deref(), Some("/r"));
    assert_eq!(turn.events.len(), 1); // the first directory is reported
    let listing = vec![at("/r/sub", true), at("/r/a.log", false), at("/r/b.txt", false)];
    let turn = s.answer(Some(listing), false, 2);
    assert_eq!(turn.ask.as_deref(), Some("/r/sub"));
    assert_eq!(found_in(&turn.events), 0);
    // A directory that cannot be listed does not end the search.
    let turn = s.answer(None, false, 3);
    assert_eq!(turn.ask, None);
    assert_eq!(found_in(&turn.events), 1);
    assert_eq!(last_state(&turn.events), Some((SftpSearchState::Completed, 1, 2)));
    match &turn.events[0] {
        SessionEvent::SftpSearchBatch { entries, .. } => assert_eq!(entries[0].name, "a.log"),
        _ => panic!("not expected"),
    }
}

#[test]
fn hits_are_named_from_the_root() {
    let (mut s, _) = Search::start("id", "/r", "", SearchKind::Shell);
    s.begin(false, 0);
    let turn = s.answer(Some(vec![at("/r/x/deep", false)]), false, 500);
    match &turn.events[0] {
        SessionEvent::SftpSearchBatch { entries, query, .. } => {
            assert_eq!(entries[0].name, "x/deep");
            assert_eq!(query, "");
        }
        _ => panic!("not expected"),
    }
    assert_eq!(turn.ask, None);
}

#[test]
fn symbolic_links_are_not_entered() {
    let (mut s, _) = Search::start("id", "/r", "zzz", SearchKind::Native);
    s.begin(false, 0);
    let mut link = at("/r/link", true);
    link.kind = EntryKind::SymlinkDir;
    let turn = s.answer(Some(vec![link, at("/r", true)]), false, 0);
    assert_eq!(turn.ask, None);
}

#[test]
fn a_search_keeps_within_its_bounds() {
    let (mut s, _) = Search::start("id", "/r", "", SearchKind::Native);
    s.begin(false, 0);
    let many: Vec<RemoteEntry> = (0..600).map(|i| at(&format!("/r/f{i}"), false)).collect();
    let turn = s.answer(Some(many), false, 0);
    assert_eq!(turn.ask, None);
    assert_eq!(found_in(&turn.events), MAX_RESULTS);
    assert_eq!(
        last_state(&turn.events),
        Some((SftpSearchState::Completed, MAX_RESULTS, 1))
    );
    // One directory in each directory, without an end.
    let (mut s, _) = Search::start("id", "/r", "no match", SearchKind::Native);
    let mut dir = s.begin(false, 0).ask.unwrap();
    let mut listed = 0usize;
    loop {
        listed += 1;
        let turn = s.answer(Some(vec![at(&format!("{dir}/d"), true)]), false, 0);
        match turn.ask {
            Some(next) => dir = next,
            None => {
                assert_eq!(
                    last_state(&turn.events),
                    Some((SftpSearchState::Completed, 0, MAX_DIRS + 1))
                );
                break;
            }
        }
    }
    assert_eq!(listed, MAX_DIRS);
}

#[test]
fn a_cancelled_search_says_so() {
    let (mut s, _) = Search::start("id", "/r;/q", "", SearchKind::Native);
    s.begin(false, 0);
    let turn = s.answer(Some(vec![at("/r/f", false)]), true, 0);
    assert_eq!(turn.ask, None);
    assert_eq!(found_in(&turn.events), 1);
    assert_eq!(last_state(&turn.events), Some((SftpSearchState::Cancelled, 1, 1)));
    // Every root is searched, the first one first.
    let (mut s, _) = Search::start("id", "/r;/q", "", SearchKind::Native);
    assert_eq!(s.begin(false, 0).ask.as_deref(), Some("/r"));
    assert_eq!(s.answer(Some(Vec::new()), false, 0).ask.as_deref(), Some("/q"));
    assert_eq!(s.answer(Some(Vec::new()), false, 0).ask, None);
}
