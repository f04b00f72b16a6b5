//! Commands over a shell, and what their output means.
use probe_shell::events::SessionEvent;
use probe_shell::lang::Lang;
use probe_shell::ids::transfer_id;
use probe_shell::listing::{list_command, ExecOutput};
use probe_shell::shell_job::{ShellUpload, ShipOpOf, ShipReply, ShipReplyOf, ShipTurn};
use probe_shell::shell::{
    after_exec, archive_name_of, archive_temp, chmod_command, delete_command, editor_text,
    exec_outcome, fetch_command, fetch_decoded, mkdir_command, move_command, read_decoded,
    read_text_command, remove_command, shell_download_file, shell_pwd, shell_read_text,
    shell_write_text, size_guard, stem_of, tar_command, touch_command, write_command, Capture,
    ChannelNote, ExecReply, ExecVerdict, MAX_EDIT_BYTES,
};
use probe_shell::shell_upload::{
    after_archive, emit_shell_upload_progress, failed_reports, file_command, finalize_timeout_secs,
    folder_command, local_archive_name, preparing_reports, shell_stream_verdict,
    upload_cancelled_reports, upload_cargo, upload_command, upload_done_message,
    upload_done_report, verifying_reports, ArchiveVerdict, Cargo, OpenStep, SendMeter,
    StreamOpening, UploadSource,
};

fn done(code: u32, out: &[u8], err: &[u8]) -> ExecOutput {
    ExecOutput { code, out: out.to_vec(), err: err.to_vec() }
}

fn show(e: &SessionEvent) -> String {
    format!("{e:?}")
}

#[test]
fn channels_are_read_until_they_close() {
    let mut c = Capture::new();
    assert!(c.absorb(ChannelNote::Data(vec![1, 2])));
    assert!(c.absorb(ChannelNote::ExtendedData(vec![9])));
    assert!(c.absorb(ChannelNote::Data(vec![3])));
    assert!(c.absorb(ChannelNote::Other));
    assert!(c.absorb(ChannelNote::ExitStatus(7)));
    assert!(!c.absorb(ChannelNote::Close));
    let d = c.output();
    assert_eq!((d.code, d.out, d.err), (7, vec![1, 2, 3], vec![9]));
    assert_eq!(Capture::new().output().code, 0);
}

#[test]
fn refused_channels_are_tried_once_more() {
    let fail = |full: &str| ExecReply::Failed { full: full.to_string(), shown: "shown".to_string() };
    assert!(matches!(after_exec(true, fail("Open EXEC channel: busy")), ExecVerdict::Again));
    assert!(matches!(after_exec(true, fail("administratively prohibited")), ExecVerdict::Again));
    assert!(matches!(
        after_exec(true, fail("other")),
        ExecVerdict::Answer(Err(m)) if m == "shown"
    ));
    assert!(matches!(
        after_exec(false, fail("open exec channel")),
        ExecVerdict::Answer(Err(m)) if m == "retry after exec channel failure"
    ));
    assert!(matches!(
        after_exec(true, ExecReply::TimedOut),
        ExecVerdict::Answer(Err(m)) if m == "Connection Timeout: exec channel exceeded 18s"
    ));
    assert!(matches!(
        after_exec(false, ExecReply::TimedOut),
        ExecVerdict::Answer(Err(m))
            if m == "Connection Timeout: exec channel exceeded 18s after retry"
    ));
    assert!(matches!(
        after_exec(true, ExecReply::Done(done(3, b"", b""))),
        ExecVerdict::Answer(Ok(d)) if d.code == 3
    ));
}

#[test]
fn the_working_directory_is_read() {
    assert_eq!(shell_pwd(&done(0, b" /root\n", b"")), Ok("/root".to_string()));
    assert_eq!(shell_pwd(&done(1, b"/root", b" no \n")), Err("no".to_string()));
    assert_eq!(exec_outcome(&done(0, b"", b"x")), Ok(()));
    assert_eq!(exec_outcome(&done(1, b"", b"x\n")), Err("x".to_string()));
}

#[test]
fn commands_are_quoted() {
    assert_eq!(
        read_text_command("/a'b"),
        "test -f '/a'\\''b' || exit 3; sz=$(stat -c %s '/a'\\''b' 2>/dev/null || echo 0); [ \"$sz\" -le 2097152 ] || exit 4; base64 '/a'\\''b'"
    );
    assert_eq!(fetch_command("/f"), "test -f '/f' || exit 3; base64 '/f'");
    assert_eq!(mkdir_command("/d"), "mkdir -p '/d'");
    assert_eq!(touch_command("/f"), "test -e '/f' || : > '/f'");
    assert_eq!(move_command("/a", "/b"), "mv '/a' '/b'");
    assert_eq!(chmod_command("/f", 0o100_755), "chmod 755 '/f'");
    assert_eq!(remove_command("/f"), "rm -f '/f'");
    assert_eq!(write_command("QQ==", "/f"), "printf %s 'QQ==' | base64 -d > '/f'");
    let want = [
        "p='/x'; ",
        "[ -n \"$p\" ] && [ \"$p\" != / ] && [ \"$p\" != . ] && [ \"$p\" != .. ] || exit 64; ",
        "if [ -L \"$p\" ] || [ ! -d \"$p\" ]; then rm -f -- \"$p\"; ",
        "else excess=$(find \"$p\" -xdev -mindepth 1 -print | sed -n '20001p'); ",
        "[ -z \"$excess\" ] || exit 65; find \"$p\" -xdev -depth -mindepth 1 ",
        "\\( -type l -o -type f -o ! -type d \\) -exec rm -f -- {} + -o -type d -exec rmdir -- {} +; ",
        "rmdir -- \"$p\"; fi",
    ];
    assert_eq!(delete_command("/x"), want.join(""));
}

#[test]
fn texts_are_written_in_base64() {
    assert_eq!(
        shell_write_text("/f", "héllo\n"),
        "printf %s 'aMOpbGxvCg==' | base64 -d > '/f'"
    );
    assert_eq!(shell_write_text("/f", ""), "printf %s '' | base64 -d > '/f'");
}

#[test]
fn texts_are_read_back() {
    let en = Lang::En;
    assert_eq!(
        shell_read_text(&done(0, b"aMOp\r\nbGxv\nCg==\n", b""), en),
        Ok("héllo\n".to_string())
    );
    assert_eq!(
        shell_read_text(&done(3, b"", b""), en),
        Err("Not a regular file; cannot open".to_string())
    );
    assert_eq!(
        shell_read_text(&done(4, b"", b""), en),
        Err("Too large for the built-in editor (2 MB limit); download it instead".to_string())
    );
    assert_eq!(shell_read_text(&done(5, b"", b" oh \n"), en), Err("oh".to_string()));
    let bad = shell_read_text(&done(0, b"!!!!", b""), en).unwrap_err();
    assert!(bad.starts_with("base64 decode: ") && bad.len() > "base64 decode: ".len());
    assert_eq!(
        shell_read_text(&done(0, b"AAE=", b""), en),
        Err("Contains control characters (likely binary); download it instead".to_string())
    );
    assert_eq!(
        shell_read_text(&done(0, b"/w==", b""), en),
        Err("Not UTF-8 text; cannot open".to_string())
    );
    assert_eq!(read_decoded(&Err("x".to_string()), en), Err("base64 decode: x".to_string()));
    assert_eq!(read_decoded(&Ok(b"ok".to_vec()), en), Ok("ok".to_string()));
}

#[test]
fn the_editor_takes_clean_text_only() {
    let en = Lang::En;
    assert_eq!(editor_text("a\tb\r\n数".as_bytes(), en), Ok("a\tb\r\n数".to_string()));
    for b in [0u8, 8, 11, 12, 27, 31, 127] {
        assert!(editor_text(&[b], en).unwrap_err().starts_with("Contains control"));
    }
    assert_eq!(editor_text(&[0xff], Lang::Zh), Err("非 UTF-8 文本,无法打开".to_string()));
    assert_eq!(size_guard(MAX_EDIT_BYTES, en), None);
    assert!(size_guard(MAX_EDIT_BYTES + 1, en).is_some());
    assert_eq!(MAX_EDIT_BYTES, 2 * 1024 * 1024);
}

#[test]
fn files_are_downloaded_in_base64() {
    let en = Lang::En;
    assert_eq!(shell_download_file(&done(0, b"AAH/\n", b""), en), Ok(vec![0, 1, 255]));
    assert_eq!(
        shell_download_file(&done(3, b"", b"x"), en),
        Err("SSH file-browser mode can only download regular files".to_string())
    );
    assert_eq!(shell_download_file(&done(1, b"", b""), en), Err("download failed".to_string()));
    assert_eq!(shell_download_file(&done(1, b"", b"no\n"), en), Err("no".to_string()));
    assert_eq!(
        shell_download_file(&done(0, b"?", b""), en),
        Err("base64 decode remote file".to_string())
    );
    assert_eq!(fetch_decoded(Ok(vec![1])), Ok(vec![1]));
}

#[test]
fn archives_are_named_after_their_first_entry() {
    let names = |list: &[&str]| -> Vec<String> { list.iter().map(|s| s.to_string()).collect() };
    assert_eq!(archive_name_of(&names(&["11.txt", "x"]), Lang::Zh), "11等文件.tar");
    assert_eq!(archive_name_of(&names(&["a.tar.gz"]), Lang::En), "a.tar-and-more.tar");
    assert_eq!(archive_name_of(&names(&[".bashrc"]), Lang::En), ".bashrc-and-more.tar");
    assert_eq!(archive_name_of(&names(&["a/b"]), Lang::En), "a_b-and-more.tar");
    assert_eq!(archive_name_of(&Vec::new(), Lang::En), "download-and-more.tar");
    assert_eq!(stem_of("a."), "a");
    assert_eq!(stem_of("a"), "a");
    assert_eq!(archive_temp("ID"), "/tmp/probe-shell-ID.tar");
    assert_eq!(
        tar_command("/tmp/x.tar", "/d d", &names(&["a", "it's"])),
        "tar -cf '/tmp/x.tar' -C '/d d' 'a' 'it'\\''s'"
    );
}

#[test]
fn upload_commands_check_what_they_got() {
    let want = [
        "PATH=/usr/bin:/bin:/usr/sbin:/sbin; export PATH; ",
        "dir='/d'; dst='/d/n'; tmp='/d/.probe-shell-upload-ID.part'; expected=12; ",
        "[ -d \"$dir\" ] || exit 21; [ ! -d \"$dst\" ] || exit 27; ",
        "trap 'rm -f \"$tmp\"' HUP INT TERM EXIT; umask 077; ",
        ": > \"$tmp\" || exit 22; cat > \"$tmp\" || exit 23; ",
        "got=$(wc -c < \"$tmp\" 2>/dev/null) || exit 24; ",
        "[ \"$got\" = \"$expected\" ] || exit 25; ",
        "mv -f \"$tmp\" \"$dst\" || exit 26; ",
        "trap - HUP INT TERM EXIT; printf 'OK\\t%s\\n' \"$got\"",
    ];
    assert_eq!(file_command("d/", "n", 12, "ID"), want.join(""));
    let want = [
        "PATH=/usr/bin:/bin:/usr/sbin:/sbin; export PATH; ",
        "dir='/'; dst='/n'; tmp='/.probe-shell-folder-ID'; src='/.probe-shell-folder-ID/n'; expected=7; ",
        "command -v tar >/dev/null 2>&1 || exit 31; ",
        "[ -d \"$dir\" ] || exit 21; ",
        "trap 'rm -rf \"$tmp\"' HUP INT TERM EXIT; umask 077; ",
        "mkdir \"$tmp\" || exit 32; tar -x -f - -C \"$tmp\" || exit 33; ",
        "[ -d \"$src\" ] || exit 34; ",
        "if [ -e \"$dst\" ]; then ",
        "  [ -d \"$dst\" ] || exit 35; ",
        "  cp -R \"$src/.\" \"$dst/\" || exit 36; ",
        "  rm -rf \"$tmp\" || exit 37; ",
        "else ",
        "  mv \"$src\" \"$dst\" || exit 37; ",
        "  rmdir \"$tmp\" 2>/dev/null || rm -rf \"$tmp\"; ",
        "fi; trap - HUP INT TERM EXIT; printf 'OK\\t%s\\n' \"$expected\"",
    ];
    assert_eq!(folder_command("/", "n", 7, "ID"), want.join(""));
}

fn is_id(s: &str) -> bool {
    s.len() == 36
        && s.char_indices().all(|(i, c)| match i {
            8 | 13 | 18 | 23 => c == '-',
            14 => c == '4',
            _ => c.is_ascii_digit() || ('a'..='f').contains(&c),
        })
}

#[test]
fn temporary_names_are_random() {
    let part = |u: &mut ShellUpload| -> String {
        let t = u.step(ShipReplyOf::Size(Some(1)));
        let cmd = match t.op {
            ShipOpOf::SendFile { command, .. } => command,
            _ => panic!("not expected"),
        };
        let from = cmd.find(".probe-shell-upload-").unwrap() + ".probe-shell-upload-".len();
        let to = cmd.find(".part").unwrap();
        cmd[from..to].to_string()
    };
    let start = || {
        let (mut u, _) = ship("/l/f");
        u.step(ShipReplyOf::Source(UploadSource::File));
        u
    };
    let a = part(&mut start());
    let b = part(&mut start());
    assert!(is_id(&a) && is_id(&b) && a != b);
    let (mut u, _) = ship("/l/d");
    match u.step(ShipReplyOf::Source(UploadSource::Dir)).op {
        ShipOpOf::Pack { root, archive } => {
            assert_eq!(root, "/l/d");
            assert!(archive.starts_with("probe-shell-folder-upload-") && archive.ends_with(".tar"));
            assert!(is_id(&archive["probe-shell-folder-upload-".len()..archive.len() - 4]));
        }
        _ => panic!("not expected"),
    }
    assert!(is_id(&transfer_id()) && transfer_id() != transfer_id());
    assert_eq!(local_archive_name("ID"), "probe-shell-folder-upload-ID.tar");
    assert_eq!(upload_command(Cargo::File, "/d", "n", 1, "i"), file_command("/d", "n", 1, "i"));
    assert_eq!(upload_command(Cargo::Folder, "/d", "n", 1, "i"), folder_command("/d", "n", 1, "i"));
}

fn ship(local: &str) -> (ShellUpload, ShipTurn) {
    ShellUpload::start("id".to_string(), local.to_string(), "/r".to_string(), Lang::En)
}

fn sent(cancelled: bool, sent: bool, wait: Option<Capture>) -> ShipReply {
    ShipReplyOf::Sent {
        cancelled,
        sent,
        wait,
        transferred: 3,
        percent: "25.0".to_string(),
        rate: "1 B/s".to_string(),
    }
}

#[test]
fn a_file_is_uploaded_over_a_shell() {
    let (mut u, t) = ship("C:\\x\\f.txt");
    assert!(matches!(&t.op, ShipOpOf::Look(p) if p == "C:\\x\\f.txt"));
    let t = u.step_with(ShipReplyOf::Source(UploadSource::File), "ID");
    assert!(matches!(&t.op, ShipOpOf::Measure(p) if p == "C:\\x\\f.txt"));
    let t = u.step_with(ShipReplyOf::Size(Some(12)), "ID");
    match t.op {
        ShipOpOf::SendFile { local, command, total } => {
            assert_eq!((local.as_str(), total), ("C:\\x\\f.txt", 12));
            assert_eq!(command, file_command("/r", "f.txt", 12, "ID"));
        }
        _ => panic!("not expected"),
    }
    let t = u.step(sent(false, true, capture(Some(0), "OK\t12\n", "")));
    assert!(show(&t.events[0]).contains("transferred: 3, total: 12, state: Done"));
    assert_eq!(show(&t.events[1]), "SftpStatus(\"Loading /r...\")");
    assert!(matches!(&t.op, ShipOpOf::Exec(c) if *c == list_command("/r")));
    let t = u.step(ShipReplyOf::Exec(Ok(done(0, b"", b""))));
    assert_eq!(t.events.len(), 3);
    assert_eq!(show(&t.events[1]), "SftpStatus(\"/r · SSH browser\")");
    assert_eq!(show(&t.events[2]), "SftpStatus(\"Uploaded: f.txt · 100% · Average 1 B/s\")");
    assert!(matches!(t.op, ShipOpOf::Stop));
}

#[test]
fn an_upload_over_a_shell_can_fail() {
    let failed = |t: ShipTurn, why: &str| {
        assert!(matches!(t.op, ShipOpOf::Stop));
        let n = t.events.len();
        assert!(show(&t.events[n - 2]).contains("state: Failed"));
        assert_eq!(show(&t.events[n - 1]), format!("SftpStatus(\"Upload failed: {why}\")"));
    };
    let (mut u, _) = ship("/l/f");
    failed(u.step(ShipReplyOf::Source(UploadSource::Unknown)), "read local upload source");
    let (mut u, _) = ship("/l/..");
    failed(
        u.step(ShipReplyOf::Source(UploadSource::Dir)),
        "The local file name is invalid for upload",
    );
    let (mut u, _) = ship("/l/f");
    u.step(ShipReplyOf::Source(UploadSource::File));
    failed(u.step(ShipReplyOf::Size(None)), "stat local upload file /l/f");
    let ready = || {
        let (mut u, _) = ship("/l/f");
        u.step(ShipReplyOf::Source(UploadSource::File));
        u.step(ShipReplyOf::Size(Some(12)));
        u
    };
    failed(ready().step(ShipReplyOf::NotSent("why".to_string())), "why");
    failed(ready().step(sent(false, false, None)), "send SSH upload data");
    failed(
        ready().step(sent(false, true, capture(Some(23), "", "full"))),
        "Remote write failed; storage may be full (exit 23): full",
    );
    let t = ready().step(sent(true, true, None));
    assert!(show(&t.events[0]).contains("transferred: 3, total: 12, state: Cancelled"));
    assert_eq!(show(&t.events[1]), "SftpStatus(\"Cancelled: f · 25.0% · Average 1 B/s\")");
    let t = ready().step(ShipReplyOf::Dropped);
    assert!(t.events.is_empty() && matches!(t.op, ShipOpOf::Stop));
}

#[test]
fn a_folder_is_uploaded_over_a_shell_and_its_archive_dropped() {
    let start = || {
        let (mut u, _) = ship("/l/d");
        let t = u.step_with(ShipReplyOf::Source(UploadSource::Dir), "A");
        assert!(show(&t.events[0]).contains("state: Preparing"));
        assert_eq!(t.events.len(), 2);
        u
    };
    let packed = |built: Result<u64, String>, cancelled: bool| -> ShipReply {
        ShipReplyOf::Packed { built, cancelled, no_rate: "0 B/s".to_string() }
    };
    let dropped = |t: &ShipTurn| {
        assert!(t.events.is_empty());
        assert!(
            matches!(&t.op, ShipOpOf::DropArchive(a) if a == "probe-shell-folder-upload-A.tar")
        );
    };
    let mut u = start();
    match u.step_with(packed(Ok(7), false), "B").op {
        ShipOpOf::SendArchive { archive, command, total } => {
            assert_eq!((archive.as_str(), total), ("probe-shell-folder-upload-A.tar", 7));
            assert_eq!(command, folder_command("/r", "d", 7, "B"));
        }
        _ => panic!("not expected"),
    }
    dropped(&u.step(sent(false, true, capture(None, "OK\t7", ""))));
    let t = u.step(ShipReplyOf::Dropped);
    assert!(matches!(t.op, ShipOpOf::Exec(_)));
    let mut u = start();
    dropped(&u.step(packed(Err("no".to_string()), false)));
    let t = u.step(ShipReplyOf::Dropped);
    assert_eq!(show(&t.events[1]), "SftpStatus(\"Upload failed: no\")");
    let mut u = start();
    dropped(&u.step(packed(Ok(9), true)));
    let t = u.step(ShipReplyOf::Dropped);
    assert!(show(&t.events[0]).contains("transferred: 0, total: 9, state: Cancelled"));
    assert_eq!(show(&t.events[1]), "SftpStatus(\"Cancelled: d · 0.0% · Average 0 B/s\")");
    let mut u = start();
    u.step(packed(Ok(7), false));
    dropped(&u.step(ShipReplyOf::NotSent("x".to_string())));
}

#[test]
fn an_upload_command_is_started_with_patience() {
    let (s, step) = StreamOpening::start();
    assert!(matches!(step, OpenStep::OpenChannel));
    let (s1, step) = s.answer(true);
    assert!(matches!(step, OpenStep::Exec));
    assert!(matches!(s1.answer(true).1, OpenStep::Ready));
    let (s2, step) = s.answer(false);
    assert!(matches!(step, OpenStep::PauseAndOpen));
    assert!(matches!(
        s2.answer(false).1,
        OpenStep::Fail(m) if m == "open SSH upload channel after retry"
    ));
    assert!(matches!(s2.answer(true).1, OpenStep::Exec));
    let (s3, step) = s1.answer(false);
    assert!(matches!(step, OpenStep::Reopen));
    assert!(matches!(s3.answer(false).1, OpenStep::Fail(m) if m == "open SSH upload retry channel"));
    let (s4, step) = s3.answer(true);
    assert!(matches!(step, OpenStep::Exec));
    assert!(matches!(s4.answer(true).1, OpenStep::Ready));
    assert!(matches!(
        s4.answer(false).1,
        OpenStep::Fail(m) if m == "start SSH upload command after retry"
    ));
}

fn capture(status: Option<u32>, out: &str, err: &str) -> Option<Capture> {
    Some(Capture { status, out: out.as_bytes().to_vec(), err: err.as_bytes().to_vec() })
}

#[test]
fn an_upload_counts_when_it_is_confirmed() {
    let v = |cancelled, sent, wait| shell_stream_verdict(cancelled, sent, wait, 12, Lang::En);
    assert_eq!(v(false, true, capture(Some(0), "x\n OK\t12 \n", "")), Ok(true));
    assert_eq!(v(false, true, capture(None, "OK\t12", "")), Ok(true));
    assert_eq!(v(true, false, None), Ok(false));
    assert_eq!(v(true, true, capture(Some(0), "OK\t12", "")), Ok(false));
    assert_eq!(v(false, false, None), Err("send SSH upload data".to_string()));
    assert_eq!(
        v(false, true, None),
        Err("Remote upload finalization timed out; temporary cleanup was requested".to_string())
    );
    assert_eq!(
        v(false, true, capture(Some(0), "OK\t13", "")),
        Err("The remote host did not confirm integrity; treating the upload as failed".to_string())
    );
    assert_eq!(
        v(false, true, capture(Some(25), "OK\t12", "e")),
        Err("Remote file size verification failed (exit 25): e".to_string())
    );
    assert_eq!(
        v(false, true, capture(None, "", "")),
        Err("Remote upload command failed (exit 4294967295)".to_string())
    );
    assert_eq!(finalize_timeout_secs(true), 5);
    assert_eq!(finalize_timeout_secs(false), 30);
}

#[test]
fn only_files_and_folders_are_uploaded() {
    assert_eq!(upload_cargo(UploadSource::File, Lang::En), Ok(Cargo::File));
    assert_eq!(upload_cargo(UploadSource::Dir, Lang::En), Ok(Cargo::Folder));
    assert_eq!(
        upload_cargo(UploadSource::Symlink, Lang::En),
        Err("Only regular files or folders can be uploaded; symbolic links are not followed"
            .to_string())
    );
    assert_eq!(
        upload_cargo(UploadSource::Other, Lang::En),
        Err("Only regular files or folders can be uploaded".to_string())
    );
    assert_eq!(
        upload_cargo(UploadSource::Unknown, Lang::En),
        Err("read local upload source".to_string())
    );
}

#[test]
fn archiving_can_be_cancelled() {
    assert!(matches!(after_archive(Ok(5), false), ArchiveVerdict::Send(5)));
    assert!(matches!(after_archive(Ok(5), true), ArchiveVerdict::Cancelled(5)));
    assert!(matches!(after_archive(Err("x".to_string()), true), ArchiveVerdict::Cancelled(0)));
    assert!(matches!(
        after_archive(Err("x".to_string()), false),
        ArchiveVerdict::Fail(m) if m == "x"
    ));
}

#[test]
fn sent_bytes_are_reported_now_and_then() {
    let mut m = SendMeter::new();
    assert_eq!(m.sent(100, 10), None);
    assert_eq!(m.sent(0, 500), None);
    assert_eq!(m.sent(50, 160), Some((150, 160)));
    assert_eq!(m.sent(1, 200), None);
    assert_eq!(m.sent(9, 310), Some((10, 150)));
    assert_eq!(m.transferred, 160);
}

#[test]
fn upload_reports_read_well() {
    let e = emit_shell_upload_progress("i", "n", 5, 10, "50.0", "1 KB/s", Lang::En);
    assert_eq!(
        show(&e[0]),
        "SftpTransfer { id: \"i\", name: \"n\", is_upload: true, transferred: 5, total: 10, state: Running, msg: \"\" }"
    );
    assert_eq!(show(&e[1]), "SftpStatus(\"Uploading: n · 50.0% · Live 1 KB/s\")");
    let e = verifying_reports("i", "n", 10, 10, "2 B/s", Lang::En);
    assert_eq!(show(&e[1]), "SftpStatus(\"Verifying: n · 100% · Average 2 B/s\")");
    assert!(show(&upload_done_report("i", "n", 10, 10)).contains("state: Done"));
    assert_eq!(
        show(&upload_done_message("n", "2 B/s", Lang::Zh)),
        "SftpStatus(\"上传完成: n · 100% · 平均速率 2 B/s\")"
    );
    let e = upload_cancelled_reports("i", "n", 1, 10, "10.0", "r", Lang::En);
    assert!(show(&e[0]).contains("state: Cancelled") && show(&e[0]).contains("Cancelled\""));
    assert_eq!(show(&e[1]), "SftpStatus(\"Cancelled: n · 10.0% · Average r\")");
    let e = failed_reports("i", "n", "why", Lang::En);
    assert!(show(&e[0]).contains("state: Failed") && show(&e[0]).contains("why"));
    assert_eq!(show(&e[1]), "SftpStatus(\"Upload failed: why\")");
    let e = preparing_reports("i", "n", Lang::En);
    assert!(show(&e[0]).contains("state: Preparing"));
    assert_eq!(show(&e[1]), "SftpStatus(\"Preparing folder upload: n\")");
}
