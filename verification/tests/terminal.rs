//! The local terminal, the connection and the watch over edited files.
use probe_shell::commands::SftpCommand;
use probe_shell::connection::{
    after_refusal, connect_error, connecting_status, host_address, key_file, key_passphrase,
    ConnectStep, Fallback,
};
use probe_shell::edit_watch::{EditWatch, WatchStep, MAX_POLLS};
use probe_shell::events::SessionEvent;
use probe_shell::lang::Lang;
use probe_shell::local::{
    local_program, size, started_reports, terminal_action, Platform, TerminalAction,
    TerminalCommand, TerminalRead, TerminalReader,
};

fn show(e: &SessionEvent) -> String {
    format!("{e:?}")
}

#[test]
fn windows_shells_are_utf8() {
    assert!(local_program("powershell", Platform::Windows, None)
        .1
        .iter()
        .any(|v| v.contains("OutputEncoding")));
    assert!(local_program("cmd", Platform::Windows, None).1.iter().any(|v| v.contains("65001")));
}

#[test]
fn unix_shells_are_those_of_the_user() {
    let (name, args) = local_program("cmd", Platform::Unix, Some("/bin/zsh".to_string()));
    assert_eq!(name, "/bin/zsh");
    assert!(args.is_empty());
    assert_eq!(local_program("", Platform::Unix, None).0, "/bin/sh");
    assert_eq!(local_program("cmd", Platform::Windows, None).0, "cmd.exe");
}

#[test]
fn sizes_are_clamped() {
    assert_eq!(size(0), 1);
    assert_eq!(size(80), 80);
    assert_eq!(size(65_536), 65_535);
    assert_eq!(size(u32::MAX), 65_535);
}

#[test]
fn terminal_commands_lead_to_actions() {
    assert!(matches!(
        terminal_action(TerminalCommand::RawInput(vec![1, 2])),
        TerminalAction::Write(b) if b == vec![1, 2]
    ));
    assert!(matches!(
        terminal_action(TerminalCommand::Resize { cols: 0, rows: 70_000 }),
        TerminalAction::Resize { cols: 1, rows: 65_535 }
    ));
    assert!(matches!(terminal_action(TerminalCommand::Close), TerminalAction::Terminate));
    assert!(matches!(terminal_action(TerminalCommand::Other), TerminalAction::Nothing));
}

#[test]
fn terminal_output_is_decoded() {
    let started = started_reports("box", Lang::En);
    assert_eq!(show(&started[0]), "Connected");
    assert_eq!(show(&started[1]), "Status(\"Started box\")");
    let mut r = TerminalReader::new();
    let (e, go) = r.on_read(TerminalRead::Bytes(vec![0x61, 0xe6]), Lang::En);
    assert!(go);
    assert_eq!(e.len(), 1);
    assert_eq!(show(&e[0]), "Output(\"a\")");
    let (e, go) = r.on_read(TerminalRead::Bytes(vec![0x95]), Lang::En);
    assert!(go && e.is_empty());
    let (e, go) = r.on_read(TerminalRead::End, Lang::En);
    assert!(!go);
    assert_eq!(show(&e[0]), "Output(\"\u{fffd}\")");
    assert_eq!(show(&e[1]), "Closed(\"Local terminal exited\")");
    let mut r = TerminalReader::new();
    let (e, go) = r.on_read(TerminalRead::Failed("gone".to_string()), Lang::Zh);
    assert!(!go);
    assert_eq!(show(&e[0]), "Closed(\"本地终端读取失败: gone\")");
}

#[test]
fn private_keys_are_found() {
    assert_eq!(key_file("  "), None);
    assert_eq!(key_file(" C:\\k\\id_rsa.pub "), Some("C:/k/id_rsa".to_string()));
    assert_eq!(key_file("/k/id"), Some("/k/id".to_string()));
    assert_eq!(key_file(".pub"), Some(String::new()));
    assert_eq!(key_passphrase(""), None);
    assert_eq!(key_passphrase("x"), Some("x".to_string()));
}

#[test]
fn connection_failures_are_told() {
    assert_eq!(show(&connecting_status(Lang::En)), "SftpStatus(\"SFTP connecting...\")");
    let addr = host_address("h", 22);
    assert_eq!(addr, "h:22");
    for (step, want) in [
        (ConnectStep::Proxy, "sftp proxy connect h:22 failed"),
        (ConnectStep::Connect, "sftp connect h:22 failed"),
        (ConnectStep::Login, "login cancelled"),
        (ConnectStep::PasswordAuth, "sftp password auth failed"),
        (ConnectStep::KeyPath, "private key path is empty"),
        (ConnectStep::LoadKey, "failed to load key /k"),
        (ConnectStep::CheckKey, "invalid private key"),
        (ConnectStep::KeyAuth, "sftp publickey auth failed"),
        (ConnectStep::Rejected, "SFTP authentication failed"),
    ] {
        assert_eq!(connect_error(step, &addr, "/k", Lang::En), want);
    }
}

#[test]
fn without_a_file_service_the_shell_serves() {
    match after_refusal(true, "x", Lang::En) {
        Fallback::Shell(e) => assert_eq!(
            show(&e),
            "SftpStatus(\"SSH file-browser mode · native SFTP not detected\")"
        ),
        Fallback::Unavailable(_) => panic!("not expected"),
    }
    match after_refusal(false, "no: why", Lang::En) {
        Fallback::Unavailable(e) => assert_eq!(
            show(&e),
            "SftpStatus(\"Remote file browser unavailable: no: why\")"
        ),
        Fallback::Shell(_) => panic!("not expected"),
    }
}

#[test]
fn changed_files_are_uploaded_again() {
    let mut w = EditWatch::new("/tmp/x".to_string(), "/etc/x", "x".to_string(), Some(5));
    assert!(w.goes_on());
    assert!(matches!(w.look(false, Some(5), Lang::En), WatchStep::Wait));
    assert!(matches!(w.look(false, None, Lang::En), WatchStep::Wait));
    match w.look(false, Some(6), Lang::En) {
        WatchStep::Upload(SftpCommand::Upload { local, remote_dir }, e) => {
            assert_eq!(local, "/tmp/x");
            assert_eq!(remote_dir, "/etc");
            assert_eq!(show(&e), "SftpStatus(\"Re-uploaded changes: x\")");
        }
        _ => panic!("not expected"),
    }
    assert!(matches!(w.look(false, Some(6), Lang::En), WatchStep::Wait));
    assert!(matches!(w.look(true, Some(7), Lang::En), WatchStep::Stop));
    assert!(!w.goes_on());
    let mut w = EditWatch::new("l".to_string(), "/r", "n".to_string(), None);
    let mut looks = 0u32;
    while w.goes_on() {
        w.look(false, None, Lang::En);
        looks += 1;
    }
    assert_eq!(looks, MAX_POLLS);
}

#[test]
fn a_change_renews_the_watch() {
    let mut w = EditWatch::new("l".to_string(), "/r", "n".to_string(), Some(0));
    for _ in 0..MAX_POLLS - 1 {
        assert!(matches!(w.look(false, Some(0), Lang::En), WatchStep::Wait));
    }
    assert_eq!(w.left, 1);
    assert!(matches!(w.look(false, Some(1), Lang::En), WatchStep::Upload(_, _)));
    assert_eq!(w.left, MAX_POLLS);
    let mut looks = 0u32;
    while w.goes_on() {
        assert!(matches!(w.look(false, Some(1), Lang::En), WatchStep::Wait));
        looks += 1;
    }
    assert_eq!(looks, MAX_POLLS);
}
