//! Updates, privacy, hints, quick commands, device profiles, logs and crash reports.
use probe_shell::app_update::{
    is_newer_than, is_newer_than_current, latest_tag, parse_version, usable_tag, CURRENT_VERSION,
};
use probe_shell::crash::{crash_report, place};
use probe_shell::device_profile::{
    classify, looks_like_gateway_ip, recommended_file_mode, DeviceKind, FileModeHint,
};
use probe_shell::error_hints::{append_hint, hint_for};
use probe_shell::operation_log::{
    line_at, line_now, must_rotate, record, record_sftp, sanitize_field,
};
use probe_shell::privacy::{display_host, display_user, mask_host, mask_user};
use probe_shell::quick_actions::{starter_quick_commands, starter_quick_groups};

#[test]
fn parses_release_tags() {
    assert_eq!(parse_version("v0.5.2"), Some((0, 5, 2)));
    assert_eq!(parse_version("0.5.2-probe1"), Some((0, 5, 2)));
    assert_eq!(parse_version("bad"), None);
}

#[test]
fn versions_have_three_numbers() {
    assert_eq!(parse_version(" v1.2.3 "), Some((1, 2, 3)));
    assert_eq!(parse_version("1.2.3-rc.1"), Some((1, 2, 3)));
    assert_eq!(parse_version("1.2"), None);
    assert_eq!(parse_version("1.2.3.4"), None);
    assert_eq!(parse_version("1.2.x"), None);
    assert_eq!(parse_version("1.2.4294967296"), None);
    assert_eq!(parse_version(""), None);
}

#[test]
fn newer_versions_are_found() {
    assert_eq!(CURRENT_VERSION, "0.5.2");
    assert!(is_newer_than_current("v0.5.3"));
    assert!(is_newer_than_current("v1.0.0"));
    assert!(!is_newer_than_current("v0.5.2"));
    assert!(!is_newer_than_current("v0.4.9"));
    assert!(!is_newer_than_current("nonsense"));
    assert!(is_newer_than("1.10.0", "1.9.9"));
    assert!(!is_newer_than("1.0.0", "bad"));
}

#[test]
fn the_tag_is_read_from_the_answer() {
    assert_eq!(latest_tag("{\"tag_name\": \" v1.2.3\\n\"}"), Some("v1.2.3".to_string()));
    assert_eq!(latest_tag("{\"tag_name\": \"  \"}"), None);
    assert_eq!(latest_tag("{\"tag_name\": 7}"), None);
    assert_eq!(latest_tag("{\"name\": \"x\"}"), None);
    assert_eq!(latest_tag("[1, 2]"), None);
    assert_eq!(latest_tag("no json"), None);
    assert_eq!(usable_tag(Some(" v1 ".to_string())), Some("v1".to_string()));
    assert_eq!(usable_tag(None), None);
}

#[test]
fn masks_ipv4() {
    assert_eq!(mask_host("192.168.5.1"), "192.168.*.*");
}

#[test]
fn written_versions_are_read_back() {
    for v in [(0, 0, 0), (1, 20, 300), (u32::MAX, u32::MAX, u32::MAX)] {
        for suffix in ["", "-rc1", "+b.7", "x 9"] {
            let written = format!("{}.{}.{}{suffix}", v.0, v.1, v.2);
            assert_eq!(parse_version(&written), Some(v), "{written}");
            assert_eq!(parse_version(&format!("v{written}")), Some(v), "{written}");
        }
    }
}

#[test]
fn masks_user() {
    assert_eq!(mask_user("root"), "r***");
}

#[test]
fn short_users_are_masked_too() {
    assert_eq!(mask_user(""), "");
    assert_eq!(mask_user("  "), "");
    assert_eq!(mask_user("a"), "a*");
    assert_eq!(mask_user(" ab "), "a*");
    assert_eq!(mask_user("管理员"), "管***");
}

#[test]
fn hosts_of_all_kinds_are_masked() {
    assert_eq!(mask_host(""), "");
    assert_eq!(mask_host("256.1.1.1"), "2***6.***");
    assert_eq!(mask_host("fe80::1"), "fe80:::****");
    assert_eq!(mask_host("2001:db8::1"), "2001:db8::****");
    assert_eq!(mask_host("example.com"), "e***e.***");
    assert_eq!(mask_host("server"), "s***r");
    assert_eq!(mask_host("ab.c"), "**");
    assert_eq!(mask_host(" 10.0.0.1 "), "10.0.*.*");
}

#[test]
fn privacy_can_be_switched_off() {
    assert_eq!(display_user(" root ", false), " root ");
    assert_eq!(display_user("root", true), "r***");
    assert_eq!(display_host("10.0.0.1", false), "10.0.0.1");
    assert_eq!(display_host("10.0.0.1", true), "10.0.*.*");
    assert_eq!(mask_host("10.0.3.4"), mask_host("10.0.7.9"));
}

#[test]
fn hints_follow_the_reason() {
    assert!(hint_for("all is well").is_none());
    for (reason, start) in [
        ("Permission Denied (publickey)", "Auth failed"),
        ("connection TIMED OUT", "Connection timed out"),
        ("Connection refused", "Connection refused"),
        ("No route to host", "Network unreachable"),
        ("Host key mismatch", "Host key issue"),
    ] {
        let h = hint_for(reason).unwrap();
        assert!(h.en.starts_with(start), "{reason}");
        assert_eq!(append_hint(reason, true), format!("{reason}\n{}", h.en));
        assert_eq!(append_hint(reason, false), format!("{reason}\n{}", h.zh));
    }
    assert_eq!(append_hint("fine", true), "fine");
}

#[test]
fn starter_commands_are_grouped() {
    let groups = starter_quick_groups();
    assert_eq!(groups, vec!["System", "OpenWrt", "Docker"]);
    let commands = starter_quick_commands();
    assert_eq!(commands.len(), 8);
    for c in &commands {
        assert!(groups.contains(&c.group));
        assert!(c.send_enter);
    }
    assert_eq!(commands[0].name, "系统概览");
    assert_eq!(
        commands[6].command,
        "docker ps --format 'table {{.Names}}\\t{{.Status}}\\t{{.Ports}}'"
    );
}

#[test]
fn detects_openwrt() {
    assert_eq!(
        classify("ssh", "OpenWrt BE72", "192.168.5.1", "root", "").kind,
        DeviceKind::OpenWrt
    );
}

#[test]
fn unknown_root_is_not_forced_linux() {
    assert_eq!(classify("ssh", "OP", "op.example.com", "root", "").kind, DeviceKind::Unknown);
}

#[test]
fn detects_ruijie_from_brand() {
    assert_eq!(
        classify("ssh", "BE72", "192.168.5.1", "root", "锐捷主路由").kind,
        DeviceKind::RuijieRouter
    );
}

#[test]
fn every_kind_of_device_is_found() {
    for (name, kind) in [
        ("miwifi", DeviceKind::XiaomiRouter),
        ("TP-LINK", DeviceKind::TpLinkRouter),
        ("华为", DeviceKind::HuaweiRouter),
        ("merlin", DeviceKind::AsusRouter),
        ("my gateway", DeviceKind::Router),
        ("光猫", DeviceKind::Modem),
        ("Synology", DeviceKind::Nas),
        ("portainer", DeviceKind::Docker),
        ("Debian box", DeviceKind::Linux),
        ("aliyun", DeviceKind::Cloud),
        ("win11", DeviceKind::Windows),
    ] {
        assert_eq!(classify("ssh", name, "example.org", "u", "").kind, kind, "{name}");
    }
    assert_eq!(classify(" Serial ", "openwrt", "", "", "").kind, DeviceKind::Serial);
    assert_eq!(classify("TELNET", "openwrt", "", "", "").kind, DeviceKind::Telnet);
    assert_eq!(classify("ssh", "", "192.168.31.1", "", "").kind, DeviceKind::XiaomiRouter);
}

#[test]
fn words_come_before_addresses() {
    assert_eq!(classify("ssh", "ubuntu", "192.168.0.1", "", "").kind, DeviceKind::Linux);
    assert_eq!(classify("ssh", "my nas", "192.168.31.1", "", "").kind, DeviceKind::Nas);
    assert_eq!(classify("ssh", "华为", "192.168.50.1", "", "").kind, DeviceKind::HuaweiRouter);
    assert_eq!(classify("ssh", "box", "192.168.0.1", "", "").kind, DeviceKind::TpLinkRouter);
    assert_eq!(classify("ssh", "box", " 192.168.50.1 ", "", "").kind, DeviceKind::AsusRouter);
    // A known address comes before the guess by a gateway.
    assert_eq!(
        classify("ssh", "home", "192.168.0.1", "root", "").kind,
        DeviceKind::TpLinkRouter
    );
}

#[test]
fn capitals_do_not_matter_to_devices() {
    for (a, b) in [("OpenWRT", "openwrt"), ("SYNOLOGY", "sYnOlOgY"), ("华硕 RT", "华硕 rt")] {
        let x = classify("SSH", a, "Host", "ROOT", "LAN");
        let y = classify("ssh", b, "hOST", "root", "lan");
        assert_eq!((x.kind, x.label, x.confidence), (y.kind, y.label, y.confidence));
    }
    assert_eq!(classify("SERIAL", "", "", "", "").kind, classify("serial", "", "", "", "").kind);
}

#[test]
fn a_bare_gateway_address_is_no_guess() {
    let p = classify("ssh", "", "192.168.5.1", "", "");
    assert_eq!(p.kind, DeviceKind::Unknown);
    assert_eq!(p.label, "SSH");
    assert_eq!(p.confidence, 0);
    assert_eq!(classify("ssh", "home", "192.168.5.1", "root", "").kind, DeviceKind::Router);
    assert_eq!(classify("ssh", "home", "192.168.5.2", "root", "").kind, DeviceKind::Unknown);
    assert!(looks_like_gateway_ip("10.1.2.1"));
    assert!(looks_like_gateway_ip("172.16.0.1"));
    assert!(!looks_like_gateway_ip("172.32.0.1"));
    assert!(!looks_like_gateway_ip("8.8.8.1"));
    assert!(!looks_like_gateway_ip("10.1.2"));
}

#[test]
fn file_modes_follow_the_kind() {
    assert_eq!(recommended_file_mode("ssh", "nas", "", "", ""), FileModeHint::SftpFirst);
    assert_eq!(recommended_file_mode("serial", "", "", "", ""), FileModeHint::NoFiles);
    assert_eq!(recommended_file_mode("ssh", "", "", "", ""), FileModeHint::Auto);
    assert_eq!(classify("ssh", "nas", "", "", "").confidence, 90);
}

#[test]
fn log_lines_have_five_fields() {
    assert_eq!(sanitize_field("a\tb\r\nc"), "a b  c");
    let e = record("删除", "/a\tb", "请求", "x\ny");
    let line = line_at("2024-01-02 03:04:05", &e);
    assert_eq!(line, "2024-01-02 03:04:05\t删除\t请求\t/a b\tx y\n");
    let sftp = record_sftp("下载", "/f");
    assert_eq!(line_at("t", &sftp), "t\t下载\t请求\t/f\tSFTP/SSH文件操作\n");
    assert!(!must_rotate(20 * 1024 * 1024));
    assert!(must_rotate(20 * 1024 * 1024 + 1));
}

#[test]
fn log_lines_carry_the_time() {
    let e = record_sftp("下载", "/f");
    let line = line_now(&e);
    let fields: Vec<&str> = line.trim_end_matches('\n').split('\t').collect();
    assert_eq!(fields.len(), 5);
    let form: String =
        fields[0].chars().map(|c| if c.is_ascii_digit() { 'd' } else { c }).collect();
    assert_eq!(form, "dddd-dd-dd dd:dd:dd");
    assert_eq!(fields[3], "/f");
}

#[test]
fn crash_reports_tell_where_and_why() {
    assert_eq!(place("src/x.rs", 12, 5), "src/x.rs:12:5");
    assert_eq!(
        crash_report(99, "src/x.rs:1:2", "boom", "frames"),
        "\n================ Probe Shell crash ================\ntime_unix: 99\nversion: 0.5.2\nlocation: src/x.rs:1:2\npanic: boom\n\nBacktrace:\nframes\n\n"
    );
}
