//! File names, paths and quoting.
use probe_shell::lang::Lang;
use probe_shell::remote_path::{
    base_name, checked_shell_upload_name, is_forbidden_remote_path, join_path, mode_is_dir,
    normalise_remote_dir, normalize_tree_path, parent_dir, remote_child_path, sanitize_filename,
    sh_quote,
};
use probe_shell::search_roots::{remote_path_same_or_child, split_search_roots};

#[test]
fn plain_names_pass_through() {
    assert_eq!(sanitize_filename("report.txt"), "report.txt");
    assert_eq!(sanitize_filename("my-file_v2.tar.gz"), "my-file_v2.tar.gz");
    assert_eq!(sanitize_filename("数据.csv"), "数据.csv");
    // Unix dotfiles keep their leading dot.
    assert_eq!(sanitize_filename(".bashrc"), ".bashrc");
}

#[test]
fn strips_path_separators_and_traversal() {
    assert_eq!(sanitize_filename("a/b\\c"), "a_b_c");
    let traversal = sanitize_filename("../../etc/passwd");
    assert!(!traversal.contains('/') && !traversal.contains('\\'));
    let win = sanitize_filename("..\\..\\Windows\\System32");
    assert!(!win.contains('/') && !win.contains('\\'));
}

#[test]
fn replaces_shell_and_windows_special_chars() {
    assert_eq!(sanitize_filename("foo&calc.exe"), "foo_calc.exe");
    assert_eq!(sanitize_filename("a|b>c<d:e?f*g"), "a_b_c_d_e_f_g");
    assert_eq!(sanitize_filename("$(whoami)"), "_(whoami)");
    assert_eq!(sanitize_filename("a`b'c"), "a_b_c");
}

#[test]
fn trims_whitespace_and_trailing_dots() {
    assert_eq!(sanitize_filename("   spaced.txt  "), "spaced.txt");
    assert_eq!(sanitize_filename("name..."), "name");
    // control chars become underscores, not trimmed
    assert_eq!(sanitize_filename("a\tb"), "a_b");
}

#[test]
fn neutralises_windows_reserved_device_names() {
    assert_eq!(sanitize_filename("CON"), "_CON");
    assert_eq!(sanitize_filename("nul"), "_nul");
    assert_eq!(sanitize_filename("COM1"), "_COM1");
    assert_eq!(sanitize_filename("LPT9.txt"), "_LPT9.txt"); // reserved even with ext
    assert_eq!(sanitize_filename("Aux.log"), "_Aux.log");
    // Not reserved: a name that merely starts with the same letters.
    assert_eq!(sanitize_filename("console.txt"), "console.txt");
    assert_eq!(sanitize_filename("COM10"), "COM10");
}

#[test]
fn empty_or_all_bad_falls_back() {
    assert_eq!(sanitize_filename(""), "file");
    assert_eq!(sanitize_filename("   "), "file");
    assert_eq!(sanitize_filename("..."), "file");
}

#[test]
fn every_white_space_around_a_name_goes() {
    assert_eq!(sanitize_filename("\u{3000}a.txt\u{3000}"), "a.txt");
    assert_eq!(sanitize_filename("\u{a0} b \u{2028}. ."), "b");
    assert_eq!(sanitize_filename("c\u{3000}d"), "c\u{3000}d");
    assert_eq!(sanitize_filename("\u{3000}.\u{3000}"), "file");
    assert_eq!(sanitize_filename("\u{2003}nul\u{2003}"), "_nul");
}

#[test]
fn a_safe_name_stays_as_it_is() {
    for name in ["a/b", "CON.txt", "  x. ", "..", "数据", "a\u{1}b", "_CON"] {
        let once = sanitize_filename(name);
        assert_eq!(sanitize_filename(&once), once);
    }
}

#[test]
fn splitting_undoes_joining() {
    for (dir, parent) in [("/a/b", "/a/b"), ("/a/b//", "/a/b"), ("/", "/"), ("", "/"), ("x", "x")] {
        let path = join_path(dir, "n.txt");
        assert_eq!(base_name(&path), "n.txt");
        assert_eq!(parent_dir(&path), parent);
    }
    for dir in ["/a/b", "a\\b\\", "/", ".", "..", "  /x/ "] {
        let path = remote_child_path(dir, "n");
        assert_eq!(base_name(&path), "n");
        assert_eq!(parent_dir(&path), normalise_remote_dir(dir));
    }
}

#[test]
fn base_names_know_both_separators() {
    assert_eq!(base_name("C:\\dir\\frp.tar.gz"), "frp.tar.gz");
    assert_eq!(base_name("/etc/hosts"), "hosts");
    assert_eq!(base_name("/etc/"), "etc");
    assert_eq!(base_name("plain"), "plain");
    assert_eq!(base_name("/"), "");
}

#[test]
fn parents_end_at_the_root() {
    assert_eq!(parent_dir("/a/b"), "/a");
    assert_eq!(parent_dir("/a"), "/");
    assert_eq!(parent_dir("/"), "/");
    assert_eq!(parent_dir("a"), "/");
    assert_eq!(parent_dir("/a/b///"), "/a");
}

#[test]
fn quoting_survives_quotes() {
    assert_eq!(sh_quote("plain"), "'plain'");
    assert_eq!(sh_quote("; rm -rf ~"), "'; rm -rf ~'");
    assert_eq!(sh_quote("it's"), "'it'\\''s'");
    assert_eq!(sh_quote(""), "''");
}

#[test]
fn remote_directories_are_normalised() {
    assert_eq!(normalise_remote_dir("  "), "/");
    assert_eq!(normalise_remote_dir("."), "/");
    assert_eq!(normalise_remote_dir(".."), "..");
    assert_eq!(normalise_remote_dir("/"), "/");
    assert_eq!(normalise_remote_dir("a\\b/"), "/a/b");
    assert_eq!(normalise_remote_dir("/a//"), "/a");
    assert_eq!(normalise_remote_dir("//"), "/");
    assert_eq!(normalize_tree_path(" a/b/ "), "/a/b");
    assert_eq!(normalize_tree_path(".."), "/..");
    assert_eq!(normalize_tree_path(""), "/");
}

#[test]
fn children_get_one_slash() {
    assert_eq!(remote_child_path("/", "x"), "/x");
    assert_eq!(remote_child_path("/a/", "x"), "/a/x");
    assert_eq!(join_path("/a//", "x"), "/a/x");
    assert_eq!(join_path("/", "x"), "/x");
}

#[test]
fn dangerous_paths_are_forbidden() {
    for p in ["", " ", "/", ".", "//", "/./", "/a/../b", "..", "a\\..\\b"] {
        assert!(is_forbidden_remote_path(p), "{p}");
    }
    for p in ["/a", "a", "/a/./b", "/..a", "/a..", "..."] {
        assert!(!is_forbidden_remote_path(p), "{p}");
    }
}

#[test]
fn directories_are_told_by_their_mode() {
    assert!(mode_is_dir(Some(0o040_755)));
    assert!(!mode_is_dir(Some(0o100_644)));
    assert!(!mode_is_dir(Some(0o120_777)));
    assert!(!mode_is_dir(None));
}

#[test]
fn upload_names_are_checked() {
    assert_eq!(checked_shell_upload_name("a", Lang::En), Ok(()));
    for bad in ["", ".", ".."] {
        assert_eq!(
            checked_shell_upload_name(bad, Lang::En),
            Err("The local file name is invalid for upload".to_string())
        );
        assert_eq!(
            checked_shell_upload_name(bad, Lang::Zh),
            Err("本地文件名无效，无法上传".to_string())
        );
    }
}

#[test]
fn search_roots_do_not_overlap() {
    assert_eq!(split_search_roots("/a;/b"), vec!["/a", "/b"]);
    assert_eq!(split_search_roots("/a;/a/b"), vec!["/a"]);
    assert_eq!(split_search_roots("/a/b;/a"), vec!["/a"]);
    assert_eq!(split_search_roots("/a;/ab"), vec!["/a", "/ab"]);
    assert_eq!(split_search_roots("/a;/"), vec!["/"]);
    assert_eq!(split_search_roots(".."), vec!["/"]);
    assert_eq!(split_search_roots(""), vec!["/"]);
    assert!(remote_path_same_or_child("/a/b", "/a"));
    assert!(remote_path_same_or_child("/a", "/a/"));
    assert!(remote_path_same_or_child("/x", "/"));
    assert!(!remote_path_same_or_child("/ab", "/a"));
}
