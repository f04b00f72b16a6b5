//! Texts, numbers and encodings, held against the standard library.
use probe_shell::number::{number_text, parse_number};
use probe_shell::text::{
    contains, drop_end, drop_start, is_white_space, join_all, split, split_lines,
    starts_with, to_ascii_lower, to_ascii_upper, trim, trim_end, trim_start, CharSet,
};
use probe_shell::utf8::{decode_lossy, decode_strict, Utf8StreamDecoder};

#[test]
fn white_space_is_that_of_the_standard_library() {
    for n in 0..=0x10FFFFu32 {
        if let Some(c) = char::from_u32(n) {
            assert_eq!(is_white_space(c), c.is_whitespace(), "{n:x}");
        }
    }
}

#[test]
fn trimming_is_that_of_the_standard_library() {
    for s in ["", " ", " a ", "\u{3000}a\u{a0}\n", "a b", "\t\r\n", "é\u{2003}"] {
        assert_eq!(trim(s), s.trim());
    }
    for s in ["", "/", "//a//", "a", "/a"] {
        assert_eq!(trim_start(s, CharSet::Only('/')), s.trim_start_matches('/'));
        assert_eq!(trim_end(s, CharSet::Only('/')), s.trim_end_matches('/'));
    }
}

#[test]
fn splitting_is_that_of_the_standard_library() {
    for s in ["", ".", "a.b", "a..b.", "...", "no"] {
        let want: Vec<&str> = s.split('.').collect();
        assert_eq!(split(s, CharSet::Only('.')), want);
    }
    for s in ["", "\n", "a", "a\n", "a\nb", "a\r\nb\r\n", "\r", "a\r", "a\n\n"] {
        let want: Vec<&str> = s.lines().collect();
        assert_eq!(split_lines(s), want, "{s:?}");
    }
}

#[test]
fn searching_is_that_of_the_standard_library() {
    for (h, n) in [("", ""), ("abc", ""), ("abc", "bc"), ("abc", "cb"), ("aab", "ab"), ("", "a")] {
        assert_eq!(contains(h, n), h.contains(n));
        assert_eq!(starts_with(h, n), h.starts_with(n));
        assert_eq!(drop_start(h, n), h.strip_prefix(n).unwrap_or(h));
        assert_eq!(drop_end(h, n), h.strip_suffix(n).unwrap_or(h));
    }
}

#[test]
fn cases_are_those_of_the_standard_library() {
    for s in ["", "aBc-Ä", "ÉCOLE", "İ", "ΑΣ", "数据", "ẞ"] {
        assert_eq!(to_ascii_lower(s), s.to_ascii_lowercase());
        assert_eq!(to_ascii_upper(s), s.to_ascii_uppercase());
    }
}

#[test]
fn lists_are_joined() {
    let list: Vec<String> = vec!["a".to_string(), "".to_string(), "b".to_string()];
    assert_eq!(join_all(&list, " | "), "a |  | b");
    assert_eq!(join_all(&Vec::new(), ", "), "");
}

#[test]
fn numbers_are_those_of_the_standard_library() {
    for s in ["", "0", "+7", "-1", "00012", "255", "256", "12a", " 1", "99999999999999999999"] {
        assert_eq!(parse_number(s, 10, 255), s.parse::<u8>().ok().map(u64::from), "{s}");
        assert_eq!(parse_number(s, 10, u64::MAX), s.parse::<u64>().ok(), "{s}");
    }
    for s in ["755", "0", "8", "+17", ""] {
        assert_eq!(
            parse_number(s, 8, u64::from(u32::MAX)),
            u32::from_str_radix(s, 8).ok().map(u64::from),
            "{s}"
        );
    }
    for n in [0u64, 7, 8, 10, 4095, u64::MAX] {
        assert_eq!(number_text(n, 10), n.to_string());
        assert_eq!(number_text(n, 8), format!("{n:o}"));
        assert_eq!(parse_number(&number_text(n, 10), 10, u64::MAX), Some(n));
    }
}

fn samples() -> Vec<Vec<u8>> {
    let mut out: Vec<Vec<u8>> = vec![
        Vec::new(),
        b"plain".to_vec(),
        "héllo 数据 😀".as_bytes().to_vec(),
        vec![0xff, 0xfe, b'a'],
        vec![0xe4, 0xb8],
        vec![0xe4, 0xb8, b'a'],
        vec![0xf0, 0x9f, 0x98, 0x80, 0xf0, 0x9f],
        vec![0xc0, 0x80],
        vec![0xed, 0xa0, 0x80],
        vec![0xf4, 0x90, 0x80, 0x80],
        vec![0xf5, 0x80],
        vec![0x80],
        vec![b'a', 0xe2, 0x28, 0xa1],
    ];
    // Every pair of bytes, and some triples.
    for a in 0..=255u8 {
        out.push(vec![a]);
        for b in [0x00u8, 0x41, 0x7f, 0x80, 0x8f, 0x90, 0x9f, 0xa0, 0xbf, 0xc0, 0xff] {
            out.push(vec![a, b]);
            out.push(vec![a, b, 0x80, 0x80]);
            out.push(vec![a, 0x80, b]);
        }
    }
    out
}

#[test]
fn decoding_is_that_of_the_standard_library() {
    for bytes in samples() {
        assert_eq!(decode_lossy(&bytes), String::from_utf8_lossy(&bytes), "{bytes:?}");
        assert_eq!(decode_strict(&bytes), String::from_utf8(bytes.clone()).ok(), "{bytes:?}");
    }
}

#[test]
fn streams_may_be_cut_anywhere() {
    let bytes = "a数据é😀z".as_bytes();
    for cut in 0..=bytes.len() {
        let mut d = Utf8StreamDecoder::new();
        let mut text = d.push(&bytes[..cut]);
        text.push_str(&d.push(&bytes[cut..]));
        text.push_str(&d.finish());
        assert_eq!(text, "a数据é😀z");
    }
    // One byte at a time.
    let mut d = Utf8StreamDecoder::new();
    let mut text = String::new();
    for b in bytes {
        text.push_str(&d.push(&[*b]));
    }
    assert_eq!(text, "a数据é😀z");
    assert_eq!(d.finish(), "");
}

#[test]
fn a_stream_that_breaks_off_ends_in_a_replacement() {
    let mut d = Utf8StreamDecoder::new();
    assert_eq!(d.push(&[b'a', 0xe6, 0x95]), "a");
    assert_eq!(d.finish(), "\u{fffd}");
    let mut d = Utf8StreamDecoder::new();
    assert_eq!(d.decode(&[0xff, b'b'], true), "\u{fffd}b");
}
