//! Remote paths, remote file names, and their safe use in local names and shell commands.
use crate::lang::Lang;
use crate::text;
use crate::text::CharSet;
use vstd::prelude::*;

verus! {

// ---------------------------------------------------------------------------
// Components
// ---------------------------------------------------------------------------

/// The separators of remote (`/`) and local Windows (`\`) paths.
pub open spec fn separators() -> CharSet {
    CharSet::Either('/', '\\')
}

/// The file name component of a path.
pub open spec fn base_name_of(path: Seq<char>) -> Seq<char> {
    text::pieces(text::strip_end(path, separators()), separators()).last()
}

/// File name component of a path. Handles both remote (`/`) and local Windows (`\`) separators,
/// so that `C:\dir\frp.tar.gz` yields `frp.tar.gz`.
pub fn base_name(path: &str) -> (out: String)
    ensures
        out@ == base_name_of(path@),
{
    let set = CharSet::Either('/', '\\');
    let end = text::trim_end(path, set);
    let parts = text::split(end.as_str(), set);
    let n: usize = parts.len();
    assert(text::texts(parts@)[n - 1] == parts@[n - 1]@);
    parts[n - 1].clone()
}

/// A base name holds no separator.
pub proof fn law_base_name_is_one_component(path: Seq<char>)
    ensures
        !base_name_of(path).contains('/'),
        !base_name_of(path).contains('\\'),
{
    let p = text::strip_end(path, separators());
    text::lemma_pieces_nonempty(p, separators());
    text::lemma_pieces_free(p, separators());
    let parts = text::pieces(p, separators());
    let n = parts.len() - 1;
    assert forall|j: int| 0 <= j < parts[n].len() implies parts[n][j] != '/' && parts[n][j]
        != '\\' by {
        assert(!separators().contains(parts[n][j]));
    }
}

/// The position of the last slash; -1 if there is none.
pub open spec fn last_slash(s: Seq<char>) -> int
    decreases s.len(),
{
    if s.len() == 0 {
        -1
    } else if s.last() == '/' {
        s.len() - 1
    } else {
        last_slash(s.drop_last())
    }
}

/// The parent directory of a remote path.
pub open spec fn parent_dir_of(path: Seq<char>) -> Seq<char> {
    let p = text::strip_end(path, CharSet::Only('/'));
    let i = last_slash(p);
    if i <= 0 {
        "/"@
    } else {
        p.take(i)
    }
}

/// Parent directory of a remote path ("/a/b" gives "/a", "/a" gives "/").
pub fn parent_dir(path: &str) -> (out: String)
    ensures
        out@ == parent_dir_of(path@),
{
    let p = text::trim_end(path, CharSet::Only('/'));
    let chars = text::chars_of(p.as_str());
    let mut i: usize = chars.len();
    assert(chars@.take(i as int) == chars@);
    while i > 0 && chars[i - 1] != '/'
        invariant
            i <= chars@.len(),
            last_slash(chars@.take(i as int)) == last_slash(chars@),
        decreases i,
    {
        assert(chars@.take(i as int).drop_last() == chars@.take(i - 1));
        i = i - 1;
    }
    assert(last_slash(chars@) == i - 1);
    if i <= 1 {
        "/".to_string()
    } else {
        assert(chars@.subrange(0, i - 1) == chars@.take(i - 1));
        text::piece(&chars, 0, i - 1)
    }
}

// ---------------------------------------------------------------------------
// Shell quoting
// ---------------------------------------------------------------------------

/// A text in single quotes, for a POSIX shell.
pub open spec fn quoted(s: Seq<char>) -> Seq<char> {
    "'"@ + text::expanded(s, '\'', "'\\''"@) + "'"@
}

/// Single-quote a string for safe interpolation into a remote `/bin/sh` command. Remote names
/// come from the server's listing and are therefore untrusted: without quoting, a crafted name
/// like `; rm -rf ~` would run.
pub fn sh_quote(s: &str) -> (out: String)
    ensures
        out@ == quoted(s@),
{
    let inner = text::expand_char(s, '\'', "'\\''");
    text::join3("'", inner.as_str(), "'")
}

/// Where a POSIX shell stands while it reads a word.
pub enum Reading {
    /// Outside of quotes, after so much of the word.
    Bare(Seq<char>),
    /// Inside single quotes.
    Quote(Seq<char>),
    /// Behind a backslash outside of quotes.
    Escape(Seq<char>),
    /// At a character that means more to a shell than itself.
    Special,
}

/// One character read: inside single quotes every character but the quote stands for itself, a
/// backslash outside of them makes the next character stand for itself, and no other character
/// is let pass bare.
pub open spec fn read_char(at: Reading, c: char) -> Reading {
    match at {
        Reading::Bare(w) => if c == '\'' {
            Reading::Quote(w)
        } else if c == '\\' {
            Reading::Escape(w)
        } else {
            Reading::Special
        },
        Reading::Quote(w) => if c == '\'' {
            Reading::Bare(w)
        } else {
            Reading::Quote(w.push(c))
        },
        Reading::Escape(w) => if c == '\n' {
            Reading::Special
        } else {
            Reading::Bare(w.push(c))
        },
        Reading::Special => Reading::Special,
    }
}

/// A text read as one word.
pub open spec fn read_word(from: Reading, s: Seq<char>) -> Reading
    decreases s.len(),
{
    if s.len() == 0 {
        from
    } else {
        read_char(read_word(from, s.drop_last()), s.last())
    }
}

proof fn lemma_read_concat(from: Reading, a: Seq<char>, b: Seq<char>)
    ensures
        read_word(from, a + b) == read_word(read_word(from, a), b),
    decreases b.len(),
{
    if b.len() == 0 {
        assert(a + b == a);
    } else {
        assert((a + b).drop_last() == a + b.drop_last());
        lemma_read_concat(from, a, b.drop_last());
    }
}

proof fn lemma_read_inner(s: Seq<char>)
    ensures
        read_word(Reading::Quote(Seq::empty()), text::expanded(s, '\'', "'\\''"@))
            == Reading::Quote(s),
    decreases s.len(),
{
    let start = Reading::Quote(Seq::empty());
    let gap = "'\\''"@;
    if s.len() == 0 {
        assert(s == Seq::<char>::empty());
    } else {
        lemma_read_inner(s.drop_last());
        let before = text::expanded(s.drop_last(), '\'', gap);
        assert(s == s.drop_last().push(s.last()));
        if s.last() == '\'' {
            lemma_read_concat(start, before, gap);
            reveal_strlit("'\\''");
            assert(gap =~= seq!['\'', '\\', '\'', '\'']);
            reveal_with_fuel(read_word, 5);
            assert(gap.drop_last() =~= seq!['\'', '\\', '\'']);
            assert(gap.drop_last().drop_last() =~= seq!['\'', '\\']);
            assert(gap.drop_last().drop_last().drop_last() =~= seq!['\'']);
            assert(gap.drop_last().drop_last().drop_last().drop_last() =~= Seq::<char>::empty());
        } else {
            assert(before.push(s.last()).drop_last() == before);
        }
    }
}

/// A shell reads a quoted text as one word, and the word is the text: nothing in it is taken as
/// a command, an expansion or a second word.
pub proof fn law_quoted_is_one_word(s: Seq<char>)
    ensures
        read_word(Reading::Bare(Seq::empty()), quoted(s)) == Reading::Bare(s),
{
    reveal_strlit("'");
    let q = "'"@;
    assert(q =~= seq!['\'']);
    let inner = text::expanded(s, '\'', "'\\''"@);
    let start = Reading::Bare(Seq::empty());
    lemma_read_concat(start, q + inner, q);
    lemma_read_concat(start, q, inner);
    lemma_read_inner(s);
    reveal_with_fuel(read_word, 2);
    assert(q.drop_last() =~= Seq::<char>::empty());
}

// ---------------------------------------------------------------------------
// Normal forms
// ---------------------------------------------------------------------------

/// A path with forward slashes and without slashes at its end, but for the root.
pub open spec fn unslashed(p: Seq<char>) -> Seq<char> {
    let s = text::strip_end(text::swapped(p, '\\', '/'), CharSet::Only('/'));
    if s.len() == 0 && p.len() > 0 {
        "/"@
    } else {
        s
    }
}

/// A path that begins with a slash.
pub open spec fn rooted(p: Seq<char>) -> Seq<char> {
    if p.len() > 0 && p[0] == '/' {
        p
    } else {
        "/"@ + p
    }
}

/// The normal form of a directory in the navigation tree.
pub open spec fn tree_path(path: Seq<char>) -> Seq<char> {
    let p = text::trimmed(path);
    if p.len() == 0 || p == "."@ {
        "/"@
    } else {
        rooted(unslashed(p))
    }
}

/// The normal form of a remote directory.
pub open spec fn remote_dir(path: Seq<char>) -> Seq<char> {
    let p = text::trimmed(path);
    if p.len() == 0 || p == "."@ {
        "/"@
    } else if p == ".."@ {
        ".."@
    } else {
        rooted(unslashed(p))
    }
}

fn clean_slashes(p: &str) -> (out: String)
    requires
        p@.len() > 0,
    ensures
        out@ == rooted(unslashed(p@)),
{
    let forward = text::swap_char(p, '\\', '/');
    let bare = text::trim_end(forward.as_str(), CharSet::Only('/'));
    proof {
        reveal_strlit("/");
    }
    if bare.as_str().is_empty() {
        assert("/"@[0] == '/');
        return "/".to_string();
    }
    let chars = text::chars_of(bare.as_str());
    if chars[0] == '/' {
        bare
    } else {
        text::join2("/", bare.as_str())
    }
}

/// The normal form of a directory in the navigation tree: with a leading slash, without a
/// trailing one.
pub fn normalize_tree_path(path: &str) -> (out: String)
    ensures
        out@ == tree_path(path@),
{
    let p = text::trim(path);
    if p.as_str().is_empty() || text::same_text(p.as_str(), ".") {
        return "/".to_string();
    }
    clean_slashes(p.as_str())
}

/// The normal form of a remote directory: with a leading slash and without a trailing one. The
/// parent directory stays `..`.
pub fn normalise_remote_dir(path: &str) -> (out: String)
    ensures
        out@ == remote_dir(path@),
{
    let p = text::trim(path);
    if p.as_str().is_empty() || text::same_text(p.as_str(), ".") {
        return "/".to_string();
    }
    if text::same_text(p.as_str(), "..") {
        return "..".to_string();
    }
    clean_slashes(p.as_str())
}

/// The path of an entry of a remote directory.
pub open spec fn child_path(parent: Seq<char>, name: Seq<char>) -> Seq<char> {
    let p = remote_dir(parent);
    if p == "/"@ {
        "/"@ + name
    } else {
        text::strip_end(p, CharSet::Only('/')) + "/"@ + name
    }
}

/// The path of an entry of a remote directory.
pub fn remote_child_path(parent: &str, name: &str) -> (out: String)
    ensures
        out@ == child_path(parent@, name@),
{
    let p = normalise_remote_dir(parent);
    if text::same_text(p.as_str(), "/") {
        text::join2("/", name)
    } else {
        let bare = text::trim_end(p.as_str(), CharSet::Only('/'));
        text::join3(bare.as_str(), "/", name)
    }
}

/// A directory as it was given, a slash, and a name.
pub open spec fn joined(dir: Seq<char>, name: Seq<char>) -> Seq<char> {
    text::strip_end(dir, CharSet::Only('/')) + "/"@ + name
}

/// A directory as it was given, a slash, and a name.
pub fn join_path(dir: &str, name: &str) -> (out: String)
    ensures
        out@ == joined(dir@, name@),
{
    let bare = text::trim_end(dir, CharSet::Only('/'));
    text::join3(bare.as_str(), "/", name)
}

proof fn lemma_last_slash(dir: Seq<char>, name: Seq<char>)
    requires
        !name.contains('/'),
    ensures
        last_slash(dir + "/"@ + name) == dir.len(),
    decreases name.len(),
{
    reveal_strlit("/");
    let path = dir + "/"@ + name;
    if name.len() == 0 {
        assert(path.last() == '/');
    } else {
        assert(name.contains(name.last()));
        assert(path.drop_last() =~= dir + "/"@ + name.drop_last());
        assert(!name.drop_last().contains('/')) by {
            if name.drop_last().contains('/') {
                let i = name.drop_last().index_of('/');
                assert(name[i] == '/');
            }
        }
        lemma_last_slash(dir, name.drop_last());
    }
}

proof fn lemma_split_slash(dir: Seq<char>, name: Seq<char>)
    requires
        name.len() > 0,
        !name.contains('/'),
        !name.contains('\\'),
    ensures
        base_name_of(dir + "/"@ + name) == name,
        parent_dir_of(dir + "/"@ + name) == if dir.len() == 0 {
            "/"@
        } else {
            dir
        },
{
    reveal_strlit("/");
    let path = dir + "/"@ + name;
    assert(path.last() == name.last());
    assert(name.contains(name.last()));
    assert forall|i: int| 0 <= i < name.len() implies !separators().contains(
        #[trigger] name[i],
    ) by {
        assert(name.contains(name[i]));
    }
    text::lemma_whole_piece(name, separators());
    assert(path =~= dir + seq!['/'] + name);
    text::lemma_pieces_cut(dir, '/', name, separators());
    lemma_last_slash(dir, name);
    assert(path.take(dir.len() as int) =~= dir);
}

/// Splitting a path undoes joining it: a name put into a directory is the last component of the
/// path, and the directory, without slashes at its end, is the parent.
pub proof fn law_split_undoes_join(dir: Seq<char>, name: Seq<char>)
    requires
        name.len() > 0,
        !name.contains('/'),
        !name.contains('\\'),
    ensures
        base_name_of(joined(dir, name)) == name,
        parent_dir_of(joined(dir, name)) == ({
            let bare = text::strip_end(dir, CharSet::Only('/'));
            if bare.len() == 0 {
                "/"@
            } else {
                bare
            }
        }),
        base_name_of(child_path(dir, name)) == name,
        parent_dir_of(child_path(dir, name)) == remote_dir(dir),
{
    reveal_strlit("/");
    reveal_strlit("..");
    let slash = CharSet::Only('/');
    lemma_split_slash(text::strip_end(dir, slash), name);
    let p = remote_dir(dir);
    if p == "/"@ {
        assert("/"@ + name =~= Seq::<char>::empty() + "/"@ + name);
        lemma_split_slash(Seq::empty(), name);
    } else {
        let bare = unslashed(text::trimmed(dir));
        text::lemma_strip_end(text::swapped(text::trimmed(dir), '\\', '/'), slash);
        assert(p.len() > 0 && p.last() != '/') by {
            if p != ".."@ {
                if bare.len() == 0 {
                    assert("/"@ + bare =~= "/"@);
                } else if bare[0] != '/' {
                    assert(("/"@ + bare).last() == bare.last());
                }
            }
        }
        lemma_split_slash(p, name);
    }
}

// ---------------------------------------------------------------------------
// Forbidden targets
// ---------------------------------------------------------------------------

/// Whether a path must not be deleted: it is empty, it climbs with `..`, or it names nothing
/// below the root or the current directory.
pub open spec fn forbidden(path: Seq<char>) -> bool {
    let p = text::swapped(text::trimmed(path), '\\', '/');
    let parts = text::pieces(p, CharSet::Only('/'));
    ||| p.len() == 0
    ||| exists|i: int| 0 <= i < parts.len() && #[trigger] parts[i] == ".."@
    ||| forall|i: int|
        0 <= i < parts.len() ==> (#[trigger] parts[i]).len() == 0 || parts[i] == "."@
}

/// Whether a path must not be deleted.
pub fn is_forbidden_remote_path(path: &str) -> (r: bool)
    ensures
        r == forbidden(path@),
{
    let t = text::trim(path);
    let p = text::swap_char(t.as_str(), '\\', '/');
    let parts = text::split(p.as_str(), CharSet::Only('/'));
    let ghost all = text::texts(parts@);
    if p.as_str().is_empty() {
        return true;
    }
    let mut named = false;
    let mut climbs = false;
    let mut i: usize = 0;
    while i < parts.len()
        invariant
            i <= parts@.len(),
            all == text::texts(parts@),
            climbs == (exists|k: int| 0 <= k < i && #[trigger] all[k] == ".."@),
            named == !(forall|k: int|
                0 <= k < i ==> (#[trigger] all[k]).len() == 0 || all[k] == "."@),
        decreases parts@.len() - i,
    {
        assert(all[i as int] == parts@[i as int]@);
        let part = parts[i].as_str();
        if text::same_text(part, "..") {
            climbs = true;
        }
        if !part.is_empty() && !text::same_text(part, ".") {
            named = true;
        }
        i = i + 1;
    }
    climbs || !named
}

// ---------------------------------------------------------------------------
// Modes
// ---------------------------------------------------------------------------

/// Whether the permission bits of an entry say that it is a directory.
pub open spec fn dir_mode(permissions: Option<u32>) -> bool {
    match permissions {
        Some(p) => p & 0o170_000 == 0o040_000,
        None => false,
    }
}

/// Whether the permission bits of an entry say that it is a directory.
pub fn mode_is_dir(permissions: Option<u32>) -> (r: bool)
    ensures
        r == dir_mode(permissions),
{
    match permissions {
        Some(p) => (p & 0o170_000) == 0o040_000,
        None => false,
    }
}

// ---------------------------------------------------------------------------
// Local file names
// ---------------------------------------------------------------------------

/// Whether a character is invalid in a Windows file name, a path separator, special to a shell,
/// or a control character.
pub open spec fn unsafe_char(c: char) -> bool {
    ||| c == '/' || c == '\\' || c == ':' || c == '<' || c == '>' || c == '"' || c == '|'
    ||| c == '?' || c == '*' || c == '&' || c == '^' || c == '%' || c == '!' || c == '`'
    ||| c == '$' || c == '\''
    ||| (c as u32) < 0x20
}

/// A name with `_` in place of each unsafe character.
pub open spec fn cleaned(name: Seq<char>) -> Seq<char> {
    name.map_values(|c: char| if unsafe_char(c) { '_' } else { c })
}

/// A name without leading white space and without trailing white space and dots.
pub open spec fn tidied(name: Seq<char>) -> Seq<char> {
    text::strip_end(
        text::strip_start(cleaned(name), CharSet::WhiteSpace),
        CharSet::WhiteSpaceOr('.'),
    )
}

/// The device names that Windows reserves, in upper case.
pub open spec fn device_name(s: Seq<char>) -> bool {
    ||| s == "CON"@ || s == "PRN"@ || s == "AUX"@ || s == "NUL"@
    ||| s.len() == 4 && (s.take(3) == "COM"@ || s.take(3) == "LPT"@) && '1' <= s[3] <= '9'
}

/// Whether a name stands for a Windows device: what precedes its first dot does, in any case.
pub open spec fn reserved(name: Seq<char>) -> bool {
    device_name(text::ascii_upper(text::pieces(name, CharSet::Only('.'))[0]))
}

/// The local file name for a remote-supplied one.
pub open spec fn safe_name(name: Seq<char>) -> Seq<char> {
    let t = tidied(name);
    if t.len() == 0 {
        "file"@
    } else if reserved(t) {
        "_"@ + t
    } else {
        t
    }
}

fn is_unsafe_char(c: char) -> (r: bool)
    ensures
        r == unsafe_char(c),
{
    c == '/' || c == '\\' || c == ':' || c == '<' || c == '>' || c == '"' || c == '|' || c == '?'
        || c == '*' || c == '&' || c == '^' || c == '%' || c == '!' || c == '`' || c == '$' || c
        == '\'' || (c as u32) < 0x20
}

fn is_device_name(s: &str) -> (r: bool)
    ensures
        r == device_name(s@),
{
    if text::same_text(s, "CON") || text::same_text(s, "PRN") || text::same_text(s, "AUX")
        || text::same_text(s, "NUL") {
        return true;
    }
    let chars = text::chars_of(s);
    if chars.len() != 4 {
        return false;
    }
    let head = text::piece(&chars, 0, 3);
    assert(s@.subrange(0, 3) == s@.take(3));
    (text::same_text(head.as_str(), "COM") || text::same_text(head.as_str(), "LPT")) && '1'
        <= chars[3] && chars[3] <= '9'
}

/// Make a remote-supplied file name safe to use as a local file name (for both downloads and
/// temp files): drops path separators (defence-in-depth against traversal), replaces characters
/// invalid on Windows or special to shells with `_`, trims surrounding white space and
/// Windows' trailing dots, and neutralises reserved device names (CON, NUL, COM1...). Normal
/// names (letters, digits, `.`, `-`, `_`, Unicode) pass through; Unix dotfiles keep their leading
/// dot. Falls back to `file` when nothing usable remains.
pub fn sanitize_filename(name: &str) -> (out: String)
    ensures
        out@ == safe_name(name@),
{
    let chars = text::chars_of(name);
    let mut clean = String::new();
    let mut i: usize = 0;
    while i < chars.len()
        invariant
            i <= chars@.len(),
            clean@ == cleaned(chars@.take(i as int)),
        decreases chars@.len() - i,
    {
        let c = chars[i];
        clean.push(if is_unsafe_char(c) { '_' } else { c });
        i = i + 1;
        assert(clean@ == cleaned(chars@.take(i as int)));
    }
    assert(chars@.take(chars@.len() as int) == chars@);
    let front = text::trim_start(clean.as_str(), CharSet::WhiteSpace);
    let tidy = text::trim_end(front.as_str(), CharSet::WhiteSpaceOr('.'));
    if tidy.as_str().is_empty() {
        return "file".to_string();
    }
    let parts = text::split(tidy.as_str(), CharSet::Only('.'));
    assert(text::texts(parts@)[0] == parts@[0]@);
    let stem = text::to_ascii_upper(parts[0].as_str());
    if is_device_name(stem.as_str()) {
        text::join2("_", tidy.as_str())
    } else {
        tidy
    }
}

/// Whether a local file name needs no change: it is not empty, each of its characters is safe,
/// it does not begin with white space or end in white space or a dot, and it names no device.
pub open spec fn plain_name(name: Seq<char>) -> bool {
    &&& name.len() > 0
    &&& forall|i: int| 0 <= i < name.len() ==> !unsafe_char(#[trigger] name[i])
    &&& !text::white_space(name[0])
    &&& !text::white_space(name.last())
    &&& name.last() != '.'
    &&& !reserved(name)
}

proof fn lemma_prefixed_not_reserved(t: Seq<char>)
    ensures
        !reserved("_"@ + t),
{
    reveal_strlit("_");
    reveal_strlit("CON");
    reveal_strlit("PRN");
    reveal_strlit("AUX");
    reveal_strlit("NUL");
    reveal_strlit("COM");
    reveal_strlit("LPT");
    let s = "_"@ + t;
    assert(s[0] == '_');
    text::lemma_first_piece(s, CharSet::Only('.'));
    let up = text::ascii_upper(text::pieces(s, CharSet::Only('.'))[0]);
    assert(up[0] == '_');
    if up.len() == 4 {
        assert(up.take(3)[0] == '_');
    }
}

proof fn lemma_fallback_plain()
    ensures
        plain_name("file"@),
{
    reveal_strlit("file");
    reveal_strlit("CON");
    reveal_strlit("PRN");
    reveal_strlit("AUX");
    reveal_strlit("NUL");
    reveal_strlit("COM");
    reveal_strlit("LPT");
    let f = "file"@;
    text::lemma_whole_piece(f, CharSet::Only('.'));
    let up = text::ascii_upper(f);
    assert(up[0] == 'F');
    assert(up.take(3)[0] == 'F');
}

/// A local file name made of a remote one is plain: it holds no separator and no character
/// special to a shell or to Windows, it is not empty and names no device.
pub proof fn law_safe_name_is_plain(name: Seq<char>)
    ensures
        plain_name(safe_name(name)),
{
    let c = cleaned(name);
    let front = text::strip_start(c, CharSet::WhiteSpace);
    let t = tidied(name);
    text::lemma_strip_start(c, CharSet::WhiteSpace);
    text::lemma_strip_end(front, CharSet::WhiteSpaceOr('.'));
    assert forall|i: int| 0 <= i < c.len() implies !unsafe_char(#[trigger] c[i]) by {}
    assert forall|i: int| 0 <= i < t.len() implies !unsafe_char(#[trigger] t[i]) by {
        assert(t[i] == front[i]);
        assert(front[i] == c[c.len() - front.len() + i]);
    }
    if t.len() == 0 {
        lemma_fallback_plain();
    } else {
        assert(t[0] == front[0]);
        if reserved(t) {
            lemma_prefixed_not_reserved(t);
            reveal_strlit("_");
            let r = "_"@ + t;
            assert(r[0] == '_');
            assert(r.last() == t.last());
            assert forall|i: int| 0 <= i < r.len() implies !unsafe_char(#[trigger] r[i]) by {
                if i > 0 {
                    assert(r[i] == t[i - 1]);
                }
            }
        }
    }
}

/// A plain name passes through as it is.
pub proof fn law_plain_names_pass(name: Seq<char>)
    requires
        plain_name(name),
    ensures
        safe_name(name) == name,
{
    assert(cleaned(name) =~= name);
}

/// Making a name safe twice changes nothing more.
pub proof fn law_safe_name_idempotent(name: Seq<char>)
    ensures
        safe_name(safe_name(name)) == safe_name(name),
{
    law_safe_name_is_plain(name);
    law_plain_names_pass(safe_name(name));
}

/// A local file name made of a remote one stays in the directory that it is put in.
pub proof fn law_safe_name_stays(name: Seq<char>)
    ensures
        !safe_name(name).contains('/'),
        !safe_name(name).contains('\\'),
        safe_name(name) != "."@,
        safe_name(name) != ".."@,
        safe_name(name).len() > 0,
{
    law_safe_name_is_plain(name);
    reveal_strlit(".");
    reveal_strlit("..");
}

// ---------------------------------------------------------------------------
// Upload names
// ---------------------------------------------------------------------------

/// Whether a local file name can become a remote one.
pub open spec fn upload_name(name: Seq<char>) -> bool {
    name.len() > 0 && name != "."@ && name != ".."@
}

/// Refuses a local file name that cannot become a remote one, with a message.
pub fn checked_shell_upload_name(name: &str, lang: Lang) -> (out: Result<(), String>)
    ensures
        out is Ok <==> upload_name(name@),
        out matches Err(msg) ==> msg@ == lang.pick(
            "本地文件名无效，无法上传"@,
            "The local file name is invalid for upload"@,
        ),
{
    if name.is_empty() || text::same_text(name, ".") || text::same_text(name, "..") {
        Err(
            lang.t(
                "本地文件名无效，无法上传",
                "The local file name is invalid for upload",
            ).to_string(),
        )
    } else {
        Ok(())
    }
}

} // verus!
