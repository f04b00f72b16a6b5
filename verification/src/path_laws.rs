//! What paths and names come to, said of the characters that they hold.
use crate::remote_path;
use crate::text;
use crate::text::CharSet;
use crate::text_laws;
use vstd::prelude::*;

verus! {

// ---------------------------------------------------------------------------
// Components
// ---------------------------------------------------------------------------

/// The name of a path is what stands behind its last separator, be it a slash or a backslash, and
/// separators at the end do not count.
pub proof fn law_name_stands_behind_the_separator(
    dir: Seq<char>,
    sep: char,
    name: Seq<char>,
    last: char,
)
    requires
        sep == '/' || sep == '\\',
        last == '/' || last == '\\',
        name.len() > 0,
        !name.contains('/'),
        !name.contains('\\'),
    ensures
        remote_path::base_name_of(dir + seq![sep] + name) == name,
        remote_path::base_name_of(name) == name,
        remote_path::base_name_of((dir + seq![sep] + name).push(last)) == name,
{
    let set = remote_path::separators();
    let path = dir + seq![sep] + name;
    assert forall|i: int| 0 <= i < name.len() implies !set.contains(#[trigger] name[i]) by {
        assert(name.contains(name[i]));
    }
    text::lemma_whole_piece(name, set);
    text::lemma_pieces_cut(dir, sep, name, set);
    assert(path.last() == name.last());
    assert(!set.contains(name[name.len() - 1]));
    assert(text::pieces(path, set).last() == name);
    assert(path.push(last).drop_last() =~= path);
    assert(text::strip_end(path.push(last), set) == path) by {
        reveal_with_fuel(text::strip_end, 2);
    }
}

/// A path in a directory has that directory as its parent; what stands in the root has the root.
pub proof fn law_parent_stands_before_the_slash(dir: Seq<char>, name: Seq<char>)
    requires
        name.len() > 0,
        !name.contains('/'),
        dir.len() > 0 ==> dir.last() != '/',
    ensures
        remote_path::parent_dir_of(dir + "/"@ + name) == if dir.len() == 0 {
            "/"@
        } else {
            dir
        },
        remote_path::parent_dir_of("/"@) == "/"@,
{
    reveal_strlit("/");
    let slash = CharSet::Only('/');
    let path = dir + "/"@ + name;
    assert(path.last() == name.last());
    assert(name.contains(name[name.len() - 1]));
    assert(text::strip_end(path, slash) == path);
    lemma_last_slash(dir, name);
    assert(path.take(dir.len() as int) =~= dir);
    let root = "/"@;
    assert(root.drop_last() =~= Seq::<char>::empty());
    assert(root.last() == '/');
    assert(text::strip_end(root, slash) =~= Seq::<char>::empty()) by {
        reveal_with_fuel(text::strip_end, 2);
    }
}

proof fn lemma_last_slash(dir: Seq<char>, name: Seq<char>)
    requires
        !name.contains('/'),
    ensures
        remote_path::last_slash(dir + "/"@ + name) == dir.len(),
    decreases name.len(),
{
    reveal_strlit("/");
    let path = dir + "/"@ + name;
    if name.len() == 0 {
        assert(path.last() == '/');
    } else {
        let front = name.drop_last();
        assert(name.contains(name[name.len() - 1]));
        assert(path.last() == name.last());
        assert(path.drop_last() =~= dir + "/"@ + front);
        if front.contains('/') {
            let i = front.index_of('/');
            assert(name[i] == '/');
        }
        lemma_last_slash(dir, front);
    }
}

// ---------------------------------------------------------------------------
// Normal forms
// ---------------------------------------------------------------------------

/// Whether a path is written plainly: it begins with a slash, does not end with one, holds no
/// backslash, and has no white space at its end.
pub open spec fn plain_path(p: Seq<char>) -> bool {
    &&& p.len() > 1
    &&& p[0] == '/'
    &&& p.last() != '/'
    &&& !p.contains('\\')
    &&& !text::white_space(p.last())
}

/// A plain path is its own normal form, in the navigation tree and elsewhere; with slashes behind
/// it, or white space around it, it has the same one; without its first slash it gets that back.
pub proof fn law_plain_paths_are_normal(p: Seq<char>)
    requires
        plain_path(p),
    ensures
        remote_path::remote_dir(p) == p,
        remote_path::tree_path(p) == p,
        remote_path::remote_dir(p.push('/')) == p,
        remote_path::tree_path(p.push('/')) == p,
        remote_path::remote_dir(seq![' '] + p) == p,
{
    reveal_strlit(".");
    reveal_strlit("..");
    let slash = CharSet::Only('/');
    text_laws::law_trimmed_stays(p);
    assert(text::swapped(p, '\\', '/') =~= p) by {
        assert forall|i: int| 0 <= i < p.len() implies p[i] != '\\' by {
            assert(p.contains(p[i]));
        }
    }
    let q = p.push('/');
    text_laws::law_trimmed_stays(q);
    assert(text::swapped(q, '\\', '/') =~= q) by {
        assert forall|i: int| 0 <= i < p.len() implies p[i] != '\\' by {
            assert(p.contains(p[i]));
        }
    }
    assert(q.drop_last() =~= p);
    assert(text::strip_end(q, slash) == p) by {
        reveal_with_fuel(text::strip_end, 2);
    }
    let b = seq![' '] + p;
    assert(b[0] == ' ');
    assert(b.drop_first() =~= p);
    assert(text::strip_start(b, CharSet::WhiteSpace) == p) by {
        reveal_with_fuel(text::strip_start, 2);
    }
}

/// A normal form begins with a slash, holds no backslash, and ends with no slash, but for the
/// root; only the parent directory is left as it is.
pub proof fn law_normal_forms_are_plain(path: Seq<char>)
    ensures
        remote_path::tree_path(path).len() > 0,
        remote_path::tree_path(path)[0] == '/',
        !remote_path::tree_path(path).contains('\\'),
        remote_path::tree_path(path) != "/"@ ==> remote_path::tree_path(path).last() != '/',
        remote_path::remote_dir(path) != ".."@ ==> remote_path::remote_dir(path)
            == remote_path::tree_path(path),
        text::trimmed(path).len() == 0 ==> remote_path::tree_path(path) == "/"@,
{
    reveal_strlit("/");
    reveal_strlit("..");
    let p = text::trimmed(path);
    let s = text::swapped(p, '\\', '/');
    let u = remote_path::unslashed(p);
    let t = remote_path::tree_path(path);
    text::lemma_strip_end(s, CharSet::Only('/'));
    assert(!"/"@.contains('\\')) by {
        if "/"@.contains('\\') {
            let i = "/"@.index_of('\\');
            assert("/"@[i] == '/');
        }
    }
    if !(p.len() == 0 || p == "."@) {
        let bare = text::strip_end(s, CharSet::Only('/'));
        assert(bare.len() == 0 ==> u == "/"@);
        assert(u[0] == '/' || t[0] == '/');
        assert(t.last() == u.last());
        if t.contains('\\') {
            let i = t.index_of('\\');
            let off = t.len() - u.len();
            if i >= off {
                assert(u[i - off] == '\\');
                if bare.len() > 0 {
                    assert(s[i - off] == '\\');
                }
            }
        }
        if bare.len() == 0 {
            assert(t == "/"@);
        }
    }
}

// ---------------------------------------------------------------------------
// What must not be deleted
// ---------------------------------------------------------------------------

/// An ordinary path can be deleted: one that holds no two dots in a row, and holds a character
/// that is neither a separator nor a dot nor white space.
pub proof fn law_ordinary_paths_can_be_deleted(path: Seq<char>, at: int)
    requires
        !text::has_text(path, ".."@),
        0 <= at < path.len(),
        path[at] != '/',
        path[at] != '\\',
        path[at] != '.',
        !text::white_space(path[at]),
    ensures
        !remote_path::forbidden(path),
{
    reveal_strlit(".");
    reveal_strlit("..");
    let t = text::trimmed(path);
    let p = text::swapped(t, '\\', '/');
    let parts = text::pieces(p, CharSet::Only('/'));
    text_laws::law_trimming_takes_white_space(path);
    let a = choose|a: int|
        0 <= a && a + t.len() <= path.len() && #[trigger] path.subrange(a, a + t.len()) == t && (
        forall|i: int|
            0 <= i < a || a + t.len() <= i < path.len() ==> text::white_space(
                #[trigger] path[i],
            ));
    assert(a <= at < a + t.len()) by {
        if at < a || at >= a + t.len() {
            assert(text::white_space(path[at]));
        }
    }
    assert(t[at - a] == path[at]);
    assert(p[at - a] == path[at]);
    if exists|i: int| 0 <= i < parts.len() && #[trigger] parts[i] == ".."@ {
        let i = choose|i: int| 0 <= i < parts.len() && #[trigger] parts[i] == ".."@;
        let k = lemma_piece_stands(p, '/', i);
        assert(p.subrange(k, k + 2) == ".."@);
        assert(p[k] == p.subrange(k, k + 2)[0]);
        assert(p[k + 1] == p.subrange(k, k + 2)[1]);
        assert(t[k] == '.' && t[k + 1] == '.');
        assert(path.subrange(a, a + t.len())[k] == path[a + k]);
        assert(path.subrange(a, a + t.len())[k + 1] == path[a + k + 1]);
        assert(path.subrange(a + k, (a + k) + ".."@.len()) =~= ".."@);
    }
    let j = lemma_char_in_piece(p, '/', at - a);
    assert(parts[j].contains(path[at]));
    if parts[j] == "."@ {
        let i = parts[j].index_of(path[at]);
        assert(parts[j][i] == '.');
    }
    assert(parts[j].len() > 0);
}

/// The root, the directory itself, anything above it, and nothing at all cannot be deleted.
pub proof fn law_dangerous_paths_cannot_be_deleted(dir: Seq<char>, slashes: Seq<char>)
    requires
        forall|i: int|
            0 <= i < slashes.len() ==> #[trigger] slashes[i] == '/' || slashes[i] == '\\',
    ensures
        remote_path::forbidden(slashes),
        remote_path::forbidden("."@),
        remote_path::forbidden(".."@),
        remote_path::forbidden(seq!['/'] + dir + "/.."@),
{
    reveal_strlit(".");
    reveal_strlit("..");
    reveal_strlit("/..");
    let slash = CharSet::Only('/');
    text_laws::law_trimmed_stays(slashes);
    let p = text::swapped(slashes, '\\', '/');
    lemma_only_slashes(p);
    let one = "."@;
    let two = ".."@;
    text_laws::law_trimmed_stays(one);
    text_laws::law_trimmed_stays(two);
    assert(text::swapped(one, '\\', '/') =~= one);
    assert(text::swapped(two, '\\', '/') =~= two);
    text::lemma_whole_piece(one, slash);
    text::lemma_whole_piece(two, slash);
    assert(text::pieces(two, slash)[0] == two);
    assert(text::pieces(one, slash)[0] == one);
    let up = seq!['/'] + dir + "/.."@;
    assert(up[0] == '/' && up.last() == '.');
    text_laws::law_trimmed_stays(up);
    let q = text::swapped(up, '\\', '/');
    let head = text::swapped(seq!['/'] + dir, '\\', '/');
    assert(q =~= head + seq!['/'] + two);
    text::lemma_pieces_cut(head, '/', two, slash);
    let parts = text::pieces(q, slash);
    assert(parts[parts.len() - 1] == two);
}

proof fn lemma_only_slashes(p: Seq<char>)
    requires
        forall|i: int| 0 <= i < p.len() ==> #[trigger] p[i] == '/',
    ensures
        forall|i: int|
            0 <= i < text::pieces(p, CharSet::Only('/')).len() ==> (#[trigger] text::pieces(
                p,
                CharSet::Only('/'),
            )[i]).len() == 0,
    decreases p.len(),
{
    if p.len() > 0 {
        assert forall|i: int| 0 <= i < p.drop_last().len() implies #[trigger] p.drop_last()[i]
            == '/' by {
            assert(p.drop_last()[i] == p[i]);
        }
        lemma_only_slashes(p.drop_last());
        assert(p[p.len() - 1] == '/');
        let before = text::pieces(p.drop_last(), CharSet::Only('/'));
        let all = text::pieces(p, CharSet::Only('/'));
        assert forall|i: int| 0 <= i < all.len() implies (#[trigger] all[i]).len() == 0 by {
            if i < before.len() {
                assert(all[i] == before[i]);
            }
        }
    }
}

/// A piece stands in the text that it is cut from.
proof fn lemma_piece_stands(s: Seq<char>, c: char, i: int) -> (k: int)
    requires
        0 <= i < text::pieces(s, CharSet::Only(c)).len(),
    ensures
        0 <= k,
        k + text::pieces(s, CharSet::Only(c))[i].len() <= s.len(),
        s.subrange(k, k + text::pieces(s, CharSet::Only(c))[i].len()) == text::pieces(
            s,
            CharSet::Only(c),
        )[i],
        i == text::pieces(s, CharSet::Only(c)).len() - 1 ==> k + text::pieces(
            s,
            CharSet::Only(c),
        )[i].len() == s.len(),
    decreases s.len(),
{
    let set = CharSet::Only(c);
    let all = text::pieces(s, set);
    if s.len() == 0 {
        assert(s.subrange(0, 0) =~= Seq::<char>::empty());
        0
    } else {
        let front = s.drop_last();
        let before = text::pieces(front, set);
        text::lemma_pieces_nonempty(front, set);
        if s.last() == c {
            if i < before.len() {
                let k = lemma_piece_stands(front, c, i);
                assert(s.subrange(k, k + all[i].len()) =~= front.subrange(k, k + all[i].len()));
                k
            } else {
                assert(s.subrange(s.len() as int, s.len() as int) =~= Seq::<char>::empty());
                s.len() as int
            }
        } else {
            let k = lemma_piece_stands(front, c, i);
            if i < before.len() - 1 {
                assert(s.subrange(k, k + all[i].len()) =~= front.subrange(k, k + all[i].len()));
            } else {
                assert(front.subrange(k, front.len() as int) == before.last());
                assert(s.subrange(k, k + all[i].len()) =~= before.last().push(s.last()));
            }
            k
        }
    }
}

/// A character at which a text is not cut stands in one of its pieces.
proof fn lemma_char_in_piece(s: Seq<char>, c: char, at: int) -> (j: int)
    requires
        0 <= at < s.len(),
        s[at] != c,
    ensures
        0 <= j < text::pieces(s, CharSet::Only(c)).len(),
        text::pieces(s, CharSet::Only(c))[j].contains(s[at]),
    decreases s.len(),
{
    let set = CharSet::Only(c);
    let all = text::pieces(s, set);
    let front = s.drop_last();
    let before = text::pieces(front, set);
    text::lemma_pieces_nonempty(front, set);
    if at == s.len() - 1 {
        let grown = before.last().push(s.last());
        assert(all[all.len() - 1] == grown);
        assert(grown[grown.len() - 1] == s[at]);
        all.len() - 1
    } else {
        let j = lemma_char_in_piece(front, c, at);
        assert(front[at] == s[at]);
        let i = before[j].index_of(s[at]);
        assert(before[j][i] == s[at]);
        assert(all[j][i] == s[at]);
        j
    }
}

// ---------------------------------------------------------------------------
// Local file names
// ---------------------------------------------------------------------------

/// No local file name holds a character that Windows forbids, that separates paths, or that a
/// shell gives a meaning to, nor a control character; and none ends with a dot or a blank.
pub proof fn law_local_names_are_harmless(name: Seq<char>, i: int)
    requires
        0 <= i < remote_path::safe_name(name).len(),
    ensures
        ({
            let s = remote_path::safe_name(name);
            let c = s[i];
            &&& c != '/' && c != '\\' && c != ':' && c != '*' && c != '?' && c != '"' && c != '<'
                && c != '>' && c != '|'
            &&& c != '&' && c != '^' && c != '%' && c != '!' && c != '`' && c != '$' && c != '\''
            &&& c != '\n' && c != '\r' && c != '\t' && (c as u32) >= 0x20
            &&& s.last() != '.' && s.last() != ' '
            &&& s[0] != ' '
        }),
{
    remote_path::law_safe_name_is_plain(name);
    assert(!remote_path::unsafe_char(remote_path::safe_name(name)[i]));
}

/// Whether a character is a letter, a digit, a common sign, or beyond ASCII.
pub open spec fn is_kept(c: char) -> bool {
    ||| 'a' <= c <= 'z' || 'A' <= c <= 'Z' || '0' <= c <= '9'
    ||| c == '.' || c == '-' || c == '_' || c == ' ' || c == '(' || c == ')' || c == '+'
    ||| c == ',' || c == '=' || c == '@' || c == '#' || c == '[' || c == ']' || c == '{'
    ||| c == '}' || c == '~' || c == ';'
    ||| (c as u32) >= 0x7f
}

/// A local file name keeps every other character in its place: where the remote name neither
/// begins with white space nor ends with white space or a dot, and names no device, only the
/// harmful characters are replaced, each by one underscore.
pub proof fn law_local_names_keep_the_rest(name: Seq<char>)
    requires
        name.len() > 0,
        !text::white_space(name[0]),
        (name[0] as u32) >= 0x20,
        !text::white_space(name.last()),
        (name.last() as u32) >= 0x20,
        name.last() != '.',
    ensures
        ({
            let s = remote_path::safe_name(name);
            let off = s.len() - name.len();
            &&& off == 0 || (off == 1 && s[0] == '_')
            &&& forall|i: int|
                0 <= i < name.len() ==> s[i + off] == #[trigger] name[i] || s[i + off] == '_'
            &&& forall|i: int|
                0 <= i < name.len() && is_kept(#[trigger] name[i]) ==> s[i + off] == name[i]
        }),
{
    reveal_strlit("_");
    let c = remote_path::cleaned(name);
    assert(!text::white_space(c[0]));
    assert(c.last() != '.' && !text::white_space(c.last()));
    assert(remote_path::tidied(name) == c);
    let s = remote_path::safe_name(name);
    if remote_path::reserved(c) {
        assert(s.skip(1) =~= c);
    }
}

} // verus!
