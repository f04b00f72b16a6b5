//! What a listing shows: exactly what the server sent or printed, entry by entry.
use crate::events::{EntryKind, EntryView};
use crate::listing;
use crate::listing::RawView;
use crate::number;
use crate::remote_path;
use crate::text;
use crate::text::CharSet;
use crate::text_laws;
use crate::utf8;
use vstd::prelude::*;

verus! {

// ---------------------------------------------------------------------------
// Listings of the file service
// ---------------------------------------------------------------------------

/// Every entry that the server sends, but for the directory itself and its parent, is in the
/// listing, with all that was sent of it: its name and its path below the directory, the size and
/// the time of change where they were sent, zero where not, and the permission bits. It is a
/// directory where the type bits say so, a symbolic link is told by where it leads, and anything
/// else is a file. The result is its position.
pub proof fn law_sent_entry_is_listed(
    path: Seq<char>,
    raw: Seq<RawView>,
    targets: Seq<Option<u32>>,
    i: int,
) -> (j: int)
    requires
        0 <= i < raw.len(),
        raw[i].name != "."@,
        raw[i].name != ".."@,
        targets.len() == listing::link_paths(path, raw).len(),
    ensures
        0 <= j < listing::dir_listing(path, raw, targets).len(),
        ({
            let e = listing::dir_listing(path, raw, targets)[j];
            let links = listing::link_paths(path, raw);
            &&& e.name == raw[i].name
            &&& e.full_path == text::strip_end(path, CharSet::Only('/')) + "/"@ + raw[i].name
            &&& e.modified == match raw[i].mtime {
                Some(t) => t,
                None => 0,
            }
            &&& e.size == match raw[i].size {
                Some(n) => n,
                None => 0,
            }
            &&& match raw[i].permissions {
                Some(p) => {
                    &&& e.mode == p & 0o7777
                    &&& p & 0o170_000 == 0o040_000 ==> e.is_dir && e.kind == EntryKind::Dir
                    &&& p & 0o170_000 != 0o040_000 && p & 0o170_000 != 0o120_000 ==> !e.is_dir
                        && e.kind == EntryKind::File
                    &&& p & 0o170_000 == 0o120_000 ==> exists|k: int|
                        0 <= k < links.len() && #[trigger] links[k] == e.full_path
                            && match targets[k] {
                            None => !e.is_dir && e.kind == EntryKind::DeadLink,
                            Some(m) => if m & 0o170_000 == 0o040_000 {
                                e.is_dir && e.kind == EntryKind::SymlinkDir
                            } else {
                                !e.is_dir && e.kind == EntryKind::SymlinkFile
                            },
                        }
                },
                None => e.mode == 0 && !e.is_dir && e.kind == EntryKind::File,
            }
        }),
{
    let plain = listing::plain_entries(path, raw, targets);
    let k = lemma_plain_has(path, raw, targets, i);
    listing::law_sorted(plain);
    let s = listing::sorted_entries(plain);
    lemma_same_members(plain, s, plain[k]);
    let j = s.index_of(plain[k]);
    assert(s[j] == plain[k]);
    assert(0u32 & 0o7777 == 0) by (bit_vector);
    if listing::is_link(raw[i]) {
        listing::lemma_links_grow(path, raw, i);
        lemma_link_path(path, raw, i);
    }
    j
}

/// Nothing else is in the listing: every entry of it was sent by the server. The result is the
/// position among what was sent.
pub proof fn law_listed_entry_was_sent(
    path: Seq<char>,
    raw: Seq<RawView>,
    targets: Seq<Option<u32>>,
    j: int,
) -> (i: int)
    requires
        0 <= j < listing::dir_listing(path, raw, targets).len(),
    ensures
        0 <= i < raw.len(),
        raw[i].name != "."@,
        raw[i].name != ".."@,
        listing::dir_listing(path, raw, targets)[j].name == raw[i].name,
        listing::dir_listing(path, raw, targets).len() <= raw.len(),
{
    let plain = listing::plain_entries(path, raw, targets);
    listing::law_sorted(plain);
    let s = listing::sorted_entries(plain);
    lemma_same_members(s, plain, s[j]);
    let k = plain.index_of(s[j]);
    assert(plain[k] == s[j]);
    lemma_plain_from(path, raw, targets, k)
}

/// Whether no two entries have the same name.
pub open spec fn names_differ(s: Seq<EntryView>) -> bool {
    forall|a: int, b: int|
        0 <= a < b < s.len() ==> (#[trigger] s[a]).name != (#[trigger] s[b]).name
}

/// Where the server sends each name once, the listing shows each name once: so of every entry
/// that was sent there is exactly one.
pub proof fn law_each_name_once(path: Seq<char>, raw: Seq<RawView>, targets: Seq<Option<u32>>)
    requires
        forall|a: int, b: int|
            0 <= a < b < raw.len() ==> (#[trigger] raw[a]).name != (#[trigger] raw[b]).name,
    ensures
        names_differ(listing::dir_listing(path, raw, targets)),
{
    lemma_plain_names(path, raw, targets);
    lemma_sorted_names(listing::plain_entries(path, raw, targets));
}

/// A listing stands in order: directories before everything else, and among themselves by their
/// names in lower case.
pub proof fn law_listing_stands_in_order(
    path: Seq<char>,
    raw: Seq<RawView>,
    targets: Seq<Option<u32>>,
    a: int,
    b: int,
)
    requires
        0 <= a < b < listing::dir_listing(path, raw, targets).len(),
    ensures
        ({
            let s = listing::dir_listing(path, raw, targets);
            &&& s[b].is_dir ==> s[a].is_dir
            &&& s[a].is_dir == s[b].is_dir ==> crate::order::text_le(
                text::unicode_lower(s[a].name),
                text::unicode_lower(s[b].name),
            )
        }),
{
    listing::law_sorted(listing::plain_entries(path, raw, targets));
    let s = listing::dir_listing(path, raw, targets);
    assert(listing::entry_le(s[a], s[b]));
}

/// The navigation tree takes out of a listing every directory, with its name and its path, and
/// nothing else.
pub proof fn law_tree_takes_every_directory(s: Seq<EntryView>, name: Seq<char>, path: Seq<char>)
    ensures
        listing::dirs_among(s).contains((name, path)) <==> exists|k: int|
            0 <= k < s.len() && (#[trigger] s[k]).is_dir && s[k].name == name && s[k].full_path
                == path,
    decreases s.len(),
{
    let all = listing::dirs_among(s);
    if s.len() > 0 {
        let front = s.drop_last();
        let before = listing::dirs_among(front);
        law_tree_takes_every_directory(front, name, path);
        if all.contains((name, path)) {
            let i = all.index_of((name, path));
            if i < before.len() {
                assert(before[i] == (name, path));
                assert(before.contains((name, path)));
                let k = choose|k: int|
                    0 <= k < front.len() && (#[trigger] front[k]).is_dir && front[k].name == name
                        && front[k].full_path == path;
                assert(s[k] == front[k]);
            } else {
                assert(s[s.len() - 1] == s.last());
            }
        }
        if exists|k: int|
            0 <= k < s.len() && (#[trigger] s[k]).is_dir && s[k].name == name && s[k].full_path
                == path {
            let k = choose|k: int|
                0 <= k < s.len() && (#[trigger] s[k]).is_dir && s[k].name == name
                    && s[k].full_path == path;
            if k < front.len() {
                assert(front[k] == s[k]);
                assert(before.contains((name, path)));
                let i = before.index_of((name, path));
                assert(before[i] == (name, path));
                assert(all[i] == before[i]);
            } else {
                assert(all[before.len() as int] == (name, path));
            }
        }
    }
}

proof fn lemma_same_members(a: Seq<EntryView>, b: Seq<EntryView>, e: EntryView)
    requires
        a.to_multiset() == b.to_multiset(),
        a.contains(e),
    ensures
        b.contains(e),
{
    broadcast use vstd::seq_lib::group_to_multiset_ensures;

    assert(a.to_multiset().count(e) > 0);
    assert(b.to_multiset().count(e) > 0);
}

/// The entry of what was sent at a position.
spec fn made_of(path: Seq<char>, raw: Seq<RawView>, targets: Seq<Option<u32>>, i: int) -> EntryView {
    listing::entry_of(
        path,
        raw[i],
        if listing::is_link(raw[i]) {
            targets[listing::link_paths(path, raw.take(i)).len() as int]
        } else {
            None
        },
    )
}

proof fn lemma_plain_has(
    path: Seq<char>,
    raw: Seq<RawView>,
    targets: Seq<Option<u32>>,
    i: int,
) -> (k: int)
    requires
        0 <= i < raw.len(),
        listing::own_entry(raw[i]),
    ensures
        0 <= k < listing::plain_entries(path, raw, targets).len(),
        listing::plain_entries(path, raw, targets)[k] == made_of(path, raw, targets, i),
    decreases raw.len(),
{
    let front = raw.drop_last();
    if i == raw.len() - 1 {
        assert(raw.take(i) =~= front);
        listing::plain_entries(path, front, targets).len() as int
    } else {
        let k = lemma_plain_has(path, front, targets, i);
        assert(front.take(i) =~= raw.take(i));
        assert(front[i] == raw[i]);
        k
    }
}

proof fn lemma_plain_from(
    path: Seq<char>,
    raw: Seq<RawView>,
    targets: Seq<Option<u32>>,
    k: int,
) -> (i: int)
    requires
        0 <= k < listing::plain_entries(path, raw, targets).len(),
    ensures
        0 <= i < raw.len(),
        listing::own_entry(raw[i]),
        listing::plain_entries(path, raw, targets)[k].name == raw[i].name,
        listing::plain_entries(path, raw, targets).len() <= raw.len(),
    decreases raw.len(),
{
    let front = raw.drop_last();
    let before = listing::plain_entries(path, front, targets);
    lemma_plain_len(path, raw, targets);
    if k < before.len() {
        let i = lemma_plain_from(path, front, targets, k);
        assert(front[i] == raw[i]);
        i
    } else {
        raw.len() - 1
    }
}

proof fn lemma_plain_len(path: Seq<char>, raw: Seq<RawView>, targets: Seq<Option<u32>>)
    ensures
        listing::plain_entries(path, raw, targets).len() <= raw.len(),
    decreases raw.len(),
{
    if raw.len() > 0 {
        lemma_plain_len(path, raw.drop_last(), targets);
    }
}

proof fn lemma_link_path(path: Seq<char>, raw: Seq<RawView>, i: int)
    requires
        0 <= i < raw.len(),
        listing::own_entry(raw[i]),
        listing::is_link(raw[i]),
    ensures
        ({
            let k = listing::link_paths(path, raw.take(i)).len();
            k < listing::link_paths(path, raw).len() && listing::link_paths(path, raw)[k as int]
                == remote_path::joined(path, raw[i].name)
        }),
    decreases raw.len(),
{
    let front = raw.drop_last();
    if i == raw.len() - 1 {
        assert(raw.take(i) =~= front);
    } else {
        lemma_link_path(path, front, i);
        assert(front.take(i) =~= raw.take(i));
        assert(front[i] == raw[i]);
    }
}

proof fn lemma_plain_names(path: Seq<char>, raw: Seq<RawView>, targets: Seq<Option<u32>>)
    requires
        forall|a: int, b: int|
            0 <= a < b < raw.len() ==> (#[trigger] raw[a]).name != (#[trigger] raw[b]).name,
    ensures
        names_differ(listing::plain_entries(path, raw, targets)),
    decreases raw.len(),
{
    if raw.len() > 0 {
        let front = raw.drop_last();
        let before = listing::plain_entries(path, front, targets);
        let all = listing::plain_entries(path, raw, targets);
        assert forall|a: int, b: int| 0 <= a < b < front.len() implies (#[trigger] front[a]).name
            != (#[trigger] front[b]).name by {
            assert(front[a] == raw[a] && front[b] == raw[b]);
        }
        lemma_plain_names(path, front, targets);
        assert forall|a: int, b: int| 0 <= a < b < all.len() implies (#[trigger] all[a]).name != (
        #[trigger] all[b]).name by {
            assert(all[a] == before[a]);
            if b < before.len() {
                assert(all[b] == before[b]);
            } else {
                let i = lemma_plain_from(path, front, targets, a);
                assert(front[i] == raw[i]);
                assert(raw[raw.len() - 1] == raw.last());
            }
        }
    }
}

proof fn lemma_with_entry_names(s: Seq<EntryView>, e: EntryView)
    requires
        names_differ(s),
        forall|a: int| 0 <= a < s.len() ==> (#[trigger] s[a]).name != e.name,
    ensures
        names_differ(listing::with_entry(s, e)),
    decreases s.len(),
{
    if !(s.len() == 0 || listing::entry_le(s.last(), e)) {
        let front = s.drop_last();
        assert forall|a: int, b: int| 0 <= a < b < front.len() implies (#[trigger] front[a]).name
            != (#[trigger] front[b]).name by {
            assert(front[a] == s[a] && front[b] == s[b]);
        }
        assert forall|a: int| 0 <= a < front.len() implies (#[trigger] front[a]).name
            != e.name by {
            assert(front[a] == s[a]);
        }
        lemma_with_entry_names(front, e);
        listing::lemma_with_entry_members(front, e);
        let w = listing::with_entry(front, e);
        let all = listing::with_entry(s, e);
        assert forall|a: int, b: int| 0 <= a < b < all.len() implies (#[trigger] all[a]).name != (
        #[trigger] all[b]).name by {
            assert(all[a] == w[a]);
            if b < w.len() {
                assert(all[b] == w[b]);
            } else {
                assert(all[b] == s[s.len() - 1]);
                if w[a] != e {
                    let k = choose|k: int| 0 <= k < front.len() && front[k] == w[a];
                    assert(front[k] == s[k]);
                }
            }
        }
    }
}

proof fn lemma_sorted_names(s: Seq<EntryView>)
    requires
        names_differ(s),
    ensures
        names_differ(listing::sorted_entries(s)),
    decreases s.len(),
{
    if s.len() > 0 {
        let front = s.drop_last();
        assert forall|a: int, b: int| 0 <= a < b < front.len() implies (#[trigger] front[a]).name
            != (#[trigger] front[b]).name by {
            assert(front[a] == s[a] && front[b] == s[b]);
        }
        lemma_sorted_names(front);
        listing::law_sorted(front);
        let sorted = listing::sorted_entries(front);
        assert forall|a: int| 0 <= a < sorted.len() implies (#[trigger] sorted[a]).name
            != s.last().name by {
            assert(sorted.contains(sorted[a]));
            lemma_same_members(sorted, front, sorted[a]);
            let k = front.index_of(sorted[a]);
            assert(front[k] == s[k]);
            assert(s[s.len() - 1] == s.last());
        }
        lemma_with_entry_names(sorted, s.last());
    }
}

// ---------------------------------------------------------------------------
// Listings over a shell
// ---------------------------------------------------------------------------

/// What the listing command prints of one entry.
pub struct Printed {
    pub typ: Seq<char>,
    pub size: u64,
    pub modified: u32,
    pub mode: u32,
    pub name: Seq<char>,
}

/// The line that the listing command prints of an entry: its type, its size and its time of
/// change in decimal digits, its mode in octal ones, and its name, with a tab between each two.
pub open spec fn printed_line(p: Printed) -> Seq<char> {
    p.typ + seq!['\t'] + (number::decimal(p.size as nat) + seq!['\t'] + (number::decimal(
        p.modified as nat,
    ) + seq!['\t'] + (number::octal(p.mode as nat) + seq!['\t'] + p.name)))
}

/// Whether a name is one that a directory can hold and one line can show.
pub open spec fn one_line_name(name: Seq<char>) -> bool {
    name.len() > 0 && name != "."@ && name != ".."@ && !name.contains('\n') && name.last() != '\r'
}

/// A line of the listing command tells all that it was printed of, whatever the name holds, tabs
/// too: the type names the kind, the numbers come back, and the path is the name's below the
/// directory.
pub proof fn law_line_is_read_back(path: Seq<char>, p: Printed)
    requires
        !p.typ.contains('\t'),
        p.name.len() > 0,
        p.name != "."@,
        p.name != ".."@,
    ensures
        listing::line_entry(path, printed_line(p)) matches Some(e) && {
            &&& e.name == p.name
            &&& e.full_path == text::strip_end(path, CharSet::Only('/')) + "/"@ + p.name
            &&& e.size == p.size
            &&& e.modified == p.modified
            &&& e.mode == p.mode
            &&& p.typ == "d"@ ==> e.kind == EntryKind::Dir && e.is_dir
            &&& p.typ == "ld"@ ==> e.kind == EntryKind::SymlinkDir && e.is_dir
            &&& p.typ == "lf"@ ==> e.kind == EntryKind::SymlinkFile && !e.is_dir
            &&& p.typ == "dead"@ ==> e.kind == EntryKind::DeadLink && !e.is_dir
            &&& p.typ == "f"@ ==> e.kind == EntryKind::File && !e.is_dir
            &&& e.is_dir <==> p.typ == "d"@ || p.typ == "ld"@
        },
{
    let set = CharSet::Only('\t');
    let d1 = number::decimal(p.size as nat);
    let d2 = number::decimal(p.modified as nat);
    let d3 = number::octal(p.mode as nat);
    let t3 = d3 + seq!['\t'] + p.name;
    let t2 = d2 + seq!['\t'] + t3;
    let t1 = d1 + seq!['\t'] + t2;
    let parts = text::pieces(printed_line(p), set);
    text::lemma_pieces_cut(p.typ, '\t', t1, set);
    text::lemma_pieces_cut(d1, '\t', t2, set);
    text::lemma_pieces_cut(d2, '\t', t3, set);
    text::lemma_pieces_cut(d3, '\t', p.name, set);
    assert forall|i: int| 0 <= i < p.typ.len() implies !set.contains(#[trigger] p.typ[i]) by {
        assert(p.typ.contains(p.typ[i]));
    }
    text::lemma_whole_piece(p.typ, set);
    number::lemma_decimal(p.size as nat);
    number::lemma_decimal(p.modified as nat);
    number::lemma_octal(p.mode as nat);
    text::lemma_whole_piece(d1, set);
    text::lemma_whole_piece(d2, set);
    text::lemma_whole_piece(d3, set);
    text::lemma_pieces_nonempty(p.name, set);
    let rest = text::pieces(p.name, set);
    assert(parts =~= seq![p.typ, d1, d2, d3] + rest);
    assert(parts.skip(4) =~= rest);
    text_laws::law_pieces_join_back(p.name, '\t');
    reveal_strlit("\t");
    assert("\t"@ =~= seq!['\t']);
    assert(listing::line_name(parts) == p.name);
    number::law_number_round_trip(p.size as nat, 10, u64::MAX as nat);
    number::law_number_round_trip(p.modified as nat, 10, u32::MAX as nat);
    number::law_number_round_trip(p.mode as nat, 8, u32::MAX as nat);
    text_laws::law_trimmed_stays(d1);
    text_laws::law_trimmed_stays(d2);
    text_laws::law_trimmed_stays(d3);
    reveal_strlit("d");
    reveal_strlit("ld");
    reveal_strlit("lf");
    reveal_strlit("dead");
    reveal_strlit("f");
    assert("d"@.len() == 1 && "f"@.len() == 1 && "ld"@.len() == 2 && "lf"@.len() == 2);
    assert("d"@[0] != "f"@[0]);
    assert("ld"@[1] != "lf"@[1]);
}

/// The lines that the listing command prints.
pub open spec fn printed_lines(all: Seq<Printed>) -> Seq<Seq<char>> {
    all.map_values(|p: Printed| printed_line(p))
}

/// A listing over a shell shows every entry that the command printed, with all that was printed
/// of it. The result is its position.
pub proof fn law_printed_entry_is_listed(path: Seq<char>, all: Seq<Printed>, i: int) -> (j: int)
    requires
        0 <= i < all.len(),
        forall|k: int|
            0 <= k < all.len() ==> !(#[trigger] all[k]).typ.contains('\t')
                && !all[k].typ.contains('\n') && one_line_name(all[k].name),
    ensures
        ({
            let out = vstd::utf8::encode_utf8(text_laws::printed(printed_lines(all)));
            let s = listing::shell_entries(path, out);
            &&& s.len() == all.len()
            &&& 0 <= j < s.len()
            &&& s[j].name == all[i].name
            &&& s[j].full_path == text::strip_end(path, CharSet::Only('/')) + "/"@ + all[i].name
            &&& s[j].size == all[i].size
            &&& s[j].modified == all[i].modified
            &&& s[j].mode == all[i].mode
            &&& s[j].is_dir <==> all[i].typ == "d"@ || all[i].typ == "ld"@
            &&& listing::in_order(s)
        }),
{
    broadcast use vstd::utf8::encode_utf8_valid_utf8, vstd::utf8::encode_utf8_decode_utf8;

    let lines = printed_lines(all);
    let shown = text_laws::printed(lines);
    let out = vstd::utf8::encode_utf8(shown);
    utf8::law_lossless_on_utf8(out);
    assert(utf8::lossy(out) == shown);
    assert forall|k: int| 0 <= k < lines.len() implies !(#[trigger] lines[k]).contains('\n') && !(
    lines[k].len() > 0 && lines[k].last() == '\r') by {
        assert(lines[k] == printed_line(all[k]));
        lemma_one_line(all[k]);
    }
    text_laws::law_lines_are_read_back(lines);
    let plain = listing::line_entries(path, lines);
    lemma_line_entries(path, all);
    listing::law_sorted(plain);
    let s = listing::sorted_entries(plain);
    assert(plain.contains(plain[i]));
    lemma_same_members(plain, s, plain[i]);
    let j = s.index_of(plain[i]);
    assert(s[j] == plain[i]);
    law_line_is_read_back(path, all[i]);
    j
}

proof fn lemma_one_line(p: Printed)
    requires
        !p.typ.contains('\n'),
        one_line_name(p.name),
    ensures
        !printed_line(p).contains('\n'),
        printed_line(p).last() != '\r',
{
    let d1 = number::decimal(p.size as nat);
    let d2 = number::decimal(p.modified as nat);
    let d3 = number::octal(p.mode as nat);
    number::lemma_decimal(p.size as nat);
    number::lemma_decimal(p.modified as nat);
    number::lemma_octal(p.mode as nat);
    let t3 = d3 + seq!['\t'] + p.name;
    let t2 = d2 + seq!['\t'] + t3;
    let t1 = d1 + seq!['\t'] + t2;
    lemma_no_feed(d3, p.name);
    lemma_no_feed(d2, t3);
    lemma_no_feed(d1, t2);
    lemma_no_feed(p.typ, t1);
    assert(t3.last() == p.name.last());
    assert(t2.last() == t3.last());
    assert(t1.last() == t2.last());
    assert(printed_line(p).last() == t1.last());
}

proof fn lemma_no_feed(a: Seq<char>, b: Seq<char>)
    requires
        !a.contains('\n'),
        !b.contains('\n'),
    ensures
        !(a + seq!['\t'] + b).contains('\n'),
{
    let s = a + seq!['\t'] + b;
    if s.contains('\n') {
        let i = s.index_of('\n');
        if i < a.len() {
            assert(a[i] == '\n');
        } else if i > a.len() {
            assert(b[i - a.len() - 1] == '\n');
        }
    }
}

proof fn lemma_line_entries(path: Seq<char>, all: Seq<Printed>)
    requires
        forall|k: int|
            0 <= k < all.len() ==> !(#[trigger] all[k]).typ.contains('\t') && one_line_name(
                all[k].name,
            ),
    ensures
        listing::line_entries(path, printed_lines(all)).len() == all.len(),
        forall|k: int|
            0 <= k < all.len() ==> Some(
                #[trigger] listing::line_entries(path, printed_lines(all))[k],
            ) == listing::line_entry(path, printed_line(all[k])),
    decreases all.len(),
{
    if all.len() > 0 {
        let front = all.drop_last();
        assert forall|k: int| 0 <= k < front.len() implies !(#[trigger] front[k]).typ.contains(
            '\t',
        ) && one_line_name(front[k].name) by {
            assert(front[k] == all[k]);
        }
        lemma_line_entries(path, front);
        assert(printed_lines(all).drop_last() =~= printed_lines(front));
        assert(printed_lines(all).last() == printed_line(all.last()));
        assert(all[all.len() - 1] == all.last());
        law_line_is_read_back(path, all.last());
        let before = listing::line_entries(path, printed_lines(front));
        let s = listing::line_entries(path, printed_lines(all));
        assert forall|k: int| 0 <= k < all.len() implies Some(#[trigger] s[k])
            == listing::line_entry(path, printed_line(all[k])) by {
            if k < front.len() {
                assert(s[k] == before[k]);
                assert(front[k] == all[k]);
            }
        }
    }
}

/// A listing command that failed is told by what it complained of; where it said nothing, by the
/// path.
pub proof fn law_failed_listing_is_told(path: Seq<char>, err: Seq<u8>)
    ensures
        ({
            let said = text::trimmed(utf8::lossy(err));
            listing::shell_list_failure(path, err) == if said.len() == 0 {
                "cannot list "@ + path
            } else {
                said
            }
        }),
{
}

/// A refusal for good is not tried again: one that speaks of permission, of something denied, or
/// of something that is not there.
pub proof fn law_final_refusals_are_recognised(low: Seq<char>)
    ensures
        text::has_text(low, "permission"@) ==> listing::final_refusal(low),
        text::has_text(low, "denied"@) ==> listing::final_refusal(low),
        text::has_text(low, "no such"@) ==> listing::final_refusal(low),
        listing::final_refusal(low) ==> text::has_text(low, "permission"@) || text::has_text(
            low,
            "denied"@,
        ) || text::has_text(low, "no such"@),
{
}

/// The messages for a directory that could not be read name it, and what the server said or how
/// long it was waited for.
pub proof fn law_unread_directory_is_named(path: Seq<char>, msg: Seq<char>)
    ensures
        listing::read_failed(path) == "read_dir "@ + path + " failed"@,
        listing::read_failed_because(path, msg) == "read_dir "@ + path + " failed"@ + ": "@ + msg,
        listing::read_timed_out(path) == "Connection Timeout: read_dir "@ + path + " exceeded "@
            + number::decimal(22) + "s"@,
{
}

} // verus!
