//! What the text primitives promise, said of whole texts rather than step by step.
use crate::text;
use crate::text::CharSet;
use vstd::prelude::*;

verus! {

/// Splitting loses nothing: the pieces of a text, with the character between each two, are the
/// text again, and none of them holds that character.
pub proof fn law_pieces_join_back(s: Seq<char>, c: char)
    ensures
        text::joined_with(text::pieces(s, CharSet::Only(c)), seq![c]) == s,
        forall|i: int|
            0 <= i < text::pieces(s, CharSet::Only(c)).len() ==> !(#[trigger] text::pieces(
                s,
                CharSet::Only(c),
            )[i]).contains(c),
    decreases s.len(),
{
    let set = CharSet::Only(c);
    let all = text::pieces(s, set);
    text::lemma_pieces_free(s, set);
    assert forall|i: int| 0 <= i < all.len() implies !(#[trigger] all[i]).contains(c) by {
        if all[i].contains(c) {
            let j = all[i].index_of(c);
            assert(all[i][j] == c);
            assert(!set.contains(text::pieces(s, set)[i][j]));
        }
    }
    if s.len() == 0 {
        assert(s =~= Seq::<char>::empty());
    } else {
        let front = s.drop_last();
        let before = text::pieces(front, set);
        law_pieces_join_back(front, c);
        text::lemma_pieces_nonempty(front, set);
        assert(s =~= front.push(s.last()));
        if s.last() == c {
            assert(all.drop_last() =~= before);
            assert(text::joined_with(all, seq![c]) =~= front + seq![c] + Seq::<char>::empty());
        } else {
            let grown = before.last().push(s.last());
            assert(all.drop_last() =~= before.drop_last());
            assert(all.last() == grown);
            if before.len() == 1 {
                assert(text::joined_with(all, seq![c]) == grown);
                assert(text::joined_with(before, seq![c]) == before[0]);
            } else {
                let head = text::joined_with(before.drop_last(), seq![c]) + seq![c];
                assert(head + grown =~= (head + before.last()).push(s.last()));
            }
        }
    }
}

/// Trimming takes white space off both ends, as much as there is, and nothing else.
pub proof fn law_trimming_takes_white_space(s: Seq<char>)
    ensures
        ({
            let t = text::trimmed(s);
            exists|a: int| 0 <= a && a + t.len() <= s.len() && #[trigger] s.subrange(
                a,
                a + t.len(),
            ) == t && (forall|i: int|
                0 <= i < a || a + t.len() <= i < s.len() ==> text::white_space(#[trigger] s[i]))
        }),
        text::trimmed(s).len() > 0 ==> !text::white_space(text::trimmed(s)[0])
            && !text::white_space(text::trimmed(s).last()),
{
    let ws = CharSet::WhiteSpace;
    let f = text::strip_start(s, ws);
    let t = text::trimmed(s);
    text::lemma_strip_start(s, ws);
    text::lemma_strip_end(f, ws);
    lemma_start_is_set(s, ws);
    lemma_end_is_set(f, ws);
    let a = s.len() - f.len();
    assert(s.subrange(a, a + t.len()) =~= t);
    assert forall|i: int| 0 <= i < a || a + t.len() <= i < s.len() implies text::white_space(
        #[trigger] s[i],
    ) by {
        if i >= a {
            assert(s[i] == f[i - a]);
        }
    }
    if t.len() > 0 {
        assert(t[0] == f[0]);
    }
}

/// What is taken off the start belongs to the set.
proof fn lemma_start_is_set(s: Seq<char>, set: CharSet)
    ensures
        forall|i: int|
            0 <= i < s.len() - text::strip_start(s, set).len() ==> set.contains(#[trigger] s[i]),
    decreases s.len(),
{
    text::lemma_strip_start(s, set);
    if s.len() > 0 && set.contains(s[0]) {
        let rest = s.drop_first();
        lemma_start_is_set(rest, set);
        assert forall|i: int| 0 <= i < s.len() - text::strip_start(s, set).len() implies set.contains(
            #[trigger] s[i],
        ) by {
            if i > 0 {
                assert(rest[i - 1] == s[i]);
            }
        }
    }
}

/// What is taken off the end belongs to the set.
pub proof fn lemma_end_is_set(s: Seq<char>, set: CharSet)
    ensures
        forall|i: int|
            text::strip_end(s, set).len() <= i < s.len() ==> set.contains(#[trigger] s[i]),
    decreases s.len(),
{
    text::lemma_strip_end(s, set);
    if s.len() > 0 && set.contains(s.last()) {
        let rest = s.drop_last();
        lemma_end_is_set(rest, set);
        assert forall|i: int| text::strip_end(s, set).len() <= i < s.len() implies set.contains(
            #[trigger] s[i],
        ) by {
            if i < s.len() - 1 {
                assert(rest[i] == s[i]);
            }
        }
    }
}

/// A text that neither begins nor ends with white space is not changed by trimming.
pub proof fn law_trimmed_stays(s: Seq<char>)
    requires
        s.len() > 0 ==> !text::white_space(s[0]) && !text::white_space(s.last()),
    ensures
        text::trimmed(s) == s,
{
}

/// White space is the blank, the tab, the line breaks and their relatives, and no printable
/// character of ASCII.
pub proof fn law_white_space_is_not_printed(c: char)
    ensures
        c == ' ' || c == '\t' || c == '\n' || c == '\r' || c == '\u{a0}' || c == '\u{3000}'
            ==> text::white_space(c),
        '!' <= c <= '~' ==> !text::white_space(c),
{
}

/// A text is found wherever it stands, and found only where it stands.
pub proof fn law_text_is_found(a: Seq<char>, needle: Seq<char>, b: Seq<char>, hay: Seq<char>)
    ensures
        text::has_text(a + needle + b, needle),
        text::has_text(hay, needle) ==> exists|x: Seq<char>, y: Seq<char>|
            hay == #[trigger] (x + needle + y),
{
    let s = a + needle + b;
    assert(s.subrange(a.len() as int, (a.len() + needle.len()) as int) =~= needle);
    if text::has_text(hay, needle) {
        let i = choose|i: int|
            0 <= i && i + needle.len() <= hay.len() && #[trigger] hay.subrange(
                i,
                i + needle.len(),
            ) == needle;
        let x = hay.take(i);
        let y = hay.skip(i + needle.len());
        assert(hay =~= x + hay.subrange(i, i + needle.len()) + y);
        assert(hay == x + needle + y);
    }
}

/// What stands behind a start, and what stands before an end, is what was put there.
pub proof fn law_ends_come_off(s: Seq<char>, end: Seq<char>)
    ensures
        text::before_end(s + end, end) == s,
        text::behind(end + s, end) == s,
        text::begins(end + s, end),
{
    assert((s + end).skip(s.len() as int) =~= end);
    assert((s + end).take(s.len() as int) =~= s);
    assert((end + s).take(end.len() as int) =~= end);
    assert((end + s).skip(end.len() as int) =~= s);
}

/// A text with each line behind the other, each ended by a line feed.
pub open spec fn printed(lines: Seq<Seq<char>>) -> Seq<char>
    decreases lines.len(),
{
    if lines.len() == 0 {
        Seq::empty()
    } else {
        printed(lines.drop_last()) + lines.last() + seq!['\n']
    }
}

/// Lines that were printed are read back: whatever they hold but line feeds, and a carriage
/// return at the end.
pub proof fn law_lines_are_read_back(lines: Seq<Seq<char>>)
    requires
        forall|i: int|
            0 <= i < lines.len() ==> !(#[trigger] lines[i]).contains('\n') && !(lines[i].len() > 0
                && lines[i].last() == '\r'),
    ensures
        text::lines(printed(lines)) == lines,
{
    lemma_printed_pieces(lines);
    let parts = text::pieces(printed(lines), CharSet::Only('\n'));
    assert(parts.drop_last() =~= lines);
    assert(text::lines(printed(lines)) =~= lines);
}

proof fn lemma_printed_pieces(lines: Seq<Seq<char>>)
    requires
        forall|i: int| 0 <= i < lines.len() ==> !(#[trigger] lines[i]).contains('\n'),
    ensures
        text::pieces(printed(lines), CharSet::Only('\n')) == lines.push(Seq::empty()),
    decreases lines.len(),
{
    let set = CharSet::Only('\n');
    if lines.len() == 0 {
        assert(text::pieces(printed(lines), set) =~= lines.push(Seq::empty()));
    } else {
        let front = lines.drop_last();
        let line = lines.last();
        assert forall|i: int| 0 <= i < front.len() implies !(#[trigger] front[i]).contains(
            '\n',
        ) by {
            assert(front[i] == lines[i]);
        }
        lemma_printed_pieces(front);
        assert forall|i: int| 0 <= i < line.len() implies !set.contains(#[trigger] line[i]) by {
            assert(line.contains(line[i]));
            assert(lines[lines.len() - 1] == line);
        }
        text::lemma_whole_piece(line, set);
        let before = printed(front) + line;
        assert(printed(lines) =~= before + seq!['\n'] + Seq::<char>::empty());
        text::lemma_pieces_cut(before, '\n', Seq::empty(), set);
        let none = text::pieces(Seq::<char>::empty(), set);
        assert(none =~= seq![Seq::<char>::empty()]);
        if front.len() == 0 {
            assert(before =~= line);
            assert(text::pieces(before, set) =~= lines);
        } else {
            let body = printed(front.drop_last()) + front.last();
            assert(printed(front) =~= body + seq!['\n'] + Seq::<char>::empty());
            text::lemma_pieces_cut(body, '\n', Seq::empty(), set);
            text::lemma_pieces_cut(body, '\n', line, set);
            assert(before =~= body + seq!['\n'] + line);
            assert(text::pieces(printed(front), set) == text::pieces(body, set) + none);
            assert(text::pieces(body, set) =~= text::pieces(printed(front), set).drop_last());
            assert(text::pieces(body, set) =~= front);
            assert(text::pieces(before, set) =~= lines);
        }
        assert(text::pieces(printed(lines), set) =~= lines.push(Seq::empty()));
    }
}

} // verus!
