//! Text primitives on `str`, specified over sequences of characters.
use vstd::prelude::*;

verus! {

// ---------------------------------------------------------------------------
// Std
// ---------------------------------------------------------------------------

/// `String::push` of std: appends the given character to the end of the text.
pub assume_specification[ String::push ](s: &mut String, c: char)
    ensures
        final(s)@ == old(s)@.push(c),
;

/// What `str::to_lowercase` of std makes of a text: its Unicode lower case.
pub uninterp spec fn unicode_lower(s: Seq<char>) -> Seq<char>;

/// `str::to_lowercase` of std. Its result is named; of a text that is ASCII throughout the
/// Unicode mapping is the ASCII one, and that much is claimed of it.
#[verifier::external_body]
pub(crate) fn lowercase(s: &str) -> (out: String)
    ensures
        out@ == unicode_lower(s@),
        vstd::utf8::is_ascii_chars(s@) ==> out@ == ascii_lower(s@),
{
    s.to_lowercase()
}

// ---------------------------------------------------------------------------
// Views of vectors of texts
// ---------------------------------------------------------------------------

/// The texts of a sequence of strings.
pub open spec fn texts(s: Seq<String>) -> Seq<Seq<char>> {
    s.map_values(|x: String| x@)
}

// ---------------------------------------------------------------------------
// Characters
// ---------------------------------------------------------------------------

/// The Unicode property `White_Space`.
pub open spec fn white_space(c: char) -> bool {
    let u = c as u32;
    ||| 0x09 <= u <= 0x0D
    ||| u == 0x20
    ||| u == 0x85
    ||| u == 0xA0
    ||| u == 0x1680
    ||| 0x2000 <= u <= 0x200A
    ||| u == 0x2028
    ||| u == 0x2029
    ||| u == 0x202F
    ||| u == 0x205F
    ||| u == 0x3000
}

/// Whether a character has the Unicode property `White_Space`.
pub fn is_white_space(c: char) -> (r: bool)
    ensures
        r == white_space(c),
{
    let u: u32 = c as u32;
    (0x09 <= u && u <= 0x0D) || u == 0x20 || u == 0x85 || u == 0xA0 || u == 0x1680 || (0x2000 <= u
        && u <= 0x200A) || u == 0x2028 || u == 0x2029 || u == 0x202F || u == 0x205F || u == 0x3000
}

/// A set of characters to trim by or to split at.
#[derive(Clone, Copy)]
pub enum CharSet {
    /// The characters with the property `White_Space`.
    WhiteSpace,
    /// The same, and one more character.
    WhiteSpaceOr(char),
    /// One character.
    Only(char),
    /// Two characters.
    Either(char, char),
    /// Every character but `0` to `9`.
    NotDigit,
}

impl CharSet {
    /// Membership.
    pub open spec fn contains(self, c: char) -> bool {
        match self {
            CharSet::WhiteSpace => white_space(c),
            CharSet::WhiteSpaceOr(a) => white_space(c) || c == a,
            CharSet::Only(a) => c == a,
            CharSet::Either(a, b) => c == a || c == b,
            CharSet::NotDigit => !('0' <= c <= '9'),
        }
    }

    /// Whether the set holds the character.
    pub fn has(&self, c: char) -> (r: bool)
        ensures
            r == self.contains(c),
    {
        match self {
            CharSet::WhiteSpace => is_white_space(c),
            CharSet::WhiteSpaceOr(a) => is_white_space(c) || c == *a,
            CharSet::Only(a) => c == *a,
            CharSet::Either(a, b) => c == *a || c == *b,
            CharSet::NotDigit => !('0' <= c && c <= '9'),
        }
    }
}

/// The lower-case form of an ASCII letter; any other character as it is.
pub open spec fn ascii_lower_char(c: char) -> char {
    if 'A' <= c <= 'Z' {
        ((c as u32 + 32) as u32) as char
    } else {
        c
    }
}

/// The upper-case form of an ASCII letter; any other character as it is.
pub open spec fn ascii_upper_char(c: char) -> char {
    if 'a' <= c <= 'z' {
        ((c as u32 - 32) as u32) as char
    } else {
        c
    }
}

/// A text with its ASCII letters in lower case.
pub open spec fn ascii_lower(s: Seq<char>) -> Seq<char> {
    s.map_values(|c: char| ascii_lower_char(c))
}

/// A text with its ASCII letters in upper case.
pub open spec fn ascii_upper(s: Seq<char>) -> Seq<char> {
    s.map_values(|c: char| ascii_upper_char(c))
}

fn to_lower_char(c: char) -> (r: char)
    ensures
        r == ascii_lower_char(c),
{
    if 'A' <= c && c <= 'Z' {
        ((c as u8) + 32) as char
    } else {
        c
    }
}

fn to_upper_char(c: char) -> (r: char)
    ensures
        r == ascii_upper_char(c),
{
    if 'a' <= c && c <= 'z' {
        ((c as u8) - 32) as char
    } else {
        c
    }
}

// ---------------------------------------------------------------------------
// Characters of a text, and back
// ---------------------------------------------------------------------------

/// The characters of a text, in order.
pub fn chars_of(s: &str) -> (out: Vec<char>)
    ensures
        out@ == s@,
{
    let mut out: Vec<char> = Vec::new();
    for c in it: s.chars()
        invariant
            out@ == s@.take(it.index()),
            it.seq() == s@,
    {
        out.push(c);
        assert(s@.take(it.index() + 1) == s@.take(it.index()).push(c));
    }
    assert(s@.take(s@.len() as int) == s@);
    out
}

/// The text of the characters from `from` up to `to`.
pub fn piece(chars: &[char], from: usize, to: usize) -> (out: String)
    requires
        from <= to <= chars@.len(),
    ensures
        out@ == chars@.subrange(from as int, to as int),
{
    let mut out = String::new();
    let mut i: usize = from;
    while i < to
        invariant
            from <= i <= to <= chars@.len(),
            out@ == chars@.subrange(from as int, i as int),
        decreases to - i,
    {
        out.push(chars[i]);
        i = i + 1;
        assert(chars@.subrange(from as int, i as int) == chars@.subrange(from as int, i - 1).push(
            chars@[i - 1],
        ));
    }
    out
}

/// The text made of the given characters.
pub fn text_of(chars: &[char]) -> (out: String)
    ensures
        out@ == chars@,
{
    let out = piece(chars, 0, chars.len());
    assert(chars@.subrange(0, chars@.len() as int) == chars@);
    out
}

fn same_chars(a: &[char], b: &[char]) -> (r: bool)
    ensures
        r == (a@ == b@),
{
    if a.len() != b.len() {
        return false;
    }
    let mut i: usize = 0;
    while i < a.len()
        invariant
            i <= a@.len(),
            a@.len() == b@.len(),
            forall|j: int| 0 <= j < i ==> a@[j] == b@[j],
        decreases a@.len() - i,
    {
        if a[i] != b[i] {
            return false;
        }
        i = i + 1;
    }
    assert(a@ =~= b@);
    true
}

/// Whether two texts hold the same characters.
pub fn same_text(a: &str, b: &str) -> (r: bool)
    ensures
        r == (a@ == b@),
{
    let x = chars_of(a);
    let y = chars_of(b);
    same_chars(&x, &y)
}

// ---------------------------------------------------------------------------
// Case
// ---------------------------------------------------------------------------

/// The text with its ASCII letters in lower case.
pub fn to_ascii_lower(s: &str) -> (out: String)
    ensures
        out@ == ascii_lower(s@),
{
    let chars = chars_of(s);
    let mut out = String::new();
    let mut i: usize = 0;
    while i < chars.len()
        invariant
            i <= chars@.len(),
            out@ == ascii_lower(chars@.take(i as int)),
        decreases chars@.len() - i,
    {
        out.push(to_lower_char(chars[i]));
        i = i + 1;
        assert(chars@.take(i as int) == chars@.take(i - 1).push(chars@[i - 1]));
        assert(ascii_lower(chars@.take(i as int)) == out@);
    }
    assert(chars@.take(chars@.len() as int) == chars@);
    out
}

/// The text with its ASCII letters in upper case.
pub fn to_ascii_upper(s: &str) -> (out: String)
    ensures
        out@ == ascii_upper(s@),
{
    let chars = chars_of(s);
    let mut out = String::new();
    let mut i: usize = 0;
    while i < chars.len()
        invariant
            i <= chars@.len(),
            out@ == ascii_upper(chars@.take(i as int)),
        decreases chars@.len() - i,
    {
        out.push(to_upper_char(chars[i]));
        i = i + 1;
        assert(chars@.take(i as int) == chars@.take(i - 1).push(chars@[i - 1]));
        assert(ascii_upper(chars@.take(i as int)) == out@);
    }
    assert(chars@.take(chars@.len() as int) == chars@);
    out
}

// ---------------------------------------------------------------------------
// Trimming
// ---------------------------------------------------------------------------

/// The text without the leading characters that the set holds.
pub open spec fn strip_start(s: Seq<char>, set: CharSet) -> Seq<char>
    decreases s.len(),
{
    if s.len() > 0 && set.contains(s[0]) {
        strip_start(s.drop_first(), set)
    } else {
        s
    }
}

/// The text without the trailing characters that the set holds.
pub open spec fn strip_end(s: Seq<char>, set: CharSet) -> Seq<char>
    decreases s.len(),
{
    if s.len() > 0 && set.contains(s.last()) {
        strip_end(s.drop_last(), set)
    } else {
        s
    }
}

/// The text without white space at either end.
pub open spec fn trimmed(s: Seq<char>) -> Seq<char> {
    strip_end(strip_start(s, CharSet::WhiteSpace), CharSet::WhiteSpace)
}

/// Stripping the end leaves a front part that does not end in a character of the set.
pub proof fn lemma_strip_end(s: Seq<char>, set: CharSet)
    ensures
        strip_end(s, set).len() <= s.len(),
        strip_end(s, set) == s.take(strip_end(s, set).len() as int),
        strip_end(s, set).len() > 0 ==> !set.contains(strip_end(s, set).last()),
    decreases s.len(),
{
    if s.len() > 0 && set.contains(s.last()) {
        lemma_strip_end(s.drop_last(), set);
        let r = strip_end(s, set);
        assert(s.drop_last().take(r.len() as int) == s.take(r.len() as int));
    } else {
        assert(s.take(s.len() as int) == s);
    }
}

/// Stripping the start leaves a back part that does not begin with a character of the set.
pub proof fn lemma_strip_start(s: Seq<char>, set: CharSet)
    ensures
        strip_start(s, set).len() <= s.len(),
        strip_start(s, set) == s.skip(s.len() - strip_start(s, set).len()),
        strip_start(s, set).len() > 0 ==> !set.contains(strip_start(s, set)[0]),
    decreases s.len(),
{
    if s.len() > 0 && set.contains(s[0]) {
        lemma_strip_start(s.drop_first(), set);
        let r = strip_start(s, set);
        assert(s.drop_first().skip(s.len() - 1 - r.len()) == s.skip(s.len() - r.len()));
    } else {
        assert(s.skip(0) == s);
    }
}

/// Trimming and lower case can change places: no letter is white space.
pub proof fn lemma_trim_lower(s: Seq<char>)
    ensures
        ascii_lower(trimmed(s)) == trimmed(ascii_lower(s)),
{
    lemma_strip_start_lower(s);
    lemma_strip_end_lower(strip_start(s, CharSet::WhiteSpace));
}

proof fn lemma_strip_start_lower(s: Seq<char>)
    ensures
        ascii_lower(strip_start(s, CharSet::WhiteSpace)) == strip_start(
            ascii_lower(s),
            CharSet::WhiteSpace,
        ),
    decreases s.len(),
{
    if s.len() > 0 && white_space(s[0]) {
        lemma_strip_start_lower(s.drop_first());
        assert(ascii_lower(s).drop_first() =~= ascii_lower(s.drop_first()));
    }
}

proof fn lemma_strip_end_lower(s: Seq<char>)
    ensures
        ascii_lower(strip_end(s, CharSet::WhiteSpace)) == strip_end(
            ascii_lower(s),
            CharSet::WhiteSpace,
        ),
    decreases s.len(),
{
    if s.len() > 0 && white_space(s.last()) {
        lemma_strip_end_lower(s.drop_last());
        assert(ascii_lower(s).drop_last() =~= ascii_lower(s.drop_last()));
    }
}

fn start_of(chars: &[char], set: CharSet) -> (from: usize)
    ensures
        from <= chars@.len(),
        chars@.skip(from as int) == strip_start(chars@, set),
{
    let mut from: usize = 0;
    assert(chars@.skip(0) == chars@);
    while from < chars.len() && set.has(chars[from])
        invariant
            from <= chars@.len(),
            strip_start(chars@.skip(from as int), set) == strip_start(chars@, set),
        decreases chars@.len() - from,
    {
        assert(chars@.skip(from as int).drop_first() == chars@.skip(from + 1));
        from = from + 1;
    }
    from
}

fn end_of(chars: &[char], from: usize, set: CharSet) -> (to: usize)
    requires
        from <= chars@.len(),
    ensures
        from <= to <= chars@.len(),
        chars@.subrange(from as int, to as int) == strip_end(chars@.skip(from as int), set),
{
    let mut to: usize = chars.len();
    assert(chars@.subrange(from as int, to as int) == chars@.skip(from as int));
    while to > from && set.has(chars[to - 1])
        invariant
            from <= to <= chars@.len(),
            strip_end(chars@.subrange(from as int, to as int), set) == strip_end(
                chars@.skip(from as int),
                set,
            ),
        decreases to,
    {
        assert(chars@.subrange(from as int, to as int).drop_last() == chars@.subrange(
            from as int,
            to - 1,
        ));
        to = to - 1;
    }
    to
}

/// The text without white space at either end.
pub fn trim(s: &str) -> (out: String)
    ensures
        out@ == trimmed(s@),
{
    let chars = chars_of(s);
    let from: usize = start_of(&chars, CharSet::WhiteSpace);
    let to: usize = end_of(&chars, from, CharSet::WhiteSpace);
    piece(&chars, from, to)
}

/// The text without the leading characters that the set holds.
pub fn trim_start(s: &str, set: CharSet) -> (out: String)
    ensures
        out@ == strip_start(s@, set),
{
    let chars = chars_of(s);
    let from: usize = start_of(&chars, set);
    let out = piece(&chars, from, chars.len());
    assert(chars@.subrange(from as int, chars@.len() as int) == chars@.skip(from as int));
    out
}

/// The text without the trailing characters that the set holds.
pub fn trim_end(s: &str, set: CharSet) -> (out: String)
    ensures
        out@ == strip_end(s@, set),
{
    let chars = chars_of(s);
    let to: usize = end_of(&chars, 0, set);
    assert(chars@.skip(0) == chars@);
    piece(&chars, 0, to)
}

// ---------------------------------------------------------------------------
// Splitting
// ---------------------------------------------------------------------------

/// The pieces of a text between the characters that the set holds: one more than there are such
/// characters in it.
pub open spec fn pieces(s: Seq<char>, set: CharSet) -> Seq<Seq<char>>
    decreases s.len(),
{
    if s.len() == 0 {
        seq![Seq::empty()]
    } else {
        let before = pieces(s.drop_last(), set);
        if set.contains(s.last()) {
            before.push(Seq::empty())
        } else {
            before.drop_last().push(before.last().push(s.last()))
        }
    }
}

/// A text has at least one piece.
pub proof fn lemma_pieces_nonempty(s: Seq<char>, set: CharSet)
    ensures
        pieces(s, set).len() >= 1,
    decreases s.len(),
{
    if s.len() > 0 {
        lemma_pieces_nonempty(s.drop_last(), set);
    }
}

/// The first piece begins as the text does.
pub proof fn lemma_first_piece(s: Seq<char>, set: CharSet)
    requires
        s.len() > 0,
        !set.contains(s[0]),
    ensures
        pieces(s, set)[0].len() > 0,
        pieces(s, set)[0][0] == s[0],
    decreases s.len(),
{
    let front = s.drop_last();
    lemma_pieces_nonempty(front, set);
    if front.len() > 0 {
        lemma_first_piece(front, set);
    } else {
        assert(pieces(front, set) == seq![Seq::<char>::empty()]);
        assert(pieces(s, set)[0] == Seq::<char>::empty().push(s[0]));
    }
}

/// A text without a character of the set is its only piece.
pub proof fn lemma_whole_piece(s: Seq<char>, set: CharSet)
    requires
        forall|i: int| 0 <= i < s.len() ==> !set.contains(#[trigger] s[i]),
    ensures
        pieces(s, set) == seq![s],
    decreases s.len(),
{
    if s.len() > 0 {
        assert forall|i: int| 0 <= i < s.drop_last().len() implies !set.contains(
            #[trigger] s.drop_last()[i],
        ) by {
            assert(s.drop_last()[i] == s[i]);
        }
        lemma_whole_piece(s.drop_last(), set);
        assert(s.drop_last().push(s.last()) == s);
        assert(pieces(s, set) == seq![s]);
    } else {
        assert(s == Seq::<char>::empty());
    }
}

/// No piece holds a character of the set.
pub proof fn lemma_pieces_free(s: Seq<char>, set: CharSet)
    ensures
        forall|i: int, j: int|
            0 <= i < pieces(s, set).len() && 0 <= j < pieces(s, set)[i].len() ==> !set.contains(
                #[trigger] pieces(s, set)[i][j],
            ),
    decreases s.len(),
{
    if s.len() > 0 {
        lemma_pieces_free(s.drop_last(), set);
        lemma_pieces_nonempty(s.drop_last(), set);
        let before = pieces(s.drop_last(), set);
        assert forall|i: int, j: int|
            0 <= i < pieces(s, set).len() && 0 <= j < pieces(s, set)[i].len() implies !set.contains(
            #[trigger] pieces(s, set)[i][j],
        ) by {
            if i < before.len() && j < before[i].len() {
                assert(pieces(s, set)[i][j] == before[i][j]);
            }
        }
    }
}

/// The pieces of a text between the characters that the set holds.
pub fn split(s: &str, set: CharSet) -> (out: Vec<String>)
    ensures
        texts(out@) == pieces(s@, set),
        out@.len() >= 1,
{
    let chars = chars_of(s);
    let mut out: Vec<String> = Vec::new();
    let mut last = String::new();
    let mut i: usize = 0;
    assert(chars@.take(0) == Seq::<char>::empty());
    assert(texts(out@).push(last@) == pieces(chars@.take(0), set));
    while i < chars.len()
        invariant
            i <= chars@.len(),
            texts(out@).push(last@) == pieces(chars@.take(i as int), set),
        decreases chars@.len() - i,
    {
        let ghost before = texts(out@).push(last@);
        assert(before.last() == last@);
        assert(before.drop_last() == texts(out@));
        assert(chars@.take(i + 1).drop_last() == chars@.take(i as int));
        assert(chars@.take(i + 1).last() == chars@[i as int]);
        if set.has(chars[i]) {
            out.push(last);
            last = String::new();
            assert(texts(out@) == before);
        } else {
            last.push(chars[i]);
        }
        i = i + 1;
        assert(texts(out@).push(last@) == pieces(chars@.take(i as int), set));
    }
    let ghost before = texts(out@);
    out.push(last);
    assert(texts(out@) == before.push(last@));
    assert(chars@.take(chars@.len() as int) == chars@);
    out
}

/// The lines of a text: its pieces between line feeds, each without one carriage return before
/// the line feed. A last piece that no line feed ends is a line when it is not empty, and keeps a
/// carriage return.
pub open spec fn lines(s: Seq<char>) -> Seq<Seq<char>> {
    let parts = pieces(s, CharSet::Only('\n'));
    let ended = parts.drop_last().map_values(|p: Seq<char>| without_return(p));
    if parts.last().len() == 0 {
        ended
    } else {
        ended.push(parts.last())
    }
}

/// A line without one carriage return at its end.
pub open spec fn without_return(s: Seq<char>) -> Seq<char> {
    if s.len() > 0 && s.last() == '\r' {
        s.drop_last()
    } else {
        s
    }
}

fn drop_return(s: &str) -> (out: String)
    ensures
        out@ == without_return(s@),
{
    let chars = chars_of(s);
    if chars.len() > 0 && chars[chars.len() - 1] == '\r' {
        let out = piece(&chars, 0, chars.len() - 1);
        assert(chars@.subrange(0, chars@.len() - 1) == chars@.drop_last());
        out
    } else {
        text_of(&chars)
    }
}

/// The lines of a text.
pub fn split_lines(s: &str) -> (out: Vec<String>)
    ensures
        texts(out@) == lines(s@),
{
    let parts = split(s, CharSet::Only('\n'));
    let mut out: Vec<String> = Vec::new();
    let ghost all = texts(parts@);
    let ghost ended = all.drop_last().map_values(|p: Seq<char>| without_return(p));
    let n: usize = parts.len() - 1;
    let mut i: usize = 0;
    while i < n
        invariant
            i <= n,
            n + 1 == parts@.len(),
            all == texts(parts@),
            ended == all.drop_last().map_values(|p: Seq<char>| without_return(p)),
            texts(out@) == ended.take(i as int),
        decreases n - i,
    {
        let line = drop_return(parts[i].as_str());
        assert(all[i as int] == parts@[i as int]@);
        let ghost before = texts(out@);
        out.push(line);
        assert(texts(out@) == before.push(line@));
        i = i + 1;
        assert(ended.take(i as int) == ended.take(i - 1).push(ended[i - 1]));
    }
    assert(ended.take(n as int) == ended);
    assert(all.last() == parts@[n as int]@);
    if parts[n].as_str().is_empty() {
    } else {
        out.push(parts[n].clone());
        assert(texts(out@) == ended.push(all.last()));
    }
    out
}

// ---------------------------------------------------------------------------
// Searching
// ---------------------------------------------------------------------------

/// Whether `needle` stands somewhere in `hay`.
pub open spec fn has_text(hay: Seq<char>, needle: Seq<char>) -> bool {
    exists|i: int|
        0 <= i && i + needle.len() <= hay.len() && #[trigger] hay.subrange(i, i + needle.len())
            == needle
}

/// Whether `hay` begins with `start`.
pub open spec fn begins(hay: Seq<char>, start: Seq<char>) -> bool {
    start.len() <= hay.len() && hay.take(start.len() as int) == start
}

fn matches_at(hay: &[char], at: usize, needle: &[char]) -> (r: bool)
    requires
        at + needle@.len() <= hay@.len(),
    ensures
        r == (hay@.subrange(at as int, at + needle@.len()) == needle@),
{
    let size: usize = hay.len();
    let mut j: usize = 0;
    while j < needle.len()
        invariant
            j <= needle@.len(),
            at + needle@.len() <= hay@.len(),
            size == hay@.len(),
            forall|k: int| 0 <= k < j ==> hay@[at + k] == needle@[k],
        decreases needle@.len() - j,
    {
        if hay[at + j] != needle[j] {
            assert(hay@.subrange(at as int, at + needle@.len())[j as int] != needle@[j as int]);
            return false;
        }
        j = j + 1;
    }
    assert(hay@.subrange(at as int, at + needle@.len()) =~= needle@);
    true
}

/// Whether `needle` stands somewhere in `hay`.
pub fn contains(hay: &str, needle: &str) -> (r: bool)
    ensures
        r == has_text(hay@, needle@),
{
    let h = chars_of(hay);
    let n = chars_of(needle);
    if n.len() > h.len() {
        return false;
    }
    let last: usize = h.len() - n.len();
    let mut i: usize = 0;
    while i <= last
        invariant
            last + n@.len() == h@.len(),
            h@ == hay@,
            n@ == needle@,
            i <= last + 1,
            forall|k: int|
                0 <= k < i ==> #[trigger] hay@.subrange(k, k + needle@.len()) != needle@,
        decreases last + 1 - i,
    {
        if matches_at(&h, i, &n) {
            return true;
        }
        if i == last {
            return false;
        }
        i = i + 1;
    }
    false
}

/// Whether `hay` begins with `start`.
pub fn starts_with(hay: &str, start: &str) -> (r: bool)
    ensures
        r == begins(hay@, start@),
{
    let h = chars_of(hay);
    let n = chars_of(start);
    if n.len() > h.len() {
        return false;
    }
    assert(h@.subrange(0, n@.len() as int) == h@.take(n@.len() as int));
    matches_at(&h, 0, &n)
}

/// Whether a character stands somewhere in a text.
pub fn has_char(s: &str, c: char) -> (r: bool)
    ensures
        r == s@.contains(c),
{
    let chars = chars_of(s);
    let mut i: usize = 0;
    while i < chars.len()
        invariant
            i <= chars@.len(),
            chars@ == s@,
            forall|k: int| 0 <= k < i ==> chars@[k] != c,
        decreases chars@.len() - i,
    {
        if chars[i] == c {
            return true;
        }
        i = i + 1;
    }
    false
}

/// Whether one of the needles stands somewhere in `hay`.
pub open spec fn has_any(hay: Seq<char>, needles: Seq<&str>) -> bool {
    exists|i: int| 0 <= i < needles.len() && has_text(hay, #[trigger] needles[i]@)
}

/// Whether one of the needles stands somewhere in `hay`.
pub fn contains_any(hay: &str, needles: &[&str]) -> (r: bool)
    ensures
        r == has_any(hay@, needles@),
{
    let mut i: usize = 0;
    while i < needles.len()
        invariant
            i <= needles@.len(),
            forall|k: int| 0 <= k < i ==> !has_text(hay@, #[trigger] needles@[k]@),
        decreases needles@.len() - i,
    {
        if contains(hay, needles[i]) {
            return true;
        }
        i = i + 1;
    }
    false
}

// ---------------------------------------------------------------------------
// Replacing
// ---------------------------------------------------------------------------

/// A text in which one character stands in place of another.
pub open spec fn swapped(s: Seq<char>, from: char, to: char) -> Seq<char> {
    s.map_values(|c: char| if c == from { to } else { c })
}

/// The text with `to` in place of each `from`.
pub fn swap_char(s: &str, from: char, to: char) -> (out: String)
    ensures
        out@ == swapped(s@, from, to),
{
    let chars = chars_of(s);
    let mut out = String::new();
    let mut i: usize = 0;
    while i < chars.len()
        invariant
            i <= chars@.len(),
            out@ == swapped(chars@.take(i as int), from, to),
        decreases chars@.len() - i,
    {
        let c = chars[i];
        out.push(if c == from { to } else { c });
        i = i + 1;
        assert(swapped(chars@.take(i as int), from, to) == out@);
    }
    assert(chars@.take(chars@.len() as int) == chars@);
    out
}

/// A text in which another text stands in place of a character.
pub open spec fn expanded(s: Seq<char>, from: char, to: Seq<char>) -> Seq<char>
    decreases s.len(),
{
    if s.len() == 0 {
        Seq::empty()
    } else if s.last() == from {
        expanded(s.drop_last(), from, to) + to
    } else {
        expanded(s.drop_last(), from, to).push(s.last())
    }
}

/// The text with `to` in place of each `from`.
pub fn expand_char(s: &str, from: char, to: &str) -> (out: String)
    ensures
        out@ == expanded(s@, from, to@),
{
    let chars = chars_of(s);
    let mut out = String::new();
    let mut i: usize = 0;
    while i < chars.len()
        invariant
            i <= chars@.len(),
            out@ == expanded(chars@.take(i as int), from, to@),
        decreases chars@.len() - i,
    {
        assert(chars@.take(i + 1).drop_last() == chars@.take(i as int));
        let c = chars[i];
        if c == from {
            out.append(to);
        } else {
            out.push(c);
        }
        i = i + 1;
    }
    assert(chars@.take(chars@.len() as int) == chars@);
    out
}

// ---------------------------------------------------------------------------
// Joining
// ---------------------------------------------------------------------------

/// The two texts, one behind the other.
pub fn join2(a: &str, b: &str) -> (out: String)
    ensures
        out@ == a@ + b@,
{
    let mut out = String::new();
    out.append(a);
    out.append(b);
    assert(out@ == a@ + b@);
    out
}

/// The three texts, one behind the other.
pub fn join3(a: &str, b: &str, c: &str) -> (out: String)
    ensures
        out@ == a@ + b@ + c@,
{
    let mut out = join2(a, b);
    out.append(c);
    out
}

/// The four texts, one behind the other.
pub fn join4(a: &str, b: &str, c: &str, d: &str) -> (out: String)
    ensures
        out@ == a@ + b@ + c@ + d@,
{
    let mut out = join3(a, b, c);
    out.append(d);
    out
}

/// A text that holds another one holds each of its characters.
pub proof fn lemma_has_text(hay: Seq<char>, needle: Seq<char>, at: int)
    requires
        has_text(hay, needle),
        0 <= at < needle.len(),
    ensures
        hay.contains(needle[at]),
{
    let i = choose|i: int|
        0 <= i && i + needle.len() <= hay.len() && #[trigger] hay.subrange(
            i,
            i + needle.len(),
        ) == needle;
    assert(hay.subrange(i, i + needle.len())[at] == hay[i + at]);
}

/// A beginning without a character of the set goes into the first piece.
pub proof fn lemma_pieces_behind(a: Seq<char>, b: Seq<char>, set: CharSet)
    requires
        forall|i: int| 0 <= i < a.len() ==> !set.contains(#[trigger] a[i]),
    ensures
        pieces(b, set).len() > 0,
        pieces(a + b, set) == pieces(b, set).update(0, a + pieces(b, set)[0]),
    decreases b.len(),
{
    lemma_pieces_nonempty(b, set);
    if b.len() == 0 {
        lemma_whole_piece(a, set);
        assert(a + b =~= a);
        assert(a + Seq::<char>::empty() =~= a);
    } else {
        let front = b.drop_last();
        lemma_pieces_behind(a, front, set);
        assert((a + b).drop_last() =~= a + front);
        let before = pieces(front, set);
        if !set.contains(b.last()) {
            assert((a + before[0]).push(b.last()) =~= a + before[0].push(b.last()));
        }
        assert(pieces(a + b, set) =~= pieces(b, set).update(0, a + pieces(b, set)[0]));
    }
}

/// A character of the set cuts a text: its pieces are those before and those behind.
pub proof fn lemma_pieces_cut(a: Seq<char>, c: char, b: Seq<char>, set: CharSet)
    requires
        set.contains(c),
    ensures
        pieces(a + seq![c] + b, set) == pieces(a, set) + pieces(b, set),
    decreases b.len(),
{
    let whole = a + seq![c] + b;
    if b.len() == 0 {
        assert(whole.drop_last() =~= a);
        assert(pieces(b, set) =~= seq![Seq::<char>::empty()]);
        assert(pieces(whole, set) =~= pieces(a, set) + pieces(b, set));
    } else {
        assert(whole.drop_last() =~= a + seq![c] + b.drop_last());
        assert(whole.last() == b.last());
        lemma_pieces_cut(a, c, b.drop_last(), set);
        lemma_pieces_nonempty(b.drop_last(), set);
        let front = pieces(a, set) + pieces(b.drop_last(), set);
        assert(front.last() == pieces(b.drop_last(), set).last());
        assert(pieces(whole, set) =~= pieces(a, set) + pieces(b, set));
    }
}

/// The texts of a list with a separator between each two.
pub open spec fn joined_with(list: Seq<Seq<char>>, sep: Seq<char>) -> Seq<char>
    decreases list.len(),
{
    if list.len() == 0 {
        Seq::empty()
    } else if list.len() == 1 {
        list[0]
    } else {
        joined_with(list.drop_last(), sep) + sep + list.last()
    }
}

/// The texts of a list, from position `from` on, with a separator between each two.
pub fn join_from(list: &Vec<String>, from: usize, sep: &str) -> (out: String)
    requires
        from <= list@.len(),
    ensures
        out@ == joined_with(texts(list@).skip(from as int), sep@),
{
    let ghost all = texts(list@).skip(from as int);
    let mut out = String::new();
    let mut i: usize = from;
    assert(all.take(0) == Seq::<Seq<char>>::empty());
    while i < list.len()
        invariant
            from <= i <= list@.len(),
            all == texts(list@).skip(from as int),
            out@ == joined_with(all.take(i - from), sep@),
        decreases list@.len() - i,
    {
        assert(all[i - from] == list@[i as int]@);
        assert(all.take(i - from + 1).drop_last() == all.take(i - from));
        let ghost before = out@;
        if i > from {
            out.append(sep);
            out.append(list[i].as_str());
            assert(out@ == before + sep@ + list@[i as int]@);
        } else {
            out.append(list[i].as_str());
            assert(out@ == list@[i as int]@);
        }
        i = i + 1;
    }
    assert(all.take(all.len() as int) == all);
    out
}

/// The texts of a list with a separator between each two.
pub fn join_all(list: &Vec<String>, sep: &str) -> (out: String)
    ensures
        out@ == joined_with(texts(list@), sep@),
{
    assert(texts(list@).skip(0) == texts(list@));
    join_from(list, 0, sep)
}

/// What stands behind a start that a text has; the whole text where it has another start.
pub open spec fn behind(s: Seq<char>, start: Seq<char>) -> Seq<char> {
    if begins(s, start) {
        s.skip(start.len() as int)
    } else {
        s
    }
}

/// What stands behind a start that a text has; the whole text where it has another start.
pub fn drop_start(s: &str, start: &str) -> (out: String)
    ensures
        out@ == behind(s@, start@),
{
    if starts_with(s, start) {
        let chars = chars_of(s);
        let first = chars_of(start);
        assert(s@.subrange(start@.len() as int, s@.len() as int) =~= s@.skip(start@.len() as int));
        piece(chars.as_slice(), first.len(), chars.len())
    } else {
        s.to_string()
    }
}

/// A text without an end that it may have.
pub open spec fn before_end(s: Seq<char>, end: Seq<char>) -> Seq<char> {
    if s.len() >= end.len() && s.skip(s.len() - end.len()) == end {
        s.take(s.len() - end.len())
    } else {
        s
    }
}

/// A text without an end that it may have.
pub fn drop_end(s: &str, end: &str) -> (out: String)
    ensures
        out@ == before_end(s@, end@),
{
    let chars = chars_of(s);
    let last = chars_of(end);
    if chars.len() >= last.len() {
        let cut: usize = chars.len() - last.len();
        assert(s@.subrange(cut as int, s@.len() as int) =~= s@.skip(cut as int));
        let tail = piece(chars.as_slice(), cut, chars.len());
        if same_text(tail.as_str(), end) {
            assert(s@.subrange(0, cut as int) =~= s@.take(cut as int));
            return piece(chars.as_slice(), 0, cut);
        }
    }
    s.to_string()
}

/// Whether a list holds a text.
pub fn list_has(list: &Vec<String>, s: &str) -> (r: bool)
    ensures
        r == texts(list@).contains(s@),
{
    let ghost all = texts(list@);
    let mut i: usize = 0;
    while i < list.len()
        invariant
            i <= list@.len(),
            all == texts(list@),
            forall|k: int| 0 <= k < i ==> #[trigger] all[k] != s@,
        decreases list@.len() - i,
    {
        assert(all[i as int] == list@[i as int]@);
        if same_text(list[i].as_str(), s) {
            return true;
        }
        i = i + 1;
    }
    false
}

/// Appending a text to a list appends it to the contents.
pub broadcast proof fn lemma_texts_push(s: Seq<String>, x: String)
    ensures
        #[trigger] texts(s.push(x)) == texts(s).push(x@),
{
    assert(texts(s.push(x)) =~= texts(s).push(x@));
}

} // verus!
