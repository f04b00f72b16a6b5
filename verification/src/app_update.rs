//! Finding out whether there is a newer release.
use crate::number;
use crate::text;
use crate::text::CharSet;
use crate::text_laws;
use vstd::prelude::*;

verus! {

pub const REPO_URL: &'static str = "https://github.com/OnlyChallenger/probe-shell";

pub const RELEASE_URL: &'static str =
    "https://github.com/OnlyChallenger/probe-shell/releases/latest";

pub const RELEASE_API_URL: &'static str =
    "https://api.github.com/repos/OnlyChallenger/probe-shell/releases/latest";

pub const USER_AGENT: &'static str = "probe-shell-update-check";

/// The version of this package.
pub const CURRENT_VERSION: &'static str = "0.5.2";

// ---------------------------------------------------------------------------
// Versions
// ---------------------------------------------------------------------------

/// The number that a part of a version is.
pub open spec fn part_number(s: Seq<char>) -> Option<nat> {
    number::number_in(s, 10, u32::MAX as nat)
}

/// The digits at the start of a part.
pub open spec fn leading_digits(s: Seq<char>) -> Seq<char> {
    text::pieces(s, CharSet::NotDigit)[0]
}

/// Whether a part has nothing behind its leading digits.
pub open spec fn only_digits(s: Seq<char>) -> bool {
    text::pieces(s, CharSet::NotDigit).len() == 1
}

/// The version that a tag names: three numbers between dots, with any number of `v` before them.
/// The third may have a suffix, which is passed over; a fourth number makes it another thing.
pub open spec fn version_of(tag: Seq<char>) -> Option<(nat, nat, nat)> {
    let parts = text::pieces(
        text::strip_start(text::trimmed(tag), CharSet::Only('v')),
        CharSet::Only('.'),
    );
    if parts.len() < 3 || (parts.len() > 3 && only_digits(parts[2])) {
        None
    } else {
        match (part_number(parts[0]), part_number(parts[1]), part_number(leading_digits(parts[2]))) {
            (Some(a), Some(b), Some(c)) => Some((a, b, c)),
            _ => None,
        }
    }
}

/// The contents of an optional version.
pub open spec fn version_view(v: Option<(u32, u32, u32)>) -> Option<(nat, nat, nat)> {
    match v {
        Some(t) => Some((t.0 as nat, t.1 as nat, t.2 as nat)),
        None => None,
    }
}

fn parse_part(s: &str) -> (out: Option<u32>)
    ensures
        match part_number(s@) {
            Some(n) => out is Some && out->0 as nat == n,
            None => out is None,
        },
{
    match number::parse_number(s, 10, u32::MAX as u64) {
        Some(n) => Some(n as u32),
        None => None,
    }
}

/// Parses a tag such as `v1.2.3` or `1.2.3` into numbers that can be compared. `None` where it
/// is no version of three numbers. A suffix of the third, as in `1.2.3-rc1`, is tolerated.
pub fn parse_version(s: &str) -> (out: Option<(u32, u32, u32)>)
    ensures
        version_view(out) == version_of(s@),
{
    let t = text::trim(s);
    let bare = text::trim_start(t.as_str(), CharSet::Only('v'));
    let parts = text::split(bare.as_str(), CharSet::Only('.'));
    let ghost all = text::texts(parts@);
    if parts.len() < 3 {
        return None;
    }
    assert(all[0] == parts@[0]@ && all[1] == parts@[1]@ && all[2] == parts@[2]@);
    let third = text::split(parts[2].as_str(), CharSet::NotDigit);
    assert(text::texts(third@)[0] == third@[0]@);
    if parts.len() > 3 && third.len() == 1 {
        return None;
    }
    let a = parse_part(parts[0].as_str());
    let b = parse_part(parts[1].as_str());
    let c = parse_part(third[0].as_str());
    match (a, b, c) {
        (Some(a), Some(b), Some(c)) => Some((a, b, c)),
        _ => None,
    }
}

/// Whether a version is later than another one.
pub open spec fn later(a: (nat, nat, nat), b: (nat, nat, nat)) -> bool {
    a.0 > b.0 || (a.0 == b.0 && (a.1 > b.1 || (a.1 == b.1 && a.2 > b.2)))
}

/// Whether a tag names a later version than another one; not where one of them names none.
pub open spec fn newer(tag: Seq<char>, current: Seq<char>) -> bool {
    match (version_of(tag), version_of(current)) {
        (Some(a), Some(b)) => later(a, b),
        _ => false,
    }
}

/// Whether a tag names a later version than another one.
pub fn is_newer_than(tag: &str, current: &str) -> (r: bool)
    ensures
        r == newer(tag@, current@),
{
    match (parse_version(tag), parse_version(current)) {
        (Some(a), Some(b)) => a.0 > b.0 || (a.0 == b.0 && (a.1 > b.1 || (a.1 == b.1 && a.2 > b.2))),
        _ => false,
    }
}

/// Whether a tag names a later version than this package has.
pub fn is_newer_than_current(tag: &str) -> (r: bool)
    ensures
        r == newer(tag@, CURRENT_VERSION@),
{
    is_newer_than(tag, CURRENT_VERSION)
}

/// Of two tags at most one is newer than the other, and none is newer than itself: following
/// updates never goes round in a circle.
pub proof fn law_newer_is_an_order(a: Seq<char>, b: Seq<char>, c: Seq<char>)
    ensures
        !(newer(a, b) && newer(b, a)),
        !newer(a, a),
        newer(a, b) && newer(b, c) ==> newer(a, c),
{
}

/// A version in digits and dots.
pub open spec fn dotted(v: (nat, nat, nat)) -> Seq<char> {
    number::decimal(v.0) + "."@ + number::decimal(v.1) + "."@ + number::decimal(v.2)
}

/// Whether a text can stand behind a version: it does not go on with a digit or a dot, and has no
/// white space at its ends.
pub open spec fn is_suffix(s: Seq<char>) -> bool {
    s.len() > 0 ==> !('0' <= s[0] <= '9') && s[0] != '.' && !text::white_space(s[0])
        && !text::white_space(s.last())
}

/// Reading back a version that was written gives the version, with a `v` before it or without,
/// and with a suffix behind it or without.
pub proof fn law_version_round_trip(v: (nat, nat, nat), suffix: Seq<char>)
    requires
        v.0 <= u32::MAX,
        v.1 <= u32::MAX,
        v.2 <= u32::MAX,
        is_suffix(suffix),
    ensures
        version_of(dotted(v) + suffix) == Some(v),
        version_of("v"@ + dotted(v) + suffix) == Some(v),
{
    reveal_strlit("v");
    let (a, b, c) = (number::decimal(v.0), number::decimal(v.1), number::decimal(v.2));
    let bare = dotted(v) + suffix;
    let marked = "v"@ + dotted(v) + suffix;
    number::lemma_decimal(v.0);
    number::lemma_decimal(v.2);
    assert(bare[0] == a[0]);
    if suffix.len() == 0 {
        assert(bare.last() == c.last());
        assert(c[c.len() - 1] == c.last());
    } else {
        assert(bare.last() == suffix.last());
    }
    assert(text::trimmed(bare) == bare);
    assert(text::strip_start(bare, CharSet::Only('v')) == bare);
    assert(marked[0] == 'v' && marked.last() == bare.last());
    assert(text::trimmed(marked) == marked);
    assert(marked.drop_first() =~= bare);
    assert(text::strip_start(marked, CharSet::Only('v')) == bare);
    lemma_parts(v, suffix);
    number::law_number_round_trip(v.0, 10, u32::MAX as nat);
    number::law_number_round_trip(v.1, 10, u32::MAX as nat);
    number::law_number_round_trip(v.2, 10, u32::MAX as nat);
}

proof fn lemma_parts(v: (nat, nat, nat), suffix: Seq<char>)
    requires
        is_suffix(suffix),
    ensures
        ({
            let parts = text::pieces(dotted(v) + suffix, CharSet::Only('.'));
            &&& parts.len() >= 3
            &&& parts[0] == number::decimal(v.0)
            &&& parts[1] == number::decimal(v.1)
            &&& leading_digits(parts[2]) == number::decimal(v.2)
            &&& parts.len() > 3 ==> !only_digits(parts[2])
        }),
{
    reveal_strlit(".");
    let dot = CharSet::Only('.');
    let (a, b, c) = (number::decimal(v.0), number::decimal(v.1), number::decimal(v.2));
    number::lemma_decimal(v.0);
    number::lemma_decimal(v.1);
    number::lemma_decimal(v.2);
    text::lemma_whole_piece(a, dot);
    text::lemma_whole_piece(b, dot);
    text::lemma_whole_piece(c, CharSet::NotDigit);
    let rest = c + suffix;
    assert(dotted(v) + suffix =~= a + seq!['.'] + (b + seq!['.'] + rest));
    text::lemma_pieces_cut(a, '.', b + seq!['.'] + rest, dot);
    text::lemma_pieces_cut(b, '.', rest, dot);
    text::lemma_pieces_behind(c, suffix, dot);
    let parts = text::pieces(dotted(v) + suffix, dot);
    let tail = text::pieces(suffix, dot)[0];
    assert(parts[2] == c + tail);
    if suffix.len() > 0 {
        text::lemma_first_piece(suffix, dot);
        let behind = tail.drop_first();
        assert(c + tail =~= c + seq![tail[0]] + behind);
        text::lemma_pieces_cut(c, tail[0], behind, CharSet::NotDigit);
        text::lemma_pieces_nonempty(behind, CharSet::NotDigit);
    } else {
        assert(c + tail =~= c);
    }
}

// ---------------------------------------------------------------------------
// The answer of the release service
// ---------------------------------------------------------------------------

/// The text that a member of a JSON object holds, as `serde_json` reads it; `None` where the body
/// is no JSON, has no such member, or the member is no text.
pub uninterp spec fn json_text_member(body: Seq<char>, key: Seq<char>) -> Option<Seq<char>>;

/// The contents of an optional text.
pub open spec fn maybe_tag(t: Option<String>) -> Option<Seq<char>> {
    match t {
        Some(s) => Some(s@),
        None => None,
    }
}

/// Reads a member of a JSON object that holds a text, by `serde_json::from_str` into a
/// `serde_json::Value`, its index by the key and `as_str`.
#[verifier::external_body]
fn text_member(body: &str, key: &str) -> (out: Option<String>)
    ensures
        maybe_tag(out) == json_text_member(body@, key@),
{
    let json: serde_json::Value = serde_json::from_str(body).ok()?;
    json[key].as_str().map(str::to_string)
}

/// The tag of a release, by the member that names it.
pub open spec fn tag_of(member: Option<Seq<char>>) -> Option<Seq<char>> {
    match member {
        Some(m) => if text::trimmed(m).len() == 0 {
            None
        } else {
            Some(text::trimmed(m))
        },
        None => None,
    }
}

/// The tag of a release, by the member that names it: trimmed, and `None` where nothing is left.
pub fn usable_tag(member: Option<String>) -> (out: Option<String>)
    ensures
        maybe_tag(out) == tag_of(maybe_tag(member)),
{
    match member {
        Some(m) => {
            let tag = text::trim(m.as_str());
            if tag.as_str().is_empty() {
                None
            } else {
                Some(tag)
            }
        },
        None => None,
    }
}

/// The tag of the latest release, by the answer of the release service.
pub fn latest_tag(body: &str) -> (out: Option<String>)
    ensures
        maybe_tag(out) == tag_of(json_text_member(body@, "tag_name"@)),
{
    usable_tag(text_member(body, "tag_name"))
}

/// A release is offered exactly where its version is the higher one: by its first number, by the
/// second where the first are equal, by the third where the first two are. A `v` before a version
/// and a suffix behind it do not count, and what is no version is never offered.
pub proof fn law_higher_versions_are_newer(
    a: (nat, nat, nat),
    b: (nat, nat, nat),
    suffix: Seq<char>,
    other: Seq<char>,
)
    requires
        a.0 <= u32::MAX && a.1 <= u32::MAX && a.2 <= u32::MAX,
        b.0 <= u32::MAX && b.1 <= u32::MAX && b.2 <= u32::MAX,
        is_suffix(suffix),
        version_of(other) is None,
    ensures
        a.0 > b.0 ==> newer("v"@ + dotted(a) + suffix, dotted(b)),
        a.0 == b.0 && a.1 > b.1 ==> newer("v"@ + dotted(a) + suffix, dotted(b)),
        a.0 == b.0 && a.1 == b.1 && a.2 > b.2 ==> newer("v"@ + dotted(a) + suffix, dotted(b)),
        a.0 < b.0 ==> !newer(dotted(a) + suffix, dotted(b)),
        a.0 == b.0 && a.1 < b.1 ==> !newer(dotted(a) + suffix, dotted(b)),
        a.0 == b.0 && a.1 == b.1 && a.2 <= b.2 ==> !newer(dotted(a) + suffix, dotted(b)),
        !newer(other, dotted(b)),
        !newer(dotted(a), other),
{
    let none = Seq::<char>::empty();
    law_version_round_trip(a, suffix);
    law_version_round_trip(b, none);
    assert(dotted(b) + none =~= dotted(b));
}

/// A tag has no white space around it, and white space alone is no tag. A text without white space
/// around it is its own tag.
pub proof fn law_tag_is_trimmed(m: Seq<char>)
    ensures
        tag_of(None) is None,
        tag_of(Some(m)) matches Some(t) ==> t.len() > 0 && !text::white_space(t[0])
            && !text::white_space(t.last()),
        m.len() > 0 && !text::white_space(m[0]) && !text::white_space(m.last()) ==> tag_of(Some(m))
            == Some(m),
{
    text_laws::law_trimming_takes_white_space(m);
    if m.len() > 0 && !text::white_space(m[0]) && !text::white_space(m.last()) {
        text_laws::law_trimmed_stays(m);
    }
}

} // verus!
