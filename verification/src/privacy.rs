//! Masking of names and addresses, for screenshots and demonstrations.
use crate::number;
use crate::text;
use crate::text::CharSet;
use vstd::prelude::*;

verus! {

/// A user name of which only the first character is shown.
pub open spec fn masked_user(user: Seq<char>) -> Seq<char> {
    let t = text::trimmed(user);
    if t.len() == 0 {
        Seq::empty()
    } else if t.len() <= 2 {
        seq![t[0]] + "*"@
    } else {
        seq![t[0]] + "***"@
    }
}

/// Masks a user name, but keeps enough of its shape to recognise the account.
pub fn mask_user(user: &str) -> (out: String)
    ensures
        out@ == masked_user(user@),
{
    let t = text::trim(user);
    let chars = text::chars_of(t.as_str());
    if chars.len() == 0 {
        return String::new();
    }
    let first = text::piece(chars.as_slice(), 0, 1);
    assert(first@ =~= seq![t@[0]]);
    if chars.len() <= 2 {
        text::join2(first.as_str(), "*")
    } else {
        text::join2(first.as_str(), "***")
    }
}

/// Whether a part of an address is a number of one byte.
pub open spec fn is_octet(s: Seq<char>) -> bool {
    number::number_in(s, 10, u8::MAX as nat) is Some
}

/// Whether an address is one of four octets.
pub open spec fn is_ipv4(host: Seq<char>) -> bool {
    let parts = text::pieces(host, CharSet::Only('.'));
    parts.len() == 4 && is_octet(parts[0]) && is_octet(parts[1]) && is_octet(parts[2]) && is_octet(
        parts[3],
    )
}

/// An address of which only the beginning is shown, or a host name of which only the first and
/// the last character of its first label are.
pub open spec fn masked_host(host: Seq<char>) -> Seq<char> {
    let h = text::trimmed(host);
    let dots = text::pieces(h, CharSet::Only('.'));
    let colons = text::pieces(h, CharSet::Only(':'));
    let label = dots[0];
    if h.len() == 0 {
        Seq::empty()
    } else if is_ipv4(h) {
        dots[0] + "."@ + dots[1] + ".*.*"@
    } else if h.contains(':') {
        colons[0] + ":"@ + colons[1] + "::****"@
    } else if label.len() <= 2 {
        "**"@
    } else {
        seq![label[0]] + "***"@ + seq![label.last()] + if h.contains('.') {
            ".***"@
        } else {
            Seq::empty()
        }
    }
}

fn octet(s: &str) -> (r: bool)
    ensures
        r == is_octet(s@),
{
    number::parse_number(s, 10, u8::MAX as u64).is_some()
}

/// Masks an address or a host name, for screen sharing.
pub fn mask_host(host: &str) -> (out: String)
    ensures
        out@ == masked_host(host@),
{
    let h = text::trim(host);
    if h.as_str().is_empty() {
        return String::new();
    }
    let dots = text::split(h.as_str(), CharSet::Only('.'));
    let ghost parts = text::texts(dots@);
    assert(parts[0] == dots@[0]@);
    if dots.len() == 4 {
        assert(parts[1] == dots@[1]@ && parts[2] == dots@[2]@ && parts[3] == dots@[3]@);
        if octet(dots[0].as_str()) && octet(dots[1].as_str()) && octet(dots[2].as_str()) && octet(
            dots[3].as_str(),
        ) {
            return text::join4(dots[0].as_str(), ".", dots[1].as_str(), ".*.*");
        }
    }
    assert(!is_ipv4(h@));
    if text::has_char(h.as_str(), ':') {
        let colons = text::split(h.as_str(), CharSet::Only(':'));
        proof {
            lemma_cut_in_two(h@, ':');
        }
        assert(text::texts(colons@)[0] == colons@[0]@);
        assert(text::texts(colons@)[1] == colons@[1]@);
        return text::join4(colons[0].as_str(), ":", colons[1].as_str(), "::****");
    }
    let label = text::chars_of(dots[0].as_str());
    let n: usize = label.len();
    if n <= 2 {
        return "**".to_string();
    }
    let first = text::piece(label.as_slice(), 0, 1);
    let last = text::piece(label.as_slice(), n - 1, n);
    assert(first@ =~= seq![parts[0][0]]);
    assert(last@ =~= seq![parts[0].last()]);
    let mut out = text::join3(first.as_str(), "***", last.as_str());
    if text::has_char(h.as_str(), '.') {
        out.append(".***");
    } else {
        assert(out@ + Seq::<char>::empty() =~= out@);
    }
    out
}

proof fn lemma_cut_in_two(s: Seq<char>, c: char)
    requires
        s.contains(c),
    ensures
        text::pieces(s, CharSet::Only(c)).len() >= 2,
{
    let i = s.index_of(c);
    let a = s.take(i);
    let b = s.skip(i + 1);
    assert(s =~= a + seq![c] + b);
    text::lemma_pieces_cut(a, c, b, CharSet::Only(c));
    text::lemma_pieces_nonempty(a, CharSet::Only(c));
    text::lemma_pieces_nonempty(b, CharSet::Only(c));
}

/// A user name as it is shown, masked where privacy is asked for.
pub fn display_user(user: &str, privacy: bool) -> (out: String)
    ensures
        out@ == (if privacy {
            masked_user(user@)
        } else {
            user@
        }),
{
    if privacy {
        mask_user(user)
    } else {
        user.to_string()
    }
}

/// A host as it is shown, masked where privacy is asked for.
pub fn display_host(host: &str, privacy: bool) -> (out: String)
    ensures
        out@ == (if privacy {
            masked_host(host@)
        } else {
            host@
        }),
{
    if privacy {
        mask_host(host)
    } else {
        host.to_string()
    }
}

/// Of a user name no more is shown than its first character and whether it is longer than two:
/// names that agree in both cannot be told apart.
pub proof fn law_masked_users_look_alike(a: Seq<char>, b: Seq<char>)
    requires
        text::trimmed(a).len() > 0,
        text::trimmed(b).len() > 0,
        text::trimmed(a).len() > 2 <==> text::trimmed(b).len() > 2,
        text::trimmed(a)[0] == text::trimmed(b)[0],
    ensures
        masked_user(a) == masked_user(b),
{
}

/// Of an address of four octets the last two are not shown.
pub proof fn law_masked_addresses_look_alike(a: Seq<char>, b: Seq<char>)
    requires
        is_ipv4(text::trimmed(a)),
        is_ipv4(text::trimmed(b)),
        text::pieces(text::trimmed(a), CharSet::Only('.'))[0] == text::pieces(
            text::trimmed(b),
            CharSet::Only('.'),
        )[0],
        text::pieces(text::trimmed(a), CharSet::Only('.'))[1] == text::pieces(
            text::trimmed(b),
            CharSet::Only('.'),
        )[1],
    ensures
        masked_host(a) == masked_host(b),
{
    let x = text::trimmed(a);
    let y = text::trimmed(b);
    if x.len() == 0 {
        assert(text::pieces(x, CharSet::Only('.')).len() == 1);
    }
    if y.len() == 0 {
        assert(text::pieces(y, CharSet::Only('.')).len() == 1);
    }
}

/// A masked user name shows its first character, and nothing but asterisks behind it.
pub proof fn law_masked_user_shows_the_first_character(user: Seq<char>)
    ensures
        text::trimmed(user).len() == 0 ==> masked_user(user).len() == 0,
        text::trimmed(user).len() > 0 ==> {
            let m = masked_user(user);
            &&& m.len() == if text::trimmed(user).len() <= 2 {
                2
            } else {
                4int
            }
            &&& m[0] == text::trimmed(user)[0]
            &&& forall|i: int| 0 < i < m.len() ==> #[trigger] m[i] == '*'
        },
{
    reveal_strlit("*");
    reveal_strlit("***");
}

/// Of an address of four octets the first two are shown, and the last two are asterisks.
pub proof fn law_masked_address_shows_two_octets(a: u8, b: u8, c: u8, d: u8)
    ensures
        masked_host(
            number::decimal(a as nat) + "."@ + number::decimal(b as nat) + "."@ + number::decimal(
                c as nat,
            ) + "."@ + number::decimal(d as nat),
        ) == number::decimal(a as nat) + "."@ + number::decimal(b as nat) + ".*.*"@,
{
    reveal_strlit(".");
    let set = CharSet::Only('.');
    let (w, x, y, z) = (
        number::decimal(a as nat),
        number::decimal(b as nat),
        number::decimal(c as nat),
        number::decimal(d as nat),
    );
    number::lemma_decimal(a as nat);
    number::lemma_decimal(b as nat);
    number::lemma_decimal(c as nat);
    number::lemma_decimal(d as nat);
    text::lemma_whole_piece(w, set);
    text::lemma_whole_piece(x, set);
    text::lemma_whole_piece(y, set);
    text::lemma_whole_piece(z, set);
    let host = w + "."@ + x + "."@ + y + "."@ + z;
    assert(host =~= w + seq!['.'] + (x + seq!['.'] + (y + seq!['.'] + z)));
    text::lemma_pieces_cut(y, '.', z, set);
    text::lemma_pieces_cut(x, '.', y + seq!['.'] + z, set);
    text::lemma_pieces_cut(w, '.', x + seq!['.'] + (y + seq!['.'] + z), set);
    assert(host[0] == w[0]);
    assert(host.last() == z.last());
    assert(z[z.len() - 1] == z.last());
    assert(text::trimmed(host) == host);
    number::law_number_round_trip(a as nat, 10, u8::MAX as nat);
    number::law_number_round_trip(b as nat, 10, u8::MAX as nat);
    number::law_number_round_trip(c as nat, 10, u8::MAX as nat);
    number::law_number_round_trip(d as nat, 10, u8::MAX as nat);
    assert(text::pieces(host, set) =~= seq![w, x, y, z]);
}

/// Of an address with colons the first two groups are shown.
pub proof fn law_masked_long_address_shows_two_groups(x: Seq<char>, y: Seq<char>, rest: Seq<char>)
    requires
        !x.contains(':') && !x.contains('.'),
        !y.contains(':') && !y.contains('.'),
        !rest.contains('.'),
        rest.len() > 0,
        x.len() > 0 ==> !text::white_space(x[0]),
        !text::white_space(rest.last()),
    ensures
        masked_host(x + seq![':'] + (y + seq![':'] + rest)) == x + ":"@ + y + "::****"@,
{
    let colon = CharSet::Only(':');
    let dot = CharSet::Only('.');
    let host = x + seq![':'] + (y + seq![':'] + rest);
    assert forall|i: int| 0 <= i < x.len() implies !colon.contains(#[trigger] x[i]) by {
        assert(x.contains(x[i]));
    }
    assert forall|i: int| 0 <= i < y.len() implies !colon.contains(#[trigger] y[i]) by {
        assert(y.contains(y[i]));
    }
    text::lemma_whole_piece(x, colon);
    text::lemma_whole_piece(y, colon);
    text::lemma_pieces_cut(y, ':', rest, colon);
    text::lemma_pieces_cut(x, ':', y + seq![':'] + rest, colon);
    assert(host[x.len() as int] == ':');
    assert(host.last() == rest.last());
    assert(text::trimmed(host) == host);
    assert forall|i: int| 0 <= i < host.len() implies !dot.contains(#[trigger] host[i]) by {
        if i < x.len() {
            assert(x.contains(x[i]));
        } else if i > x.len() && i < x.len() + 1 + y.len() {
            assert(y.contains(y[i - x.len() - 1]));
        } else if i > x.len() + 1 + y.len() {
            assert(rest.contains(rest[i - x.len() - y.len() - 2]));
        }
    }
    text::lemma_whole_piece(host, dot);
}

/// Of a host name only the first and the last character of its first label are shown, and whether
/// more labels follow.
pub proof fn law_masked_name_shows_two_characters(label: Seq<char>, rest: Seq<char>)
    requires
        label.len() > 2,
        'a' <= label[0] <= 'z',
        !label.contains('.') && !label.contains(':'),
        !text::white_space(label.last()),
        !rest.contains(':'),
        rest.len() > 0 ==> !text::white_space(rest.last()),
    ensures
        masked_host(label) == seq![label[0]] + "***"@ + seq![label.last()],
        masked_host(label + seq!['.'] + rest) == seq![label[0]] + "***"@ + seq![label.last()]
            + ".***"@,
{
    let dot = CharSet::Only('.');
    let host = label + seq!['.'] + rest;
    assert forall|i: int| 0 <= i < label.len() implies !dot.contains(#[trigger] label[i]) by {
        assert(label.contains(label[i]));
    }
    text::lemma_whole_piece(label, dot);
    text::lemma_pieces_cut(label, '.', rest, dot);
    assert(number::number_digits(label) == label);
    assert(number::digit_value(label[0], 10) is None);
    assert(!number::all_digits(label, 10));
    assert(!is_octet(label));
    assert(host[0] == label[0]);
    if rest.len() > 0 {
        assert(host.last() == rest.last());
    } else {
        assert(host.last() == '.');
    }
    assert(text::trimmed(host) == host);
    assert(text::trimmed(label) == label);
    assert(host[label.len() as int] == '.');
    if host.contains(':') {
        let i = host.index_of(':');
        if i < label.len() {
            assert(label[i] == ':');
        } else {
            assert(rest[i - label.len() - 1] == ':');
        }
    }
    let one = seq![label[0]] + "***"@ + seq![label.last()];
    assert(one + Seq::<char>::empty() =~= one);
}

} // verus!
