//! UTF-8 decoding: strict, lossy, and of a stream that arrives in chunks.
use vstd::prelude::*;

verus! {

/// `char::from_u32` of std: the character of a Unicode scalar value, `None` for every other
/// number.
pub assume_specification[ char::from_u32 ](i: u32) -> (r: Option<char>)
    ensures
        r == (if i <= 0xD7FF || 0xE000 <= i <= 0x10FFFF {
            Some(i as char)
        } else {
            None
        }),
;

/// The character that stands for undecodable bytes.
pub const REPLACEMENT: char = '\u{fffd}';

// ---------------------------------------------------------------------------
// The first encoding of a byte sequence
// ---------------------------------------------------------------------------

/// How many bytes an encoding has that begins with the given byte; 0 if none begins with it.
pub open spec fn lead_width(b: u8) -> nat {
    if b <= 0x7F {
        1
    } else if 0xC2 <= b <= 0xDF {
        2
    } else if 0xE0 <= b <= 0xEF {
        3
    } else if 0xF0 <= b <= 0xF4 {
        4
    } else {
        0
    }
}

/// Whether a byte may follow the first byte of an encoding: overlong forms, surrogates and
/// values past the last scalar are left out here.
pub open spec fn second_fits(lead: u8, b: u8) -> bool {
    if lead == 0xE0 {
        0xA0 <= b <= 0xBF
    } else if lead == 0xED {
        0x80 <= b <= 0x9F
    } else if lead == 0xF0 {
        0x90 <= b <= 0xBF
    } else if lead == 0xF4 {
        0x80 <= b <= 0x8F
    } else {
        0x80 <= b <= 0xBF
    }
}

/// How many bytes at the front belong to the encoding that the first byte begins; at least 1.
pub open spec fn run(bytes: Seq<u8>) -> nat {
    let width = lead_width(bytes[0]);
    if width < 2 || bytes.len() < 2 || !second_fits(bytes[0], bytes[1]) {
        1
    } else if width < 3 || bytes.len() < 3 || !vstd::utf8::is_continuation_byte(bytes[2]) {
        2
    } else if width < 4 || bytes.len() < 4 || !vstd::utf8::is_continuation_byte(bytes[3]) {
        3
    } else {
        4
    }
}

/// What stands at the front of a byte sequence.
pub enum Head {
    /// Nothing.
    Empty,
    /// A complete encoding of so many bytes, of this character.
    Scalar(char, usize),
    /// So many bytes that no continuation completes.
    Broken(usize),
    /// The beginning of an encoding whose end has not arrived.
    Cut,
}

/// What stands at the front of a byte sequence.
pub open spec fn head(bytes: Seq<u8>) -> Head {
    if bytes.len() == 0 {
        Head::Empty
    } else if run(bytes) == lead_width(bytes[0]) {
        Head::Scalar(vstd::utf8::decode_first_scalar(bytes) as char, run(bytes) as usize)
    } else if lead_width(bytes[0]) > 0 && run(bytes) == bytes.len() {
        Head::Cut
    } else {
        Head::Broken(run(bytes) as usize)
    }
}

/// The text of the encodings that have arrived in full, with one replacement character for each
/// run of broken bytes.
pub open spec fn decoded(bytes: Seq<u8>) -> Seq<char>
    decreases bytes.len(),
{
    match head(bytes) {
        Head::Empty => Seq::empty(),
        Head::Cut => Seq::empty(),
        Head::Scalar(c, n) => seq![c] + decoded(bytes.skip(n as int)),
        Head::Broken(n) => seq![REPLACEMENT] + decoded(bytes.skip(n as int)),
    }
}

/// The bytes at the end that begin an encoding which has not arrived in full.
pub open spec fn unfinished(bytes: Seq<u8>) -> Seq<u8>
    decreases bytes.len(),
{
    match head(bytes) {
        Head::Empty => Seq::empty(),
        Head::Cut => bytes,
        Head::Scalar(_, n) => unfinished(bytes.skip(n as int)),
        Head::Broken(n) => unfinished(bytes.skip(n as int)),
    }
}

/// The text of bytes after which nothing more arrives.
pub open spec fn lossy(bytes: Seq<u8>) -> Seq<char> {
    if unfinished(bytes).len() > 0 {
        decoded(bytes).push(REPLACEMENT)
    } else {
        decoded(bytes)
    }
}

proof fn lemma_width_2(b1: u8, b2: u8)
    by (bit_vector)
    requires
        0xC0 <= b1 <= 0xDF,
        0x80 <= b2 <= 0xBF,
    ensures
        ({
            let cp = ((b1 & 0x1F) as u32) << 6 | ((b2 & 0x3F) as u32);
            (0xC2 <= b1 <==> 0x80 <= cp) && cp <= 0x7FF
        }),
{
}

proof fn lemma_width_3(b1: u8, b2: u8, b3: u8)
    by (bit_vector)
    requires
        0xE0 <= b1 <= 0xEF,
        0x80 <= b2 <= 0xBF,
        0x80 <= b3 <= 0xBF,
    ensures
        ({
            let cp = ((b1 & 0x0F) as u32) << 12 | ((b2 & 0x3F) as u32) << 6 | ((b3 & 0x3F) as u32);
            &&& (!(b1 == 0xE0 && b2 < 0xA0) <==> 0x800 <= cp)
            &&& ((b1 == 0xED && b2 > 0x9F) <==> 0xD800 <= cp <= 0xDFFF)
            &&& cp <= 0xFFFF
        }),
{
}

proof fn lemma_width_4(b1: u8, b2: u8, b3: u8, b4: u8)
    by (bit_vector)
    requires
        0xF0 <= b1 <= 0xF7,
        0x80 <= b2 <= 0xBF,
        0x80 <= b3 <= 0xBF,
        0x80 <= b4 <= 0xBF,
    ensures
        ({
            let cp = ((b1 & 0x07) as u32) << 18 | ((b2 & 0x3F) as u32) << 12 | ((b3 & 0x3F) as u32)
                << 6 | ((b4 & 0x3F) as u32);
            &&& (!(b1 == 0xF0 && b2 < 0x90) <==> 0x10000 <= cp)
            &&& ((b1 < 0xF4 || (b1 == 0xF4 && b2 <= 0x8F)) <==> cp <= 0x10FFFF)
        }),
{
}

proof fn lemma_width_1(b: u8)
    by (bit_vector)
    requires
        b <= 0x7F,
    ensures
        (b & 0x7F) as u32 == b as u32,
        ((b & 0x7F) as u32) <= 0x7F,
{
}

/// A sequence begins with a complete encoding exactly when its first scalar is well formed.
proof fn lemma_head_scalar(bytes: Seq<u8>)
    requires
        bytes.len() > 0,
    ensures
        (run(bytes) == lead_width(bytes[0])) == vstd::utf8::valid_first_scalar(bytes),
        vstd::utf8::valid_first_scalar(bytes) ==> run(bytes)
            == vstd::utf8::length_of_first_scalar(bytes),
        vstd::utf8::valid_first_scalar(bytes) ==> {
            let cp = vstd::utf8::decode_first_scalar(bytes);
            cp <= 0xD7FF || 0xE000 <= cp <= 0x10FFFF
        },
{
    let b1 = bytes[0];
    if b1 <= 0x7F {
        lemma_width_1(b1);
    }
    if bytes.len() >= 2 && 0xC0 <= b1 <= 0xDF && vstd::utf8::is_continuation_byte(bytes[1]) {
        lemma_width_2(b1, bytes[1]);
    }
    if bytes.len() >= 3 && 0xE0 <= b1 <= 0xEF && vstd::utf8::is_continuation_byte(bytes[1])
        && vstd::utf8::is_continuation_byte(bytes[2]) {
        lemma_width_3(b1, bytes[1], bytes[2]);
    }
    if bytes.len() >= 4 && 0xF0 <= b1 <= 0xF7 && vstd::utf8::is_continuation_byte(bytes[1])
        && vstd::utf8::is_continuation_byte(bytes[2]) && vstd::utf8::is_continuation_byte(
        bytes[3],
    ) {
        lemma_width_4(b1, bytes[1], bytes[2], bytes[3]);
    }
}

fn width_of(b: u8) -> (w: usize)
    ensures
        w == lead_width(b),
{
    if b <= 0x7F {
        1
    } else if 0xC2 <= b && b <= 0xDF {
        2
    } else if 0xE0 <= b && b <= 0xEF {
        3
    } else if 0xF0 <= b && b <= 0xF4 {
        4
    } else {
        0
    }
}

fn follows(lead: u8, b: u8) -> (r: bool)
    ensures
        r == second_fits(lead, b),
{
    if lead == 0xE0 {
        0xA0 <= b && b <= 0xBF
    } else if lead == 0xED {
        0x80 <= b && b <= 0x9F
    } else if lead == 0xF0 {
        0x90 <= b && b <= 0xBF
    } else if lead == 0xF4 {
        0x80 <= b && b <= 0x8F
    } else {
        0x80 <= b && b <= 0xBF
    }
}

fn run_at(bytes: &[u8], at: usize) -> (n: usize)
    requires
        at < bytes@.len(),
    ensures
        n == run(bytes@.skip(at as int)),
        1 <= n <= bytes@.len() - at,
{
    let left: usize = bytes.len() - at;
    let ghost rest = bytes@.skip(at as int);
    assert(rest[0] == bytes@[at as int]);
    let width: usize = width_of(bytes[at]);
    if width < 2 || left < 2 {
        return 1;
    }
    assert(rest[1] == bytes@[at + 1]);
    if !follows(bytes[at], bytes[at + 1]) {
        return 1;
    }
    if width < 3 || left < 3 {
        return 2;
    }
    assert(rest[2] == bytes@[at + 2]);
    if !(0x80 <= bytes[at + 2] && bytes[at + 2] <= 0xBF) {
        return 2;
    }
    if width < 4 || left < 4 {
        return 3;
    }
    assert(rest[3] == bytes@[at + 3]);
    if !(0x80 <= bytes[at + 3] && bytes[at + 3] <= 0xBF) {
        return 3;
    }
    4
}

/// What stands at position `at` of the bytes.
pub fn head_at(bytes: &[u8], at: usize) -> (h: Head)
    requires
        at <= bytes@.len(),
    ensures
        h == head(bytes@.skip(at as int)),
        h matches Head::Scalar(_, n) ==> 1 <= n <= bytes@.len() - at,
        h matches Head::Broken(n) ==> 1 <= n <= bytes@.len() - at,
{
    if at == bytes.len() {
        return Head::Empty;
    }
    let ghost rest = bytes@.skip(at as int);
    assert(rest[0] == bytes@[at as int]);
    let n: usize = run_at(bytes, at);
    let width: usize = width_of(bytes[at]);
    if n == width {
        proof {
            lemma_head_scalar(rest);
        }
        let value: u32 = if n == 1 {
            (bytes[at] & 0x7F) as u32
        } else if n == 2 {
            assert(rest[1] == bytes@[at + 1]);
            (((bytes[at] & 0x1F) as u32) << 6) | ((bytes[at + 1] & 0x3F) as u32)
        } else if n == 3 {
            assert(rest[1] == bytes@[at + 1]);
            assert(rest[2] == bytes@[at + 2]);
            (((bytes[at] & 0x0F) as u32) << 12) | (((bytes[at + 1] & 0x3F) as u32) << 6) | ((bytes[
            at + 2] & 0x3F) as u32)
        } else {
            assert(rest[1] == bytes@[at + 1]);
            assert(rest[2] == bytes@[at + 2]);
            assert(rest[3] == bytes@[at + 3]);
            (((bytes[at] & 0x07) as u32) << 18) | (((bytes[at + 1] & 0x3F) as u32) << 12) | (((
            bytes[at + 2] & 0x3F) as u32) << 6) | ((bytes[at + 3] & 0x3F) as u32)
        };
        assert(value == vstd::utf8::decode_first_scalar(rest));
        match char::from_u32(value) {
            Some(c) => Head::Scalar(c, n),
            None => {
                assert(false);
                Head::Broken(n)
            },
        }
    } else if width > 0 && n == bytes.len() - at {
        Head::Cut
    } else {
        Head::Broken(n)
    }
}

/// Decodes as far as complete encodings and broken runs reach. Gives the text and the position
/// where an unfinished encoding begins; the length if none does.
fn decode_all(bytes: &[u8]) -> (out: (String, usize))
    ensures
        out.0@ == decoded(bytes@),
        out.1 <= bytes@.len(),
        bytes@.skip(out.1 as int) == unfinished(bytes@),
{
    let mut text = String::new();
    let mut at: usize = 0;
    let size: usize = bytes.len();
    assert(bytes@.skip(0) == bytes@);
    loop
        invariant
            at <= bytes@.len(),
            size == bytes@.len(),
            text@ + decoded(bytes@.skip(at as int)) == decoded(bytes@),
            unfinished(bytes@.skip(at as int)) == unfinished(bytes@),
        decreases bytes@.len() - at,
    {
        let ghost rest = bytes@.skip(at as int);
        match head_at(bytes, at) {
            Head::Empty => {
                assert(decoded(rest) == Seq::<char>::empty());
                assert(text@ == decoded(bytes@));
                return (text, at);
            },
            Head::Cut => {
                assert(decoded(rest) == Seq::<char>::empty());
                assert(text@ == decoded(bytes@));
                return (text, at);
            },
            Head::Scalar(c, n) => {
                assert(rest.skip(n as int) == bytes@.skip(at + n));
                let ghost before = text@;
                text.push(c);
                assert(text@ + decoded(bytes@.skip(at + n)) == before + decoded(rest));
                at = at + n;
            },
            Head::Broken(n) => {
                assert(rest.skip(n as int) == bytes@.skip(at + n));
                let ghost before = text@;
                text.push(REPLACEMENT);
                assert(text@ + decoded(bytes@.skip(at + n)) == before + decoded(rest));
                at = at + n;
            },
        }
    }
}

/// The text of the bytes, with replacement characters for what is not UTF-8.
pub fn decode_lossy(bytes: &[u8]) -> (out: String)
    ensures
        out@ == lossy(bytes@),
{
    let (mut text, at) = decode_all(bytes);
    if at < bytes.len() {
        text.push(REPLACEMENT);
    }
    text
}

/// The text of the bytes, if they are UTF-8 throughout.
pub fn decode_strict(bytes: &[u8]) -> (out: Option<String>)
    ensures
        vstd::utf8::valid_utf8(bytes@) ==> out is Some && out->0@ == vstd::utf8::decode_utf8(
            bytes@,
        ),
        !vstd::utf8::valid_utf8(bytes@) ==> out is None,
{
    let mut text = String::new();
    let mut at: usize = 0;
    let size: usize = bytes.len();
    assert(bytes@.skip(0) == bytes@);
    loop
        invariant
            at <= bytes@.len(),
            size == bytes@.len(),
            vstd::utf8::valid_utf8(bytes@.skip(at as int)) == vstd::utf8::valid_utf8(bytes@),
            vstd::utf8::valid_utf8(bytes@) ==> text@ + vstd::utf8::decode_utf8(
                bytes@.skip(at as int),
            ) == vstd::utf8::decode_utf8(bytes@),
        decreases bytes@.len() - at,
    {
        let ghost rest = bytes@.skip(at as int);
        proof {
            if rest.len() > 0 {
                lemma_head_scalar(rest);
            }
        }
        match head_at(bytes, at) {
            Head::Empty => {
                assert(vstd::utf8::decode_utf8(rest) == Seq::<char>::empty());
                assert(text@ == vstd::utf8::decode_utf8(bytes@));
                return Some(text);
            },
            Head::Scalar(c, n) => {
                assert(vstd::utf8::pop_first_scalar(rest) == bytes@.skip(at + n));
                let ghost before = text@;
                text.push(c);
                proof {
                    if vstd::utf8::valid_utf8(bytes@) {
                        assert(text@ + vstd::utf8::decode_utf8(bytes@.skip(at + n)) == before
                            + vstd::utf8::decode_utf8(rest));
                    }
                }
                at = at + n;
            },
            _ => {
                return None;
            },
        }
    }
}

// ---------------------------------------------------------------------------
// Streams
// ---------------------------------------------------------------------------

/// Decodes a byte stream that arrives in chunks: an encoding that a chunk boundary cuts in two is
/// held back until the rest of it arrives.
#[derive(Default)]
pub struct Utf8StreamDecoder {
    /// The bytes that are held back.
    pub pending: Vec<u8>,
}

impl Utf8StreamDecoder {
    /// A decoder that nothing has arrived at yet.
    pub fn new() -> (out: Self)
        ensures
            out.pending@ == Seq::<u8>::empty(),
    {
        Utf8StreamDecoder { pending: Vec::new() }
    }

    /// Takes a chunk and gives the text that it completes.
    pub fn push(&mut self, bytes: &[u8]) -> (out: String)
        ensures
            out@ == decoded(old(self).pending@ + bytes@),
            final(self).pending@ == unfinished(old(self).pending@ + bytes@),
    {
        self.decode(bytes, false)
    }

    /// Takes the end of the stream and gives the text of what was held back.
    pub fn finish(&mut self) -> (out: String)
        ensures
            out@ == lossy(old(self).pending@),
            final(self).pending@ == Seq::<u8>::empty(),
    {
        let none: Vec<u8> = Vec::new();
        let ghost before = self.pending@;
        let out = self.decode(none.as_slice(), true);
        assert(before + none@ == before);
        out
    }

    /// Takes a chunk, which at `eof` is the last one, and gives the text that it completes.
    pub fn decode(&mut self, bytes: &[u8], eof: bool) -> (out: String)
        ensures
            out@ == (if eof {
                lossy(old(self).pending@ + bytes@)
            } else {
                decoded(old(self).pending@ + bytes@)
            }),
            final(self).pending@ == (if eof {
                Seq::<u8>::empty()
            } else {
                unfinished(old(self).pending@ + bytes@)
            }),
    {
        let mut all: Vec<u8> = Vec::new();
        all.append(&mut self.pending);
        all.extend_from_slice(bytes);
        assert(all@ == old(self).pending@ + bytes@);
        let (mut text, at) = decode_all(all.as_slice());
        if eof {
            if at < all.len() {
                text.push(REPLACEMENT);
            }
        } else {
            self.pending = all.split_off(at);
            assert(self.pending@ == unfinished(old(self).pending@ + bytes@));
        }
        text
    }
}

/// Where a stream is cut makes no difference: decoding two chunks one after the other gives the
/// text of both together, and holds back the same bytes.
pub proof fn law_chunks_join(a: Seq<u8>, b: Seq<u8>)
    ensures
        decoded(a + b) == decoded(a) + decoded(unfinished(a) + b),
        unfinished(a + b) == unfinished(unfinished(a) + b),
    decreases a.len(),
{
    match head(a) {
        Head::Empty => {
            assert(a + b == b);
            assert(unfinished(a) + b == b);
        },
        Head::Cut => {},
        Head::Scalar(_, n) => {
            lemma_head_stable(a, b);
            assert((a + b).skip(n as int) == a.skip(n as int) + b);
            law_chunks_join(a.skip(n as int), b);
        },
        Head::Broken(n) => {
            lemma_head_stable(a, b);
            assert((a + b).skip(n as int) == a.skip(n as int) + b);
            law_chunks_join(a.skip(n as int), b);
        },
    }
}

proof fn lemma_head_stable(a: Seq<u8>, b: Seq<u8>)
    requires
        head(a) is Scalar || head(a) is Broken,
    ensures
        head(a + b) == head(a),
        head(a) matches Head::Scalar(_, n) ==> 1 <= n <= a.len(),
        head(a) matches Head::Broken(n) ==> 1 <= n <= a.len(),
{
    let c = a + b;
    assert(forall|i: int| 0 <= i < a.len() ==> c[i] == a[i]);
    assert(run(c) == run(a));
}

/// A stream of UTF-8 that ends at the end of an encoding decodes without loss.
pub proof fn law_lossless_on_utf8(bytes: Seq<u8>)
    requires
        vstd::utf8::valid_utf8(bytes),
    ensures
        decoded(bytes) == vstd::utf8::decode_utf8(bytes),
        unfinished(bytes).len() == 0,
        lossy(bytes) == vstd::utf8::decode_utf8(bytes),
    decreases bytes.len(),
{
    if bytes.len() > 0 {
        lemma_head_scalar(bytes);
        let n = run(bytes) as int;
        assert(vstd::utf8::pop_first_scalar(bytes) == bytes.skip(n));
        law_lossless_on_utf8(bytes.skip(n));
    }
}

/// What is held back is at most three bytes, and holding back again keeps it as it is.
pub proof fn law_held_back(bytes: Seq<u8>)
    ensures
        unfinished(bytes).len() <= 3,
        unfinished(unfinished(bytes)) == unfinished(bytes),
        decoded(unfinished(bytes)).len() == 0,
    decreases bytes.len(),
{
    match head(bytes) {
        Head::Empty => {},
        Head::Cut => {},
        Head::Scalar(_, n) => {
            lemma_head_stable(bytes, Seq::empty());
            law_held_back(bytes.skip(n as int));
        },
        Head::Broken(n) => {
            lemma_head_stable(bytes, Seq::empty());
            law_held_back(bytes.skip(n as int));
        },
    }
}

/// The text of a stream does not depend on how it was cut into two chunks.
pub proof fn law_stream_of_two_chunks(a: Seq<u8>, b: Seq<u8>)
    ensures
        decoded(a) + lossy(unfinished(a) + b) == lossy(a + b),
{
    law_chunks_join(a, b);
}

/// The bytes of chunks in a row.
pub open spec fn chunk_bytes(chunks: Seq<Seq<u8>>) -> Seq<u8>
    decreases chunks.len(),
{
    if chunks.len() == 0 {
        Seq::empty()
    } else {
        chunks[0] + chunk_bytes(chunks.drop_first())
    }
}

/// The text of a stream whose chunks arrive at a decoder that holds bytes back, up to its end.
pub open spec fn stream_text(pending: Seq<u8>, chunks: Seq<Seq<u8>>) -> Seq<char>
    decreases chunks.len(),
{
    if chunks.len() == 0 {
        lossy(pending)
    } else {
        decoded(pending + chunks[0]) + stream_text(
            unfinished(pending + chunks[0]),
            chunks.drop_first(),
        )
    }
}

/// The text of a stream is that of its bytes as a whole, however it was cut into chunks.
pub proof fn law_stream_of_chunks(pending: Seq<u8>, chunks: Seq<Seq<u8>>)
    ensures
        stream_text(pending, chunks) == lossy(pending + chunk_bytes(chunks)),
    decreases chunks.len(),
{
    if chunks.len() == 0 {
        assert(pending + chunk_bytes(chunks) =~= pending);
    } else {
        let a = pending + chunks[0];
        let rest = chunk_bytes(chunks.drop_first());
        law_stream_of_chunks(unfinished(a), chunks.drop_first());
        law_stream_of_two_chunks(a, rest);
        assert(pending + chunk_bytes(chunks) =~= a + rest);
    }
}

/// A byte that no encoding begins with, or that stands alone where a character would begin, is
/// shown as one replacement character, and what stands before and behind it is not touched.
pub proof fn law_broken_byte_is_replaced(a: Seq<u8>, b: u8, c: Seq<u8>)
    requires
        vstd::utf8::valid_utf8(a),
        0x80 <= b <= 0xc1 || b >= 0xf5,
    ensures
        decoded(a + (seq![b] + c)) == vstd::utf8::decode_utf8(a) + (seq!['\u{fffd}'] + decoded(c)),
{
    law_lossless_on_utf8(a);
    let rest = seq![b] + c;
    law_chunks_join(a, rest);
    assert(unfinished(a) + rest =~= rest);
    assert(rest[0] == b);
    assert(rest.skip(1) =~= c);
}

} // verus!
