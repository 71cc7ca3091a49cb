//! Text as the tag formats store it, and the comparing of texts.

use vstd::prelude::*;
use vstd::std_specs::iter::IteratorSpec;
use vstd::string::*;

verus! {

/// The texts that are written into the tag of a track.
pub struct TagText {
    pub title: Seq<char>,
    pub artist: Seq<char>,
    pub album: Seq<char>,
}

/// The UTF-16 code units of one character, each unit low byte first.
pub open spec fn utf16le_char(c: char) -> Seq<u8> {
    let v = c as u32;
    if v < 0x1_0000 {
        seq![(v % 0x100) as u8, (v / 0x100) as u8]
    } else {
        let w = (v - 0x1_0000) as u32;
        let high = (0xD800 + w / 0x400) as u32;
        let low = (0xDC00 + w % 0x400) as u32;
        seq![
            (high % 0x100) as u8,
            (high / 0x100) as u8,
            (low % 0x100) as u8,
            (low / 0x100) as u8,
        ]
    }
}

/// A text in UTF-16, little endian, without a byte order mark.
pub open spec fn utf16le(s: Seq<char>) -> Seq<u8>
    decreases s.len(),
{
    if s.len() == 0 {
        Seq::empty()
    } else {
        utf16le_char(s[0]) + utf16le(s.drop_first())
    }
}

/// Encoding goes character by character.
pub proof fn lemma_utf16le_push(s: Seq<char>, c: char)
    ensures
        utf16le(s.push(c)) == utf16le(s) + utf16le_char(c),
    decreases s.len(),
{
    if s.len() == 0 {
        assert(s.push(c).drop_first() =~= Seq::<char>::empty());
        assert(utf16le(s.push(c)) =~= utf16le_char(c) + utf16le(Seq::<char>::empty()));
    } else {
        assert(s.push(c).drop_first() =~= s.drop_first().push(c));
        lemma_utf16le_push(s.drop_first(), c);
        assert(utf16le(s.push(c)) =~= utf16le(s) + utf16le_char(c));
    }
}

/// Appends one character in UTF-16, little endian.
fn put_utf16le_char(out: &mut Vec<u8>, c: char)
    ensures
        final(out)@ == old(out)@ + utf16le_char(c),
{
    let v: u32 = c as u32;
    if v < 0x1_0000 {
        out.push((v % 0x100) as u8);
        out.push((v / 0x100) as u8);
    } else {
        proof {
            vstd::utf8::char_is_scalar(c);
        }
        let w: u32 = v - 0x1_0000;
        let high: u32 = 0xD800 + w / 0x400;
        let low: u32 = 0xDC00 + w % 0x400;
        out.push((high % 0x100) as u8);
        out.push((high / 0x100) as u8);
        out.push((low % 0x100) as u8);
        out.push((low / 0x100) as u8);
    }
    assert(out@ =~= old(out)@ + utf16le_char(c));
}

/// The text in UTF-16, little endian, without a byte order mark.
pub fn encode_utf16le(s: &str) -> (out: Vec<u8>)
    ensures
        out@ == utf16le(s@),
{
    let mut out: Vec<u8> = Vec::new();
    let mut chars = s.chars();
    let ghost mut done: int = 0;
    loop
        invariant
            0 <= done <= s@.len(),
            chars.remaining() == s@.skip(done),
            out@ == utf16le(s@.take(done)),
        decreases s@.len() - done,
    {
        match chars.next() {
            Some(c) => {
                proof {
                    assert(s@.take(done + 1) =~= s@.take(done).push(c));
                    lemma_utf16le_push(s@.take(done), c);
                    done = done + 1;
                }
                put_utf16le_char(&mut out, c);
            },
            None => {
                assert(s@.take(done) =~= s@);
                return out;
            },
        }
    }
}

/// The code unit that two bytes hold, low byte first.
pub open spec fn utf16_unit(low: u8, high: u8) -> u32 {
    (low as u32 + high as u32 * 0x100) as u32
}

/// Whether a code unit is the first half of a surrogate pair.
pub open spec fn is_high_surrogate(u: u32) -> bool {
    0xD800 <= u < 0xDC00
}

/// Whether a code unit is the second half of a surrogate pair.
pub open spec fn is_low_surrogate(u: u32) -> bool {
    0xDC00 <= u < 0xE000
}

/// The scalar value that a surrogate pair stands for.
pub open spec fn surrogate_pair_value(high: u32, low: u32) -> u32 {
    (0x1_0000 + (high - 0xD800) * 0x400 + (low - 0xDC00)) as u32
}

/// The text that UTF-16 bytes, little endian, stand for. There is none where
/// a byte is left over or a surrogate stands without its partner.
pub open spec fn utf16le_decode(b: Seq<u8>) -> Option<Seq<char>>
    decreases b.len(),
{
    if b.len() == 0 {
        Some(Seq::empty())
    } else if b.len() < 2 {
        None
    } else {
        let u = utf16_unit(b[0], b[1]);
        if !is_high_surrogate(u) && !is_low_surrogate(u) {
            match utf16le_decode(b.skip(2)) {
                Some(rest) => Some(seq![u as char] + rest),
                None => None,
            }
        } else if is_high_surrogate(u) && b.len() >= 4 && is_low_surrogate(
            utf16_unit(b[2], b[3]),
        ) {
            match utf16le_decode(b.skip(4)) {
                Some(rest) => Some(
                    seq![surrogate_pair_value(u, utf16_unit(b[2], b[3])) as char] + rest,
                ),
                None => None,
            }
        } else {
            None
        }
    }
}

/// Decoding what was encoded gives the text back.
pub proof fn lemma_utf16le_round_trip(s: Seq<char>)
    ensures
        utf16le_decode(utf16le(s)) == Some(s),
    decreases s.len(),
{
    if s.len() == 0 {
    } else {
        let c = s[0];
        let v = c as u32;
        let b = utf16le(s);
        let rest = utf16le(s.drop_first());
        vstd::utf8::char_is_scalar(c);
        lemma_utf16le_round_trip(s.drop_first());
        if v < 0x1_0000 {
            assert(utf16_unit(b[0], b[1]) == v);
            assert(b.skip(2) =~= rest);
            vstd::utf8::char_u32_cast(c, v);
            assert(seq![v as char] + s.drop_first() =~= s);
        } else {
            let w = (v - 0x1_0000) as u32;
            let high = (0xD800 + w / 0x400) as u32;
            let low = (0xDC00 + w % 0x400) as u32;
            assert(utf16_unit(b[0], b[1]) == high);
            assert(utf16_unit(b[2], b[3]) == low);
            assert(surrogate_pair_value(high, low) == v);
            assert(b.skip(4) =~= rest);
            vstd::utf8::char_u32_cast(c, v);
            assert(seq![v as char] + s.drop_first() =~= s);
        }
    }
}

/// `char::from_u32` of std: the character with the scalar value `v`, and
/// nothing where `v` is a surrogate or lies above 0x10FFFF.
#[verifier::external_body]
fn char_from_scalar(v: u32) -> (r: Option<char>)
    ensures
        r == (if v < 0xD800 || 0xE000 <= v <= 0x10_FFFF {
            Some(v as char)
        } else {
            None
        }),
{
    char::from_u32(v)
}

/// `String::push` of std: appends one character to the text.
#[verifier::external_body]
fn push_char(s: &mut String, c: char)
    ensures
        final(s)@ == old(s)@.push(c),
{
    s.push(c)
}

/// Extends what is known of a decoding by one decoded character.
proof fn lemma_decode_step(b: Seq<u8>, at: int, width: int, done: Seq<char>, c: char)
    requires
        0 <= at,
        at + width <= b.len(),
        utf16le_decode(b.skip(at)) == (match utf16le_decode(b.skip(at + width)) {
            Some(rest) => Some(seq![c] + rest),
            None => None,
        }),
        utf16le_decode(b) == (match utf16le_decode(b.skip(at)) {
            Some(rest) => Some(done + rest),
            None => None,
        }),
    ensures
        utf16le_decode(b) == (match utf16le_decode(b.skip(at + width)) {
            Some(rest) => Some(done.push(c) + rest),
            None => None,
        }),
{
    match utf16le_decode(b.skip(at + width)) {
        Some(rest) => {
            assert(done + (seq![c] + rest) =~= done.push(c) + rest);
        },
        None => {},
    }
}

/// The text that UTF-16 bytes, little endian, stand for.
pub fn decode_utf16le(bytes: &[u8]) -> (r: Option<String>)
    ensures
        match r {
            Some(s) => utf16le_decode(bytes@) == Some(s@),
            None => utf16le_decode(bytes@) is None,
        },
{
    let mut text = String::new();
    let mut at: usize = 0;
    assert(bytes@.skip(0) =~= bytes@);
    while at < bytes.len()
        invariant
            at <= bytes.len(),
            utf16le_decode(bytes@) == (match utf16le_decode(bytes@.skip(at as int)) {
                Some(rest) => Some(text@ + rest),
                None => None,
            }),
        decreases bytes.len() - at,
    {
        let ghost tail = bytes@.skip(at as int);
        if bytes.len() - at < 2 {
            return None;
        }
        let u: u32 = bytes[at] as u32 + bytes[at + 1] as u32 * 0x100;
        assert(u == utf16_unit(tail[0], tail[1]));
        if u < 0xD800 || u >= 0xE000 {
            let c = char_from_scalar(u).unwrap();
            proof {
                assert(tail.skip(2) =~= bytes@.skip(at + 2));
                lemma_decode_step(bytes@, at as int, 2, text@, c);
            }
            push_char(&mut text, c);
            at = at + 2;
        } else if u < 0xDC00 && bytes.len() - at >= 4 {
            let low: u32 = bytes[at + 2] as u32 + bytes[at + 3] as u32 * 0x100;
            assert(low == utf16_unit(tail[2], tail[3]));
            if low < 0xDC00 || low >= 0xE000 {
                return None;
            }
            let v: u32 = 0x1_0000 + (u - 0xD800) * 0x400 + (low - 0xDC00);
            let c = char_from_scalar(v).unwrap();
            proof {
                assert(tail.skip(4) =~= bytes@.skip(at + 4));
                lemma_decode_step(bytes@, at as int, 4, text@, c);
            }
            push_char(&mut text, c);
            at = at + 4;
        } else {
            return None;
        }
    }
    assert(bytes@.skip(at as int) =~= Seq::<u8>::empty());
    assert(text@ + Seq::<char>::empty() =~= text@);
    Some(text)
}

/// What `str::to_lowercase` of std makes of a text: its lowercase form by
/// the rules of Unicode.
pub uninterp spec fn lowercase(s: Seq<char>) -> Seq<char>;

/// `str::to_lowercase` of std: a new text, the lowercase form of `s`.
#[verifier::external_body]
pub(crate) fn to_lowercase(s: &str) -> (r: String)
    ensures
        r@ == lowercase(s@),
{
    s.to_lowercase()
}

/// The characters of a text that may be missing.
pub open spec fn text_view(text: Option<String>) -> Option<Seq<char>> {
    match text {
        Some(s) => Some(s@),
        None => None,
    }
}

/// Whether two texts hold the same characters.
pub fn same_text(a: &str, b: &str) -> (r: bool)
    ensures
        r == (a@ == b@),
{
    let x = a.as_bytes();
    let y = b.as_bytes();
    proof {
        vstd::utf8::encode_utf8_decode_utf8(a@);
        vstd::utf8::encode_utf8_decode_utf8(b@);
    }
    if x.len() != y.len() {
        return false;
    }
    let mut i: usize = 0;
    while i < x.len()
        invariant
            i <= x.len(),
            x.len() == y.len(),
            x@ == vstd::utf8::encode_utf8(a@),
            y@ == vstd::utf8::encode_utf8(b@),
            forall|j: int| 0 <= j < i ==> x@[j] == y@[j],
        decreases x.len() - i,
    {
        if x[i] != y[i] {
            return false;
        }
        i = i + 1;
    }
    assert(x@ =~= y@);
    true
}

} // verus!
