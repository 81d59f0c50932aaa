//! Names: caller-chosen aliases in their one canonical percent-encoded form.
//!
//! A name is accepted only if it is, letter for letter, the percent-encoding
//! of the text it decodes to. Any other spelling of the same text is refused,
//! with the canonical spelling in the error, and never rewritten.

use crate::hex::{hex_digit_upper, hex_value, is_hex_digit};
use crate::text::same_text;
use vstd::prelude::*;
use vstd::string::StringExecFns;
use vstd::utf8::{decode_utf8, encode_utf8, valid_utf8};

verus! {

/// The byte `%`, which opens an escape.
pub const PERCENT: u8 = 0x25;

/// The bytes that a canonical name never holds as they are: the controls
/// (`0x00` to `0x1F`, and `0x7F`), every byte outside ASCII, and the space,
/// `&`, `+` and `=`.
pub open spec fn is_reserved(b: u8) -> bool {
    ||| b <= 0x20
    ||| b >= 0x7F
    ||| b == 0x26
    ||| b == 0x2B
    ||| b == 0x3D
}

/// Whether `s` begins with an escape: `%` and two hexadecimal digits.
pub open spec fn starts_with_escape(s: Seq<u8>) -> bool {
    &&& s.len() >= 3
    &&& s[0] == PERCENT
    &&& is_hex_digit(s[1])
    &&& is_hex_digit(s[2])
}

/// Every `%` in `s` opens an escape.
pub open spec fn well_escaped(s: Seq<u8>) -> bool {
    forall|i: int| 0 <= i < s.len() && s[i] == PERCENT ==> starts_with_escape(s.skip(i))
}

/// Percent-decoding: each escape stands for the byte whose value its two
/// digits give, and every other byte, a `%` that opens no escape too, stands
/// for itself.
pub open spec fn unescape(s: Seq<u8>) -> Seq<u8>
    decreases s.len(),
{
    if s.len() == 0 {
        seq![]
    } else if starts_with_escape(s) {
        seq![(16 * hex_value(s[1]) + hex_value(s[2])) as u8] + unescape(s.skip(3))
    } else {
        seq![s[0]] + unescape(s.skip(1))
    }
}

/// The escape of one byte: `%` and its value in two uppercase digits.
pub open spec fn escape_of(b: u8) -> Seq<char> {
    seq!['%', hex_digit_upper(b / 16), hex_digit_upper(b % 16)]
}

/// How one byte of a text is written in a canonical name.
pub open spec fn escaped_byte(b: u8) -> Seq<char> {
    if is_reserved(b) {
        escape_of(b)
    } else {
        seq![b as char]
    }
}

/// Percent-encoding: every reserved byte is escaped, every other byte is
/// written as it is.
pub open spec fn escape(text: Seq<u8>) -> Seq<char> {
    text.map_values(|b: u8| escaped_byte(b)).flatten()
}

/// The bytes that a raw name decodes to.
pub open spec fn decoded(raw: Seq<char>) -> Seq<u8> {
    unescape(encode_utf8(raw))
}

/// Whether a raw name decodes to a text at all: its escapes are well formed
/// and what they decode to is UTF-8.
pub open spec fn decodable(raw: Seq<char>) -> bool {
    well_escaped(encode_utf8(raw)) && valid_utf8(decoded(raw))
}

/// The one canonical spelling of the text that a raw name decodes to.
pub open spec fn canonical_form(raw: Seq<char>) -> Seq<char> {
    escape(decoded(raw))
}

/// Whether a raw name is a canonical name.
pub open spec fn is_canonical(raw: Seq<char>) -> bool {
    decodable(raw) && canonical_form(raw) == raw
}

/// Why a raw name was refused.
#[derive(Debug)]
pub enum NameError {
    /// The name holds a `%` that opens no escape, or its escapes do not
    /// decode to UTF-8.
    MalformedEncoding,
    /// The name decodes, but is not the canonical spelling of its text, which
    /// `expected` is.
    AmbiguousName { got: String, expected: String },
}

/// `percent_encoding::percent_decode_str` and `PercentDecode::decode_utf8`:
/// the text that the percent-decoded bytes of `raw` spell, or nothing where
/// those bytes are not UTF-8.
#[verifier::external_body]
fn decode_text(raw: &str) -> (text: Option<String>)
    ensures
        text is Some <==> valid_utf8(decoded(raw@)),
        text matches Some(t) ==> t@ == decode_utf8(decoded(raw@)),
{
    match percent_encoding::percent_decode_str(raw).decode_utf8() {
        Ok(text) => Some(text.into_owned()),
        Err(_) => None,
    }
}

/// `percent_encoding::percent_encode_byte`: the escape of a byte, whatever
/// the byte.
#[verifier::external_body]
fn escape_text_of(b: u8) -> (escape: &'static str)
    ensures
        escape@ == escape_of(b),
{
    percent_encoding::percent_encode_byte(b)
}

/// Exec form of `is_reserved`.
pub fn reserved(b: u8) -> (r: bool)
    ensures
        r == is_reserved(b),
{
    b <= 0x20 || b >= 0x7F || b == 0x26 || b == 0x2B || b == 0x3D
}

fn hex_digit_byte(b: u8) -> (r: bool)
    ensures
        r == is_hex_digit(b),
{
    (0x30 <= b && b <= 0x39) || (0x41 <= b && b <= 0x46) || (0x61 <= b && b <= 0x66)
}

/// Whether every `%` of a raw name opens an escape.
pub fn has_well_formed_escapes(raw: &str) -> (ok: bool)
    ensures
        ok == well_escaped(encode_utf8(raw@)),
{
    let bytes = raw.as_bytes();
    let mut i: usize = 0;
    while i < bytes.len()
        invariant
            0 <= i <= bytes.len(),
            bytes@ == encode_utf8(raw@),
            forall|k: int|
                0 <= k < i && bytes@[k] == PERCENT ==> starts_with_escape(#[trigger] bytes@.skip(k)),
        decreases bytes.len() - i,
    {
        if bytes[i] == PERCENT {
            if bytes.len() - i >= 3 && hex_digit_byte(bytes[i + 1]) && hex_digit_byte(
                bytes[i + 2],
            ) {
                assert(starts_with_escape(bytes@.skip(i as int)));
                assert forall|k: int| i < k < i + 3 implies bytes@[k] != PERCENT by {}
                i += 3;
            } else {
                assert(!starts_with_escape(bytes@.skip(i as int)));
                return false;
            }
        } else {
            i += 1;
        }
    }
    true
}

/// The canonical spelling of a text.
pub fn escape_text(text: &str) -> (name: String)
    ensures
        name@ == escape(encode_utf8(text@)),
{
    let bytes = text.as_bytes();
    let mut name = String::new();
    let mut i: usize = 0;
    assert(bytes@.take(0).map_values(|b: u8| escaped_byte(b)) =~= Seq::<Seq<char>>::empty());
    while i < bytes.len()
        invariant
            0 <= i <= bytes.len(),
            name@ == escape(bytes@.take(i as int)),
        decreases bytes.len() - i,
    {
        let b = bytes[i];
        proof {
            let f = |b: u8| escaped_byte(b);
            assert(bytes@.take(i + 1).map_values(f) =~= bytes@.take(i as int).map_values(f).push(
                escaped_byte(b),
            ));
            bytes@.take(i as int).map_values(f).lemma_flatten_push(escaped_byte(b));
        }
        if reserved(b) {
            name.append(escape_text_of(b));
        } else {
            name.push(b as char);
            assert(name@ =~= escape(bytes@.take(i as int)) + seq![b as char]);
        }
        i += 1;
    }
    assert(bytes@.take(bytes@.len() as int) =~= bytes@);
    name
}

/// Checks that a raw name is canonical, changing nothing.
///
/// A name that does not decode is malformed. One that decodes but is spelled
/// otherwise than the canonical form of its text is ambiguous, and the error
/// carries that canonical form.
pub fn canonicalize(raw: &str) -> (r: Result<(), NameError>)
    ensures
        match r {
            Ok(_) => is_canonical(raw@),
            Err(NameError::MalformedEncoding) => !decodable(raw@),
            Err(NameError::AmbiguousName { got, expected }) => {
                &&& decodable(raw@)
                &&& !is_canonical(raw@)
                &&& got@ == raw@
                &&& expected@ == canonical_form(raw@)
            },
        },
{
    if !has_well_formed_escapes(raw) {
        return Err(NameError::MalformedEncoding);
    }
    match decode_text(raw) {
        None => Err(NameError::MalformedEncoding),
        Some(text) => {
            proof {
                vstd::utf8::decode_utf8_encode_utf8(decoded(raw@));
            }
            let expected = escape_text(text.as_str());
            if same_text(raw, expected.as_str()) {
                Ok(())
            } else {
                Err(NameError::AmbiguousName { got: raw.to_owned(), expected })
            }
        },
    }
}

/// Two canonical names that decode to the same text are the same name: a
/// text has one canonical spelling.
pub proof fn lemma_canonical_name_is_unique(a: Seq<char>, b: Seq<char>)
    requires
        is_canonical(a),
        is_canonical(b),
        decoded(a) == decoded(b),
    ensures
        a == b,
{
}

/// The bytes of a text that holds ASCII characters only.
pub open spec fn ascii_bytes(text: Seq<char>) -> Seq<u8> {
    Seq::new(text.len(), |i: int| text[i] as u8)
}

proof fn lemma_escape_unfold(text: Seq<u8>)
    requires
        text.len() > 0,
    ensures
        escape(text) == escaped_byte(text[0]) + escape(text.drop_first()),
{
    let f = |b: u8| escaped_byte(b);
    assert(text.map_values(f).drop_first() =~= text.drop_first().map_values(f));
}

/// A percent-encoding holds ASCII characters only, so its UTF-8 bytes are its
/// characters, one byte each.
proof fn lemma_escape_is_ascii(text: Seq<u8>)
    ensures
        encode_utf8(escape(text)) == ascii_bytes(escape(text)),
        vstd::utf8::is_ascii_chars(escape(text)),
    decreases text.len(),
{
    if text.len() > 0 {
        lemma_escape_unfold(text);
        lemma_escape_is_ascii(text.drop_first());
        let head = escaped_byte(text[0]);
        let rest = escape(text.drop_first());
        assert forall|i: int| 0 <= i < (head + rest).len() implies '\0' <= #[trigger] (head
            + rest)[i] <= '\u{7f}' by {
            if i >= head.len() {
                assert((head + rest)[i] == rest[i - head.len()]);
            }
        }
    }
    vstd::utf8::is_ascii_chars_encode_utf8(escape(text));
    assert(encode_utf8(escape(text)) =~= ascii_bytes(escape(text)));
}

/// Decoding the percent-encoding of a text that holds no `%` gives the text
/// back, and that encoding has well-formed escapes only.
proof fn lemma_unescape_escape(text: Seq<u8>)
    requires
        !text.contains(PERCENT),
    ensures
        unescape(ascii_bytes(escape(text))) == text,
        well_escaped(ascii_bytes(escape(text))),
    decreases text.len(),
{
    let s = ascii_bytes(escape(text));
    if text.len() == 0 {
        assert(escape(text) =~= Seq::<char>::empty());
        assert(unescape(s) =~= text);
    } else {
        let b = text[0];
        let tail = text.drop_first();
        assert(text.contains(b));
        assert forall|x: u8| tail.contains(x) implies text.contains(x) by {
            let k = choose|k: int| 0 <= k < tail.len() && tail[k] == x;
            assert(text[k + 1] == x);
        }
        lemma_escape_unfold(text);
        lemma_unescape_escape(tail);
        let head = ascii_bytes(escaped_byte(b));
        let rest = ascii_bytes(escape(tail));
        assert(s =~= head + rest);
        assert(s.skip(head.len() as int) =~= rest);
        if is_reserved(b) {
            assert(starts_with_escape(s));
            assert((16 * hex_value(s[1]) + hex_value(s[2])) as u8 == b);
        } else {
            assert(s[0] == b);
        }
        assert(unescape(s) =~= text);
        assert forall|i: int| 0 <= i < s.len() && s[i] == PERCENT implies starts_with_escape(
            s.skip(i),
        ) by {
            if i < head.len() {
                assert(i == 0);
                assert(s.skip(0) =~= s);
            } else {
                assert(s[i] == rest[i - head.len()]);
                assert(s.skip(i) =~= rest.skip(i - head.len()));
            }
        }
        assert(text =~= seq![b] + tail);
    }
}

/// The canonical form that an ambiguous name is refused with is itself
/// accepted, and names the same text, whenever that text holds no `%`.
///
/// A `%` is not reserved, so it is written as it is, and where the text holds
/// one the canonical form holds a `%` that opens no escape, or opens one that
/// the text did not mean.
pub proof fn lemma_canonical_form_is_canonical(raw: Seq<char>)
    requires
        decodable(raw),
        !decoded(raw).contains(PERCENT),
    ensures
        is_canonical(canonical_form(raw)),
        decoded(canonical_form(raw)) == decoded(raw),
{
    lemma_escape_is_ascii(decoded(raw));
    lemma_unescape_escape(decoded(raw));
}

} // verus!
