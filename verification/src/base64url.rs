//! The text form of a token: unpadded base64 over the URL-safe alphabet.
//!
//! The alphabet is `A`-`Z`, `a`-`z`, `0`-`9`, `-` and `_`; no padding
//! character is ever written or accepted. The transcoding itself is done by
//! `data_encoding`; this module says what it computes and proves what the
//! codec needs of it.

use vstd::prelude::*;
use vstd::utf8::encode_utf8;

verus! {

/// The characters a token may consist of. None of them needs escaping in a
/// URL path segment.
pub open spec fn is_url_safe(c: char) -> bool {
    ||| 'A' <= c <= 'Z'
    ||| 'a' <= c <= 'z'
    ||| '0' <= c <= '9'
    ||| c == '-'
    ||| c == '_'
}

/// The character that stands for the six-bit value `v`.
pub open spec fn symbol(v: int) -> char
    recommends
        0 <= v < 64,
{
    if v < 26 {
        (('A' as u8) + v) as u8 as char
    } else if v < 52 {
        (('a' as u8) + (v - 26)) as u8 as char
    } else if v < 62 {
        (('0' as u8) + (v - 52)) as u8 as char
    } else if v == 62 {
        '-'
    } else {
        '_'
    }
}

/// The text of a byte string: every three bytes give four characters, most
/// significant bits first; one or two bytes left over give two or three
/// characters, the unused low bits being zero.
pub open spec fn base64url(bytes: Seq<u8>) -> Seq<char>
    decreases bytes.len(),
{
    if bytes.len() == 0 {
        Seq::empty()
    } else if bytes.len() == 1 {
        seq![symbol(bytes[0] as int / 4), symbol((bytes[0] as int % 4) * 16)]
    } else if bytes.len() == 2 {
        seq![
            symbol(bytes[0] as int / 4),
            symbol((bytes[0] as int % 4) * 16 + bytes[1] as int / 16),
            symbol((bytes[1] as int % 16) * 4),
        ]
    } else {
        seq![
            symbol(bytes[0] as int / 4),
            symbol((bytes[0] as int % 4) * 16 + bytes[1] as int / 16),
            symbol((bytes[1] as int % 16) * 4 + bytes[2] as int / 64),
            symbol(bytes[2] as int % 64),
        ] + base64url(bytes.skip(3))
    }
}

/// The byte string that a text stands for, if it stands for one.
pub open spec fn base64url_inverse(text: Seq<char>) -> Option<Seq<u8>> {
    if exists|bytes: Seq<u8>| base64url(bytes) == text {
        Some(choose|bytes: Seq<u8>| base64url(bytes) == text)
    } else {
        None
    }
}

/// The alphabet at its corners: upper case, lower case, digits, then `-`
/// and `_`.
pub proof fn lemma_symbol_table()
    ensures
        symbol(0) == 'A',
        symbol(25) == 'Z',
        symbol(26) == 'a',
        symbol(51) == 'z',
        symbol(52) == '0',
        symbol(61) == '9',
        symbol(62) == '-',
        symbol(63) == '_',
{
}

/// The texts of a few byte strings, one of each length up to a full group:
/// the bytes of `f`, `fo` and `foo`.
pub proof fn lemma_base64url_table()
    ensures
        base64url(Seq::empty()) == Seq::<char>::empty(),
        base64url(seq![0x66u8]) == seq!['Z', 'g'],
        base64url(seq![0x66u8, 0x6fu8]) == seq!['Z', 'm', '8'],
        base64url(seq![0x66u8, 0x6fu8, 0x6fu8]) == seq!['Z', 'm', '9', 'v'],
        base64url(seq![0xfbu8, 0xffu8]) == seq!['-', '_', '8'],
{
    reveal_with_fuel(base64url, 2);
    assert(seq![0x66u8, 0x6fu8, 0x6fu8].skip(3) =~= Seq::<u8>::empty());
    assert(base64url(seq![0x66u8]) =~= seq!['Z', 'g']);
    assert(base64url(seq![0x66u8, 0x6fu8]) =~= seq!['Z', 'm', '8']);
    assert(base64url(seq![0x66u8, 0x6fu8, 0x6fu8]) =~= seq!['Z', 'm', '9', 'v']);
    assert(base64url(seq![0xfbu8, 0xffu8]) =~= seq!['-', '_', '8']);
}

/// Every symbol is in the URL-safe alphabet.
pub proof fn lemma_symbol_url_safe(v: int)
    requires
        0 <= v < 64,
    ensures
        is_url_safe(symbol(v)),
        (symbol(v) as u32) < 128,
{
}

/// Different six-bit values have different symbols.
pub proof fn lemma_symbol_injective(v: int, w: int)
    requires
        0 <= v < 64,
        0 <= w < 64,
        symbol(v) == symbol(w),
    ensures
        v == w,
{
}

/// A text is a third longer than its bytes, rounded up.
pub proof fn lemma_base64url_len(bytes: Seq<u8>)
    ensures
        base64url(bytes).len() == (4 * bytes.len() + 2) / 3,
    decreases bytes.len(),
{
    if bytes.len() >= 3 {
        lemma_base64url_len(bytes.skip(3));
    }
}

/// Alphabet closure: whatever the bytes, their text holds URL-safe
/// characters only.
pub proof fn lemma_base64url_url_safe(bytes: Seq<u8>)
    ensures
        forall|i: int| 0 <= i < base64url(bytes).len() ==> is_url_safe(#[trigger] base64url(bytes)[i]),
        forall|i: int| 0 <= i < base64url(bytes).len() ==> (#[trigger] base64url(bytes)[i] as u32) < 128,
    decreases bytes.len(),
{
    if bytes.len() == 0 {
    } else {
        let b0 = bytes[0] as int;
        lemma_symbol_url_safe(b0 / 4);
        if bytes.len() == 1 {
            lemma_symbol_url_safe((b0 % 4) * 16);
        } else {
            let b1 = bytes[1] as int;
            lemma_symbol_url_safe((b0 % 4) * 16 + b1 / 16);
            if bytes.len() == 2 {
                lemma_symbol_url_safe((b1 % 16) * 4);
            } else {
                let b2 = bytes[2] as int;
                lemma_symbol_url_safe((b1 % 16) * 4 + b2 / 64);
                lemma_symbol_url_safe(b2 % 64);
                lemma_base64url_url_safe(bytes.skip(3));
                let head = seq![
                    symbol(b0 / 4),
                    symbol((b0 % 4) * 16 + b1 / 16),
                    symbol((b1 % 16) * 4 + b2 / 64),
                    symbol(b2 % 64),
                ];
                let tail = base64url(bytes.skip(3));
                assert forall|i: int| 0 <= i < base64url(bytes).len() implies is_url_safe(
                    #[trigger] base64url(bytes)[i],
                ) && (base64url(bytes)[i] as u32) < 128 by {
                    if i >= 4 {
                        assert(base64url(bytes)[i] == tail[i - 4]);
                    } else {
                        assert(base64url(bytes)[i] == head[i]);
                    }
                }
            }
        }
    }
}

/// No two byte strings share a text.
pub proof fn lemma_base64url_injective(a: Seq<u8>, b: Seq<u8>)
    requires
        base64url(a) == base64url(b),
    ensures
        a == b,
    decreases a.len(),
{
    lemma_base64url_len(a);
    lemma_base64url_len(b);
    let ta = base64url(a);
    let tb = base64url(b);
    if a.len() == 0 {
        assert(a =~= b);
    } else {
        let a0 = a[0] as int;
        let b0 = b[0] as int;
        assert(ta[0] == tb[0]);
        assert(ta[1] == tb[1]);
        lemma_symbol_injective(a0 / 4, b0 / 4);
        if a.len() == 1 {
            lemma_symbol_injective((a0 % 4) * 16, (b0 % 4) * 16);
            assert(a =~= b);
        } else {
            let a1 = a[1] as int;
            let b1 = b[1] as int;
            assert(ta[2] == tb[2]);
            lemma_symbol_injective((a0 % 4) * 16 + a1 / 16, (b0 % 4) * 16 + b1 / 16);
            if a.len() == 2 {
                lemma_symbol_injective((a1 % 16) * 4, (b1 % 16) * 4);
                assert(a =~= b);
            } else {
                let a2 = a[2] as int;
                let b2 = b[2] as int;
                assert(ta[3] == tb[3]);
                lemma_symbol_injective((a1 % 16) * 4 + a2 / 64, (b1 % 16) * 4 + b2 / 64);
                lemma_symbol_injective(a2 % 64, b2 % 64);
                assert(base64url(a.skip(3)) =~= ta.skip(4));
                assert(base64url(b.skip(3)) =~= tb.skip(4));
                lemma_base64url_injective(a.skip(3), b.skip(3));
                assert forall|i: int| 0 <= i < a.len() implies a[i] == b[i] by {
                    if i >= 3 {
                        assert(a[i] == a.skip(3)[i - 3]);
                        assert(b[i] == b.skip(3)[i - 3]);
                    }
                }
                assert(a =~= b);
            }
        }
    }
}

/// Decoding undoes encoding: the text of `bytes` stands for `bytes` and for
/// nothing else.
pub proof fn lemma_base64url_inverse(bytes: Seq<u8>)
    ensures
        base64url_inverse(base64url(bytes)) == Some(bytes),
{
    let text = base64url(bytes);
    let found = choose|other: Seq<u8>| base64url(other) == text;
    lemma_base64url_injective(found, bytes);
}

/// No bytes have two texts: texts that stand for the same bytes are the same
/// text.
pub proof fn lemma_base64url_one_text(a: Seq<char>, b: Seq<char>)
    requires
        base64url_inverse(a) is Some,
        base64url_inverse(a) == base64url_inverse(b),
    ensures
        a == b,
{
}

/// The longest byte string, in bytes, that [`to_text`] transcodes.
pub open spec fn max_bytes() -> int {
    (usize::MAX / 512) as int
}

/// The longest text, in bytes of UTF-8, that [`from_text`] reads.
pub open spec fn max_text() -> int {
    (usize::MAX / 8) as int
}

/// `data_encoding::BASE64URL_NOPAD.encode`. The contract claims that the
/// string returned is the unpadded base64url text of the input, as
/// [`base64url`] spells it out. Longer inputs than the bound may make the
/// outside function panic and are excluded.
#[verifier::external_body]
fn encode_unpadded(bytes: &[u8]) -> (text: String)
    requires
        bytes@.len() <= max_bytes(),
    ensures
        text@ == base64url(bytes@),
{
    data_encoding::BASE64URL_NOPAD.encode(bytes)
}

/// `data_encoding::BASE64URL_NOPAD.decode`. The contract claims that the
/// encoding is canonical: the bytes returned are bytes whose text is the
/// input, and the call fails only on an input that is the text of no byte
/// string. Longer inputs than the bound may make the outside function panic
/// and are excluded.
#[verifier::external_body]
fn decode_unpadded(text: &str) -> (out: Option<Vec<u8>>)
    requires
        encode_utf8(text@).len() <= max_text(),
    ensures
        match out {
            Some(bytes) => base64url(bytes@) == text@,
            None => forall|bytes: Seq<u8>| #[trigger] base64url(bytes) != text@,
        },
{
    data_encoding::BASE64URL_NOPAD.decode(text.as_bytes()).ok()
}

/// Writes bytes as URL-safe text. Returns `None` exactly when there are more
/// bytes than [`max_bytes`].
pub fn to_text(bytes: &[u8]) -> (out: Option<String>)
    ensures
        match out {
            Some(text) => bytes@.len() <= max_bytes() && text@ == base64url(bytes@),
            None => bytes@.len() > max_bytes(),
        },
{
    if bytes.len() <= usize::MAX / 512 {
        Some(encode_unpadded(bytes))
    } else {
        None
    }
}

/// Reads the bytes that a text stands for. Returns `None` when the text is
/// longer than [`max_text`] or stands for no byte string: when it holds a
/// character outside the alphabet (padding included), has a length that no
/// text has, or has unused bits that are not zero.
pub fn from_text(text: &str) -> (out: Option<Vec<u8>>)
    ensures
        match out {
            Some(bytes) => encode_utf8(text@).len() <= max_text() && base64url_inverse(text@)
                == Some(bytes@),
            None => encode_utf8(text@).len() > max_text() || base64url_inverse(text@) is None,
        },
{
    if text.as_bytes().len() > usize::MAX / 8 {
        return None;
    }
    match decode_unpadded(text) {
        Some(bytes) => {
            proof {
                lemma_base64url_inverse(bytes@);
            }
            Some(bytes)
        },
        None => None,
    }
}

} // verus!
