//! The binary form of a record, before it is sealed.
//!
//! Layout: the label, then the target. Each text is written as the length of
//! its UTF-8 form, as a variable-length integer, followed by the UTF-8 bytes
//! themselves. A variable-length integer is written seven bits at a time,
//! least significant group first, with the high bit of a byte set when
//! another byte follows.
//!
//! Reading is strict: bytes are accepted only if they are exactly what
//! writing some record produces. A length written with more bytes than it
//! needs, text that is not UTF-8, and bytes left over after the target are
//! all rejected.

use crate::record::{RecordView, TrackingRecord};
use vstd::prelude::*;
use vstd::utf8::{
    encode_utf8, encode_utf8_decode_utf8, is_ascii_chars, is_ascii_chars_encode_utf8,
};

verus! {

/// The variable-length form of a number.
pub open spec fn varint(n: nat) -> Seq<u8>
    decreases n,
{
    if n < 128 {
        seq![n as u8]
    } else {
        seq![(128 + n % 128) as u8] + varint(n / 128)
    }
}

/// The binary form of one text: its length in bytes, then its bytes.
pub open spec fn wire_text(text: Seq<char>) -> Seq<u8> {
    varint(encode_utf8(text).len()) + encode_utf8(text)
}

/// The binary form of a record.
pub open spec fn wire_record(record: RecordView) -> Seq<u8> {
    wire_text(record.label) + wire_text(record.target)
}

/// The record that bytes are the binary form of, if they are that of one.
pub open spec fn wire_inverse(bytes: Seq<u8>) -> Option<RecordView> {
    if exists|record: RecordView| wire_record(record) == bytes {
        Some(choose|record: RecordView| wire_record(record) == bytes)
    } else {
        None
    }
}

/// Whether `part` stands in `bytes` from position `at` on.
pub open spec fn occurs_at(bytes: Seq<u8>, at: int, part: Seq<u8>) -> bool {
    &&& 0 <= at
    &&& at + part.len() <= bytes.len()
    &&& bytes.subrange(at, at + part.len()) == part
}

/// The variable-length form of a few numbers: up to 127 in one byte, from
/// 128 on in more.
pub proof fn lemma_varint_table()
    ensures
        varint(0) == seq![0u8],
        varint(127) == seq![127u8],
        varint(128) == seq![0x80u8, 0x01u8],
        varint(300) == seq![0xacu8, 0x02u8],
        varint(16384) == seq![0x80u8, 0x80u8, 0x01u8],
{
    reveal_with_fuel(varint, 3);
    assert(varint(0) =~= seq![0u8]);
    assert(varint(127) =~= seq![127u8]);
    assert(varint(128) =~= seq![0x80u8, 0x01u8]);
    assert(varint(300) =~= seq![0xacu8, 0x02u8]);
    assert(varint(16384) =~= seq![0x80u8, 0x80u8, 0x01u8]);
}

/// The binary form of the record with the label `name` and no target.
pub proof fn lemma_wire_table()
    ensures
        wire_record(RecordView { label: seq!['n', 'a', 'm', 'e'], target: Seq::empty() }) == seq![
            4u8,
            0x6eu8,
            0x61u8,
            0x6du8,
            0x65u8,
            0u8,
        ],
{
    let label = seq!['n', 'a', 'm', 'e'];
    assert(is_ascii_chars(label));
    is_ascii_chars_encode_utf8(label);
    is_ascii_chars_encode_utf8(Seq::<char>::empty());
    assert(encode_utf8(label) =~= seq![0x6eu8, 0x61u8, 0x6du8, 0x65u8]);
    assert(encode_utf8(Seq::<char>::empty()) =~= Seq::<u8>::empty());
    assert(wire_record(RecordView { label, target: Seq::empty() }) =~= seq![
        4u8,
        0x6eu8,
        0x61u8,
        0x6du8,
        0x65u8,
        0u8,
    ]);
}

/// The variable-length form of a number is short: one byte, and one more
/// for every 128 at most.
pub proof fn lemma_varint_len(n: nat)
    ensures
        1 <= varint(n).len() <= n / 128 + 1,
    decreases n,
{
    if n >= 128 {
        lemma_varint_len(n / 128);
    }
}

/// A text's UTF-8 form has one to four bytes for each character.
pub proof fn lemma_utf8_len(text: Seq<char>)
    ensures
        text.len() <= encode_utf8(text).len() <= 4 * text.len(),
    decreases text.len(),
{
    if text.len() > 0 {
        lemma_utf8_len(text.drop_first());
    }
}

/// How long the binary form of a record is at most, by the characters of
/// its two texts: four bytes for each, and the two lengths.
pub proof fn lemma_wire_record_len(record: RecordView)
    ensures
        2 <= wire_record(record).len() <= 4 * (record.label.len() + record.target.len()) + (
        record.label.len() + record.target.len()) / 32 + 2,
{
    lemma_utf8_len(record.label);
    lemma_utf8_len(record.target);
    lemma_varint_len(encode_utf8(record.label).len());
    lemma_varint_len(encode_utf8(record.target).len());
}

/// A number's variable-length form tells where it ends: if two numbers,
/// each followed by more bytes, give the same bytes, they are one number
/// followed by the same bytes.
pub proof fn lemma_varint_prefix_free(a: nat, b: nat, x: Seq<u8>, y: Seq<u8>)
    requires
        varint(a) + x == varint(b) + y,
    ensures
        a == b,
        x == y,
    decreases a,
{
    let left = varint(a) + x;
    let right = varint(b) + y;
    assert(left[0] == varint(a)[0]);
    assert(right[0] == varint(b)[0]);
    if a < 128 {
        assert(b < 128);
        assert(x =~= left.skip(1));
        assert(y =~= right.skip(1));
    } else {
        assert(b >= 128);
        assert(a % 128 == b % 128);
        assert(varint(a / 128) + x =~= left.skip(1));
        assert(varint(b / 128) + y =~= right.skip(1));
        lemma_varint_prefix_free(a / 128, b / 128, x, y);
    }
}

/// The same holds of a text's binary form.
pub proof fn lemma_wire_text_prefix_free(s: Seq<char>, t: Seq<char>, x: Seq<u8>, y: Seq<u8>)
    requires
        wire_text(s) + x == wire_text(t) + y,
    ensures
        s == t,
        x == y,
{
    let bs = encode_utf8(s);
    let bt = encode_utf8(t);
    assert(varint(bs.len()) + (bs + x) =~= wire_text(s) + x);
    assert(varint(bt.len()) + (bt + y) =~= wire_text(t) + y);
    lemma_varint_prefix_free(bs.len(), bt.len(), bs + x, bt + y);
    assert(bs =~= (bs + x).subrange(0, bs.len() as int));
    assert(bt =~= (bt + y).subrange(0, bt.len() as int));
    assert(x =~= (bs + x).skip(bs.len() as int));
    assert(y =~= (bt + y).skip(bt.len() as int));
    encode_utf8_decode_utf8(s);
    encode_utf8_decode_utf8(t);
}

/// No two records share a binary form.
pub proof fn lemma_wire_record_injective(a: RecordView, b: RecordView)
    requires
        wire_record(a) == wire_record(b),
    ensures
        a == b,
{
    lemma_wire_text_prefix_free(a.label, b.label, wire_text(a.target), wire_text(b.target));
    assert(wire_text(a.target) + Seq::<u8>::empty() =~= wire_text(a.target));
    assert(wire_text(b.target) + Seq::<u8>::empty() =~= wire_text(b.target));
    lemma_wire_text_prefix_free(a.target, b.target, Seq::empty(), Seq::empty());
}

/// Reading undoes writing: the binary form of `record` is that of `record`
/// and of no other.
pub proof fn lemma_wire_inverse(record: RecordView)
    ensures
        wire_inverse(wire_record(record)) == Some(record),
{
    let bytes = wire_record(record);
    let found = choose|other: RecordView| wire_record(other) == bytes;
    lemma_wire_record_injective(found, record);
}

/// No record has two binary forms: bytes that read as the same record are
/// the same bytes.
pub proof fn lemma_wire_one_form(a: Seq<u8>, b: Seq<u8>)
    requires
        wire_inverse(a) is Some,
        wire_inverse(a) == wire_inverse(b),
    ensures
        a == b,
{
}

/// A part made of a first byte and a rest occurs where the byte stands and
/// the rest follows it.
proof fn lemma_occurs_step(bytes: Seq<u8>, at: int, first: u8, rest: Seq<u8>)
    requires
        0 <= at,
    ensures
        occurs_at(bytes, at, seq![first] + rest) <==> (at < bytes.len() && bytes[at] == first
            && occurs_at(bytes, at + 1, rest)),
{
    let part = seq![first] + rest;
    if occurs_at(bytes, at, part) {
        let found = bytes.subrange(at, at + part.len());
        assert(found[0] == part[0]);
        assert(bytes.subrange(at + 1, at + 1 + rest.len()) =~= found.skip(1));
        assert(rest =~= part.skip(1));
    }
    if at < bytes.len() && bytes[at] == first && occurs_at(bytes, at + 1, rest) {
        let tail = bytes.subrange(at + 1, at + 1 + rest.len());
        assert(bytes.subrange(at, at + part.len()) =~= seq![first] + tail);
    }
}

/// Two parts in a row occur where the first stands and the second follows.
proof fn lemma_occurs_concat(bytes: Seq<u8>, at: int, first: Seq<u8>, second: Seq<u8>)
    requires
        0 <= at,
    ensures
        occurs_at(bytes, at, first + second) <==> (occurs_at(bytes, at, first) && occurs_at(
            bytes,
            at + first.len(),
            second,
        )),
{
    let part = first + second;
    if occurs_at(bytes, at, part) {
        let found = bytes.subrange(at, at + part.len());
        assert(bytes.subrange(at, at + first.len()) =~= found.subrange(0, first.len() as int));
        assert(first =~= part.subrange(0, first.len() as int));
        assert(bytes.subrange(at + first.len(), at + first.len() + second.len()) =~= found.skip(
            first.len() as int,
        ));
        assert(second =~= part.skip(first.len() as int));
    }
    if occurs_at(bytes, at, first) && occurs_at(bytes, at + first.len(), second) {
        assert(bytes.subrange(at, at + part.len()) =~= bytes.subrange(at, at + first.len())
            + bytes.subrange(at + first.len(), at + first.len() + second.len()));
    }
}

/// Tells whether the variable-length form of `n` stands in `bytes` at `at`,
/// and if so where it ends.
fn match_varint(bytes: &[u8], at: usize, n: usize) -> (out: Option<usize>)
    requires
        at <= bytes@.len(),
    ensures
        match out {
            Some(end) => occurs_at(bytes@, at as int, varint(n as nat)) && end == at + varint(
                n as nat,
            ).len(),
            None => !occurs_at(bytes@, at as int, varint(n as nat)),
        },
{
    let mut pos: usize = at;
    let mut rest: usize = n;
    loop
        invariant
            at <= pos <= bytes@.len(),
            occurs_at(bytes@, at as int, varint(n as nat)) <==> occurs_at(
                bytes@,
                pos as int,
                varint(rest as nat),
            ),
            at + varint(n as nat).len() == pos + varint(rest as nat).len(),
        decreases rest,
    {
        proof {
            if rest < 128 {
                lemma_occurs_step(bytes@, pos as int, rest as u8, Seq::empty());
                assert(varint(rest as nat) =~= seq![rest as u8] + Seq::<u8>::empty());
                if pos < bytes@.len() {
                    assert(bytes@.subrange(pos + 1, pos + 1) =~= Seq::<u8>::empty());
                }
            } else {
                lemma_occurs_step(
                    bytes@,
                    pos as int,
                    (128 + rest % 128) as u8,
                    varint((rest / 128) as nat),
                );
            }
        }
        if pos >= bytes.len() {
            return None;
        }
        let byte: u8 = bytes[pos];
        if rest < 128 {
            if byte == rest as u8 {
                return Some(pos + 1);
            } else {
                return None;
            }
        }
        if byte != (128 + rest % 128) as u8 {
            return None;
        }
        pos = pos + 1;
        rest = rest / 128;
    }
}

/// Tells whether `part` stands in `bytes` at `at`, and if so where it ends.
fn match_bytes(bytes: &[u8], at: usize, part: &[u8]) -> (out: Option<usize>)
    requires
        at <= bytes@.len(),
    ensures
        match out {
            Some(end) => occurs_at(bytes@, at as int, part@) && end == at + part@.len(),
            None => !occurs_at(bytes@, at as int, part@),
        },
{
    if part.len() > bytes.len() - at {
        return None;
    }
    let mut done: usize = 0;
    while done < part.len()
        invariant
            at + part@.len() <= bytes@.len() <= usize::MAX,
            done <= part@.len(),
            forall|i: int| 0 <= i < done ==> bytes@[at + i] == part@[i],
        decreases part@.len() - done,
    {
        if bytes[at + done] != part[done] {
            proof {
                if occurs_at(bytes@, at as int, part@) {
                    assert(bytes@.subrange(at as int, at + part@.len())[done as int]
                        == part@[done as int]);
                }
            }
            return None;
        }
        done = done + 1;
    }
    assert(bytes@.subrange(at as int, at + part@.len()) =~= part@);
    Some(at + part.len())
}

/// Tells whether the binary form of one text stands in `bytes` at `at`, and
/// if so where it ends.
fn match_text(bytes: &[u8], at: usize, text: &str) -> (out: Option<usize>)
    requires
        at <= bytes@.len(),
    ensures
        match out {
            Some(end) => occurs_at(bytes@, at as int, wire_text(text@)) && end == at + wire_text(
                text@,
            ).len(),
            None => !occurs_at(bytes@, at as int, wire_text(text@)),
        },
{
    let utf8 = text.as_bytes();
    proof {
        lemma_occurs_concat(bytes@, at as int, varint(utf8@.len()), utf8@);
    }
    match match_varint(bytes, at, utf8.len()) {
        None => None,
        Some(mid) => match_bytes(bytes, mid, utf8),
    }
}

/// Tells whether `bytes` are the binary form of `record`, no more and no
/// less.
pub fn is_wire_of(bytes: &[u8], record: &TrackingRecord) -> (out: bool)
    ensures
        out == (bytes@ == wire_record(record@)),
{
    proof {
        lemma_occurs_concat(bytes@, 0, wire_text(record@.label), wire_text(record@.target));
        if bytes@ == wire_record(record@) {
            assert(bytes@.subrange(0, bytes@.len() as int) =~= bytes@);
        }
    }
    match match_text(bytes, 0, record.label.as_str()) {
        None => false,
        Some(mid) => match match_text(bytes, mid, record.target.as_str()) {
            None => false,
            Some(end) => {
                proof {
                    if end == bytes@.len() {
                        assert(bytes@.subrange(0, bytes@.len() as int) =~= bytes@);
                    }
                }
                end == bytes.len()
            },
        },
    }
}

#[verifier::external_type_specification]
#[verifier::external_body]
pub struct ExPostcardError(postcard::Error);

/// `postcard::to_stdvec`, on the pair of the two texts. The contract claims
/// that the call does not fail (the vector it writes to never reports itself
/// full, and writing a text fails on nothing else) and that the bytes are the
/// pair's binary form: each text as its length, then its UTF-8 bytes.
#[verifier::external_body]
fn serialize_pair(label: &str, target: &str) -> (out: Result<Vec<u8>, postcard::Error>)
    ensures
        out is Ok,
        out matches Ok(bytes) ==> bytes@ == wire_record(
            RecordView { label: label@, target: target@ },
        ),
{
    postcard::to_stdvec(&(label, target))
}

/// `postcard::from_bytes`, for a pair of two texts. The contract claims that
/// it reads back what `postcard::to_stdvec` wrote: on the binary form of a
/// record it does not fail, and what it returns are that record's two texts.
/// Of other inputs it claims nothing.
#[verifier::external_body]
fn deserialize_pair(bytes: &[u8]) -> (out: Result<(String, String), postcard::Error>)
    ensures
        match out {
            Ok(pair) => forall|record: RecordView|
                bytes@ == #[trigger] wire_record(record) ==> pair.0@ == record.label && pair.1@
                    == record.target,
            Err(_) => forall|record: RecordView| bytes@ != #[trigger] wire_record(record),
        },
{
    postcard::from_bytes::<(String, String)>(bytes)
}

/// Writes a record in its binary form. The serializer does not fail on a
/// record, so the bytes always come back.
pub fn write_record(record: &TrackingRecord) -> (out: Option<Vec<u8>>)
    ensures
        out matches Some(bytes) && bytes@ == wire_record(record@),
{
    match serialize_pair(record.label.as_str(), record.target.as_str()) {
        Ok(bytes) => Some(bytes),
        Err(_) => None,
    }
}

/// Reads a record from its binary form. Returns the record whose binary form
/// the bytes are, and `None` when they are that of no record.
pub fn read_record(bytes: &[u8]) -> (out: Option<TrackingRecord>)
    ensures
        match out {
            Some(record) => wire_inverse(bytes@) == Some(record@),
            None => wire_inverse(bytes@) is None,
        },
{
    match deserialize_pair(bytes) {
        Ok(pair) => {
            let record = TrackingRecord { label: pair.0, target: pair.1 };
            if is_wire_of(bytes, &record) {
                proof {
                    lemma_wire_inverse(record@);
                }
                Some(record)
            } else {
                proof {
                    if exists|other: RecordView| wire_record(other) == bytes@ {
                        let other = choose|other: RecordView| wire_record(other) == bytes@;
                        assert(other == record@);
                    }
                }
                None
            }
        },
        Err(_) => None,
    }
}

} // verus!
