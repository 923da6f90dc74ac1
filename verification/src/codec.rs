//! The token codec: a record becomes a token and a token a record again.
//!
//! Encoding writes the record in its binary form, seals that to the
//! recipient and writes the envelope as unpadded base64url text. Decoding
//! undoes the three steps in turn and fails closed: a token either gives the
//! whole record or one error, never a part of a record.

use crate::base64url::{
    base64url, base64url_inverse, from_text, is_url_safe, lemma_base64url_inverse,
    lemma_base64url_len, lemma_base64url_one_text, lemma_base64url_url_safe, max_bytes, max_text,
    to_text,
};
use crate::envelope::{
    age_opened, max_sealed_len, may_seal, open, opened_view, opens_to, seal, OpenFailure,
    SealFailure,
};
use crate::keys::{age_recipient_of, IdentityKey, RecipientKey};
use crate::record::{RecordView, TrackingRecord};
use crate::wire::{
    lemma_wire_inverse, lemma_wire_one_form, lemma_wire_record_len, read_record, wire_inverse,
    wire_record, write_record,
};
use vstd::prelude::*;
use vstd::utf8::{encode_utf8, is_ascii_chars, is_ascii_chars_encode_utf8};

verus! {

/// Why a record could not be made into a token.
#[derive(Debug, Clone, Copy, PartialEq, Eq, Structural)]
pub enum EncodeError {
    /// The record could not be written in its binary form. Writing a record
    /// does not fail, so [`encode`] never returns this.
    Serialization,
    /// The recipient could not be sealed to. A recipient is well formed by
    /// the way it is made, so [`encode`] never returns this; it stands for a
    /// sealing failure of that kind in [`token_from_sealed`].
    Recipient,
    /// The envelope could not be written out, or is too long to be written
    /// as text.
    Write,
}

/// Why a token gave no record.
#[derive(Debug, Clone, Copy, PartialEq, Eq, Structural)]
pub enum DecodeError {
    /// The token is not the text of any bytes: it holds a character outside
    /// the alphabet, has an impossible length or stray bits, or is too long.
    MalformedToken,
    /// The bytes are not an envelope sealed to recipients.
    UnsupportedEnvelope,
    /// The identity does not open the envelope, or the envelope was
    /// tampered with. Which of the two is not told.
    DecryptionFailed,
    /// The envelope ends before its payload does.
    IncompleteCiphertext,
    /// What was sealed is not the binary form of a record.
    DeserializationFailed,
}

/// The value of what decoding returned.
pub open spec fn decoded_view(decoded: Result<TrackingRecord, DecodeError>) -> Result<
    RecordView,
    DecodeError,
> {
    match decoded {
        Ok(record) => Ok(record@),
        Err(error) => Err(error),
    }
}

/// What a token is worth once its envelope has been put before the
/// identity: the record whose binary form was sealed, or the error that
/// stands for the failure.
pub open spec fn record_of_opened(opened: Result<Seq<u8>, OpenFailure>) -> Result<
    RecordView,
    DecodeError,
> {
    match opened {
        Err(OpenFailure::Unreadable) => Err(DecodeError::UnsupportedEnvelope),
        Err(OpenFailure::Passphrase) => Err(DecodeError::UnsupportedEnvelope),
        Err(OpenFailure::Refused) => Err(DecodeError::DecryptionFailed),
        Err(OpenFailure::Tampered) => Err(DecodeError::DecryptionFailed),
        Err(OpenFailure::Truncated) => Err(DecodeError::IncompleteCiphertext),
        Ok(plaintext) => match wire_inverse(plaintext) {
            Some(record) => Ok(record),
            None => Err(DecodeError::DeserializationFailed),
        },
    }
}

/// What decoding `token` with the identity written as `identity` gives.
pub open spec fn decode_outcome(token: Seq<char>, identity: Seq<char>) -> Result<
    RecordView,
    DecodeError,
> {
    if encode_utf8(token).len() > max_text() {
        Err(DecodeError::MalformedToken)
    } else {
        match base64url_inverse(token) {
            None => Err(DecodeError::MalformedToken),
            Some(envelope) => record_of_opened(age_opened(envelope, identity)),
        }
    }
}

/// Whether `token` is a token of `record` for `recipient`: the text of an
/// envelope that every identity with that recipient opens, getting the
/// record's binary form.
pub open spec fn is_token_of(token: Seq<char>, record: RecordView, recipient: Seq<char>) -> bool {
    exists|envelope: Seq<u8>|
        #![trigger base64url(envelope)]
        envelope.len() <= max_bytes() && token == base64url(envelope) && opens_to(
            envelope,
            recipient,
            wire_record(record),
        )
}

/// Whether every character of `token` is in the URL-safe alphabet.
pub open spec fn is_url_safe_text(token: Seq<char>) -> bool {
    forall|i: int| 0 <= i < token.len() ==> is_url_safe(#[trigger] token[i])
}

/// What encoding returns once sealing is done: the envelope's text, or the
/// error that stands for the failure. An envelope too long to be written as
/// text counts as one that could not be written.
pub open spec fn token_of_sealed(sealed: Result<Seq<u8>, SealFailure>) -> Result<
    Seq<char>,
    EncodeError,
> {
    match sealed {
        Err(SealFailure::Recipient) => Err(EncodeError::Recipient),
        Err(SealFailure::Write) => Err(EncodeError::Write),
        Ok(envelope) => if envelope.len() <= max_bytes() {
            Ok(base64url(envelope))
        } else {
            Err(EncodeError::Write)
        },
    }
}

/// The value of what sealing returned.
pub open spec fn sealed_view(sealed: Result<Vec<u8>, SealFailure>) -> Result<Seq<u8>, SealFailure> {
    match sealed {
        Ok(envelope) => Ok(envelope@),
        Err(failure) => Err(failure),
    }
}

/// The value of what encoding returned.
pub open spec fn encoded_view(encoded: Result<String, EncodeError>) -> Result<
    Seq<char>,
    EncodeError,
> {
    match encoded {
        Ok(token) => Ok(token@),
        Err(error) => Err(error),
    }
}

/// The last step of encoding: turns what sealing returned into the token or
/// the error.
pub fn token_from_sealed(sealed: Result<Vec<u8>, SealFailure>) -> (out: Result<String, EncodeError>)
    ensures
        encoded_view(out) == token_of_sealed(sealed_view(sealed)),
{
    match sealed {
        Err(SealFailure::Recipient) => Err(EncodeError::Recipient),
        Err(SealFailure::Write) => Err(EncodeError::Write),
        Ok(envelope) => match to_text(envelope.as_slice()) {
            Some(token) => Ok(token),
            None => Err(EncodeError::Write),
        },
    }
}

/// The last steps of decoding: turns what opening returned into the record
/// or the error.
pub fn record_from_opened(opened: Result<Vec<u8>, OpenFailure>) -> (out: Result<
    TrackingRecord,
    DecodeError,
>)
    ensures
        decoded_view(out) == record_of_opened(opened_view(opened)),
{
    match opened {
        Err(OpenFailure::Unreadable) => Err(DecodeError::UnsupportedEnvelope),
        Err(OpenFailure::Passphrase) => Err(DecodeError::UnsupportedEnvelope),
        Err(OpenFailure::Refused) => Err(DecodeError::DecryptionFailed),
        Err(OpenFailure::Tampered) => Err(DecodeError::DecryptionFailed),
        Err(OpenFailure::Truncated) => Err(DecodeError::IncompleteCiphertext),
        Ok(plaintext) => match read_record(plaintext.as_slice()) {
            Some(record) => Ok(record),
            None => Err(DecodeError::DeserializationFailed),
        },
    }
}

/// Whether the envelope of `record` is short enough to be written as text,
/// however long its header turns out.
pub open spec fn record_fits(record: RecordView) -> bool {
    max_sealed_len(wire_record(record).len()) <= max_bytes()
}

/// Whether `record` is short enough by the count of its characters alone.
/// On every machine this holds of records of up to a million and a half
/// characters.
pub open spec fn record_is_short(record: RecordView) -> bool {
    5 * (record.label.len() + record.target.len()) + 1024 <= max_bytes()
}

/// Makes a token of `record` that only the identity of `recipient` can
/// open.
///
/// Sealing draws fresh randomness, so two calls on one record give different
/// tokens. What comes back is what [`token_of_sealed`] makes of the envelope
/// that the record's binary form was sealed in. That is a token of `record`
/// for `recipient`, not empty and made of URL-safe characters only, unless
/// the envelope is too long to be written as text, which gives `Write`. A
/// record that fits, and so every record that is short, always gets its
/// token.
pub fn encode(record: &TrackingRecord, recipient: &RecipientKey) -> (out: Result<
    String,
    EncodeError,
>)
    ensures
        exists|sealed: Result<Seq<u8>, SealFailure>|
            #![trigger token_of_sealed(sealed)]
            may_seal(sealed, recipient@, wire_record(record@)) && encoded_view(out)
                == token_of_sealed(sealed),
        out matches Ok(token) ==> is_token_of(token@, record@, recipient@) && is_url_safe_text(
            token@,
        ) && token@.len() > 0,
        out matches Err(error) ==> error == EncodeError::Write && !record_fits(record@),
        record_fits(record@) ==> out is Ok,
        record_is_short(record@) ==> out is Ok,
{
    let plaintext = match write_record(record) {
        Some(plaintext) => plaintext,
        None => {
            return Err(EncodeError::Serialization);
        },
    };
    proof {
        use_type_invariant(recipient);
    }
    let sealed = seal(plaintext.as_slice(), recipient);
    proof {
        lemma_base64url_url_safe(sealed->Ok_0@);
        lemma_base64url_len(sealed->Ok_0@);
        lemma_short_record_fits(record@);
        assert(may_seal(sealed_view(sealed), recipient@, wire_record(record@)));
    }
    token_from_sealed(sealed)
}

/// Recovers the record from `token` with `identity`.
///
/// Fails with `MalformedToken` when the token is not unpadded base64url
/// text, with `UnsupportedEnvelope` when its bytes are not an envelope sealed
/// to recipients, with `DecryptionFailed` when the identity does not open
/// the envelope or the envelope fails authentication, with
/// `IncompleteCiphertext` when the payload is cut short, and with
/// `DeserializationFailed` when what was sealed is not exactly the binary
/// form of a record.
pub fn decode(token: &str, identity: &IdentityKey) -> (out: Result<TrackingRecord, DecodeError>)
    ensures
        decoded_view(out) == decode_outcome(token@, identity@),
{
    match from_text(token) {
        None => Err(DecodeError::MalformedToken),
        Some(envelope) => record_from_opened(open(envelope.as_slice(), identity)),
    }
}

/// A record that is short by the count of its characters fits.
pub proof fn lemma_short_record_fits(record: RecordView)
    ensures
        record_is_short(record) ==> record_fits(record),
{
    lemma_wire_record_len(record);
}

/// The text of an envelope that is short enough to be written is short
/// enough to be read.
pub proof fn lemma_token_in_bounds(envelope: Seq<u8>)
    requires
        envelope.len() <= max_bytes(),
    ensures
        encode_utf8(base64url(envelope)).len() <= max_text(),
        base64url_inverse(base64url(envelope)) == Some(envelope),
{
    lemma_base64url_inverse(envelope);
    lemma_base64url_len(envelope);
    lemma_base64url_url_safe(envelope);
    assert(is_ascii_chars(base64url(envelope)));
    is_ascii_chars_encode_utf8(base64url(envelope));
}

/// Round trip: a token of a record for a recipient, decoded with an identity
/// that has that recipient, gives the record back, field for field.
pub proof fn lemma_round_trip(
    token: Seq<char>,
    record: RecordView,
    recipient: Seq<char>,
    identity: Seq<char>,
)
    requires
        is_token_of(token, record, recipient),
        age_recipient_of(identity) == Some(recipient),
    ensures
        decode_outcome(token, identity) == Ok::<RecordView, DecodeError>(record),
{
    let envelope = choose|envelope: Seq<u8>|
        #![trigger base64url(envelope)]
        envelope.len() <= max_bytes() && token == base64url(envelope) && opens_to(
            envelope,
            recipient,
            wire_record(record),
        );
    lemma_token_in_bounds(envelope);
    lemma_wire_inverse(record);
    assert(age_opened(envelope, identity) == Ok::<Seq<u8>, OpenFailure>(wire_record(record)));
}

/// Alphabet closure: a token holds no character outside the URL-safe
/// alphabet, whatever the record's texts are.
pub proof fn lemma_token_url_safe(token: Seq<char>, record: RecordView, recipient: Seq<char>)
    requires
        is_token_of(token, record, recipient),
    ensures
        is_url_safe_text(token),
{
    let envelope = choose|envelope: Seq<u8>|
        #![trigger base64url(envelope)]
        envelope.len() <= max_bytes() && token == base64url(envelope) && opens_to(
            envelope,
            recipient,
            wire_record(record),
        );
    lemma_base64url_url_safe(envelope);
}

/// Two tokens of one record need not be equal, but both decode to that
/// record.
pub proof fn lemma_tokens_agree(
    first: Seq<char>,
    second: Seq<char>,
    record: RecordView,
    recipient: Seq<char>,
    identity: Seq<char>,
)
    requires
        is_token_of(first, record, recipient),
        is_token_of(second, record, recipient),
        age_recipient_of(identity) == Some(recipient),
    ensures
        decode_outcome(first, identity) == Ok::<RecordView, DecodeError>(record),
        decode_outcome(second, identity) == decode_outcome(first, identity),
{
    lemma_round_trip(first, record, recipient, identity);
    lemma_round_trip(second, record, recipient, identity);
}

/// All or nothing: a record comes out of a token only when the token is the
/// text of an envelope that the identity opens, and then it is the record
/// whose binary form was sealed. An identity that does not open the envelope
/// gets no record, nor a part of one.
pub proof fn lemma_record_was_sealed(token: Seq<char>, identity: Seq<char>, record: RecordView)
    requires
        decode_outcome(token, identity) == Ok::<RecordView, DecodeError>(record),
    ensures
        exists|envelope: Seq<u8>| #[trigger]
            base64url(envelope) == token && age_opened(envelope, identity) == Ok::<
                Seq<u8>,
                OpenFailure,
            >(wire_record(record)),
{
    let envelope = base64url_inverse(token)->Some_0;
    assert(base64url(envelope) == token);
    let plaintext = age_opened(envelope, identity)->Ok_0;
    assert(wire_inverse(plaintext) == Some(record));
    assert(wire_record(record) == plaintext);
}

/// Wrong key: where the envelope does not open for the identity, because
/// the identity is none of its recipients or because a part of it fails
/// authentication, decoding its text fails with `DecryptionFailed`.
pub proof fn lemma_unopened_envelope(envelope: Seq<u8>, identity: Seq<char>)
    requires
        envelope.len() <= max_bytes(),
        age_opened(envelope, identity) == Err::<Seq<u8>, OpenFailure>(OpenFailure::Refused)
            || age_opened(envelope, identity) == Err::<Seq<u8>, OpenFailure>(
            OpenFailure::Tampered,
        ),
    ensures
        decode_outcome(base64url(envelope), identity) == Err::<RecordView, DecodeError>(
            DecodeError::DecryptionFailed,
        ),
{
    lemma_token_in_bounds(envelope);
}

/// Tampering with the text reaches the envelope, and tampering with what is
/// sealed reaches the record: two different tokens that both decode under
/// one identity are the texts of two different envelopes, and where they
/// decode to the same record, those envelopes hold the same sealed bytes.
pub proof fn lemma_changed_token(token: Seq<char>, changed: Seq<char>, identity: Seq<char>)
    requires
        token != changed,
        decode_outcome(token, identity) is Ok,
        decode_outcome(changed, identity) is Ok,
    ensures
        base64url_inverse(token) is Some,
        base64url_inverse(changed) is Some,
        base64url_inverse(token) != base64url_inverse(changed),
        decode_outcome(token, identity) == decode_outcome(changed, identity) ==> age_opened(
            base64url_inverse(token)->Some_0,
            identity,
        ) == age_opened(base64url_inverse(changed)->Some_0, identity),
{
    if base64url_inverse(token) == base64url_inverse(changed) {
        lemma_base64url_one_text(token, changed);
    }
    if decode_outcome(token, identity) == decode_outcome(changed, identity) {
        let first = age_opened(base64url_inverse(token)->Some_0, identity)->Ok_0;
        let second = age_opened(base64url_inverse(changed)->Some_0, identity)->Ok_0;
        lemma_wire_one_form(first, second);
    }
}

} // verus!
