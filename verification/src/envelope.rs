//! Sealing bytes to a recipient and opening them with an identity.
//!
//! The envelope is an age file with a single X25519 recipient stanza. The
//! encryption is done by the `age` crate; this module says what the codec
//! relies on: what was sealed to an identity's recipient, that identity
//! opens, and it gets back the bytes that were sealed.

use crate::keys::{age_recipient_of, IdentityKey, RecipientKey};
use age::{x25519, Decryptor, EncryptError, Encryptor};
use std::io::{ErrorKind, Read, Write};
use vstd::prelude::*;

verus! {

/// Why sealing did not give an envelope. The encryption's interface allows
/// for these; sealing to a well-formed recipient runs into neither.
#[derive(Debug, Clone, Copy, PartialEq, Eq, Structural)]
pub enum SealFailure {
    /// No set of recipients could be made of the key, or the key could not
    /// wrap the file key.
    Recipient,
    /// The envelope could not be written out.
    Write,
}

/// Why opening did not give the sealed bytes.
#[derive(Debug, Clone, Copy, PartialEq, Eq, Structural)]
pub enum OpenFailure {
    /// The bytes do not start with the header of an envelope.
    Unreadable,
    /// The envelope is sealed with a passphrase, not to recipients.
    Passphrase,
    /// The identity is none of the envelope's recipients, or the header's
    /// authentication failed.
    Refused,
    /// A part of the payload failed authentication.
    Tampered,
    /// The payload ends before its last part.
    Truncated,
}

/// What comes of opening `envelope` with the identity written as `identity`:
/// the bytes that were sealed, or why there are none.
pub uninterp spec fn age_opened(envelope: Seq<u8>, identity: Seq<char>) -> Result<
    Seq<u8>,
    OpenFailure,
>;

/// Whether every identity that has `recipient` opens `envelope` and gets
/// `plaintext`.
pub open spec fn opens_to(envelope: Seq<u8>, recipient: Seq<char>, plaintext: Seq<u8>) -> bool {
    forall|identity: Seq<char>|
        #![trigger age_opened(envelope, identity)]
        #![trigger age_recipient_of(identity)]
        age_recipient_of(identity) == Some(recipient) ==> age_opened(envelope, identity) == Ok::<
            Seq<u8>,
            OpenFailure,
        >(plaintext)
}

/// The most bytes that an envelope of `len` sealed bytes has. The payload is
/// the sealed bytes in parts of 65536, each with a tag of 16 bytes, and at
/// least one part. Before it stand a nonce of 16 bytes and the header, which
/// is at most 358 bytes long: the version line, the recipient's stanza, one
/// stanza of random filler and the line of the header's authentication code.
/// One byte in 4096 covers the tags but one; 512 bytes cover the rest.
pub open spec fn max_sealed_len(len: nat) -> nat {
    len + len / 4096 + 512
}

/// Whether `sealed` is something that sealing `plaintext` to `recipient` may
/// return: an envelope that every identity with that recipient opens,
/// getting `plaintext`, and that is longer than `plaintext` by no more than
/// header, nonce and tags.
pub open spec fn may_seal(
    sealed: Result<Seq<u8>, SealFailure>,
    recipient: Seq<char>,
    plaintext: Seq<u8>,
) -> bool {
    &&& sealed matches Ok(envelope)
    &&& opens_to(envelope, recipient, plaintext)
    &&& plaintext.len() < envelope.len() <= max_sealed_len(plaintext.len())
}

/// The value of what opening returned.
pub open spec fn opened_view(opened: Result<Vec<u8>, OpenFailure>) -> Result<Seq<u8>, OpenFailure> {
    match opened {
        Ok(plaintext) => Ok(plaintext@),
        Err(failure) => Err(failure),
    }
}

/// Encryption to one recipient with `age`: `Encryptor::with_recipients` on
/// the parsed key, `wrap_output` into a fresh buffer, `write_all` of the
/// plaintext and `finish`. Each envelope is sealed with fresh randomness, so
/// the contract names no result. It claims what holds of every outcome.
/// The call does not fail: the text of a well-formed recipient parses, one
/// recipient is a set of recipients, an X25519 recipient always wraps the
/// file key, and header, payload and tags are written to a buffer in memory,
/// which takes every write. An identity that has this recipient opens the
/// envelope and gets the plaintext. The envelope is longer than the
/// plaintext, by no more than [`max_sealed_len`] allows. The recipient
/// must be well formed, that is, one that an identity has: for other keys
/// the key agreement can degenerate, on which `age` panics.
#[verifier::external_body]
pub(crate) fn seal(plaintext: &[u8], recipient: &RecipientKey) -> (out: Result<
    Vec<u8>,
    SealFailure,
>)
    requires
        recipient.well_formed(),
    ensures
        out is Ok,
        out matches Ok(envelope) ==> opens_to(envelope@, recipient@, plaintext@),
        out matches Ok(envelope) ==> plaintext@.len() < envelope@.len() <= max_sealed_len(
            plaintext@.len(),
        ),
{
    let key = recipient.as_str().parse::<x25519::Recipient>();
    let key = key.map_err(|_| SealFailure::Recipient)?;
    let encryptor = Encryptor::with_recipients(vec![Box::new(key)]);
    let mut writer = match encryptor.ok_or(SealFailure::Recipient)?.wrap_output(Vec::new()) {
        Ok(writer) => writer,
        Err(EncryptError::Io(_)) => return Err(SealFailure::Write),
        Err(_) => return Err(SealFailure::Recipient),
    };
    writer.write_all(plaintext).map_err(|_| SealFailure::Write)?;
    writer.finish().map_err(|_| SealFailure::Write)
}

/// Decryption with one identity with `age`: `Decryptor::new` on the bytes,
/// `decrypt` with the parsed identity and `read_to_end` of the payload. The
/// outcome depends on the envelope and the identity alone, and the contract
/// names it. The failures tell apart where `age` stopped: at the header, at
/// the passphrase variant, at `decrypt`, and in reading, there by the kind of
/// the I/O error (an unexpected end, or anything else).
#[verifier::external_body]
pub(crate) fn open(envelope: &[u8], identity: &IdentityKey) -> (out: Result<
    Vec<u8>,
    OpenFailure,
>)
    ensures
        opened_view(out) == age_opened(envelope@, identity@),
{
    let key = identity.secret().parse::<x25519::Identity>();
    let key = key.map_err(|_| OpenFailure::Refused)?;
    let decryptor = match Decryptor::new(envelope) {
        Ok(Decryptor::Recipients(decryptor)) => decryptor,
        Ok(Decryptor::Passphrase(_)) => return Err(OpenFailure::Passphrase),
        Err(_) => return Err(OpenFailure::Unreadable),
    };
    let reader = decryptor.decrypt(std::iter::once(&key as &dyn age::Identity));
    let mut plaintext = Vec::new();
    match reader.map_err(|_| OpenFailure::Refused)?.read_to_end(&mut plaintext) {
        Ok(_) => Ok(plaintext),
        Err(error) if error.kind() == ErrorKind::UnexpectedEof => Err(OpenFailure::Truncated),
        Err(_) => Err(OpenFailure::Tampered),
    }
}

} // verus!
