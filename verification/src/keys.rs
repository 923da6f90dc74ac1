//! The service's key pair, as configuration handed to the codec.
//!
//! An identity is the private half: it alone opens tokens. A recipient is
//! the public half: tokens are sealed to it. Both are kept in their standard
//! text form, the identity as `AGE-SECRET-KEY-1...` and the recipient as
//! `age1...`. A recipient is only ever derived from an identity, never read
//! from text, so every recipient has an identity that opens what is sealed
//! to it.

use vstd::prelude::*;

verus! {

/// The text of the recipient that belongs to the identity written as
/// `identity`, or `None` where `identity` is not the text of an identity.
pub uninterp spec fn age_recipient_of(identity: Seq<char>) -> Option<Seq<char>>;

/// Whether `recipient` is the text of a recipient that some identity has.
pub open spec fn has_identity(recipient: Seq<char>) -> bool {
    exists|identity: Seq<char>| age_recipient_of(identity) == Some(recipient)
}

/// `age::x25519::Identity::to_public`, from text to text: the argument is
/// parsed with `age::x25519::Identity::from_str` and the result written with
/// the recipient's `to_string`. The contract names the result; it is `None`
/// exactly when the text does not parse as an identity.
#[verifier::external_body]
fn derive_recipient(identity: &str) -> (out: Option<String>)
    ensures
        match out {
            Some(recipient) => age_recipient_of(identity@) == Some(recipient@),
            None => age_recipient_of(identity@) is None,
        },
{
    match identity.parse::<age::x25519::Identity>() {
        Ok(key) => Some(key.to_public().to_string()),
        Err(_) => None,
    }
}

/// The private key of the service. Whoever holds it can open every token
/// sealed to its recipient.
pub struct IdentityKey {
    secret: String,
    recipient: String,
}

/// The public key of the service, derived from an [`IdentityKey`].
#[derive(Debug)]
pub struct RecipientKey {
    text: String,
}

impl View for IdentityKey {
    type V = Seq<char>;

    /// The identity's text.
    closed spec fn view(&self) -> Seq<char> {
        self.secret@
    }
}

impl View for RecipientKey {
    type V = Seq<char>;

    /// The recipient's text.
    closed spec fn view(&self) -> Seq<char> {
        self.text@
    }
}

impl IdentityKey {
    /// The text is that of an identity, and the recipient kept beside it is
    /// the one that belongs to it.
    #[verifier::type_invariant]
    closed spec fn well_formed(self) -> bool {
        age_recipient_of(self.secret@) == Some(self.recipient@)
    }

    /// Reads an identity from its text. Returns `None` exactly when the text
    /// is not that of an identity.
    pub fn parse(text: &str) -> (out: Option<IdentityKey>)
        ensures
            match out {
                Some(key) => key@ == text@ && age_recipient_of(text@) is Some,
                None => age_recipient_of(text@) is None,
            },
    {
        match derive_recipient(text) {
            Some(recipient) => Some(IdentityKey { secret: text.to_owned(), recipient }),
            None => None,
        }
    }

    /// The recipient that belongs to this identity.
    pub fn to_public(&self) -> (recipient: RecipientKey)
        ensures
            age_recipient_of(self@) == Some(recipient@),
    {
        proof {
            use_type_invariant(self);
        }
        RecipientKey { text: self.recipient.clone() }
    }

    /// The identity's text.
    pub(crate) fn secret(&self) -> (text: &str)
        ensures
            text@ == self@,
    {
        self.secret.as_str()
    }
}

impl RecipientKey {
    /// Some identity has this recipient.
    #[verifier::type_invariant]
    pub open spec fn well_formed(self) -> bool {
        has_identity(self@)
    }

    /// The recipient's text.
    pub fn as_str(&self) -> (text: &str)
        ensures
            text@ == self@,
    {
        self.text.as_str()
    }
}

impl Clone for RecipientKey {
    fn clone(&self) -> (copy: RecipientKey)
        ensures
            copy@ == self@,
    {
        proof {
            use_type_invariant(self);
        }
        RecipientKey { text: self.text.clone() }
    }
}

} // verus!
