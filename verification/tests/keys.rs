use age::secrecy::ExposeSecret;
use pixel_tracker::keys::IdentityKey;

#[test]
fn recipient_is_the_one_age_derives() {
    let generated = age::x25519::Identity::generate();
    let key = IdentityKey::parse(generated.to_string().expose_secret()).unwrap();
    let recipient = key.to_public();
    assert_eq!(recipient.as_str(), generated.to_public().to_string());
    assert!(recipient.as_str().starts_with("age1"));
    assert_eq!(recipient.clone().as_str(), recipient.as_str());
}

#[test]
fn two_identities_have_two_recipients() {
    let a = age::x25519::Identity::generate();
    let b = age::x25519::Identity::generate();
    let a = IdentityKey::parse(a.to_string().expose_secret()).unwrap();
    let b = IdentityKey::parse(b.to_string().expose_secret()).unwrap();
    assert_ne!(a.to_public().as_str(), b.to_public().as_str());
}

#[test]
fn text_that_is_no_identity() {
    assert!(IdentityKey::parse("").is_none());
    assert!(IdentityKey::parse("not a key").is_none());
    let generated = age::x25519::Identity::generate();
    // a recipient is no identity
    assert!(IdentityKey::parse(&generated.to_public().to_string()).is_none());
    // nor is an identity with a character changed
    let text = generated.to_string();
    let text = text.expose_secret();
    let mut changed = String::from(&text[..text.len() - 1]);
    changed.push(if text.ends_with('Q') { 'P' } else { 'Q' });
    assert!(IdentityKey::parse(&changed).is_none());
}
