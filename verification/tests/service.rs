use age::secrecy::ExposeSecret;
use pixel_tracker::codec::{decode, DecodeError, EncodeError};
use pixel_tracker::error::{AppError, Failure};
use pixel_tracker::issue::{
    empty_string_as_none, issue, issued_from_token, tracking_url, Issued, Params,
};
use pixel_tracker::keys::IdentityKey;
use pixel_tracker::record::TrackingRecord;
use pixel_tracker::track::{notification, notification_from_decoded, tracker, Notification};

fn fresh_identity() -> IdentityKey {
    let generated = age::x25519::Identity::generate();
    IdentityKey::parse(generated.to_string().expose_secret()).unwrap()
}

fn record(label: &str, target: &str) -> TrackingRecord {
    TrackingRecord::new(String::from(label), String::from(target))
}

#[test]
fn every_error_answers_alike() {
    let causes = [
        Failure::Encode(EncodeError::Serialization),
        Failure::Encode(EncodeError::Recipient),
        Failure::Encode(EncodeError::Write),
        Failure::Decode(DecodeError::MalformedToken),
        Failure::Decode(DecodeError::UnsupportedEnvelope),
        Failure::Decode(DecodeError::DecryptionFailed),
        Failure::Decode(DecodeError::IncompleteCiphertext),
        Failure::Decode(DecodeError::DeserializationFailed),
        Failure::MissingClientIp,
        Failure::Render,
        Failure::Delivery,
    ];
    for cause in causes {
        let error = AppError(cause);
        assert_eq!(error.status(), 500);
        assert_eq!(error.message(), "Internal server error");
    }
}

#[test]
fn codec_errors_become_app_errors() {
    assert_eq!(
        AppError::from(DecodeError::DecryptionFailed),
        AppError(Failure::Decode(DecodeError::DecryptionFailed))
    );
    assert_eq!(
        AppError::from(EncodeError::Write),
        AppError(Failure::Encode(EncodeError::Write))
    );
}

#[test]
fn empty_field_counts_as_missing() {
    assert_eq!(empty_string_as_none(None), None);
    assert_eq!(empty_string_as_none(Some(String::new())), None);
    assert_eq!(empty_string_as_none(Some(String::from("a"))), Some(String::from("a")));
    assert_eq!(empty_string_as_none(Some(String::from(" "))), Some(String::from(" ")));
}

#[test]
fn url_is_base_slash_token() {
    assert_eq!(tracking_url("https://t.example/pt", "Zm9v"), "https://t.example/pt/Zm9v");
    assert_eq!(tracking_url("", ""), "/");
    assert_eq!(tracking_url("base/", "x"), "base//x");
}

#[test]
fn form_shows_the_link_or_the_error() {
    assert_eq!(
        issued_from_token("n", "w", "https://t.example/pt", Ok(String::from("Zm9v"))),
        Ok(Issued {
            name: String::from("n"),
            webhook: String::from("w"),
            result: String::from("https://t.example/pt/Zm9v"),
        })
    );
    assert_eq!(
        issued_from_token("n", "w", "https://t.example/pt", Err(EncodeError::Recipient)),
        Err(AppError(Failure::Encode(EncodeError::Recipient)))
    );
}

#[test]
fn nothing_is_issued_with_a_field_missing() {
    let id = fresh_identity();
    let recipient = id.to_public();
    let cases = [
        Params { name: None, webhook: None },
        Params { name: Some(String::from("promo1")), webhook: None },
        Params { name: None, webhook: Some(String::from("https://example.org/notify")) },
    ];
    for params in cases {
        assert_eq!(issue(&params, &recipient, "https://t.example/pt"), Ok(None));
    }
}

#[test]
fn issued_link_carries_a_token_of_the_two_fields() {
    let id = fresh_identity();
    let params = Params {
        name: Some(String::from("promo1")),
        webhook: Some(String::from("https://example.org/notify")),
    };
    let issued = issue(&params, &id.to_public(), "https://t.example/pt").unwrap().unwrap();
    assert_eq!(issued.name, "promo1");
    assert_eq!(issued.webhook, "https://example.org/notify");
    let token = issued.result.strip_prefix("https://t.example/pt/").unwrap();
    assert!(!token.contains('/'));
    assert_eq!(decode(token, &id), Ok(record("promo1", "https://example.org/notify")));
}

#[test]
fn notification_names_time_label_and_address() {
    let subject = record("promo1", "https://example.org/notify");
    assert_eq!(
        notification(subject, "203.0.113.7", "2023-02-03 4:05:06.0 +00:00:00"),
        Notification {
            target: String::from("https://example.org/notify"),
            title: String::from("Tracking read @ 2023-02-03 4:05:06.0 +00:00:00 (UTC)"),
            name: String::from("promo1"),
            ip: String::from("203.0.113.7"),
        }
    );
}

#[test]
fn no_notification_without_a_record() {
    let ips = [String::from("203.0.113.7")];
    assert_eq!(
        notification_from_decoded(Err(DecodeError::DecryptionFailed), &ips, "now"),
        Err(AppError(Failure::Decode(DecodeError::DecryptionFailed)))
    );
    // the decoding error comes first, also where no address is known
    assert_eq!(
        notification_from_decoded(Err(DecodeError::MalformedToken), &[], "now"),
        Err(AppError(Failure::Decode(DecodeError::MalformedToken)))
    );
}

#[test]
fn no_notification_without_an_address() {
    assert_eq!(
        notification_from_decoded(Ok(record("a", "b")), &[], "now"),
        Err(AppError(Failure::MissingClientIp))
    );
}

#[test]
fn first_address_is_reported() {
    let ips = [String::from("203.0.113.7"), String::from("10.0.0.1")];
    let out = notification_from_decoded(Ok(record("a", "b")), &ips, "now").unwrap();
    assert_eq!(out.ip, "203.0.113.7");
    assert_eq!(out.target, "b");
    assert_eq!(out.name, "a");
    assert_eq!(out.title, "Tracking read @ now (UTC)");
}

#[test]
fn fetch_of_an_issued_link_notifies_its_target() {
    let id = fresh_identity();
    let params = Params {
        name: Some(String::from("promo1")),
        webhook: Some(String::from("https://example.org/notify")),
    };
    let issued = issue(&params, &id.to_public(), "https://t.example/pt").unwrap().unwrap();
    let token = issued.result.strip_prefix("https://t.example/pt/").unwrap();
    let ips = [String::from("203.0.113.7")];
    assert_eq!(
        tracker(token, &id, &ips, "2023-02-03 4:05:06.0 +00:00:00"),
        Ok(Notification {
            target: String::from("https://example.org/notify"),
            title: String::from("Tracking read @ 2023-02-03 4:05:06.0 +00:00:00 (UTC)"),
            name: String::from("promo1"),
            ip: String::from("203.0.113.7"),
        })
    );
    assert_eq!(tracker(token, &id, &[], "now"), Err(AppError(Failure::MissingClientIp)));
    let other = fresh_identity();
    assert_eq!(
        tracker(token, &other, &ips, "now"),
        Err(AppError(Failure::Decode(DecodeError::DecryptionFailed)))
    );
    assert_eq!(
        tracker("?", &id, &ips, "now"),
        Err(AppError(Failure::Decode(DecodeError::MalformedToken)))
    );
}
