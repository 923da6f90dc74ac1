//! Answering a fetch of a tracking link: from the token and what is known
//! of the request to the notification that is to be sent.

use crate::codec::{decode, decode_outcome, decoded_view, DecodeError};
use crate::error::{AppError, Failure};
use crate::keys::IdentityKey;
use crate::record::{RecordView, TrackingRecord};
use vstd::prelude::*;
use vstd::string::StringExecFns;

verus! {

/// A message for the endpoint that a record names.
#[derive(Debug, PartialEq, Eq)]
pub struct Notification {
    /// Where the message goes: the record's target, not looked into.
    pub target: String,
    /// The heading, which holds the time of the fetch.
    pub title: String,
    /// The record's label.
    pub name: String,
    /// The address the fetch came from.
    pub ip: String,
}

/// The value of a [`Notification`].
pub struct NotificationView {
    pub target: Seq<char>,
    pub title: Seq<char>,
    pub name: Seq<char>,
    pub ip: Seq<char>,
}

impl View for Notification {
    type V = NotificationView;

    open spec fn view(&self) -> NotificationView {
        NotificationView {
            target: self.target@,
            title: self.title@,
            name: self.name@,
            ip: self.ip@,
        }
    }
}

/// The heading of a notification for a fetch at `observed_at`.
pub open spec fn title_of(observed_at: Seq<char>) -> Seq<char> {
    "Tracking read @ "@ + observed_at + " (UTC)"@
}

/// The notification that a fetch of `record`'s link from `ip` at
/// `observed_at` calls for.
pub open spec fn notification_of(record: RecordView, ip: Seq<char>, observed_at: Seq<char>)
    -> NotificationView {
    NotificationView {
        target: record.target,
        title: title_of(observed_at),
        name: record.label,
        ip,
    }
}

/// What a fetch calls for: the notification, or the error. A token that
/// gives no record gives no notification, whatever else is known; next, a
/// fetch that names no address gives none either; otherwise the first
/// address is the one reported.
pub open spec fn track_outcome(
    decoded: Result<RecordView, DecodeError>,
    ips: Seq<Seq<char>>,
    observed_at: Seq<char>,
) -> Result<NotificationView, AppError> {
    match decoded {
        Err(error) => Err(AppError(Failure::Decode(error))),
        Ok(record) => if ips.len() == 0 {
            Err(AppError(Failure::MissingClientIp))
        } else {
            Ok(notification_of(record, ips[0], observed_at))
        },
    }
}

/// The value of what answering a fetch returned.
pub open spec fn answer_view(answer: Result<Notification, AppError>) -> Result<
    NotificationView,
    AppError,
> {
    match answer {
        Ok(notification) => Ok(notification@),
        Err(error) => Err(error),
    }
}

/// The addresses' texts.
pub open spec fn texts(ips: Seq<String>) -> Seq<Seq<char>> {
    Seq::new(ips.len(), |i: int| ips[i]@)
}

/// Writes the notification for a fetch of `record`'s link.
pub fn notification(record: TrackingRecord, ip: &str, observed_at: &str) -> (out: Notification)
    ensures
        out@ == notification_of(record@, ip@, observed_at@),
{
    let mut title = String::from_str("Tracking read @ ");
    title.append(observed_at);
    title.append(" (UTC)");
    Notification { target: record.target, title, name: record.label, ip: String::from_str(ip) }
}

/// Decides what a fetch calls for, once the token has been decoded.
pub fn notification_from_decoded(
    decoded: Result<TrackingRecord, DecodeError>,
    ips: &[String],
    observed_at: &str,
) -> (out: Result<Notification, AppError>)
    ensures
        answer_view(out) == track_outcome(decoded_view(decoded), texts(ips@), observed_at@),
{
    match decoded {
        Err(error) => Err(AppError(Failure::Decode(error))),
        Ok(record) => if ips.len() == 0 {
            Err(AppError(Failure::MissingClientIp))
        } else {
            Ok(notification(record, ips[0].as_str(), observed_at))
        },
    }
}

/// Answers a fetch of the link that carries `token`: decodes the token with
/// `identity` and, where that gives a record, writes the notification for
/// its target. No notification exists unless decoding succeeded.
pub fn tracker(token: &str, identity: &IdentityKey, ips: &[String], observed_at: &str) -> (out:
    Result<Notification, AppError>)
    ensures
        answer_view(out) == track_outcome(
            decode_outcome(token@, identity@),
            texts(ips@),
            observed_at@,
        ),
{
    notification_from_decoded(decode(token, identity), ips, observed_at)
}

} // verus!
