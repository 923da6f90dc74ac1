//! Issuing a tracking link: from the form's two fields to the URL that is
//! handed out.

use crate::codec::{
    encode, is_token_of, is_url_safe_text, record_fits, record_is_short, EncodeError,
};
use crate::error::{AppError, Failure};
use crate::keys::RecipientKey;
use crate::record::{RecordView, TrackingRecord};
use vstd::prelude::*;
use vstd::string::StringExecFns;

verus! {

/// The two fields of the form, as far as they were filled in.
#[derive(Debug, PartialEq, Eq)]
pub struct Params {
    pub name: Option<String>,
    pub webhook: Option<String>,
}

/// A link that was issued: the two fields as they were given, and the URL
/// that tracks them.
#[derive(Debug, PartialEq, Eq)]
pub struct Issued {
    pub name: String,
    pub webhook: String,
    pub result: String,
}

/// A field that was left empty counts as one that was not given.
pub fn empty_string_as_none(field: Option<String>) -> (out: Option<String>)
    ensures
        match out {
            Some(text) => field matches Some(given) && given@ == text@ && text@.len() > 0,
            None => field matches Some(given) ==> given@.len() == 0,
        },
{
    match field {
        None => None,
        Some(text) => if text.as_str().is_empty() {
            None
        } else {
            Some(text)
        },
    }
}

/// The URL of a token under a base: the base, a slash, the token.
pub open spec fn tracking_url_of(url_base: Seq<char>, token: Seq<char>) -> Seq<char> {
    url_base + seq!['/'] + token
}

/// Writes the URL that carries `token` as its last path segment.
pub fn tracking_url(url_base: &str, token: &str) -> (url: String)
    ensures
        url@ == tracking_url_of(url_base@, token@),
{
    let mut url = String::from_str(url_base);
    url.append("/");
    url.append(token);
    proof {
        reveal_strlit("/");
        assert("/"@ =~= seq!['/']);
    }
    url
}

/// What the form shows once encoding is over: the link, or the error.
pub fn issued_from_token(
    name: &str,
    webhook: &str,
    url_base: &str,
    token: Result<String, EncodeError>,
) -> (out: Result<Issued, AppError>)
    ensures
        match token {
            Ok(token) => out matches Ok(issued) && issued.name@ == name@ && issued.webhook@
                == webhook@ && issued.result@ == tracking_url_of(url_base@, token@),
            Err(error) => out == Err::<Issued, AppError>(AppError(Failure::Encode(error))),
        },
{
    match token {
        Ok(token) => Ok(
            Issued {
                name: String::from_str(name),
                webhook: String::from_str(webhook),
                result: tracking_url(url_base, token.as_str()),
            },
        ),
        Err(error) => Err(AppError(Failure::Encode(error))),
    }
}

/// The record that the form's two fields make, where both are given.
pub open spec fn record_of(params: Params) -> Option<RecordView> {
    match (params.name, params.webhook) {
        (Some(name), Some(webhook)) => Some(RecordView { label: name@, target: webhook@ }),
        _ => None,
    }
}

/// Serves the form. With both fields given, a link is issued for them: the
/// record of the two is encoded for `recipient` and the token, which is not
/// empty and holds no slash, put under `url_base` as one path segment. This
/// fails only where the record does not fit, with the error of encoding;
/// short fields always get their link. With a field missing, nothing is
/// issued and nothing fails.
pub fn issue(params: &Params, recipient: &RecipientKey, url_base: &str) -> (out: Result<
    Option<Issued>,
    AppError,
>)
    ensures
        match out {
            Ok(None) => record_of(*params) is None,
            Ok(Some(issued)) => {
                &&& params.name matches Some(name)
                &&& params.webhook matches Some(webhook)
                &&& issued.name@ == name@
                &&& issued.webhook@ == webhook@
                &&& exists|token: Seq<char>|
                    #![trigger tracking_url_of(url_base@, token)]
                    is_token_of(token, RecordView { label: name@, target: webhook@ }, recipient@)
                        && is_url_safe_text(token) && token.len() > 0 && issued.result@
                        == tracking_url_of(url_base@, token)
            },
            Err(error) => record_of(*params) matches Some(record) && !record_fits(record)
                && error == AppError(Failure::Encode(EncodeError::Write)),
        },
        record_of(*params) matches Some(record) && record_fits(record) ==> out matches Ok(
            Some(_),
        ),
        record_of(*params) matches Some(record) && record_is_short(record) ==> out matches Ok(
            Some(_),
        ),
{
    match (&params.name, &params.webhook) {
        (Some(name), Some(webhook)) => {
            let record = TrackingRecord { label: name.clone(), target: webhook.clone() };
            let token = encode(&record, recipient);
            match issued_from_token(name.as_str(), webhook.as_str(), url_base, token) {
                Ok(issued) => Ok(Some(issued)),
                Err(error) => Err(error),
            }
        },
        _ => Ok(None),
    }
}

} // verus!
