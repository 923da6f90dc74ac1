//! Tracking links: a label and a notification target are sealed into an
//! opaque, URL-safe token that only the holder of the service's identity can
//! open again.

pub mod base64url;
pub mod codec;
pub mod envelope;
pub mod error;
pub mod issue;
pub mod keys;
pub mod page;
pub mod record;
pub mod track;
pub mod wire;
