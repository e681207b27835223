//! Authenticated-request signing and bulk-deletion pipeline for a
//! social-media REST API.
//!
//! The crate has two layers: a request signer that turns an HTTP method, a
//! target URL and a set of query parameters into an HMAC-SHA1 authorization
//! header, and a fetch/act/refetch pipeline that repeatedly lists targets and
//! deletes posts or removes likes one at a time.  The transport itself (HTTP,
//! prompts, files) lives outside this crate behind [`twitter_client::TwitterClientTrait`].

pub mod crypto;
pub mod encoding;
pub mod error;
pub mod login;
pub mod params;
pub mod pipeline;
pub mod signer;
pub mod twitter_client;
pub mod twitter_object;
