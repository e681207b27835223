//! API response object definitions.
//!
//! These are the plain values that the transport layer hands to the pipeline
//! after decoding a response body.
use vstd::prelude::*;

verus! {

/// Wrapper of a response body: every endpoint wraps its payload in `data`.
pub struct ResponseObject<T> {
    pub data: T,
}

/// A user record, as returned by the username lookup endpoint.
pub struct User {
    pub id: String,
    pub name: String,
    pub username: String,
}

/// A target record: a post, or a liked-post entry.  The pipeline only needs
/// `id` to act on it; the rest is kept for diagnostic replay.
pub struct Tweet {
    pub id: String,
    pub created_at: String,
    pub public_metrics: PublicMetrics,
    pub attachments: Option<Attachments>,
}

/// Engagement counters of a target.
pub struct PublicMetrics {
    pub retweet_count: u32,
    pub reply_count: u32,
    pub like_count: u32,
    pub quote_count: u32,
}

/// Attachment keys of a target.
pub struct Attachments {
    pub media_keys: Vec<String>,
}

impl Clone for PublicMetrics {
    fn clone(&self) -> (r: Self)
        ensures
            r == *self,
    {
        PublicMetrics {
            retweet_count: self.retweet_count,
            reply_count: self.reply_count,
            like_count: self.like_count,
            quote_count: self.quote_count,
        }
    }
}

} // verus!
