//! What is kept of a validated threat feed.

use crate::net::IpAddr;
use vstd::prelude::*;

verus! {

/// An endpoint that the feed names.
#[derive(Clone, Copy, Debug, PartialEq, Eq, Structural)]
pub struct FeedEndpoint {
    pub ip_address: IpAddr,
    pub port: u16,
}

/// Where a feed comes from and what it held.
#[derive(Clone, Debug, PartialEq, Eq)]
pub struct FeedMetadata {
    pub source: String,
    pub retrieved_at_unix_secs: u64,
    pub content_sha256: String,
}

/// A feed whose every entry was validated.
#[derive(Clone, Debug, PartialEq, Eq)]
pub struct ValidatedThreatFeed {
    pub endpoints: Vec<FeedEndpoint>,
    pub metadata: FeedMetadata,
}

/// The one source that is accepted: its address, its license and how many bytes it
/// may have.
#[derive(Clone, Debug, PartialEq, Eq)]
pub struct FeedSource {
    pub url: String,
    pub license: String,
    pub max_input_bytes: usize,
}

} // verus!
