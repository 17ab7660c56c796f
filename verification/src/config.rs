//! The configuration of one syndication run. Read once at startup and
//! treated as immutable for the run's lifetime; loading it from disk is the
//! caller's business.

use vstd::prelude::*;

verus! {

/// The feed URLs to syndicate.
#[derive(Debug)]
pub struct RSSConfig {
    pub urls: Vec<String>,
}

/// Where the database that backs the stores lives.
#[derive(Debug)]
pub struct DBConfig {
    pub path: String,
}

/// The OAuth client id used for the Twitter-like network.
#[derive(Debug)]
pub struct TwitterConfig {
    pub client_id: String,
}

/// The base URI and the static access token of the Mastodon-like network.
#[derive(Debug)]
pub struct MastodonConfig {
    pub base_uri: String,
    pub access_token: String,
}

/// Where the URL shortener answers, and under which public name its short
/// links are rendered.
#[derive(Debug)]
pub struct WormholeConfig {
    pub protocol: String,
    pub domain: String,
}

/// Everything one run needs.
#[derive(Debug)]
pub struct Config {
    pub rss: RSSConfig,
    pub db: DBConfig,
    pub twitter: TwitterConfig,
    pub mastodon: MastodonConfig,
    pub wormhole: WormholeConfig,
}

} // verus!
