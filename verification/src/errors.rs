//! The error kinds that the syndication core distinguishes.

use vstd::prelude::*;

verus! {

/// Why one unit of work (a feed fetch, or one item published to one target)
/// failed. The kinds are kept distinct so that callers can tell a failure
/// that aborts a single publish from one that poisons the whole run.
#[derive(Debug)]
pub enum OrionError {
    /// The network or HTTP layer failed; never retried beyond the single
    /// auth retry.
    TransportError,
    /// The refresh-token exchange failed; fatal for the affected request.
    AuthError,
    /// The URL shortener was unavailable or rejected the URL; aborts that
    /// publish.
    CitationError,
    /// A network API answered with an unexpected response shape.
    DecodeError,
    /// The dedup store or token store could not persist a record.
    StorageError,
    /// A feed item misses a required field (link or guid); the item fails
    /// fast instead of being silently skipped.
    ValidationError,
    /// A feed could not be fetched or parsed, tagged with its source URL.
    FeedError { url: String },
    /// The configuration could not be loaded.
    ConfigError,
}

impl Clone for OrionError {
    fn clone(&self) -> (r: Self)
        ensures
            r == *self,
    {
        match self {
            OrionError::TransportError => OrionError::TransportError,
            OrionError::AuthError => OrionError::AuthError,
            OrionError::CitationError => OrionError::CitationError,
            OrionError::DecodeError => OrionError::DecodeError,
            OrionError::StorageError => OrionError::StorageError,
            OrionError::ValidationError => OrionError::ValidationError,
            OrionError::FeedError { url } => OrionError::FeedError { url: url.clone() },
            OrionError::ConfigError => OrionError::ConfigError,
        }
    }
}

impl OrionError {
    /// What `message` renders for each error kind.
    pub open spec fn message_spec(&self) -> Seq<char> {
        match self {
            OrionError::TransportError => "transport error"@,
            OrionError::AuthError => "auth error"@,
            OrionError::CitationError => "citation error"@,
            OrionError::DecodeError => "decode error"@,
            OrionError::StorageError => "storage error"@,
            OrionError::ValidationError => "validation error"@,
            OrionError::FeedError { url } => "feed error: "@ + url@,
            OrionError::ConfigError => "config error"@,
        }
    }

    /// Renders the error kind for diagnostics.
    pub fn message(&self) -> (r: String)
        ensures
            r@ == self.message_spec(),
    {
        let r = match self {
            OrionError::TransportError => String::from_str("transport error"),
            OrionError::AuthError => String::from_str("auth error"),
            OrionError::CitationError => String::from_str("citation error"),
            OrionError::DecodeError => String::from_str("decode error"),
            OrionError::StorageError => String::from_str("storage error"),
            OrionError::ValidationError => String::from_str("validation error"),
            OrionError::FeedError { url } => {
                let mut m = String::from_str("feed error: ");
                m.append(url.as_str());
                m
            },
            OrionError::ConfigError => String::from_str("config error"),
        };
        proof {
            reveal_strlit("transport error");
            reveal_strlit("auth error");
            reveal_strlit("citation error");
            reveal_strlit("decode error");
            reveal_strlit("storage error");
            reveal_strlit("validation error");
            reveal_strlit("feed error: ");
            reveal_strlit("config error");
        }
        r
    }
}

} // verus!
