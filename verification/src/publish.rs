//! The network-specific pieces of a publish call: the character budgets and
//! the decoding of the publish response into a syndicated-post record.

use vstd::prelude::*;

use crate::errors::OrionError;
use crate::rss::Item;
use crate::rss::item_guid;
use crate::rss::item_link;
use crate::rss::valid_item;
use crate::social::Network;
use crate::syndicated_post::SyndicatedPost;

verus! {

/// The character budget of a Twitter-like post.
pub const TWITTER_CHARACTER_LIMIT: usize = 280;

/// The character budget of a Mastodon-like post.
pub const MASTODON_CHARACTER_LIMIT: usize = 500;

/// The id under `data.id` of a Twitter publish response body; a function of
/// the body alone.
pub uninterp spec fn twitter_post_id_of(body: Seq<char>) -> Option<Seq<char>>;

/// The id under `id` of a Mastodon publish response body; a function of the
/// body alone.
pub uninterp spec fn mastodon_post_id_of(body: Seq<char>) -> Option<Seq<char>>;

/// Relies on serde_json (`from_str`, `Value::get`, `Value::as_str`): parses
/// the response body and picks the string under `data.id`; the result
/// depends on the body alone.
#[verifier::external_body]
fn extract_twitter_post_id(body: &str) -> (r: Option<String>)
    ensures
        match r {
            Some(id) => twitter_post_id_of(body@) == Some(id@),
            None => twitter_post_id_of(body@) is None,
        },
{
    let value: serde_json::Value = match serde_json::from_str(body) {
        Ok(v) => v,
        Err(_) => return None,
    };
    value.get("data").and_then(|data| data.get("id")).and_then(|id| id.as_str()).map(
        |id| id.to_owned(),
    )
}

/// Relies on serde_json (`from_str`, `Value::get`, `Value::as_str`): parses
/// the response body and picks the string under `id`; the result depends on
/// the body alone.
#[verifier::external_body]
fn extract_mastodon_post_id(body: &str) -> (r: Option<String>)
    ensures
        match r {
            Some(id) => mastodon_post_id_of(body@) == Some(id@),
            None => mastodon_post_id_of(body@) is None,
        },
{
    let value: serde_json::Value = match serde_json::from_str(body) {
        Ok(v) => v,
        Err(_) => return None,
    };
    value.get("id").and_then(|id| id.as_str()).map(|id| id.to_owned())
}

/// The network-assigned post id carried by a publish response of `network`.
pub open spec fn post_id_of(network: Network, body: Seq<char>) -> Option<Seq<char>> {
    match network {
        Network::Twitter => twitter_post_id_of(body),
        Network::Mastodon => mastodon_post_id_of(body),
    }
}

/// Decodes the publish response of `network` and builds the record of the
/// published item: the network-assigned id together with the item's own
/// guid and link. A response that does not carry the id is a decode
/// failure, and the only one.
pub fn build_syndicated_post(network: Network, body: &str, item: &Item) -> (r: Result<
    SyndicatedPost,
    OrionError,
>)
    requires
        valid_item(*item),
    ensures
        r is Ok <==> post_id_of(network, body@) is Some,
        r matches Ok(p) ==> p.social_network == network && p.id@ == post_id_of(network, body@)->Some_0
            && p.original_guid@ == item_guid(*item) && p.original_uri@ == item_link(*item),
        r matches Err(e) ==> e is DecodeError,
{
    let id = match network {
        Network::Twitter => extract_twitter_post_id(body),
        Network::Mastodon => extract_mastodon_post_id(body),
    };
    match id {
        Some(id) => Ok(SyndicatedPost::new(network, &id, item)),
        None => Err(OrionError::DecodeError),
    }
}

} // verus!
