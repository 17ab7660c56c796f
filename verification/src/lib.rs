//! Cross-publishes blog posts, discovered through RSS feeds, to a set of
//! social networks, while avoiding duplicate publication and transparently
//! recovering from expired OAuth2 access tokens.

use vstd::prelude::*;

mod config;
mod errors;
mod oauth;
mod permashort_link;
mod provider;
mod publish;
mod rss;
mod rss_item_ext;
mod social;
mod syndicate;
mod syndicated_post;
mod target;
mod text;
mod token_db;
mod wormhole;

pub use crate::config::Config;
pub use crate::config::DBConfig;
pub use crate::config::MastodonConfig;
pub use crate::config::RSSConfig;
pub use crate::config::TwitterConfig;
pub use crate::config::WormholeConfig;
pub use crate::errors::OrionError;
pub use crate::oauth::AuthCommand;
pub use crate::oauth::AuthPhase;
pub use crate::oauth::AuthedClient;
pub use crate::oauth::RefreshedTokens;
pub use crate::oauth::RequestFlow;
pub use crate::oauth::SpecCommand;
pub use crate::oauth::TokenCredentials;
pub use crate::oauth::UNAUTHORIZED_STATUS;
pub use crate::oauth::authorization_code_params;
pub use crate::oauth::bearer;
pub use crate::oauth::lemma_auth_no_retry;
pub use crate::oauth::lemma_auth_retry_once;
pub use crate::oauth::spec_command_view;
pub use crate::oauth::spec_merge_refreshed;
pub use crate::oauth::spec_request_commands;
pub use crate::permashort_link::PermashortCitation;
pub use crate::permashort_link::citation_display;
pub use crate::permashort_link::citation_uri;
pub use crate::provider::Provider;
pub use crate::publish::MASTODON_CHARACTER_LIMIT;
pub use crate::publish::TWITTER_CHARACTER_LIMIT;
pub use crate::publish::build_syndicated_post;
pub use crate::publish::mastodon_post_id_of;
pub use crate::publish::post_id_of;
pub use crate::publish::twitter_post_id_of;
pub use crate::rss::Channel;
pub use crate::rss::Client;
pub use crate::rss::Guid;
pub use crate::rss::Item;
pub use crate::rss::item_guid;
pub use crate::rss::item_link;
pub use crate::rss::valid_item;
pub use crate::rss_item_ext::Extension;
pub use crate::rss_item_ext::ExtensionMap;
pub use crate::rss_item_ext::IwtRssExtension;
pub use crate::rss_item_ext::IwtRssTargetNetwork;
pub use crate::rss_item_ext::RssItemExt;
pub use crate::rss_item_ext::assoc_find;
pub use crate::rss_item_ext::assoc_unique_keys;
pub use crate::rss_item_ext::lemma_assoc_find_unique;
pub use crate::rss_item_ext::get_children;
pub use crate::rss_item_ext::get_key;
pub use crate::rss_item_ext::get_value;
pub use crate::rss_item_ext::has_well_formed_iwt_extension;
pub use crate::rss_item_ext::iwt_well_formed;
pub use crate::rss_item_ext::spec_get_children;
pub use crate::rss_item_ext::spec_get_key;
pub use crate::rss_item_ext::spec_get_value;
pub use crate::rss_item_ext::spec_iwt_extension_entry;
pub use crate::rss_item_ext::spec_network_of;
pub use crate::rss_item_ext::spec_target_network_name;
pub use crate::social::Network;
pub use crate::syndicate::item_of_some_channel;
pub use crate::syndicate::process_fetched;
pub use crate::syndicate::published_by_one_of;
pub use crate::syndicate::some_publish_failed;
pub use crate::syndicate::syndicate;
pub use crate::syndicate::syndycate_channel;
pub use crate::syndicated_post::InMemorySyndicatedPostStorage;
pub use crate::syndicated_post::StorageError;
pub use crate::syndicated_post::SyndicatedPost;
pub use crate::syndicated_post::SyndicatedPostStorage;
pub use crate::syndicated_post::has_record;
pub use crate::syndicated_post::key_count;
pub use crate::syndicated_post::lemma_dedup_idempotence;
pub use crate::syndicated_post::lemma_has_record_monotone;
pub use crate::syndicated_post::lemma_unique_key_count;
pub use crate::syndicated_post::post_key_matches;
pub use crate::syndicated_post::unique_keys;
pub use crate::target::Target;
pub use crate::target::new_success_count;
pub use crate::target::some_count;
pub use crate::text::citation_suffix;
pub use crate::text::EXCERPT_DECORATION;
pub use crate::text::LINK_ALLOWANCE;
pub use crate::text::has_space;
pub use crate::text::is_word_boundary;
pub use crate::text::lemma_shorten_boundary;
pub use crate::text::shorten;
pub use crate::text::shorten_with_permashort_citation;
pub use crate::text::spec_shorten;
pub use crate::text::spec_words;
pub use crate::text::words;
pub use crate::text::spec_shorten_with_citation;
pub use crate::text::word_cut;
pub use crate::token_db::TokenDB;
pub use crate::wormhole::WormholeClient;
pub use crate::wormhole::WormholeClientError;
pub use crate::wormhole::shorten_request_url;
pub use crate::wormhole::url_encoded;

verus! {

} // verus!
