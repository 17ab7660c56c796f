use orion::Guid;
use orion::InMemorySyndicatedPostStorage;
use orion::Item;
use orion::Network;
use orion::OrionError;
use orion::Provider;
use orion::SyndicatedPost;
use orion::SyndicatedPostStorage;
use orion::build_syndicated_post;
use orion::shorten_request_url;

fn item() -> Item {
    Item {
        title: Some(String::from("A post")),
        link: Some(String::from("http://example.com/post-1")),
        description: Some(String::from("Some description")),
        guid: Some(Guid { value: String::from("http://example.com/post-1") }),
        extensions: vec![],
    }
}

#[test]
fn test_twitter_response_yields_syndicated_post() {
    let body = "{\"data\":{\"id\":\"1445880548472328192\"}}";
    let post = build_syndicated_post(Network::Twitter, body, &item()).unwrap();
    assert_eq!(post.social_network, Network::Twitter);
    assert_eq!(post.id, "1445880548472328192");
    assert_eq!(post.original_guid, "http://example.com/post-1");
    assert_eq!(post.original_uri, "http://example.com/post-1");
}

#[test]
fn test_mastodon_response_yields_syndicated_post() {
    let body = "{\"id\":\"103270115826048975\"}";
    let post = build_syndicated_post(Network::Mastodon, body, &item()).unwrap();
    assert_eq!(post.social_network, Network::Mastodon);
    assert_eq!(post.id, "103270115826048975");
}

#[test]
fn test_malformed_response_is_a_decode_error() {
    let result = build_syndicated_post(Network::Twitter, "not json", &item());
    assert!(matches!(result, Err(OrionError::DecodeError)));

    // a mastodon-shaped body carries no twitter id
    let result = build_syndicated_post(Network::Twitter, "{\"id\":\"7\"}", &item());
    assert!(matches!(result, Err(OrionError::DecodeError)));
}

#[test]
fn test_shorten_request_url_percent_encodes_the_target() {
    let url = shorten_request_url("http://localhost:9000", "http://example.com/a post");
    assert_eq!(
        url,
        "http://localhost:9000/u/http%3A%2F%2Fexample.com%2Fa%20post"
    );
}

#[test]
fn test_storage_find_answers_by_guid_and_network() {
    let mut storage = InMemorySyndicatedPostStorage::new();
    storage
        .store(SyndicatedPost::new(
            Network::Twitter,
            &String::from("11"),
            &item(),
        ))
        .unwrap();

    let hit = storage.find(&String::from("http://example.com/post-1"), Network::Twitter);
    assert!(hit.is_some());
    assert_eq!(hit.unwrap().id, "11");

    let other_network = storage.find(&String::from("http://example.com/post-1"), Network::Mastodon);
    assert!(other_network.is_none());

    let other_guid = storage.find(&String::from("http://example.com/post-2"), Network::Twitter);
    assert!(other_guid.is_none());
}

#[test]
fn test_network_and_provider_names() {
    assert_eq!(Network::Twitter.to_string(), "twitter");
    assert_eq!(Network::Mastodon.to_string(), "mastodon");
    assert_eq!(Provider::Twitter.to_string(), "twitter");
    assert_eq!(Provider::Mastodon.to_string(), "mastodon");
}

#[test]
fn test_error_messages_name_their_kind() {
    assert_eq!(OrionError::TransportError.message(), "transport error");
    assert_eq!(
        OrionError::FeedError { url: String::from("http://example.com/rss.xml") }.message(),
        "feed error: http://example.com/rss.xml"
    );
}
