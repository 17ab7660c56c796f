use orion::Channel;
use orion::Client;
use orion::Config;
use orion::DBConfig;
use orion::Guid;
use orion::InMemorySyndicatedPostStorage;
use orion::Item;
use orion::MastodonConfig;
use orion::Network;
use orion::OrionError;
use orion::RSSConfig;
use orion::SyndicatedPost;
use orion::SyndicatedPostStorage;
use orion::Target;
use orion::TwitterConfig;
use orion::WormholeConfig;
use orion::syndicate;

fn config(urls: Vec<String>) -> Config {
    Config {
        rss: RSSConfig { urls },
        db: DBConfig { path: String::from("some/path") },
        twitter: TwitterConfig { client_id: String::from("some_client_id") },
        mastodon: MastodonConfig {
            base_uri: String::from("https://example.com/mastodon"),
            access_token: String::from("some-access-token"),
        },
        wormhole: WormholeConfig {
            protocol: String::from("http"),
            domain: String::from("shortly"),
        },
    }
}

fn default_items(url: &str) -> Vec<Item> {
    (0..4)
        .map(|i| Item {
            title: Some(format!("This is pos #{} at {}", i, url)),
            link: Some(format!("{}/post-{}", url, i)),
            description: None,
            guid: Some(Guid { value: format!("{}/post-{}", url, i) }),
            extensions: vec![],
        })
        .collect()
}

fn copy_item(item: &Item) -> Item {
    Item {
        title: item.title.clone(),
        link: item.link.clone(),
        description: item.description.clone(),
        guid: item.guid.clone(),
        extensions: vec![],
    }
}

struct StubRssClient {
    urls: Vec<String>,
}

impl StubRssClient {
    fn new() -> Self {
        StubRssClient { urls: Vec::new() }
    }
}

impl Client for StubRssClient {
    fn get_channel(&mut self, url: &String) -> Result<Channel, OrionError> {
        self.urls.push(url.clone());
        if url.contains("failure=1") {
            Err(OrionError::FeedError { url: url.clone() })
        } else {
            Ok(Channel {
                title: String::new(),
                link: url.clone(),
                items: default_items(url),
            })
        }
    }
}

struct StubTarget {
    social_network: Network,
    calls: Vec<Item>,
    fail: bool,
}

impl StubTarget {
    fn new(social_network: Network) -> Self {
        StubTarget { social_network, calls: Vec::new(), fail: false }
    }

    fn failing(social_network: Network) -> Self {
        StubTarget { social_network, calls: Vec::new(), fail: true }
    }
}

impl Target for StubTarget {
    fn network(&self) -> Network {
        self.social_network
    }

    fn publish(&mut self, post: &Item) -> Result<SyndicatedPost, OrionError> {
        if self.fail {
            return Err(OrionError::TransportError);
        }
        let id = self.calls.len().to_string();
        self.calls.push(copy_item(post));
        Ok(SyndicatedPost::new(self.social_network, &id, post))
    }
}

#[test]
fn test_syndycate_fetches_a_feed() {
    let feed = "http://example.com/rss.xml";
    let config = config(vec![feed.to_string()]);

    let mut client = StubRssClient::new();
    let mut targets = vec![StubTarget::new(Network::Mastodon)];
    let mut storage = InMemorySyndicatedPostStorage::new();

    syndicate(&config, &mut client, &mut targets, &mut storage).expect("Should be Ok()");

    assert_eq!(client.urls, vec![feed]);
}

#[test]
fn test_syndycate_fetches_multiple_feeds() {
    let feed1 = "http://example.com/rss.xml";
    let feed2 = "https://blog.example.com/rss.xml";
    let config = config(vec![feed1.to_string(), feed2.to_string()]);

    let mut client = StubRssClient::new();
    let mut targets = vec![StubTarget::new(Network::Mastodon)];
    let mut storage = InMemorySyndicatedPostStorage::new();

    syndicate(&config, &mut client, &mut targets, &mut storage).expect("Should be Ok()");

    assert_eq!(client.urls, vec![feed1, feed2]);
}

#[test]
fn test_syndycate_publishes_posts_to_targets() {
    let feed = "http://example.com/rss.xml";
    let config = config(vec![feed.to_string()]);

    let mut client = StubRssClient::new();
    let mut targets = vec![StubTarget::new(Network::Mastodon)];
    let mut storage = InMemorySyndicatedPostStorage::new();

    syndicate(&config, &mut client, &mut targets, &mut storage).expect("Should be Ok()");

    assert_eq!(targets[0].calls, default_items(feed));
}

#[test]
fn test_syndycate_should_skip_published_posts() {
    let feed = "http://example.com/rss.xml";
    let config = config(vec![feed.to_string()]);

    let mut client = StubRssClient::new();
    let mut targets = vec![StubTarget::new(Network::Mastodon)];
    let mut storage = InMemorySyndicatedPostStorage::new();

    for item in default_items(feed) {
        storage
            .store(SyndicatedPost::new(Network::Mastodon, &String::from("id"), &item))
            .unwrap();
    }

    syndicate(&config, &mut client, &mut targets, &mut storage).expect("Should be Ok()");

    assert_eq!(targets[0].calls, Vec::<Item>::new());
}

#[test]
fn test_syndycate_publishes_from_multiple_feeds_to_multiple_targets() {
    let feed1 = "http://example.com/rss.xml";
    let feed2 = "https://blog.example.com/rss.xml";
    let config = config(vec![feed1.to_string(), feed2.to_string()]);

    let mut client = StubRssClient::new();
    let mut targets = vec![
        StubTarget::new(Network::Mastodon),
        StubTarget::new(Network::Twitter),
    ];
    let mut storage = InMemorySyndicatedPostStorage::new();

    syndicate(&config, &mut client, &mut targets, &mut storage).expect("Should be Ok()");

    let mut expected = default_items(feed1);
    expected.extend(default_items(feed2));

    assert_eq!(targets[0].calls, expected);
    assert_eq!(targets[1].calls, expected);
}

#[test]
fn test_syndycate_publishes_when_single_feed_fails() {
    let feed1 = "http://example.com/rss.xml?failure=1";
    let feed2 = "https://blog.example.com/rss.xml";
    let config = config(vec![feed1.to_string(), feed2.to_string()]);

    let mut client = StubRssClient::new();
    let mut targets = vec![
        StubTarget::new(Network::Mastodon),
        StubTarget::new(Network::Twitter),
    ];
    let mut storage = InMemorySyndicatedPostStorage::new();

    let result = syndicate(&config, &mut client, &mut targets, &mut storage);

    assert!(result.is_err());

    assert_eq!(targets[0].calls, default_items(feed2));
    assert_eq!(targets[1].calls, default_items(feed2));
}

#[test]
fn test_syndycate_publishes_when_single_target_fails() {
    let feed1 = "http://example.com/rss.xml";
    let feed2 = "https://blog.example.com/rss.xml";
    let config = config(vec![feed1.to_string(), feed2.to_string()]);

    let mut client = StubRssClient::new();
    let mut targets = vec![
        StubTarget::failing(Network::Twitter),
        StubTarget::new(Network::Mastodon),
    ];
    let mut storage = InMemorySyndicatedPostStorage::new();

    let result = syndicate(&config, &mut client, &mut targets, &mut storage);

    assert!(result.is_err());

    let mut expected = default_items(feed1);
    expected.extend(default_items(feed2));

    assert_eq!(targets[1].calls, expected);
}

#[test]
fn test_syndycate_should_store_the_syndicated_posts() {
    let feed1 = "http://example.com/rss.xml";
    let feed2 = "https://blog.example.com/rss.xml";
    let config = config(vec![feed1.to_string(), feed2.to_string()]);

    let mut client = StubRssClient::new();
    let mut targets = vec![
        StubTarget::new(Network::Mastodon),
        StubTarget::new(Network::Twitter),
    ];
    let mut storage = InMemorySyndicatedPostStorage::new();

    syndicate(&config, &mut client, &mut targets, &mut storage).expect("Should be Ok()");

    let mut items = default_items(feed1);
    items.extend(default_items(feed2));

    let mut expected = items
        .iter()
        .enumerate()
        .map(|(i, item)| SyndicatedPost {
            social_network: Network::Mastodon,
            id: i.to_string(),
            original_guid: String::from(item.guid.as_ref().unwrap().value.as_str()),
            original_uri: String::from(item.link.as_ref().unwrap().as_str()),
        })
        .collect::<Vec<_>>();

    expected.extend(
        items
            .iter()
            .enumerate()
            .map(|(i, item)| SyndicatedPost {
                social_network: Network::Twitter,
                id: i.to_string(),
                original_guid: String::from(item.guid.as_ref().unwrap().value.as_str()),
                original_uri: String::from(item.link.as_ref().unwrap().as_str()),
            })
            .collect::<Vec<_>>(),
    );

    let mut posts = storage.posts;
    // the order does not matter, only the set of stored records
    expected.sort_by_key(|p| (p.social_network, p.id.clone(), p.original_uri.clone()));
    posts.sort_by_key(|p| (p.social_network, p.id.clone(), p.original_uri.clone()));

    assert_eq!(posts.len(), expected.len());
    assert_eq!(posts, expected);
}

#[test]
fn test_syndycate_second_run_stores_nothing_new() {
    let feed = "http://example.com/rss.xml";
    let config = config(vec![feed.to_string()]);

    let mut client = StubRssClient::new();
    let mut targets = vec![StubTarget::new(Network::Mastodon)];
    let mut storage = InMemorySyndicatedPostStorage::new();

    syndicate(&config, &mut client, &mut targets, &mut storage).expect("Should be Ok()");
    let after_first = storage.posts.clone();
    assert_eq!(after_first.len(), 4);

    syndicate(&config, &mut client, &mut targets, &mut storage).expect("Should be Ok()");

    // dedup idempotence: the second run skips every unit and stores nothing
    assert_eq!(storage.posts, after_first);
    assert_eq!(targets[0].calls, default_items(feed));
}

#[test]
fn test_syndycate_stores_one_record_per_item_and_target() {
    let feed = "http://example.com/rss.xml";
    let config = config(vec![feed.to_string()]);

    let mut client = StubRssClient::new();
    let mut targets = vec![
        StubTarget::new(Network::Mastodon),
        StubTarget::new(Network::Twitter),
    ];
    let mut storage = InMemorySyndicatedPostStorage::new();

    syndicate(&config, &mut client, &mut targets, &mut storage).expect("Should be Ok()");

    // 4 items times 2 targets, each record under the source item's guid
    assert_eq!(storage.posts.len(), 8);
    for item in default_items(feed) {
        let guid = item.guid.as_ref().unwrap().value.as_str();
        for network in [Network::Mastodon, Network::Twitter] {
            let matching: Vec<&SyndicatedPost> = storage
                .posts
                .iter()
                .filter(|p| p.social_network == network && p.original_guid == guid)
                .collect();
            assert_eq!(matching.len(), 1);
            assert_eq!(matching[0].original_uri, item.link.clone().unwrap());
        }
    }
}

#[test]
fn test_syndycate_reports_the_failure_kinds_of_its_units() {
    // a failed fetch surfaces as the feed's own error
    let feed = "http://example.com/rss.xml?failure=1";
    let config1 = config(vec![feed.to_string()]);
    let mut client = StubRssClient::new();
    let mut targets = vec![StubTarget::new(Network::Mastodon)];
    let mut storage = InMemorySyndicatedPostStorage::new();
    let result = syndicate(&config1, &mut client, &mut targets, &mut storage);
    assert!(matches!(result, Err(OrionError::FeedError { .. })));

    // a failed publish surfaces as the target's own error
    let config2 = config(vec!["http://example.com/rss.xml".to_string()]);
    let mut client = StubRssClient::new();
    let mut targets = vec![StubTarget::failing(Network::Twitter)];
    let mut storage = InMemorySyndicatedPostStorage::new();
    let result = syndicate(&config2, &mut client, &mut targets, &mut storage);
    assert!(matches!(result, Err(OrionError::TransportError)));
}

#[test]
fn test_process_fetched_isolates_a_failed_fetch() {
    let feed = "https://blog.example.com/rss.xml";
    let fetched = vec![
        Err(OrionError::FeedError {
            url: String::from("http://example.com/rss.xml?failure=1"),
        }),
        Ok(Channel {
            title: String::new(),
            link: feed.to_string(),
            items: default_items(feed),
        }),
    ];
    let mut targets = vec![StubTarget::new(Network::Mastodon)];
    let mut storage = InMemorySyndicatedPostStorage::new();

    let result = orion::process_fetched(&fetched, &mut targets, &mut storage);

    // the failed fetch fails the run, the other channel is fully processed
    assert!(matches!(result, Err(OrionError::FeedError { .. })));
    assert_eq!(targets[0].calls, default_items(feed));
    assert_eq!(storage.posts.len(), 4);
}

struct FailingStorage;

impl SyndicatedPostStorage for FailingStorage {
    fn find(&self, _original_guid: &String, _network: Network) -> Option<SyndicatedPost> {
        None
    }

    fn store(&mut self, _post: SyndicatedPost) -> Result<(), orion::StorageError> {
        Err(orion::StorageError::PersistenceError(String::from(
            "no space",
        )))
    }
}

#[test]
fn test_syndycate_reports_a_storage_failure() {
    let config = config(vec!["http://example.com/rss.xml".to_string()]);
    let mut client = StubRssClient::new();
    let mut targets = vec![StubTarget::new(Network::Mastodon)];
    let mut storage = FailingStorage;

    let result = syndicate(&config, &mut client, &mut targets, &mut storage);

    assert!(matches!(result, Err(OrionError::StorageError)));
    // the publish attempts still happened for every item
    assert_eq!(targets[0].calls.len(), 4);
}

#[test]
fn test_syndycate_with_no_feeds_succeeds() {
    let config = config(vec![]);
    let mut client = StubRssClient::new();
    let mut targets = vec![StubTarget::new(Network::Mastodon)];
    let mut storage = InMemorySyndicatedPostStorage::new();

    let result = syndicate(&config, &mut client, &mut targets, &mut storage);

    assert!(result.is_ok());
    assert_eq!(storage.posts.len(), 0);
    assert_eq!(targets[0].calls, Vec::<Item>::new());
}

#[test]
fn test_syndycate_rejects_item_without_guid() {
    let config = config(vec!["http://example.com/rss.xml".to_string()]);

    struct OneBadItemClient;
    impl Client for OneBadItemClient {
        fn get_channel(&mut self, url: &String) -> Result<Channel, OrionError> {
            Ok(Channel {
                title: String::new(),
                link: url.clone(),
                items: vec![Item {
                    title: Some(String::from("no guid")),
                    link: Some(String::from("http://example.com/post")),
                    description: None,
                    guid: None,
                    extensions: vec![],
                }],
            })
        }
    }

    let mut client = OneBadItemClient;
    let mut targets = vec![StubTarget::new(Network::Mastodon)];
    let mut storage = InMemorySyndicatedPostStorage::new();

    let result = syndicate(&config, &mut client, &mut targets, &mut storage);

    assert!(matches!(result, Err(OrionError::ValidationError)));
    assert_eq!(targets[0].calls, Vec::<Item>::new());
    assert_eq!(storage.posts.len(), 0);
}
