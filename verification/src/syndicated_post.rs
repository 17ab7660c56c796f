//! The record of one successful publish, and the dedup ledger that is
//! consulted before publishing again.

use vstd::prelude::*;

use crate::rss::Item;
use crate::rss::item_guid;
use crate::rss::item_link;
use crate::rss::valid_item;
use crate::social::Network;

verus! {

/// The record of one successful publish of one feed item to one network.
/// Created once, never mutated.
#[derive(Debug, PartialEq)]
pub struct SyndicatedPost {
    pub social_network: Network,
    /// The id the network's API assigned to the published post.
    pub id: String,
    pub original_guid: String,
    pub original_uri: String,
}

impl SyndicatedPost {
    /// Builds the record for `item` as published to `social_network` under
    /// the network-assigned `id`.
    pub fn new(social_network: Network, id: &String, item: &Item) -> (r: Self)
        requires
            valid_item(*item),
        ensures
            r.social_network == social_network,
            r.id@ == id@,
            r.original_guid@ == item_guid(*item),
            r.original_uri@ == item_link(*item),
    {
        SyndicatedPost {
            social_network,
            id: id.clone(),
            original_guid: item.guid.as_ref().unwrap().value.clone(),
            original_uri: item.link.as_ref().unwrap().clone(),
        }
    }
}

impl Clone for SyndicatedPost {
    fn clone(&self) -> (r: Self)
        ensures
            r == *self,
    {
        SyndicatedPost {
            social_network: self.social_network,
            id: self.id.clone(),
            original_guid: self.original_guid.clone(),
            original_uri: self.original_uri.clone(),
        }
    }
}

/// Whether `p` records the publication of the item with guid `guid` to
/// `network`: the dedup key of the ledger.
pub open spec fn post_key_matches(p: SyndicatedPost, guid: Seq<char>, network: Network) -> bool {
    p.original_guid@ == guid && p.social_network == network
}

/// Whether the ledger already holds a record for `(guid, network)`.
pub open spec fn has_record(posts: Seq<SyndicatedPost>, guid: Seq<char>, network: Network) -> bool {
    exists|i: int| 0 <= i < posts.len() && post_key_matches(#[trigger] posts[i], guid, network)
}

/// No two records of the ledger share a `(guid, network)` key.
pub open spec fn unique_keys(posts: Seq<SyndicatedPost>) -> bool {
    forall|i: int, j: int| 0 <= i < j < posts.len()
        ==> !post_key_matches(
            #[trigger] posts[j],
            (#[trigger] posts[i]).original_guid@,
            posts[i].social_network,
        )
}

/// A record present in a ledger stays present when the ledger grows.
pub proof fn lemma_has_record_monotone(
    posts: Seq<SyndicatedPost>,
    longer: Seq<SyndicatedPost>,
    guid: Seq<char>,
    network: Network,
)
    requires
        posts.is_prefix_of(longer),
        has_record(posts, guid, network),
    ensures
        has_record(longer, guid, network),
{
    let i = choose|i: int| 0 <= i < posts.len() && post_key_matches(#[trigger] posts[i], guid, network);
    assert(longer[i] == posts[i]);
}

/// How many records of the ledger carry the key `(guid, network)`.
pub open spec fn key_count(posts: Seq<SyndicatedPost>, guid: Seq<char>, network: Network) -> int
    decreases posts.len(),
{
    if posts.len() == 0 {
        0
    } else {
        key_count(posts.drop_last(), guid, network) + if post_key_matches(
            posts.last(),
            guid,
            network,
        ) {
            1int
        } else {
            0int
        }
    }
}

proof fn lemma_key_count_zero(posts: Seq<SyndicatedPost>, guid: Seq<char>, network: Network)
    requires
        !has_record(posts, guid, network),
    ensures
        key_count(posts, guid, network) == 0,
    decreases posts.len(),
{
    if posts.len() > 0 {
        assert(!post_key_matches(posts.last(), guid, network));
        assert(forall|i: int| 0 <= i < posts.len() - 1
            ==> posts.drop_last()[i] == posts[i]);
        lemma_key_count_zero(posts.drop_last(), guid, network);
    }
}

/// A ledger without duplicate keys holds exactly one record for every key
/// it holds at all.
pub proof fn lemma_unique_key_count(
    posts: Seq<SyndicatedPost>,
    guid: Seq<char>,
    network: Network,
)
    requires
        unique_keys(posts),
        has_record(posts, guid, network),
    ensures
        key_count(posts, guid, network) == 1,
    decreases posts.len(),
{
    let n = posts.len() as int;
    assert(forall|i: int| 0 <= i < n - 1 ==> posts.drop_last()[i] == posts[i]);
    if post_key_matches(posts.last(), guid, network) {
        // no earlier record can share the last record's key
        assert forall|i: int| 0 <= i < n - 1 implies
            !post_key_matches(#[trigger] posts.drop_last()[i], guid, network) by {
            if post_key_matches(posts[i], guid, network) {
                assert(post_key_matches(posts[n - 1], posts[i].original_guid@,
                    posts[i].social_network));
            }
        }
        lemma_key_count_zero(posts.drop_last(), guid, network);
    } else {
        let i = choose|i: int| 0 <= i < n && post_key_matches(#[trigger] posts[i], guid, network);
        assert(post_key_matches(posts.drop_last()[i], guid, network));
        lemma_unique_key_count(posts.drop_last(), guid, network);
    }
}

/// Dedup idempotence: a run only ever appends records whose `(guid,
/// network)` key was absent from the ledger it started from, so a key that
/// was already recorded keeps exactly its old number of records — running
/// the same syndication again stores nothing new for it.
pub proof fn lemma_dedup_idempotence(
    before: Seq<SyndicatedPost>,
    after: Seq<SyndicatedPost>,
    guid: Seq<char>,
    network: Network,
)
    requires
        before.is_prefix_of(after),
        forall|i: int| before.len() <= i < after.len()
            ==> !has_record(
                before,
                (#[trigger] after[i]).original_guid@,
                after[i].social_network,
            ),
        has_record(before, guid, network),
    ensures
        key_count(after, guid, network) == key_count(before, guid, network),
    decreases after.len(),
{
    if after.len() == before.len() {
        assert(after =~= before);
    } else {
        let shorter = after.drop_last();
        assert(forall|i: int| 0 <= i < after.len() - 1 ==> shorter[i] == after[i]);
        assert(before.is_prefix_of(shorter));
        // the appended record's key was absent from the starting ledger,
        // while `(guid, network)` was present: the keys differ
        assert(!post_key_matches(after.last(), guid, network));
        lemma_dedup_idempotence(before, shorter, guid, network);
    }
}

/// A failure of the dedup store or the token store.
#[derive(Debug)]
pub enum StorageError {
    PersistenceError(String),
}

/// The dedup ledger: answers whether `(guid, network)` was already
/// published, and records new publications.
///
/// The spec member carries a default body only so that unverified
/// implementations outside this crate can leave the ghost model out; a
/// default-model implementation cannot be verified against this trait's
/// contracts, and nothing proved through them speaks for it.
pub trait SyndicatedPostStorage {
    /// The records the ledger holds, in the order they were stored.
    open spec fn records(&self) -> Seq<SyndicatedPost> {
        Seq::empty()
    }

    /// Looks for a record of `original_guid` published to `network`.
    fn find(&self, original_guid: &String, network: Network) -> (r: Option<SyndicatedPost>)
        ensures
            match r {
                Some(p) => post_key_matches(p, original_guid@, network)
                    && self.records().contains(p),
                None => !has_record(self.records(), original_guid@, network),
            },
    ;

    /// Appends one record to the ledger.
    fn store(&mut self, syndicated_post: SyndicatedPost) -> (r: Result<(), StorageError>)
        ensures
            r is Ok ==> final(self).records() == old(self).records().push(syndicated_post),
            r is Err ==> final(self).records() == old(self).records(),
    ;
}

/// A ledger held in memory, the reference implementation of the dedup store.
pub struct InMemorySyndicatedPostStorage {
    pub posts: Vec<SyndicatedPost>,
}

impl InMemorySyndicatedPostStorage {
    pub fn new() -> (r: Self)
        ensures
            r.records() == Seq::<SyndicatedPost>::empty(),
    {
        InMemorySyndicatedPostStorage { posts: Vec::new() }
    }
}

impl SyndicatedPostStorage for InMemorySyndicatedPostStorage {
    open spec fn records(&self) -> Seq<SyndicatedPost> {
        self.posts@
    }

    fn find(&self, original_guid: &String, network: Network) -> (r: Option<SyndicatedPost>) {
        let mut i: usize = 0;
        while i < self.posts.len()
            invariant
                0 <= i <= self.posts@.len(),
                forall|j: int| 0 <= j < i
                    ==> !post_key_matches(#[trigger] self.posts@[j], original_guid@, network),
            decreases self.posts@.len() - i,
        {
            let p = &self.posts[i];
            if p.original_guid == *original_guid && p.social_network == network {
                let found = p.clone();
                proof {
                    assert(self.posts@[i as int] == found);
                    assert(self.posts@.contains(found));
                }
                return Some(found);
            }
            i += 1;
        }
        None
    }

    fn store(&mut self, syndicated_post: SyndicatedPost) -> (r: Result<(), StorageError>) {
        self.posts.push(syndicated_post);
        Ok(())
    }
}

} // verus!
