//! The publishing strategy for one network: consumes one feed item and
//! returns the record of the published post.

use vstd::prelude::*;

use crate::errors::OrionError;
use crate::rss::Item;
use crate::rss::item_guid;
use crate::rss::item_link;
use crate::rss::valid_item;
use crate::social::Network;
use crate::syndicated_post::SyndicatedPost;

verus! {

/// How many of these outcomes report a successful publish.
pub open spec fn some_count(outcomes: Seq<Option<SyndicatedPost>>) -> int
    decreases outcomes.len(),
{
    if outcomes.len() == 0 {
        0
    } else {
        some_count(outcomes.drop_last()) + if outcomes.last() is Some {
            1int
        } else {
            0int
        }
    }
}

/// How many successful publishes the targets of `after` gained, pairwise,
/// over their states in `before`. A run that records every successful
/// publish appends exactly this many records to the ledger; a failed store
/// leaves the ledger short of it.
pub open spec fn new_success_count<T: Target>(before: Seq<T>, after: Seq<T>) -> int
    decreases before.len(),
{
    if before.len() == 0 || after.len() == 0 {
        0
    } else {
        new_success_count(before.drop_last(), after.drop_last()) + some_count(
            after.last().outcomes().skip(before.last().outcomes().len() as int),
        )
    }
}

/// A publishing target. An implementation translates one feed item into one
/// publish call against its network's API; what it must guarantee is that
/// its identity stays fixed, that every handed-over item is recorded as an
/// attempt with its outcome, and that a successful publish reports the
/// item's own guid and link under this target's network.
///
/// The spec members carry default bodies only so that unverified
/// implementations outside this crate can leave the ghost model out; a
/// default-model implementation cannot be verified against `publish`'s
/// contract, and nothing proved through this trait speaks for it.
pub trait Target {
    /// The network this target publishes to.
    open spec fn network_spec(&self) -> Network {
        Network::Twitter
    }

    /// The items handed to `publish` so far, in order, whether or not the
    /// publish succeeded.
    open spec fn calls(&self) -> Seq<Item> {
        Seq::empty()
    }

    /// What each publish attempt returned, in the same order as `calls`:
    /// the record of a successful publish, `None` for a failed one.
    open spec fn outcomes(&self) -> Seq<Option<SyndicatedPost>> {
        Seq::empty()
    }

    /// The identity of the target, for routing and dedup keys.
    fn network(&self) -> (n: Network)
        ensures
            n == self.network_spec(),
    ;

    /// Publishes one item to this target's network.
    fn publish(&mut self, post: &Item) -> (r: Result<SyndicatedPost, OrionError>)
        requires
            valid_item(*post),
        ensures
            final(self).network_spec() == old(self).network_spec(),
            final(self).calls() == old(self).calls().push(*post),
            r matches Ok(p) ==> final(self).outcomes() == old(self).outcomes().push(Some(p))
                && p.social_network == old(self).network_spec()
                && p.original_guid@ == item_guid(*post)
                && p.original_uri@ == item_link(*post),
            r is Err ==> final(self).outcomes() == old(self).outcomes().push(
                None::<SyndicatedPost>,
            ),
    ;
}

} // verus!
