//! The feed model the orchestrator works on, and the interface of the feed
//! source that fetches and parses one feed URL.

use vstd::prelude::*;

use crate::errors::OrionError;
use crate::rss_item_ext::ExtensionMap;

verus! {

/// The stable identifier of a feed item.
#[derive(Debug, Clone, PartialEq)]
pub struct Guid {
    pub value: String,
}

impl Guid {
    pub fn value(&self) -> (r: &str)
        ensures
            r@ == self.value@,
    {
        self.value.as_str()
    }
}

/// One post of a feed, immutable once fetched. The guid and the link are
/// required for syndication; their absence fails the item fast.
#[derive(Debug, PartialEq)]
pub struct Item {
    pub title: Option<String>,
    pub link: Option<String>,
    pub description: Option<String>,
    pub guid: Option<Guid>,
    pub extensions: ExtensionMap,
}

/// Whether the item carries the fields that syndication requires.
pub open spec fn valid_item(it: Item) -> bool {
    it.guid is Some && it.link is Some
}

/// The guid of a valid item.
pub open spec fn item_guid(it: Item) -> Seq<char>
    recommends
        valid_item(it),
{
    it.guid->Some_0.value@
}

/// The link of a valid item.
pub open spec fn item_link(it: Item) -> Seq<char>
    recommends
        valid_item(it),
{
    it.link->Some_0@
}

/// The parsed result of fetching one feed URL: an ordered list of items.
#[derive(Debug, PartialEq)]
pub struct Channel {
    pub title: String,
    pub link: String,
    pub items: Vec<Item>,
}

/// A feed source: fetches one feed URL and parses it into a channel. What a
/// fetch returns is the source's own business; the orchestrator only relies
/// on the requests and their outcomes being recorded in order.
///
/// The spec members carry default bodies only so that unverified
/// implementations outside this crate can leave the ghost model out; a
/// default-model implementation cannot be verified against `get_channel`'s
/// contract, and nothing proved through this trait speaks for it.
pub trait Client {
    /// The URLs this client was asked to fetch, in request order.
    open spec fn requests(&self) -> Seq<String> {
        Seq::empty()
    }

    /// What each fetch returned, in the same order as `requests`.
    open spec fn fetches(&self) -> Seq<Result<Channel, OrionError>> {
        Seq::empty()
    }

    /// Loads the feed behind `url` and parses it into a channel.
    fn get_channel(&mut self, url: &String) -> (r: Result<Channel, OrionError>)
        ensures
            final(self).requests() == old(self).requests().push(*url),
            final(self).fetches() == old(self).fetches().push(r),
    ;
}

} // verus!
