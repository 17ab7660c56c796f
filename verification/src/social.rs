//! The closed set of social networks that posts can be syndicated to.

use vstd::prelude::*;

verus! {

/// One social-publishing destination. Credentials and dedup records are
/// partitioned by this identity.
#[derive(Debug, Clone, Copy, PartialEq, Eq, Hash, PartialOrd, Ord, Structural)]
pub enum Network {
    Twitter,
    Mastodon,
}

impl Network {
    /// The lower-case name of the network, used as a storage key and in
    /// feed extensions.
    pub open spec fn name_spec(self) -> Seq<char> {
        match self {
            Network::Twitter => "twitter"@,
            Network::Mastodon => "mastodon"@,
        }
    }

    /// Renders the network's name.
    pub fn to_string(&self) -> (r: String)
        ensures
            r@ == self.name_spec(),
    {
        match self {
            Network::Twitter => String::from_str("twitter"),
            Network::Mastodon => String::from_str("mastodon"),
        }
    }
}

} // verus!
