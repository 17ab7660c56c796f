//! An older name for the closed set of publishing destinations, kept for
//! callers that route by provider.

use vstd::prelude::*;

verus! {

/// One supported publishing provider.
#[derive(Debug, Clone, Copy, PartialEq, Eq, Hash, PartialOrd, Ord, Structural)]
pub enum Provider {
    Twitter,
    Mastodon,
}

impl Provider {
    /// The lower-case name of the provider.
    pub open spec fn name_spec(self) -> Seq<char> {
        match self {
            Provider::Twitter => "twitter"@,
            Provider::Mastodon => "mastodon"@,
        }
    }

    /// Renders the provider's name.
    pub fn to_string(&self) -> (r: String)
        ensures
            r@ == self.name_spec(),
    {
        match self {
            Provider::Twitter => String::from_str("twitter"),
            Provider::Mastodon => String::from_str("mastodon"),
        }
    }
}

} // verus!
