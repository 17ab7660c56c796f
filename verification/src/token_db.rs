//! Persistence of the per-network OAuth credential pair.

use vstd::prelude::*;

use crate::social::Network;
use crate::syndicated_post::StorageError;

verus! {

/// Persists and retrieves one `(access token, refresh token)` pair per
/// network identity, upserting by network.
///
/// The spec member carries a default body only so that unverified
/// implementations outside this crate can leave the ghost model out; a
/// default-model implementation cannot be verified against this trait's
/// contracts, and nothing proved through them speaks for it.
pub trait TokenDB {
    /// The pair stored for each network, if any.
    open spec fn stored_tokens(&self, network: Network) -> Option<(Seq<char>, Seq<char>)> {
        None
    }

    /// The stored access token of `social_network`; an error when none is
    /// stored or the store cannot answer.
    fn get_access_token(&self, social_network: &Network) -> (r: Result<String, StorageError>)
        ensures
            match self.stored_tokens(*social_network) {
                Some(t) => r matches Ok(a) && a@ == t.0,
                None => r is Err,
            },
    ;

    /// The stored refresh token of `social_network`.
    fn get_refresh_token(&self, social_network: &Network) -> (r: Result<String, StorageError>)
        ensures
            match self.stored_tokens(*social_network) {
                Some(t) => r matches Ok(rt) && rt@ == t.1,
                None => r is Err,
            },
    ;

    /// Replaces the pair stored for `social_network`; other networks'
    /// credentials stay untouched.
    fn store(
        &mut self,
        social_network: &Network,
        access_token: &String,
        refresh_token: &String,
    ) -> (r: Result<(), StorageError>)
        ensures
            r is Ok ==> final(self).stored_tokens(*social_network) == Some(
                (access_token@, refresh_token@),
            ) && forall|n: Network| n != *social_network
                ==> final(self).stored_tokens(n) == old(self).stored_tokens(n),
            r is Err ==> forall|n: Network|
                final(self).stored_tokens(n) == old(self).stored_tokens(n),
    ;
}

} // verus!
