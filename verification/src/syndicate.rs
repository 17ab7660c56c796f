//! The orchestrator: fans the configured feeds out to the configured
//! targets, consults the dedup ledger before every publish, and aggregates
//! partial failures without stopping unrelated work.

use vstd::prelude::*;
use vstd::seq_lib::*;

use crate::config::Config;
use crate::errors::OrionError;
use crate::rss::Channel;
use crate::rss::Client;
use crate::rss::Item;
use crate::rss::item_guid;
use crate::rss::item_link;
use crate::rss::valid_item;
use crate::social::Network;
use crate::syndicated_post::SyndicatedPost;
use crate::syndicated_post::SyndicatedPostStorage;
use crate::syndicated_post::has_record;
use crate::syndicated_post::lemma_has_record_monotone;
use crate::syndicated_post::post_key_matches;
use crate::syndicated_post::unique_keys;
use crate::target::Target;
use crate::target::new_success_count;
use crate::target::some_count;

verus! {

/// An element contained in a sequence is still contained in any extension
/// of it.
proof fn lemma_contains_prefix<A>(s: Seq<A>, t: Seq<A>, x: A)
    requires
        s.is_prefix_of(t),
        s.contains(x),
    ensures
        t.contains(x),
{
    let i = choose|i: int| 0 <= i < s.len() && s[i] == x;
    assert(t[i] == s[i]);
}

/// An element contained in the tail of a sequence past `k` is still there
/// when the sequence grows.
proof fn lemma_skip_contains_prefix<A>(s: Seq<A>, t: Seq<A>, k: int, x: A)
    requires
        s.is_prefix_of(t),
        0 <= k <= s.len(),
        s.skip(k).contains(x),
    ensures
        t.skip(k).contains(x),
{
    let i = choose|i: int| 0 <= i < s.skip(k).len() && s.skip(k)[i] == x;
    assert(s.skip(k)[i] == s[k + i]);
    assert(t[k + i] == s[k + i]);
    assert(t.skip(k)[i] == t[k + i]);
    assert(t.skip(k).contains(x));
}

proof fn lemma_prefix_transitive<A>(a: Seq<A>, b: Seq<A>, c: Seq<A>)
    requires
        a.is_prefix_of(b),
        b.is_prefix_of(c),
    ensures
        a.is_prefix_of(c),
{
    assert(a =~= c.subrange(0, a.len() as int));
}

/// Some target of `after`, within what its history gained over `before`,
/// reports `p` as the record a successful publish returned.
pub open spec fn published_by_one_of<T: Target>(
    before: Seq<T>,
    after: Seq<T>,
    p: SyndicatedPost,
) -> bool {
    exists|k: int|
        0 <= k < before.len() && (#[trigger] after[k]).outcomes().skip(
            before[k].outcomes().len() as int,
        ).contains(Some(p))
}

/// Some target of `after`, within what its history gained over `before`,
/// reports a failed publish.
pub open spec fn some_publish_failed<T: Target>(before: Seq<T>, after: Seq<T>) -> bool {
    exists|k: int|
        0 <= k < before.len() && (#[trigger] after[k]).outcomes().skip(
            before[k].outcomes().len() as int,
        ).contains(None::<SyndicatedPost>)
}

/// An element contained in the tail of a sequence past `a` is also in the
/// tail past any earlier cut `b`.
proof fn lemma_skip_widen<A>(s: Seq<A>, a: int, b: int, x: A)
    requires
        0 <= b <= a <= s.len(),
        s.skip(a).contains(x),
    ensures
        s.skip(b).contains(x),
{
    let i = choose|i: int| 0 <= i < s.skip(a).len() && s.skip(a)[i] == x;
    assert(s.skip(a)[i] == s[a + i]);
    assert(s.skip(b)[a - b + i] == s[a + i]);
    assert(s.skip(b).contains(x));
}

/// A record published somewhere between `base` and `mid`, or between `mid`
/// and `cur`, was published between `base` and `cur`.
proof fn lemma_published_monotone<T: Target>(
    base: Seq<T>,
    mid: Seq<T>,
    cur: Seq<T>,
    p: SyndicatedPost,
)
    requires
        base.len() == mid.len() && mid.len() == cur.len(),
        forall|k: int| 0 <= k < base.len()
            ==> (#[trigger] mid[k]).outcomes().is_prefix_of(cur[k].outcomes()),
        forall|k: int| 0 <= k < base.len()
            ==> base[k].outcomes().len() <= (#[trigger] mid[k]).outcomes().len(),
        published_by_one_of(base, mid, p) || published_by_one_of(mid, cur, p),
    ensures
        published_by_one_of(base, cur, p),
{
    if published_by_one_of(base, mid, p) {
        let k = choose|k: int|
            0 <= k < base.len() && (#[trigger] mid[k]).outcomes().skip(
                base[k].outcomes().len() as int,
            ).contains(Some(p));
        lemma_skip_contains_prefix(
            mid[k].outcomes(),
            cur[k].outcomes(),
            base[k].outcomes().len() as int,
            Some(p),
        );
        assert((cur[k]).outcomes().skip(base[k].outcomes().len() as int).contains(Some(p)));
    } else {
        let k = choose|k: int|
            0 <= k < mid.len() && (#[trigger] cur[k]).outcomes().skip(
                mid[k].outcomes().len() as int,
            ).contains(Some(p));
        lemma_skip_widen(
            cur[k].outcomes(),
            mid[k].outcomes().len() as int,
            base[k].outcomes().len() as int,
            Some(p),
        );
        assert((cur[k]).outcomes().skip(base[k].outcomes().len() as int).contains(Some(p)));
    }
}

/// A publish failure witnessed between `base` and `mid`, or between `mid`
/// and `cur`, is witnessed between `base` and `cur`.
proof fn lemma_failed_monotone<T: Target>(base: Seq<T>, mid: Seq<T>, cur: Seq<T>)
    requires
        base.len() == mid.len() && mid.len() == cur.len(),
        forall|k: int| 0 <= k < base.len()
            ==> (#[trigger] mid[k]).outcomes().is_prefix_of(cur[k].outcomes()),
        forall|k: int| 0 <= k < base.len()
            ==> base[k].outcomes().len() <= (#[trigger] mid[k]).outcomes().len(),
        some_publish_failed(base, mid) || some_publish_failed(mid, cur),
    ensures
        some_publish_failed(base, cur),
{
    if some_publish_failed(base, mid) {
        let k = choose|k: int|
            0 <= k < base.len() && (#[trigger] mid[k]).outcomes().skip(
                base[k].outcomes().len() as int,
            ).contains(None::<SyndicatedPost>);
        lemma_skip_contains_prefix(
            mid[k].outcomes(),
            cur[k].outcomes(),
            base[k].outcomes().len() as int,
            None::<SyndicatedPost>,
        );
        assert((cur[k]).outcomes().skip(base[k].outcomes().len() as int).contains(
            None::<SyndicatedPost>,
        ));
    } else {
        let k = choose|k: int|
            0 <= k < mid.len() && (#[trigger] cur[k]).outcomes().skip(
                mid[k].outcomes().len() as int,
            ).contains(None::<SyndicatedPost>);
        lemma_skip_widen(
            cur[k].outcomes(),
            mid[k].outcomes().len() as int,
            base[k].outcomes().len() as int,
            None::<SyndicatedPost>,
        );
        assert((cur[k]).outcomes().skip(base[k].outcomes().len() as int).contains(
            None::<SyndicatedPost>,
        ));
    }
}

proof fn lemma_some_count_empty_skip(s: Seq<Option<SyndicatedPost>>)
    ensures
        some_count(s.skip(s.len() as int)) == 0,
{
    assert(s.skip(s.len() as int) =~= Seq::<Option<SyndicatedPost>>::empty());
}

proof fn lemma_some_count_push(s: Seq<Option<SyndicatedPost>>, x: Option<SyndicatedPost>)
    ensures
        some_count(s.push(x).skip(s.len() as int)) == if x is Some {
            1int
        } else {
            0int
        },
{
    let t = s.push(x).skip(s.len() as int);
    assert(t.len() == 1);
    assert(t[0] == x);
    assert(t.last() == x);
    assert(t.drop_last() =~= Seq::<Option<SyndicatedPost>>::empty());
    assert(some_count(Seq::<Option<SyndicatedPost>>::empty()) == 0);
    assert(some_count(t) == some_count(t.drop_last()) + if t.last() is Some {
        1int
    } else {
        0int
    });
}

/// The successes of a grown tail split at any earlier state of the
/// sequence.
proof fn lemma_some_count_append(
    s1: Seq<Option<SyndicatedPost>>,
    s2: Seq<Option<SyndicatedPost>>,
    b: int,
)
    requires
        0 <= b <= s1.len(),
        s1.is_prefix_of(s2),
    ensures
        some_count(s2.skip(b)) == some_count(s1.skip(b)) + some_count(s2.skip(s1.len() as int)),
    decreases s2.len(),
{
    if s2.len() == s1.len() {
        assert(s2 =~= s1);
        lemma_some_count_empty_skip(s2);
        assert(s2.skip(b) =~= s1.skip(b));
    } else {
        let shorter = s2.drop_last();
        assert(s1.is_prefix_of(shorter)) by {
            assert(s1 =~= shorter.subrange(0, s1.len() as int));
        }
        lemma_some_count_append(s1, shorter, b);
        assert(s2.skip(b).drop_last() =~= shorter.skip(b));
        assert(s2.skip(b).last() == s2.last());
        assert(s2.skip(s1.len() as int).drop_last() =~= shorter.skip(s1.len() as int));
        assert(s2.skip(s1.len() as int).last() == s2.last());
    }
}

/// Pairwise success counts add up across an intermediate state.
proof fn lemma_new_success_count_compose<T: Target>(base: Seq<T>, mid: Seq<T>, cur: Seq<T>)
    requires
        base.len() == mid.len(),
        mid.len() == cur.len(),
        forall|j: int| 0 <= j < base.len()
            ==> base[j].outcomes().len() <= (#[trigger] mid[j]).outcomes().len(),
        forall|j: int| 0 <= j < base.len()
            ==> (#[trigger] mid[j]).outcomes().is_prefix_of(cur[j].outcomes()),
    ensures
        new_success_count(base, cur) == new_success_count(base, mid) + new_success_count(mid, cur),
    decreases base.len(),
{
    if base.len() > 0 {
        assert forall|j: int| 0 <= j < base.len() - 1 implies
            base.drop_last()[j].outcomes().len() <= (#[trigger] mid.drop_last()[j]).outcomes().len()
                && mid.drop_last()[j].outcomes().is_prefix_of(
                cur.drop_last()[j].outcomes(),
            ) by {
            assert(base.drop_last()[j] == base[j]);
            assert(mid.drop_last()[j] == mid[j]);
            assert(cur.drop_last()[j] == cur[j]);
        }
        lemma_new_success_count_compose(base.drop_last(), mid.drop_last(), cur.drop_last());
        assert(base[base.len() - 1].outcomes().len() <= mid[base.len() - 1].outcomes().len());
        lemma_some_count_append(
            mid.last().outcomes(),
            cur.last().outcomes(),
            base.last().outcomes().len() as int,
        );
    }
}

/// Changing one target changes the pairwise success count by exactly that
/// target's contribution.
proof fn lemma_new_success_count_update<T: Target>(base: Seq<T>, prev: Seq<T>, cur: Seq<T>, k: int)
    requires
        base.len() == prev.len(),
        prev.len() == cur.len(),
        0 <= k < base.len(),
        forall|j: int| 0 <= j < cur.len() && j != k ==> #[trigger] cur[j] == prev[j],
    ensures
        new_success_count(base, cur) == new_success_count(base, prev) + some_count(
            cur[k].outcomes().skip(base[k].outcomes().len() as int),
        ) - some_count(prev[k].outcomes().skip(base[k].outcomes().len() as int)),
    decreases base.len(),
{
    if k == base.len() - 1 {
        assert(cur.drop_last() =~= prev.drop_last());
        assert(cur.last() == cur[k]);
        assert(prev.last() == prev[k]);
    } else {
        assert forall|j: int| 0 <= j < cur.len() - 1 && j != k implies #[trigger] cur.drop_last()[j]
            == prev.drop_last()[j] by {
            assert(cur.drop_last()[j] == cur[j]);
            assert(prev.drop_last()[j] == prev[j]);
        }
        lemma_new_success_count_update(base.drop_last(), prev.drop_last(), cur.drop_last(), k);
        assert(cur.drop_last()[k] == cur[k]);
        assert(prev.drop_last()[k] == prev[k]);
        assert(base.drop_last()[k] == base[k]);
        assert(cur.last() == prev.last());
    }
}

/// No target has gained any successful publish over its own state.
proof fn lemma_new_success_count_refl<T: Target>(targets: Seq<T>)
    ensures
        new_success_count(targets, targets) == 0,
    decreases targets.len(),
{
    if targets.len() > 0 {
        lemma_new_success_count_refl(targets.drop_last());
        lemma_some_count_empty_skip(targets.last().outcomes());
    }
}

/// One of the successfully fetched channels carries this item.
pub open spec fn item_of_some_channel(
    fetched: Seq<Result<Channel, OrionError>>,
    it: Item,
) -> bool {
    exists|f: int|
        0 <= f < fetched.len() && (#[trigger] fetched[f]) is Ok
            && fetched[f]->Ok_0.items@.contains(it)
}

/// Processes one item for one target: skips it where the ledger already has
/// a record, publishes and records it otherwise, and fails fast on an item
/// that misses its guid or link.
fn syndicate_item<T: Target, S: SyndicatedPostStorage>(
    target: &mut T,
    storage: &mut S,
    post: &Item,
) -> (r: Result<(), OrionError>)
    ensures
        final(target).network_spec() == old(target).network_spec(),
        old(target).calls().is_prefix_of(final(target).calls()),
        old(target).outcomes().is_prefix_of(final(target).outcomes()),
        final(target).outcomes().len() - old(target).outcomes().len() == final(target).calls().len()
            - old(target).calls().len(),
        !valid_item(*post) ==> r is Err && r->Err_0 is ValidationError && final(target).calls()
            == old(target).calls() && final(target).outcomes() == old(target).outcomes()
            && final(storage).records() == old(storage).records(),
        valid_item(*post) && has_record(
            old(storage).records(),
            item_guid(*post),
            old(target).network_spec(),
        ) ==> r is Ok && final(target).calls() == old(target).calls()
            && final(target).outcomes() == old(target).outcomes() && final(storage).records()
            == old(storage).records(),
        valid_item(*post) && !has_record(
            old(storage).records(),
            item_guid(*post),
            old(target).network_spec(),
        ) ==> final(target).calls() == old(target).calls().push(*post) && (r is Ok
            ==> exists|p: SyndicatedPost|
                final(storage).records() == old(storage).records().push(p)
                    && #[trigger] post_key_matches(p, item_guid(*post), old(target).network_spec())
                    && p.original_uri@ == item_link(*post)
                    && final(target).outcomes() == old(target).outcomes().push(Some(p))) && (r
            is Err ==> final(storage).records() == old(storage).records()
            && (final(target).outcomes() == old(target).outcomes().push(None::<SyndicatedPost>)
                || r->Err_0 is StorageError)),
        // whatever a publish returned is tied to the item it was handed
        final(target).outcomes().len() > old(target).outcomes().len()
            ==> (final(target).outcomes().last() matches Some(p) ==> post_key_matches(
            p,
            item_guid(*post),
            old(target).network_spec(),
        ) && p.original_uri@ == item_link(*post)),
        // the ledger gains at most one record per successful publish,
        // exactly one when the unit succeeds, and falls short of the
        // successes exactly when a store failed
        final(storage).records().len() - old(storage).records().len() <= some_count(
            final(target).outcomes().skip(old(target).outcomes().len() as int),
        ),
        r is Ok ==> final(storage).records().len() - old(storage).records().len() == some_count(
            final(target).outcomes().skip(old(target).outcomes().len() as int),
        ),
        r is Err ==> !valid_item(*post) || final(target).outcomes() == old(target).outcomes().push(None::<SyndicatedPost>) || final(storage).records().len() - old(storage).records().len() < some_count(
            final(target).outcomes().skip(old(target).outcomes().len() as int),
        ),
{
    let ghost base_outcomes = target.outcomes();
    let ghost base_records = storage.records();
    let guid = match &post.guid {
        Some(g) => &g.value,
        None => {
            proof {
                lemma_some_count_empty_skip(base_outcomes);
            }
            return Err(OrionError::ValidationError);
        },
    };
    if post.link.is_none() {
        proof {
            lemma_some_count_empty_skip(base_outcomes);
        }
        return Err(OrionError::ValidationError);
    }
    let network = target.network();
    match storage.find(guid, network) {
        Some(_) => {
            proof {
                lemma_some_count_empty_skip(base_outcomes);
            }
            Ok(())
        },
        None => match target.publish(post) {
            Ok(syndicated) => {
                let ghost p = syndicated;
                match storage.store(syndicated) {
                    Ok(_) => {
                        proof {
                            assert(final(storage).records() == old(storage).records().push(p)
                                && post_key_matches(
                                p,
                                item_guid(*post),
                                old(target).network_spec(),
                            ) && p.original_uri@ == item_link(*post));
                            lemma_some_count_push(base_outcomes, Some(p));
                        }
                        Ok(())
                    },
                    Err(_) => {
                        proof {
                            lemma_some_count_push(base_outcomes, Some(p));
                        }
                        Err(OrionError::StorageError)
                    },
                }
            },
            Err(e) => {
                proof {
                    lemma_some_count_push(base_outcomes, None::<SyndicatedPost>);
                }
                Err(e)
            },
        },
    }
}

/// Syndicates every item of a channel to one target. Failed units never
/// stop the remaining items; the first failure is what the function
/// reports.
fn syndicate_items_to_target<T: Target, S: SyndicatedPostStorage>(
    items: &Vec<Item>,
    target: &mut T,
    storage: &mut S,
) -> (r: Result<(), OrionError>)
    ensures
        final(target).network_spec() == old(target).network_spec(),
        old(target).calls().is_prefix_of(final(target).calls()),
        old(storage).records().is_prefix_of(final(storage).records()),
        // every record this run appends is fresh and belongs to this target
        forall|i: int| old(storage).records().len() <= i < final(storage).records().len()
            ==> !has_record(
                old(storage).records(),
                (#[trigger] final(storage).records()[i]).original_guid@,
                final(storage).records()[i].social_network,
            ) && final(storage).records()[i].social_network == old(target).network_spec(),
        unique_keys(old(storage).records()) ==> unique_keys(final(storage).records()),
        // partial-failure isolation: every valid item was attempted here or
        // already recorded
        forall|i: int| 0 <= i < items@.len() && valid_item(#[trigger] items@[i])
            ==> final(target).calls().contains(items@[i]) || has_record(
                final(storage).records(),
                item_guid(items@[i]),
                old(target).network_spec(),
            ),
        (exists|i: int| 0 <= i < items@.len() && !valid_item(#[trigger] items@[i])) ==> r is Err,
        r is Ok ==> forall|i: int| 0 <= i < items@.len() ==> valid_item(#[trigger] items@[i]),
        r is Ok ==> forall|i: int| 0 <= i < items@.len() ==> has_record(
            final(storage).records(),
            item_guid(#[trigger] items@[i]),
            old(target).network_spec(),
        ),
        old(target).outcomes().is_prefix_of(final(target).outcomes()),
        final(target).outcomes().len() - old(target).outcomes().len()
            == final(target).calls().len() - old(target).calls().len(),
        // at most one attempt per item of the channel
        final(target).calls().len() - old(target).calls().len() <= items@.len(),
        // the dedup gate on attempts: whatever was handed to publish is a
        // valid item of this channel whose key the starting ledger did not
        // hold
        forall|t: int| old(target).calls().len() <= t < final(target).calls().len()
            ==> valid_item(#[trigger] final(target).calls()[t]) && items@.contains(
                final(target).calls()[t],
            ) && !has_record(
                old(storage).records(),
                item_guid(final(target).calls()[t]),
                old(target).network_spec(),
            ),
        // each outcome is tied to the item of the same attempt
        forall|t: int| 0 <= t < final(target).calls().len() - old(target).calls().len()
            ==> (#[trigger] final(target).outcomes()[old(target).outcomes().len() + t]
                matches Some(p) ==> post_key_matches(
                p,
                item_guid(final(target).calls()[old(target).calls().len() + t]),
                old(target).network_spec(),
            ) && p.original_uri@ == item_link(
                final(target).calls()[old(target).calls().len() + t],
            )),
        // new records are exactly what successful publishes returned
        forall|i: int| old(storage).records().len() <= i < final(storage).records().len()
            ==> final(target).outcomes().skip(old(target).outcomes().len() as int).contains(
                Some(#[trigger] final(storage).records()[i]),
            ),
        r is Ok ==> forall|t: int|
            old(target).outcomes().len() <= t < final(target).outcomes().len()
            ==> (#[trigger] final(target).outcomes()[t]) is Some
            && final(storage).records().contains(final(target).outcomes()[t]->Some_0),
        // the ledger gains at most one record per successful publish, and
        // exactly one each when the pass succeeds
        final(storage).records().len() - old(storage).records().len() <= some_count(
            final(target).outcomes().skip(old(target).outcomes().len() as int),
        ),
        r is Ok ==> final(storage).records().len() - old(storage).records().len() == some_count(
            final(target).outcomes().skip(old(target).outcomes().len() as int),
        ),
        // a failed pass exhibits a failed unit: an invalid item, a failed
        // publish, or a store failure, which leaves the ledger short of the
        // successful publishes
        r is Err ==> (exists|i: int| 0 <= i < items@.len() && !valid_item(#[trigger] items@[i]))
            || final(target).outcomes().skip(old(target).outcomes().len() as int).contains(
            None::<SyndicatedPost>,
        ) || final(storage).records().len() - old(storage).records().len() < some_count(
            final(target).outcomes().skip(old(target).outcomes().len() as int),
        ),
{
    let ghost net = target.network_spec();
    let ghost base_records = storage.records();
    let ghost base_calls = target.calls();
    let ghost base_outcomes = target.outcomes();
    let mut result: Result<(), OrionError> = Ok(());
    let mut i: usize = 0;
    proof {
        lemma_some_count_empty_skip(base_outcomes);
    }
    while i < items.len()
        invariant
            0 <= i <= items@.len(),
            target.network_spec() == net,
            base_calls.is_prefix_of(target.calls()),
            base_records.is_prefix_of(storage.records()),
            forall|j: int| base_records.len() <= j < storage.records().len()
                ==> !has_record(
                    base_records,
                    (#[trigger] storage.records()[j]).original_guid@,
                    storage.records()[j].social_network,
                ) && storage.records()[j].social_network == net,
            unique_keys(base_records) ==> unique_keys(storage.records()),
            forall|j: int| 0 <= j < i && valid_item(#[trigger] items@[j])
                ==> target.calls().contains(items@[j]) || has_record(
                    storage.records(),
                    item_guid(items@[j]),
                    net,
                ),
            (exists|j: int| 0 <= j < i && !valid_item(#[trigger] items@[j])) ==> result is Err,
            result is Ok ==> forall|j: int| 0 <= j < i ==> valid_item(#[trigger] items@[j]),
            result is Ok ==> forall|j: int| 0 <= j < i ==> has_record(
                storage.records(),
                item_guid(#[trigger] items@[j]),
                net,
            ),
            base_outcomes.is_prefix_of(target.outcomes()),
            target.outcomes().len() - base_outcomes.len() == target.calls().len()
                - base_calls.len(),
            target.calls().len() - base_calls.len() <= i,
            forall|t: int| base_calls.len() <= t < target.calls().len()
                ==> valid_item(#[trigger] target.calls()[t]) && items@.contains(target.calls()[t])
                    && !has_record(base_records, item_guid(target.calls()[t]), net),
            forall|t: int| 0 <= t < target.calls().len() - base_calls.len()
                ==> (#[trigger] target.outcomes()[base_outcomes.len() + t] matches Some(p)
                    ==> post_key_matches(
                    p,
                    item_guid(target.calls()[base_calls.len() + t]),
                    net,
                ) && p.original_uri@ == item_link(target.calls()[base_calls.len() + t])),
            forall|j: int| base_records.len() <= j < storage.records().len()
                ==> target.outcomes().skip(base_outcomes.len() as int).contains(
                    Some(#[trigger] storage.records()[j]),
                ),
            result is Ok ==> forall|t: int| base_outcomes.len() <= t < target.outcomes().len()
                ==> (#[trigger] target.outcomes()[t]) is Some && storage.records().contains(
                    target.outcomes()[t]->Some_0,
                ),
            storage.records().len() - base_records.len() <= some_count(
                target.outcomes().skip(base_outcomes.len() as int),
            ),
            result is Ok ==> storage.records().len() - base_records.len() == some_count(
                target.outcomes().skip(base_outcomes.len() as int),
            ),
            result is Err ==> (exists|j: int| 0 <= j < i && !valid_item(#[trigger] items@[j]))
                || target.outcomes().skip(base_outcomes.len() as int).contains(
                None::<SyndicatedPost>,
            ) || storage.records().len() - base_records.len() < some_count(
                target.outcomes().skip(base_outcomes.len() as int),
            ),
        decreases items@.len() - i,
    {
        let ghost pre_records = storage.records();
        let ghost pre_calls = target.calls();
        let ghost pre_outcomes = target.outcomes();
        let ghost pre_result = result;
        let unit = syndicate_item(target, storage, &items[i]);
        proof {
            lemma_prefix_transitive(base_calls, pre_calls, target.calls());
            lemma_prefix_transitive(base_records, pre_records, storage.records());
            // the one record this unit may have appended is fresh for the
            // whole run, and records already present stay present
            assert forall|j: int| base_records.len() <= j < storage.records().len() implies
                !has_record(
                    base_records,
                    (#[trigger] storage.records()[j]).original_guid@,
                    storage.records()[j].social_network,
                ) && storage.records()[j].social_network == net by {
                if j < pre_records.len() {
                    assert(storage.records()[j] == pre_records[j]);
                } else {
                    // a fresh record: it was absent from the ledger this
                    // unit saw, which extends the run's base ledger
                    assert(storage.records() == pre_records.push(storage.records()[j]));
                    if has_record(
                        base_records,
                        storage.records()[j].original_guid@,
                        storage.records()[j].social_network,
                    ) {
                        lemma_has_record_monotone(
                            base_records,
                            pre_records,
                            storage.records()[j].original_guid@,
                            storage.records()[j].social_network,
                        );
                    }
                }
            }
            if unique_keys(base_records) {
                assert(unique_keys(pre_records));
                if storage.records().len() > pre_records.len() {
                    let p = storage.records()[pre_records.len() as int];
                    assert(storage.records() == pre_records.push(p));
                    assert forall|a: int, b: int| 0 <= a < b < storage.records().len() implies
                        !post_key_matches(
                            #[trigger] storage.records()[b],
                            (#[trigger] storage.records()[a]).original_guid@,
                            storage.records()[a].social_network,
                        ) by {
                        if b < pre_records.len() {
                            assert(storage.records()[a] == pre_records[a]);
                            assert(storage.records()[b] == pre_records[b]);
                        } else {
                            assert(storage.records()[b] == p);
                            assert(storage.records()[a] == pre_records[a]);
                            if post_key_matches(p, pre_records[a].original_guid@,
                                pre_records[a].social_network) {
                                assert(has_record(
                                    pre_records,
                                    p.original_guid@,
                                    p.social_network,
                                ));
                            }
                        }
                    }
                }
            }
            // coverage of the items already processed survives this unit
            assert forall|j: int| 0 <= j < i && valid_item(#[trigger] items@[j]) implies
                target.calls().contains(items@[j]) || has_record(
                    storage.records(),
                    item_guid(items@[j]),
                    net,
                ) by {
                if pre_calls.contains(items@[j]) {
                    lemma_contains_prefix(pre_calls, target.calls(), items@[j]);
                } else if has_record(pre_records, item_guid(items@[j]), net) {
                    lemma_has_record_monotone(
                        pre_records,
                        storage.records(),
                        item_guid(items@[j]),
                        net,
                    );
                }
            }
            // the item of this unit is covered now
            if valid_item(items@[i as int]) {
                if !has_record(pre_records, item_guid(items@[i as int]), net) {
                    assert(target.calls().last() == items@[i as int]);
                    assert(target.calls().contains(items@[i as int]));
                } else {
                    lemma_has_record_monotone(
                        pre_records,
                        storage.records(),
                        item_guid(items@[i as int]),
                        net,
                    );
                }
            }
            if unit is Ok && valid_item(items@[i as int]) {
                if !has_record(pre_records, item_guid(items@[i as int]), net) {
                    assert(storage.records().last().original_guid@ == item_guid(
                        items@[i as int],
                    ));
                    assert(has_record(storage.records(), item_guid(items@[i as int]), net));
                } else {
                    lemma_has_record_monotone(
                        pre_records,
                        storage.records(),
                        item_guid(items@[i as int]),
                        net,
                    );
                }
            }
            // stored records of earlier units stay stored
            if result is Ok {
                assert forall|j: int| 0 <= j < i implies has_record(
                    storage.records(),
                    item_guid(#[trigger] items@[j]),
                    net,
                ) by {
                    lemma_has_record_monotone(
                        pre_records,
                        storage.records(),
                        item_guid(items@[j]),
                        net,
                    );
                }
            }
            lemma_prefix_transitive(base_outcomes, pre_outcomes, target.outcomes());
            // every attempt so far was a valid, unrecorded item of this
            // channel
            assert forall|t: int| base_calls.len() <= t < target.calls().len() implies
                valid_item(#[trigger] target.calls()[t]) && items@.contains(target.calls()[t])
                    && !has_record(base_records, item_guid(target.calls()[t]), net) by {
                if t < pre_calls.len() {
                    assert(target.calls()[t] == pre_calls[t]);
                } else {
                    assert(target.calls() == pre_calls.push(items@[i as int]));
                    assert(target.calls()[t] == items@[i as int]);
                    assert(items@.contains(items@[i as int]));
                    if has_record(base_records, item_guid(items@[i as int]), net) {
                        lemma_has_record_monotone(
                            base_records,
                            pre_records,
                            item_guid(items@[i as int]),
                            net,
                        );
                    }
                }
            }
            // the outcome of each attempt is tied to its item
            assert forall|t: int| 0 <= t < target.calls().len() - base_calls.len() implies
                (#[trigger] target.outcomes()[base_outcomes.len() + t] matches Some(p)
                    ==> post_key_matches(
                    p,
                    item_guid(target.calls()[base_calls.len() + t]),
                    net,
                ) && p.original_uri@ == item_link(target.calls()[base_calls.len() + t])) by {
                if base_outcomes.len() + t < pre_outcomes.len() {
                    assert(target.outcomes()[base_outcomes.len() + t] == pre_outcomes[base_outcomes.len()
                        + t]);
                    assert(target.calls()[base_calls.len() + t] == pre_calls[base_calls.len() + t]);
                } else {
                    assert(base_outcomes.len() + t == target.outcomes().len() - 1);
                    assert(target.calls()[base_calls.len() + t] == items@[i as int]);
                }
            }
            // each new record is what some successful publish returned
            assert forall|j: int| base_records.len() <= j < storage.records().len() implies
                target.outcomes().skip(base_outcomes.len() as int).contains(
                    Some(#[trigger] storage.records()[j]),
                ) by {
                if j < pre_records.len() {
                    assert(storage.records()[j] == pre_records[j]);
                    lemma_skip_contains_prefix(
                        pre_outcomes,
                        target.outcomes(),
                        base_outcomes.len() as int,
                        Some(pre_records[j]),
                    );
                } else {
                    let p = storage.records()[j];
                    assert(storage.records() == pre_records.push(p));
                    assert(target.outcomes() == pre_outcomes.push(Some(p)));
                    let k = base_outcomes.len() as int;
                    assert(target.outcomes().skip(k)[target.outcomes().len() - 1 - k]
                        == target.outcomes()[target.outcomes().len() - 1]);
                    assert(target.outcomes().skip(k).contains(Some(p)));
                }
            }
            if result is Ok && unit is Ok {
                assert forall|t: int| base_outcomes.len() <= t < target.outcomes().len() implies
                    (#[trigger] target.outcomes()[t]) is Some && storage.records().contains(
                        target.outcomes()[t]->Some_0,
                    ) by {
                    if t < pre_outcomes.len() {
                        assert(target.outcomes()[t] == pre_outcomes[t]);
                        lemma_contains_prefix(
                            pre_records,
                            storage.records(),
                            pre_outcomes[t]->Some_0,
                        );
                    } else {
                        // this unit's publish succeeded and its record was
                        // just stored
                        assert(storage.records().last() == target.outcomes()[t]->Some_0);
                        assert(storage.records().contains(storage.records().last()));
                    }
                }
            }
            if pre_result is Err {
                if pre_outcomes.skip(base_outcomes.len() as int).contains(
                    None::<SyndicatedPost>,
                ) {
                    lemma_skip_contains_prefix(
                        pre_outcomes,
                        target.outcomes(),
                        base_outcomes.len() as int,
                        None::<SyndicatedPost>,
                    );
                }
            } else if unit is Err {
                if !valid_item(items@[i as int]) {
                } else if !has_record(pre_records, item_guid(items@[i as int]), net) {
                    if target.outcomes() == pre_outcomes.push(None::<SyndicatedPost>) {
                        let k = base_outcomes.len() as int;
                        assert(target.outcomes().skip(k)[target.outcomes().len() - 1 - k]
                            == target.outcomes()[target.outcomes().len() - 1]);
                        assert(target.outcomes().skip(k).contains(None::<SyndicatedPost>));
                    }
                }
            }
            // the ledger's growth splits at this unit, as do the successes
            lemma_some_count_append(pre_outcomes, target.outcomes(), base_outcomes.len() as int);
        }
        if result.is_ok() && unit.is_err() {
            result = unit;
        }
        i += 1;
    }
    result
}

/// Syndicates a single channel: every item to every target, independently.
pub fn syndycate_channel<T: Target, S: SyndicatedPostStorage>(
    channel: &Channel,
    targets: &mut Vec<T>,
    storage: &mut S,
) -> (r: Result<(), OrionError>)
    ensures
        final(targets)@.len() == old(targets)@.len(),
        forall|k: int| 0 <= k < old(targets)@.len()
            ==> (#[trigger] final(targets)@[k]).network_spec() == old(targets)@[k].network_spec()
                && old(targets)@[k].calls().is_prefix_of(final(targets)@[k].calls()),
        old(storage).records().is_prefix_of(final(storage).records()),
        forall|i: int| old(storage).records().len() <= i < final(storage).records().len()
            ==> !has_record(
                old(storage).records(),
                (#[trigger] final(storage).records()[i]).original_guid@,
                final(storage).records()[i].social_network,
            ) && (exists|k: int| 0 <= k < old(targets)@.len()
                && final(storage).records()[i].social_network == (#[trigger] old(targets)@[k]).network_spec()),
        unique_keys(old(storage).records()) ==> unique_keys(final(storage).records()),
        forall|k: int, i: int| 0 <= k < old(targets)@.len() && 0 <= i < channel.items@.len()
            && valid_item(#[trigger] channel.items@[i])
            ==> (#[trigger] final(targets)@[k]).calls().contains(channel.items@[i])
                || has_record(
                    final(storage).records(),
                    item_guid(channel.items@[i]),
                    old(targets)@[k].network_spec(),
                ),
        old(targets)@.len() > 0 && (exists|i: int| 0 <= i < channel.items@.len()
            && !valid_item(#[trigger] channel.items@[i])) ==> r is Err,
        r is Ok && old(targets)@.len() > 0 ==> forall|i: int| 0 <= i < channel.items@.len()
            ==> valid_item(#[trigger] channel.items@[i]),
        r is Ok ==> forall|k: int, i: int| 0 <= k < old(targets)@.len() && 0 <= i
            < channel.items@.len() ==> has_record(
            final(storage).records(),
            item_guid(#[trigger] channel.items@[i]),
            (#[trigger] old(targets)@[k]).network_spec(),
        ),
        forall|k: int| 0 <= k < old(targets)@.len()
            ==> old(targets)@[k].outcomes().is_prefix_of(
                (#[trigger] final(targets)@[k]).outcomes(),
            ) && final(targets)@[k].outcomes().len() - old(targets)@[k].outcomes().len()
                == final(targets)@[k].calls().len() - old(targets)@[k].calls().len()
                && final(targets)@[k].calls().len() - old(targets)@[k].calls().len()
                <= channel.items@.len(),
        // the dedup gate on attempts: whatever was handed to any target's
        // publish is a valid channel item whose key the starting ledger did
        // not hold
        forall|k: int, t: int|
            #![trigger final(targets)@[k].calls()[t]]
            0 <= k < old(targets)@.len() && old(targets)@[k].calls().len() <= t < final(targets)@[k].calls().len() ==> valid_item(final(targets)@[k].calls()[t])
                && channel.items@.contains(final(targets)@[k].calls()[t]) && !has_record(
                old(storage).records(),
                item_guid(final(targets)@[k].calls()[t]),
                old(targets)@[k].network_spec(),
            ),
        // each outcome is tied to the item of the same attempt
        forall|k: int, t: int|
            #![trigger final(targets)@[k].outcomes()[old(targets)@[k].outcomes().len() + t]]
            0 <= k < old(targets)@.len() && 0 <= t < final(targets)@[k].calls().len() - old(targets)@[k].calls().len() ==> (final(targets)@[k].outcomes()[old(targets)@[k].outcomes().len() + t] matches Some(p) ==> post_key_matches(
                p,
                item_guid(final(targets)@[k].calls()[old(targets)@[k].calls().len() + t]),
                old(targets)@[k].network_spec(),
            ) && p.original_uri@ == item_link(
                final(targets)@[k].calls()[old(targets)@[k].calls().len() + t],
            )),
        // new records are exactly what successful publishes returned
        forall|i: int| old(storage).records().len() <= i < final(storage).records().len()
            ==> published_by_one_of(
                old(targets)@,
                final(targets)@,
                #[trigger] final(storage).records()[i],
            ),
        r is Ok ==> forall|k: int, t: int|
            #![trigger final(targets)@[k].outcomes()[t]]
            0 <= k < old(targets)@.len() && old(targets)@[k].outcomes().len() <= t < final(targets)@[k].outcomes().len() ==> final(targets)@[k].outcomes()[t] is Some && final(storage).records().contains(final(targets)@[k].outcomes()[t]->Some_0),
        // the ledger gains at most one record per successful publish, and
        // exactly one each when the run over this channel succeeds
        final(storage).records().len() - old(storage).records().len() <= new_success_count(
            old(targets)@,
            final(targets)@,
        ),
        r is Ok ==> final(storage).records().len() - old(storage).records().len()
            == new_success_count(old(targets)@, final(targets)@),
        // a failed run exhibits a failed unit: an invalid item, a failed
        // publish, or a store failure, which leaves the ledger short of the
        // successful publishes
        r is Err ==> (exists|i: int| 0 <= i < channel.items@.len()
            && !valid_item(#[trigger] channel.items@[i])) || some_publish_failed(
            old(targets)@,
            final(targets)@,
        ) || final(storage).records().len() - old(storage).records().len() < new_success_count(
            old(targets)@,
            final(targets)@,
        ),
{
    let ghost base_targets = targets@;
    let ghost base_records = storage.records();
    let mut result: Result<(), OrionError> = Ok(());
    let mut k: usize = 0;
    proof {
        lemma_new_success_count_refl(base_targets);
    }
    while k < targets.len()
        invariant
            0 <= k <= base_targets.len(),
            targets@.len() == base_targets.len(),
            forall|j: int| 0 <= j < base_targets.len()
                ==> (#[trigger] targets@[j]).network_spec() == base_targets[j].network_spec()
                    && base_targets[j].calls().is_prefix_of(targets@[j].calls()),
            forall|j: int| k <= j < base_targets.len() ==> #[trigger] targets@[j]
                == base_targets[j],
            base_records.is_prefix_of(storage.records()),
            forall|i: int| base_records.len() <= i < storage.records().len()
                ==> !has_record(
                    base_records,
                    (#[trigger] storage.records()[i]).original_guid@,
                    storage.records()[i].social_network,
                ) && (exists|j: int| 0 <= j < base_targets.len()
                    && storage.records()[i].social_network == (#[trigger] base_targets[j]).network_spec()),
            unique_keys(base_records) ==> unique_keys(storage.records()),
            forall|j: int, i: int| 0 <= j < k && 0 <= i < channel.items@.len()
                && valid_item(#[trigger] channel.items@[i])
                ==> (#[trigger] targets@[j]).calls().contains(channel.items@[i])
                    || has_record(
                        storage.records(),
                        item_guid(channel.items@[i]),
                        base_targets[j].network_spec(),
                    ),
            k > 0 && (exists|i: int| 0 <= i < channel.items@.len()
                && !valid_item(#[trigger] channel.items@[i])) ==> result is Err,
            result is Ok && k > 0 ==> forall|i: int| 0 <= i < channel.items@.len()
                ==> valid_item(#[trigger] channel.items@[i]),
            result is Ok ==> forall|j: int, i: int| 0 <= j < k && 0 <= i < channel.items@.len()
                ==> has_record(
                    storage.records(),
                    item_guid(#[trigger] channel.items@[i]),
                    (#[trigger] base_targets[j]).network_spec(),
                ),
            forall|j: int| 0 <= j < base_targets.len()
                ==> base_targets[j].outcomes().is_prefix_of(
                    (#[trigger] targets@[j]).outcomes(),
                ) && targets@[j].outcomes().len() - base_targets[j].outcomes().len()
                    == targets@[j].calls().len() - base_targets[j].calls().len()
                    && targets@[j].calls().len() - base_targets[j].calls().len()
                    <= channel.items@.len(),
            forall|j: int, t: int|
                #![trigger targets@[j].calls()[t]]
                0 <= j < base_targets.len() && base_targets[j].calls().len() <= t
                    < targets@[j].calls().len() ==> valid_item(targets@[j].calls()[t])
                    && channel.items@.contains(targets@[j].calls()[t]) && !has_record(
                    base_records,
                    item_guid(targets@[j].calls()[t]),
                    base_targets[j].network_spec(),
                ),
            forall|j: int, t: int|
                #![trigger targets@[j].outcomes()[base_targets[j].outcomes().len() + t]]
                0 <= j < base_targets.len() && 0 <= t < targets@[j].calls().len()
                    - base_targets[j].calls().len()
                    ==> (targets@[j].outcomes()[base_targets[j].outcomes().len() + t]
                    matches Some(p) ==> post_key_matches(
                    p,
                    item_guid(targets@[j].calls()[base_targets[j].calls().len() + t]),
                    base_targets[j].network_spec(),
                ) && p.original_uri@ == item_link(
                    targets@[j].calls()[base_targets[j].calls().len() + t],
                )),
            forall|i: int| base_records.len() <= i < storage.records().len()
                ==> published_by_one_of(
                    base_targets,
                    targets@,
                    #[trigger] storage.records()[i],
                ),
            result is Ok ==> forall|j: int, t: int|
                #![trigger targets@[j].outcomes()[t]]
                0 <= j < base_targets.len() && base_targets[j].outcomes().len() <= t
                    < targets@[j].outcomes().len() ==> targets@[j].outcomes()[t] is Some
                    && storage.records().contains(targets@[j].outcomes()[t]->Some_0),
            storage.records().len() - base_records.len() <= new_success_count(
                base_targets,
                targets@,
            ),
            result is Ok ==> storage.records().len() - base_records.len() == new_success_count(
                base_targets,
                targets@,
            ),
            result is Err ==> (exists|i: int| 0 <= i < channel.items@.len()
                && !valid_item(#[trigger] channel.items@[i])) || some_publish_failed(
                base_targets,
                targets@,
            ) || storage.records().len() - base_records.len() < new_success_count(
                base_targets,
                targets@,
            ),
        decreases base_targets.len() - k,
    {
        let ghost pre_targets = targets@;
        let ghost pre_records = storage.records();
        let target = &mut targets[k];
        let unit = syndicate_items_to_target(&channel.items, target, storage);
        proof {
            assert(pre_targets[k as int] == base_targets[k as int]);
            lemma_prefix_transitive(base_records, pre_records, storage.records());
            assert forall|i: int| base_records.len() <= i < storage.records().len() implies
                !has_record(
                    base_records,
                    (#[trigger] storage.records()[i]).original_guid@,
                    storage.records()[i].social_network,
                ) && (exists|j: int| 0 <= j < base_targets.len()
                    && storage.records()[i].social_network == (#[trigger] base_targets[j]).network_spec()) by {
                if i < pre_records.len() {
                    assert(storage.records()[i] == pre_records[i]);
                } else {
                    if has_record(
                        base_records,
                        storage.records()[i].original_guid@,
                        storage.records()[i].social_network,
                    ) {
                        lemma_has_record_monotone(
                            base_records,
                            pre_records,
                            storage.records()[i].original_guid@,
                            storage.records()[i].social_network,
                        );
                    }
                    assert(storage.records()[i].social_network == pre_targets[k as int].network_spec());
                    assert(pre_targets[k as int].network_spec() == base_targets[k as int].network_spec());
                }
            }
            // coverage achieved for earlier targets survives this target
            assert forall|j: int, i: int| 0 <= j < k + 1 && 0 <= i < channel.items@.len()
                && valid_item(#[trigger] channel.items@[i]) implies
                (#[trigger] targets@[j]).calls().contains(channel.items@[i])
                    || has_record(
                        storage.records(),
                        item_guid(channel.items@[i]),
                        base_targets[j].network_spec(),
                    ) by {
                if j < k {
                    assert(targets@[j] == pre_targets[j]);
                    if has_record(pre_records, item_guid(channel.items@[i]),
                        base_targets[j].network_spec()) {
                        lemma_has_record_monotone(
                            pre_records,
                            storage.records(),
                            item_guid(channel.items@[i]),
                            base_targets[j].network_spec(),
                        );
                    }
                }
            }
            if result is Ok && unit is Ok {
                assert forall|j: int, i: int| 0 <= j < k + 1 && 0 <= i < channel.items@.len()
                    implies has_record(
                    storage.records(),
                    item_guid(#[trigger] channel.items@[i]),
                    (#[trigger] base_targets[j]).network_spec(),
                ) by {
                    if j < k {
                        lemma_has_record_monotone(
                            pre_records,
                            storage.records(),
                            item_guid(channel.items@[i]),
                            base_targets[j].network_spec(),
                        );
                    }
                }
            }
            // bookkeeping of attempts and outcomes for every target
            assert forall|j: int| 0 <= j < base_targets.len() implies
                base_targets[j].outcomes().is_prefix_of((#[trigger] targets@[j]).outcomes())
                    && targets@[j].outcomes().len() - base_targets[j].outcomes().len()
                    == targets@[j].calls().len() - base_targets[j].calls().len() by {
                if j != k {
                    assert(targets@[j] == pre_targets[j]);
                }
            }
            assert forall|j: int, t: int|
                #![trigger targets@[j].calls()[t]]
                0 <= j < base_targets.len() && base_targets[j].calls().len() <= t
                    < targets@[j].calls().len() implies valid_item(targets@[j].calls()[t])
                    && channel.items@.contains(targets@[j].calls()[t]) && !has_record(
                    base_records,
                    item_guid(targets@[j].calls()[t]),
                    base_targets[j].network_spec(),
                ) by {
                if j != k {
                    assert(targets@[j] == pre_targets[j]);
                } else {
                    // this pass's attempts were fresh for the ledger it
                    // saw, which extends the channel's starting ledger
                    if has_record(
                        base_records,
                        item_guid(targets@[k as int].calls()[t]),
                        base_targets[k as int].network_spec(),
                    ) {
                        lemma_has_record_monotone(
                            base_records,
                            pre_records,
                            item_guid(targets@[k as int].calls()[t]),
                            base_targets[k as int].network_spec(),
                        );
                    }
                }
            }
            assert forall|j: int, t: int|
                #![trigger targets@[j].outcomes()[base_targets[j].outcomes().len() + t]]
                0 <= j < base_targets.len() && 0 <= t < targets@[j].calls().len()
                    - base_targets[j].calls().len() implies (targets@[j].outcomes()[base_targets[j].outcomes().len()
                + t] matches Some(p) ==> post_key_matches(
                p,
                item_guid(targets@[j].calls()[base_targets[j].calls().len() + t]),
                base_targets[j].network_spec(),
            ) && p.original_uri@ == item_link(
                targets@[j].calls()[base_targets[j].calls().len() + t],
            )) by {
                if j != k {
                    assert(targets@[j] == pre_targets[j]);
                }
            }
            assert forall|i: int| base_records.len() <= i < storage.records().len() implies
                published_by_one_of(base_targets, targets@, #[trigger] storage.records()[i]) by {
                if i < pre_records.len() {
                    assert(storage.records()[i] == pre_records[i]);
                    let j = choose|j: int|
                        0 <= j < base_targets.len() && (#[trigger] pre_targets[j]).outcomes().skip(
                            base_targets[j].outcomes().len() as int,
                        ).contains(Some(pre_records[i]));
                    if j == k {
                        // the pass target held no new outcomes before its
                        // own pass
                        assert(pre_targets[k as int].outcomes().skip(
                            base_targets[k as int].outcomes().len() as int,
                        ).len() == 0);
                    }
                    assert(targets@[j] == pre_targets[j]);
                    assert(targets@[j].outcomes().skip(
                        base_targets[j].outcomes().len() as int,
                    ).contains(Some(storage.records()[i])));
                } else {
                    assert(targets@[k as int].outcomes().skip(
                        base_targets[k as int].outcomes().len() as int,
                    ).contains(Some(storage.records()[i])));
                }
            }
            if result is Ok && unit is Ok {
                assert forall|j: int, t: int|
                    #![trigger targets@[j].outcomes()[t]]
                    0 <= j < base_targets.len() && base_targets[j].outcomes().len() <= t
                        < targets@[j].outcomes().len() implies targets@[j].outcomes()[t] is Some
                        && storage.records().contains(targets@[j].outcomes()[t]->Some_0) by {
                    if j != k {
                        assert(targets@[j] == pre_targets[j]);
                        lemma_contains_prefix(
                            pre_records,
                            storage.records(),
                            targets@[j].outcomes()[t]->Some_0,
                        );
                    }
                }
            }
            if result is Err {
                // the witness of the earlier failure still stands
                if some_publish_failed(base_targets, pre_targets) {
                    let j = choose|j: int|
                        0 <= j < base_targets.len() && (#[trigger] pre_targets[j]).outcomes().skip(
                            base_targets[j].outcomes().len() as int,
                        ).contains(None::<SyndicatedPost>);
                    if j == k {
                        assert(pre_targets[k as int].outcomes().skip(
                            base_targets[k as int].outcomes().len() as int,
                        ).len() == 0);
                    }
                    assert(targets@[j] == pre_targets[j]);
                    assert(targets@[j].outcomes().skip(
                        base_targets[j].outcomes().len() as int,
                    ).contains(None::<SyndicatedPost>));
                    assert(some_publish_failed(base_targets, targets@));
                }
            } else if unit is Err {
                if target.outcomes().skip(
                    base_targets[k as int].outcomes().len() as int,
                ).contains(None::<SyndicatedPost>) {
                    assert(targets@[k as int].outcomes().skip(
                        base_targets[k as int].outcomes().len() as int,
                    ).contains(None::<SyndicatedPost>));
                    assert(some_publish_failed(base_targets, targets@));
                }
            }
            // the ledger's growth splits at this pass, as do the successes
            lemma_new_success_count_update(base_targets, pre_targets, targets@, k as int);
            lemma_some_count_empty_skip(base_targets[k as int].outcomes());
            assert(some_count(pre_targets[k as int].outcomes().skip(
                base_targets[k as int].outcomes().len() as int,
            )) == 0);
            assert(new_success_count(base_targets, targets@) == new_success_count(
                base_targets,
                pre_targets,
            ) + some_count(targets@[k as int].outcomes().skip(
                base_targets[k as int].outcomes().len() as int,
            )));
        }
        if result.is_ok() && unit.is_err() {
            result = unit;
        }
        k += 1;
    }
    result
}

/// Fetches every configured feed, in order. A failed fetch is kept as the
/// unit's failure and never stops the remaining fetches.
fn fetch_feeds<R: Client>(rss_client: &mut R, urls: &Vec<String>) -> (r: Vec<
    Result<Channel, OrionError>,
>)
    ensures
        r@.len() == urls@.len(),
        final(rss_client).requests() == old(rss_client).requests() + urls@,
        final(rss_client).fetches() == old(rss_client).fetches() + r@,
{
    let ghost base_requests = rss_client.requests();
    let ghost base_fetches = rss_client.fetches();
    let mut fetched: Vec<Result<Channel, OrionError>> = Vec::new();
    let mut i: usize = 0;
    while i < urls.len()
        invariant
            0 <= i <= urls@.len(),
            fetched@.len() == i,
            rss_client.requests() == base_requests + urls@.take(i as int),
            rss_client.fetches() == base_fetches + fetched@,
        decreases urls@.len() - i,
    {
        let ghost pre_fetched = fetched@;
        let outcome = rss_client.get_channel(&urls[i]);
        let ghost outcome_view = outcome;
        fetched.push(outcome);
        proof {
            assert(base_requests + urls@.take(i as int + 1) =~= (base_requests + urls@.take(
                i as int,
            )).push(urls@[i as int]));
            assert(base_fetches + pre_fetched.push(outcome_view) =~= (base_fetches + pre_fetched).push(
                outcome_view,
            ));
        }
        i += 1;
    }
    proof {
        assert(urls@.take(urls@.len() as int) =~= urls@);
    }
    fetched
}

/// Processes the outcome of every feed fetch: each successfully fetched
/// channel is syndicated to every target; each failed fetch is one failed
/// unit. The run reports failure exactly when it holds a failed unit, and a
/// failure never stops the other channels.
pub fn process_fetched<T: Target, S: SyndicatedPostStorage>(
    fetched: &Vec<Result<Channel, OrionError>>,
    targets: &mut Vec<T>,
    storage: &mut S,
) -> (r: Result<(), OrionError>)
    ensures
        final(targets)@.len() == old(targets)@.len(),
        forall|k: int| 0 <= k < old(targets)@.len()
            ==> (#[trigger] final(targets)@[k]).network_spec() == old(targets)@[k].network_spec()
                && old(targets)@[k].calls().is_prefix_of(final(targets)@[k].calls()),
        old(storage).records().is_prefix_of(final(storage).records()),
        forall|i: int| old(storage).records().len() <= i < final(storage).records().len()
            ==> !has_record(
                old(storage).records(),
                (#[trigger] final(storage).records()[i]).original_guid@,
                final(storage).records()[i].social_network,
            ) && (exists|k: int| 0 <= k < old(targets)@.len()
                && final(storage).records()[i].social_network == (#[trigger] old(targets)@[k]).network_spec()),
        unique_keys(old(storage).records()) ==> unique_keys(final(storage).records()),
        // a fetch failure fails the run
        (exists|f: int| 0 <= f < fetched@.len() && (#[trigger] fetched@[f]) is Err) ==> r is Err,
        // partial-failure isolation: every valid item of every fetched
        // channel reaches every target, or was already recorded
        forall|f: int, k: int, i: int|
            #![trigger fetched@[f]->Ok_0.items@[i], final(targets)@[k]]
            0 <= f < fetched@.len() && fetched@[f] is Ok && 0 <= k < old(targets)@.len() && 0 <= i
                < fetched@[f]->Ok_0.items@.len() && valid_item(fetched@[f]->Ok_0.items@[i])
                ==> final(targets)@[k].calls().contains(fetched@[f]->Ok_0.items@[i])
                || has_record(
                final(storage).records(),
                item_guid(fetched@[f]->Ok_0.items@[i]),
                old(targets)@[k].network_spec(),
            ),
        r is Ok ==> forall|f: int| 0 <= f < fetched@.len() ==> (#[trigger] fetched@[f]) is Ok,
        r is Ok ==> forall|f: int, k: int, i: int|
            #![trigger fetched@[f]->Ok_0.items@[i], old(targets)@[k]]
            0 <= f < fetched@.len() && 0 <= k < old(targets)@.len() && 0 <= i
                < fetched@[f]->Ok_0.items@.len() ==> has_record(
                final(storage).records(),
                item_guid(fetched@[f]->Ok_0.items@[i]),
                old(targets)@[k].network_spec(),
            ),
        // a run with nothing to do succeeds
        fetched@.len() == 0 ==> r is Ok,
        forall|k: int| 0 <= k < old(targets)@.len()
            ==> old(targets)@[k].outcomes().is_prefix_of(
                (#[trigger] final(targets)@[k]).outcomes(),
            ) && final(targets)@[k].outcomes().len() - old(targets)@[k].outcomes().len()
                == final(targets)@[k].calls().len() - old(targets)@[k].calls().len(),
        // the dedup gate on attempts: whatever was handed to any target's
        // publish is a valid item of a fetched channel whose key the
        // starting ledger did not hold
        forall|k: int, t: int|
            #![trigger final(targets)@[k].calls()[t]]
            0 <= k < old(targets)@.len() && old(targets)@[k].calls().len() <= t
                < final(targets)@[k].calls().len()
                ==> valid_item(final(targets)@[k].calls()[t]) && item_of_some_channel(
                fetched@,
                final(targets)@[k].calls()[t],
            ) && !has_record(
                old(storage).records(),
                item_guid(final(targets)@[k].calls()[t]),
                old(targets)@[k].network_spec(),
            ),
        // each outcome is tied to the item of the same attempt
        forall|k: int, t: int|
            #![trigger final(targets)@[k].outcomes()[old(targets)@[k].outcomes().len() + t]]
            0 <= k < old(targets)@.len() && 0 <= t < final(targets)@[k].calls().len()
                - old(targets)@[k].calls().len()
                ==> (final(targets)@[k].outcomes()[old(targets)@[k].outcomes().len() + t]
                matches Some(p) ==> post_key_matches(
                p,
                item_guid(final(targets)@[k].calls()[old(targets)@[k].calls().len() + t]),
                old(targets)@[k].network_spec(),
            ) && p.original_uri@ == item_link(
                final(targets)@[k].calls()[old(targets)@[k].calls().len() + t],
            )),
        // new records are exactly what successful publishes returned
        forall|i: int| old(storage).records().len() <= i < final(storage).records().len()
            ==> published_by_one_of(
                old(targets)@,
                final(targets)@,
                #[trigger] final(storage).records()[i],
            ),
        r is Ok ==> forall|k: int, t: int|
            #![trigger final(targets)@[k].outcomes()[t]]
            0 <= k < old(targets)@.len() && old(targets)@[k].outcomes().len() <= t
                < final(targets)@[k].outcomes().len()
                ==> final(targets)@[k].outcomes()[t] is Some && final(storage).records().contains(
                final(targets)@[k].outcomes()[t]->Some_0,
            ),
        // the ledger gains at most one record per successful publish, and
        // exactly one each when the run succeeds
        final(storage).records().len() - old(storage).records().len() <= new_success_count(
            old(targets)@,
            final(targets)@,
        ),
        r is Ok ==> final(storage).records().len() - old(storage).records().len()
            == new_success_count(old(targets)@, final(targets)@),
        // a failed run exhibits a failed unit: a failed fetch, an invalid
        // item, a failed publish, or a store failure, which leaves the
        // ledger short of the successful publishes
        r is Err ==> (exists|f: int| 0 <= f < fetched@.len() && (#[trigger] fetched@[f]) is Err)
            || (exists|f: int, i: int|
            #![trigger fetched@[f]->Ok_0.items@[i]]
            0 <= f < fetched@.len() && fetched@[f] is Ok && 0 <= i
                < fetched@[f]->Ok_0.items@.len() && !valid_item(fetched@[f]->Ok_0.items@[i]))
            || some_publish_failed(old(targets)@, final(targets)@) || final(storage).records().len() - old(storage).records().len() < new_success_count(
            old(targets)@,
            final(targets)@,
        ),
{
    let ghost base_targets = targets@;
    let ghost base_records = storage.records();
    let mut result: Result<(), OrionError> = Ok(());
    let mut f: usize = 0;
    proof {
        lemma_new_success_count_refl(base_targets);
    }
    while f < fetched.len()
        invariant
            0 <= f <= fetched@.len(),
            targets@.len() == base_targets.len(),
            forall|k: int| 0 <= k < base_targets.len()
                ==> (#[trigger] targets@[k]).network_spec() == base_targets[k].network_spec()
                    && base_targets[k].calls().is_prefix_of(targets@[k].calls()),
            base_records.is_prefix_of(storage.records()),
            forall|i: int| base_records.len() <= i < storage.records().len()
                ==> !has_record(
                    base_records,
                    (#[trigger] storage.records()[i]).original_guid@,
                    storage.records()[i].social_network,
                ) && (exists|k: int| 0 <= k < base_targets.len()
                    && storage.records()[i].social_network == (#[trigger] base_targets[k]).network_spec()),
            unique_keys(base_records) ==> unique_keys(storage.records()),
            (exists|g: int| 0 <= g < f && (#[trigger] fetched@[g]) is Err) ==> result is Err,
            forall|g: int, k: int, i: int|
                #![trigger fetched@[g]->Ok_0.items@[i], targets@[k]]
                0 <= g < f && fetched@[g] is Ok && 0 <= k < base_targets.len() && 0 <= i
                    < fetched@[g]->Ok_0.items@.len() && valid_item(fetched@[g]->Ok_0.items@[i])
                    ==> targets@[k].calls().contains(fetched@[g]->Ok_0.items@[i])
                    || has_record(
                    storage.records(),
                    item_guid(fetched@[g]->Ok_0.items@[i]),
                    base_targets[k].network_spec(),
                ),
            result is Ok ==> forall|g: int| 0 <= g < f ==> (#[trigger] fetched@[g]) is Ok,
            result is Ok ==> forall|g: int, k: int, i: int|
                #![trigger fetched@[g]->Ok_0.items@[i], base_targets[k]]
                0 <= g < f && 0 <= k < base_targets.len() && 0 <= i
                    < fetched@[g]->Ok_0.items@.len() ==> has_record(
                    storage.records(),
                    item_guid(fetched@[g]->Ok_0.items@[i]),
                    base_targets[k].network_spec(),
                ),
            f == 0 ==> result is Ok,
            forall|k: int| 0 <= k < base_targets.len()
                ==> base_targets[k].outcomes().is_prefix_of(
                    (#[trigger] targets@[k]).outcomes(),
                ) && targets@[k].outcomes().len() - base_targets[k].outcomes().len()
                    == targets@[k].calls().len() - base_targets[k].calls().len(),
            forall|k: int, t: int|
                #![trigger targets@[k].calls()[t]]
                0 <= k < base_targets.len() && base_targets[k].calls().len() <= t
                    < targets@[k].calls().len() ==> valid_item(targets@[k].calls()[t])
                    && item_of_some_channel(fetched@, targets@[k].calls()[t]) && !has_record(
                    base_records,
                    item_guid(targets@[k].calls()[t]),
                    base_targets[k].network_spec(),
                ),
            forall|k: int, t: int|
                #![trigger targets@[k].outcomes()[base_targets[k].outcomes().len() + t]]
                0 <= k < base_targets.len() && 0 <= t < targets@[k].calls().len()
                    - base_targets[k].calls().len()
                    ==> (targets@[k].outcomes()[base_targets[k].outcomes().len() + t]
                    matches Some(p) ==> post_key_matches(
                    p,
                    item_guid(targets@[k].calls()[base_targets[k].calls().len() + t]),
                    base_targets[k].network_spec(),
                ) && p.original_uri@ == item_link(
                    targets@[k].calls()[base_targets[k].calls().len() + t],
                )),
            forall|i: int| base_records.len() <= i < storage.records().len()
                ==> published_by_one_of(
                    base_targets,
                    targets@,
                    #[trigger] storage.records()[i],
                ),
            result is Ok ==> forall|k: int, t: int|
                #![trigger targets@[k].outcomes()[t]]
                0 <= k < base_targets.len() && base_targets[k].outcomes().len() <= t
                    < targets@[k].outcomes().len() ==> targets@[k].outcomes()[t] is Some
                    && storage.records().contains(targets@[k].outcomes()[t]->Some_0),
            storage.records().len() - base_records.len() <= new_success_count(
                base_targets,
                targets@,
            ),
            result is Ok ==> storage.records().len() - base_records.len() == new_success_count(
                base_targets,
                targets@,
            ),
            result is Err ==> (exists|g: int| 0 <= g < fetched@.len()
                && (#[trigger] fetched@[g]) is Err) || (exists|g: int, i: int|
                #![trigger fetched@[g]->Ok_0.items@[i]]
                0 <= g < fetched@.len() && fetched@[g] is Ok && 0 <= i
                    < fetched@[g]->Ok_0.items@.len() && !valid_item(
                    fetched@[g]->Ok_0.items@[i],
                )) || some_publish_failed(base_targets, targets@) || storage.records().len()
                - base_records.len() < new_success_count(base_targets, targets@),
        decreases fetched@.len() - f,
    {
        let ghost pre_targets = targets@;
        let ghost pre_records = storage.records();
        let unit = match &fetched[f] {
            Ok(channel) => syndycate_channel(channel, targets, storage),
            Err(e) => Err(e.clone()),
        };
        proof {
            lemma_prefix_transitive(base_records, pre_records, storage.records());
            assert forall|k: int| 0 <= k < base_targets.len() implies
                (#[trigger] targets@[k]).network_spec() == base_targets[k].network_spec()
                    && base_targets[k].calls().is_prefix_of(targets@[k].calls()) by {
                lemma_prefix_transitive(
                    base_targets[k].calls(),
                    pre_targets[k].calls(),
                    targets@[k].calls(),
                );
            }
            assert forall|i: int| base_records.len() <= i < storage.records().len() implies
                !has_record(
                    base_records,
                    (#[trigger] storage.records()[i]).original_guid@,
                    storage.records()[i].social_network,
                ) && (exists|k: int| 0 <= k < base_targets.len()
                    && storage.records()[i].social_network == (#[trigger] base_targets[k]).network_spec()) by {
                if i < pre_records.len() {
                    assert(storage.records()[i] == pre_records[i]);
                } else {
                    if has_record(
                        base_records,
                        storage.records()[i].original_guid@,
                        storage.records()[i].social_network,
                    ) {
                        lemma_has_record_monotone(
                            base_records,
                            pre_records,
                            storage.records()[i].original_guid@,
                            storage.records()[i].social_network,
                        );
                    }
                    let k = choose|k: int| 0 <= k < pre_targets.len()
                        && storage.records()[i].social_network == (#[trigger] pre_targets[k]).network_spec();
                    assert(storage.records()[i].social_network == base_targets[k].network_spec());
                }
            }
            // coverage of earlier channels survives this channel
            assert forall|g: int, k: int, i: int|
                #![trigger fetched@[g]->Ok_0.items@[i], targets@[k]]
                0 <= g < f + 1 && fetched@[g] is Ok && 0 <= k < base_targets.len() && 0 <= i
                    < fetched@[g]->Ok_0.items@.len() && valid_item(fetched@[g]->Ok_0.items@[i])
                implies targets@[k].calls().contains(fetched@[g]->Ok_0.items@[i])
                    || has_record(
                    storage.records(),
                    item_guid(fetched@[g]->Ok_0.items@[i]),
                    base_targets[k].network_spec(),
                ) by {
                let it = fetched@[g]->Ok_0.items@[i];
                if g < f {
                    if pre_targets[k].calls().contains(it) {
                        lemma_contains_prefix(pre_targets[k].calls(), targets@[k].calls(), it);
                    } else if has_record(pre_records, item_guid(it),
                        base_targets[k].network_spec()) {
                        lemma_has_record_monotone(
                            pre_records,
                            storage.records(),
                            item_guid(it),
                            base_targets[k].network_spec(),
                        );
                    }
                }
            }
            if result is Ok && unit is Ok {
                assert forall|g: int, k: int, i: int|
                    #![trigger fetched@[g]->Ok_0.items@[i], base_targets[k]]
                    0 <= g < f + 1 && 0 <= k < base_targets.len() && 0 <= i
                        < fetched@[g]->Ok_0.items@.len() implies has_record(
                    storage.records(),
                    item_guid(fetched@[g]->Ok_0.items@[i]),
                    base_targets[k].network_spec(),
                ) by {
                    if g < f {
                        lemma_has_record_monotone(
                            pre_records,
                            storage.records(),
                            item_guid(fetched@[g]->Ok_0.items@[i]),
                            base_targets[k].network_spec(),
                        );
                    } else {
                        assert(pre_targets[k].network_spec() == base_targets[k].network_spec());
                        assert(has_record(
                            storage.records(),
                            item_guid(fetched@[g]->Ok_0.items@[i]),
                            pre_targets[k].network_spec(),
                        ));
                    }
                }
            }
            // outcome bookkeeping for every target
            assert forall|k: int| 0 <= k < base_targets.len() implies
                (#[trigger] pre_targets[k]).outcomes().is_prefix_of(targets@[k].outcomes()) by {
                if targets@[k] == pre_targets[k] {
                    assert(pre_targets[k].outcomes() =~= targets@[k].outcomes().subrange(
                        0,
                        pre_targets[k].outcomes().len() as int,
                    ));
                }
            }
            assert forall|k: int| 0 <= k < base_targets.len() implies
                base_targets[k].outcomes().is_prefix_of((#[trigger] targets@[k]).outcomes())
                    && targets@[k].outcomes().len() - base_targets[k].outcomes().len()
                    == targets@[k].calls().len() - base_targets[k].calls().len() by {
                lemma_prefix_transitive(
                    base_targets[k].outcomes(),
                    pre_targets[k].outcomes(),
                    targets@[k].outcomes(),
                );
            }
            // the attempts of every target stay valid, channel-borne and
            // fresh for the run's starting ledger
            assert forall|k: int, t: int|
                #![trigger targets@[k].calls()[t]]
                0 <= k < base_targets.len() && base_targets[k].calls().len() <= t
                    < targets@[k].calls().len() implies valid_item(targets@[k].calls()[t])
                    && item_of_some_channel(fetched@, targets@[k].calls()[t]) && !has_record(
                    base_records,
                    item_guid(targets@[k].calls()[t]),
                    base_targets[k].network_spec(),
                ) by {
                if t < pre_targets[k].calls().len() {
                    assert(targets@[k].calls()[t] == pre_targets[k].calls()[t]);
                } else {
                    let it = targets@[k].calls()[t];
                    assert(fetched@[f as int] is Ok);
                    assert(valid_item(it) && fetched@[f as int]->Ok_0.items@.contains(it));
                    assert(item_of_some_channel(fetched@, it));
                    if has_record(base_records, item_guid(it), base_targets[k].network_spec()) {
                        lemma_has_record_monotone(
                            base_records,
                            pre_records,
                            item_guid(it),
                            base_targets[k].network_spec(),
                        );
                    }
                }
            }
            assert forall|k: int, t: int|
                #![trigger targets@[k].outcomes()[base_targets[k].outcomes().len() + t]]
                0 <= k < base_targets.len() && 0 <= t < targets@[k].calls().len()
                    - base_targets[k].calls().len()
                    implies (targets@[k].outcomes()[base_targets[k].outcomes().len() + t]
                    matches Some(p) ==> post_key_matches(
                    p,
                    item_guid(targets@[k].calls()[base_targets[k].calls().len() + t]),
                    base_targets[k].network_spec(),
                ) && p.original_uri@ == item_link(
                    targets@[k].calls()[base_targets[k].calls().len() + t],
                )) by {
                let pre_d = pre_targets[k].calls().len() - base_targets[k].calls().len();
                if t < pre_d {
                    assert(targets@[k].outcomes()[base_targets[k].outcomes().len() + t]
                        == pre_targets[k].outcomes()[base_targets[k].outcomes().len() + t]);
                    assert(targets@[k].calls()[base_targets[k].calls().len() + t]
                        == pre_targets[k].calls()[base_targets[k].calls().len() + t]);
                } else {
                    assert(base_targets[k].outcomes().len() + t == pre_targets[k].outcomes().len()
                        + (t - pre_d));
                    assert(base_targets[k].calls().len() + t == pre_targets[k].calls().len() + (t
                        - pre_d));
                }
            }
            // every new record is what some successful publish returned
            assert forall|i: int| base_records.len() <= i < storage.records().len() implies
                published_by_one_of(base_targets, targets@, #[trigger] storage.records()[i]) by {
                if i < pre_records.len() {
                    assert(storage.records()[i] == pre_records[i]);
                    lemma_published_monotone(base_targets, pre_targets, targets@, pre_records[i]);
                } else {
                    lemma_published_monotone(
                        base_targets,
                        pre_targets,
                        targets@,
                        storage.records()[i],
                    );
                }
            }
            if result is Ok && unit is Ok {
                assert forall|k: int, t: int|
                    #![trigger targets@[k].outcomes()[t]]
                    0 <= k < base_targets.len() && base_targets[k].outcomes().len() <= t
                        < targets@[k].outcomes().len() implies targets@[k].outcomes()[t] is Some
                        && storage.records().contains(targets@[k].outcomes()[t]->Some_0) by {
                    if t < pre_targets[k].outcomes().len() {
                        assert(targets@[k].outcomes()[t] == pre_targets[k].outcomes()[t]);
                        lemma_contains_prefix(
                            pre_records,
                            storage.records(),
                            targets@[k].outcomes()[t]->Some_0,
                        );
                    }
                }
            }
            if result is Err {
                // the witness of the earlier failure still stands
                if some_publish_failed(base_targets, pre_targets) {
                    lemma_failed_monotone(base_targets, pre_targets, targets@);
                }
            } else if unit is Err {
                if some_publish_failed(pre_targets, targets@) {
                    lemma_failed_monotone(base_targets, pre_targets, targets@);
                }
            }
            // the ledger's growth splits at this channel, as do the
            // successes
            lemma_new_success_count_refl(pre_targets);
            lemma_new_success_count_compose(base_targets, pre_targets, targets@);
        }
        if result.is_ok() && unit.is_err() {
            result = unit;
        }
        f += 1;
    }
    result
}

/// Orchestrates one syndication run: fetches every configured feed, fans
/// each fetched channel out to every target behind the dedup gate, and
/// reports failure when any unit failed while every unit that could succeed
/// has been driven to completion.
pub fn syndicate<R: Client, T: Target, S: SyndicatedPostStorage>(
    config: &Config,
    rss_client: &mut R,
    targets: &mut Vec<T>,
    storage: &mut S,
) -> (r: Result<(), OrionError>)
    ensures
        final(rss_client).requests() == old(rss_client).requests() + config.rss.urls@,
        final(targets)@.len() == old(targets)@.len(),
        forall|k: int| 0 <= k < old(targets)@.len()
            ==> (#[trigger] final(targets)@[k]).network_spec() == old(targets)@[k].network_spec()
                && old(targets)@[k].calls().is_prefix_of(final(targets)@[k].calls()),
        old(storage).records().is_prefix_of(final(storage).records()),
        // the dedup gate: whatever this run appends was not in the ledger
        // before, under its `(guid, network)` key, and belongs to one of the
        // configured targets
        forall|i: int| old(storage).records().len() <= i < final(storage).records().len()
            ==> !has_record(
                old(storage).records(),
                (#[trigger] final(storage).records()[i]).original_guid@,
                final(storage).records()[i].social_network,
            ) && (exists|k: int| 0 <= k < old(targets)@.len()
                && final(storage).records()[i].social_network == (#[trigger] old(targets)@[k]).network_spec()),
        unique_keys(old(storage).records()) ==> unique_keys(final(storage).records()),
        // one fetch outcome per configured URL; a run with no URLs succeeds
        old(rss_client).fetches().is_prefix_of(final(rss_client).fetches()),
        final(rss_client).fetches().len() == old(rss_client).fetches().len()
            + config.rss.urls@.len(),
        config.rss.urls@.len() == 0 ==> r is Ok,
        // a failed fetch among this run's fetches fails the run
        (exists|f: int|
            old(rss_client).fetches().len() <= f < final(rss_client).fetches().len() && (
            #[trigger] final(rss_client).fetches()[f]) is Err) ==> r is Err,
        // partial-failure isolation: every valid item of every channel this
        // run fetched reaches every target, or was already recorded
        forall|f: int, k: int, i: int|
            #![trigger final(rss_client).fetches()[f]->Ok_0.items@[i], final(targets)@[k]]
            old(rss_client).fetches().len() <= f < final(rss_client).fetches().len()
                && final(rss_client).fetches()[f] is Ok && 0 <= k < old(targets)@.len() && 0 <= i
                < final(rss_client).fetches()[f]->Ok_0.items@.len()
                && valid_item(final(rss_client).fetches()[f]->Ok_0.items@[i])
                ==> final(targets)@[k].calls().contains(
                final(rss_client).fetches()[f]->Ok_0.items@[i],
            ) || has_record(
                final(storage).records(),
                item_guid(final(rss_client).fetches()[f]->Ok_0.items@[i]),
                old(targets)@[k].network_spec(),
            ),
        r is Ok ==> forall|f: int|
            old(rss_client).fetches().len() <= f < final(rss_client).fetches().len()
                ==> (#[trigger] final(rss_client).fetches()[f]) is Ok,
        r is Ok ==> forall|f: int, k: int, i: int|
            #![trigger final(rss_client).fetches()[f]->Ok_0.items@[i], old(targets)@[k]]
            old(rss_client).fetches().len() <= f < final(rss_client).fetches().len()
                && final(rss_client).fetches()[f] is Ok && 0 <= k < old(targets)@.len() && 0 <= i
                < final(rss_client).fetches()[f]->Ok_0.items@.len() ==> has_record(
                final(storage).records(),
                item_guid(final(rss_client).fetches()[f]->Ok_0.items@[i]),
                old(targets)@[k].network_spec(),
            ),
        forall|k: int| 0 <= k < old(targets)@.len()
            ==> old(targets)@[k].outcomes().is_prefix_of(
                (#[trigger] final(targets)@[k]).outcomes(),
            ) && final(targets)@[k].outcomes().len() - old(targets)@[k].outcomes().len()
                == final(targets)@[k].calls().len() - old(targets)@[k].calls().len(),
        // the dedup gate on attempts: whatever was handed to any target's
        // publish is a valid item of a channel this run fetched, whose key
        // the starting ledger did not hold
        forall|k: int, t: int|
            #![trigger final(targets)@[k].calls()[t]]
            0 <= k < old(targets)@.len() && old(targets)@[k].calls().len() <= t
                < final(targets)@[k].calls().len()
                ==> valid_item(final(targets)@[k].calls()[t]) && item_of_some_channel(
                final(rss_client).fetches().skip(old(rss_client).fetches().len() as int),
                final(targets)@[k].calls()[t],
            ) && !has_record(
                old(storage).records(),
                item_guid(final(targets)@[k].calls()[t]),
                old(targets)@[k].network_spec(),
            ),
        // each outcome is tied to the item of the same attempt
        forall|k: int, t: int|
            #![trigger final(targets)@[k].outcomes()[old(targets)@[k].outcomes().len() + t]]
            0 <= k < old(targets)@.len() && 0 <= t < final(targets)@[k].calls().len()
                - old(targets)@[k].calls().len()
                ==> (final(targets)@[k].outcomes()[old(targets)@[k].outcomes().len() + t]
                matches Some(p) ==> post_key_matches(
                p,
                item_guid(final(targets)@[k].calls()[old(targets)@[k].calls().len() + t]),
                old(targets)@[k].network_spec(),
            ) && p.original_uri@ == item_link(
                final(targets)@[k].calls()[old(targets)@[k].calls().len() + t],
            )),
        // new records are exactly what successful publishes returned
        forall|i: int| old(storage).records().len() <= i < final(storage).records().len()
            ==> published_by_one_of(
                old(targets)@,
                final(targets)@,
                #[trigger] final(storage).records()[i],
            ),
        r is Ok ==> forall|k: int, t: int|
            #![trigger final(targets)@[k].outcomes()[t]]
            0 <= k < old(targets)@.len() && old(targets)@[k].outcomes().len() <= t
                < final(targets)@[k].outcomes().len()
                ==> final(targets)@[k].outcomes()[t] is Some && final(storage).records().contains(
                final(targets)@[k].outcomes()[t]->Some_0,
            ),
        // the ledger gains at most one record per successful publish, and
        // exactly one each when the run succeeds
        final(storage).records().len() - old(storage).records().len() <= new_success_count(
            old(targets)@,
            final(targets)@,
        ),
        r is Ok ==> final(storage).records().len() - old(storage).records().len()
            == new_success_count(old(targets)@, final(targets)@),
        // a failed run exhibits a failed unit: a failed fetch, an invalid
        // item, a failed publish, or a store failure, which leaves the
        // ledger short of the successful publishes; a run whose units all
        // succeeded therefore returns success
        r is Err ==> (exists|f: int|
            old(rss_client).fetches().len() <= f < final(rss_client).fetches().len() && (
            #[trigger] final(rss_client).fetches()[f]) is Err) || (exists|f: int, i: int|
            #![trigger final(rss_client).fetches()[f]->Ok_0.items@[i]]
            old(rss_client).fetches().len() <= f < final(rss_client).fetches().len()
                && final(rss_client).fetches()[f] is Ok && 0 <= i
                < final(rss_client).fetches()[f]->Ok_0.items@.len() && !valid_item(
                final(rss_client).fetches()[f]->Ok_0.items@[i],
            )) || some_publish_failed(old(targets)@, final(targets)@) || final(storage).records().len() - old(storage).records().len() < new_success_count(
            old(targets)@,
            final(targets)@,
        ),
{
    let ghost base_fetches = rss_client.fetches();
    let fetched = fetch_feeds(rss_client, &config.rss.urls);
    let r = process_fetched(&fetched, targets, storage);
    proof {
        assert(rss_client.fetches() == base_fetches + fetched@);
        assert(base_fetches =~= rss_client.fetches().subrange(0, base_fetches.len() as int));
        assert(rss_client.fetches().skip(base_fetches.len() as int) =~= fetched@);
        assert forall|f: int| base_fetches.len() <= f < rss_client.fetches().len() implies
            #[trigger] rss_client.fetches()[f] == fetched@[f - base_fetches.len()] by {
            assert(rss_client.fetches()[f] == (base_fetches + fetched@)[f]);
        }
        if r is Err {
            if exists|f0: int| 0 <= f0 < fetched@.len() && (#[trigger] fetched@[f0]) is Err {
                let f0 = choose|f0: int|
                    0 <= f0 < fetched@.len() && (#[trigger] fetched@[f0]) is Err;
                assert(rss_client.fetches()[base_fetches.len() + f0] is Err);
            }
            if exists|f0: int, i: int|
                #![trigger fetched@[f0]->Ok_0.items@[i]]
                0 <= f0 < fetched@.len() && fetched@[f0] is Ok && 0 <= i
                    < fetched@[f0]->Ok_0.items@.len() && !valid_item(
                    fetched@[f0]->Ok_0.items@[i],
                ) {
                let (f0, i) = choose|f0: int, i: int|
                    #![trigger fetched@[f0]->Ok_0.items@[i]]
                    0 <= f0 < fetched@.len() && fetched@[f0] is Ok && 0 <= i
                        < fetched@[f0]->Ok_0.items@.len() && !valid_item(
                        fetched@[f0]->Ok_0.items@[i],
                    );
                assert(rss_client.fetches()[base_fetches.len() + f0] is Ok);
                assert(!valid_item(
                    rss_client.fetches()[base_fetches.len() + f0]->Ok_0.items@[i],
                ));
            }
        }
    }
    r
}

} // verus!
