use vstd::prelude::*;
use crate::entities::GenesisBounds;
use crate::handlers::{
    coin_heights, coin_pairs, entry_pairs, message_heights, message_pairs, no_heights,
    staged_inserts, utxo_heights, Group, Staged,
};
use crate::table::{
    has_key, key_index, keys_unique, lemma_concat_unique, lemma_key_index, lemma_push_unique,
    lemma_upserted_all_unique, lemma_upserted_unique, lookup, upserted, upserted_all,
};
use crate::transaction::Tables;
use crate::workers::run_outcome;

verus! {

proof fn lemma_push_unique_prefix<K, V>(s: Seq<(K, V)>, x: (K, V))
    requires
        keys_unique(s.push(x)),
    ensures
        keys_unique(s),
{
    assert(s.push(x) =~= s + seq![x]);
    lemma_concat_unique(s, seq![x]);
}

/// A failure of staging points at a pair within the run, and a height failure at one whose
/// height is above the bound.
proof fn lemma_failure_position<K, V>(
    s: Seq<(K, V)>,
    items: Seq<(K, V)>,
    heights: Seq<u64>,
    bound: u64,
)
    ensures
        staged_inserts(s, items, heights, bound) matches Staged::TooHigh(i) ==> 0 <= i
            < items.len() && heights[i] > bound,
        staged_inserts(s, items, heights, bound) matches Staged::Exists(i) ==> 0 <= i
            < items.len() && heights[i] <= bound,
    decreases items.len(),
{
    if items.len() > 0 {
        lemma_failure_position(s, items.drop_last(), heights, bound);
    }
}

/// Staging a run of new pairs onto a table succeeds exactly when no pair's height is above
/// the bound (a height equal to it is accepted) and no key occurs twice among the table and
/// the run; the table then holds its old pairs followed by the run's, each as given.
pub proof fn law_staging_succeeds_iff<K, V>(
    s: Seq<(K, V)>,
    items: Seq<(K, V)>,
    heights: Seq<u64>,
    bound: u64,
)
    requires
        keys_unique(s),
        heights.len() >= items.len(),
    ensures
        (staged_inserts(s, items, heights, bound) is Done) <==> ((forall|i: int|
            0 <= i < items.len() ==> #[trigger] heights[i] <= bound) && keys_unique(s + items)),
        staged_inserts(s, items, heights, bound) is Done ==> staged_inserts(
            s,
            items,
            heights,
            bound,
        ) == Staged::<K, V>::Done(s + items),
    decreases items.len(),
{
    if items.len() == 0 {
        assert(s + items =~= s);
    } else {
        let n = items.len() - 1;
        let front = items.drop_last();
        law_staging_succeeds_iff(s, front, heights, bound);
        assert(s + items =~= (s + front).push(items[n]));
        match staged_inserts(s, front, heights, bound) {
            Staged::Done(t) => {
                if heights[n] > bound {
                } else if has_key(t, items[n].0) {
                    let j = choose|j: int| 0 <= j < t.len() && (#[trigger] t[j]).0 == items[n].0;
                    let all = s + items;
                    assert(all[j].0 == all[s.len() + n].0);
                } else {
                    lemma_push_unique(t, items[n].0, items[n].1);
                    assert forall|i: int| 0 <= i < items.len() implies #[trigger] heights[i]
                        <= bound by {
                        if i < n {
                            assert(heights[i] == heights[i]);
                        }
                    }
                }
            },
            _ => {
                if keys_unique((s + front).push(items[n])) {
                    lemma_push_unique_prefix(s + front, items[n]);
                }
                if !(forall|i: int| 0 <= i < front.len() ==> #[trigger] heights[i] <= bound) {
                    let i = choose|i: int| 0 <= i < front.len() && !(#[trigger] heights[i] <= bound);
                    assert(0 <= i < items.len() && !(heights[i] <= bound));
                }
            },
        }
    }
}

/// Two pairs of one run that share a key, all heights being within the bound, make staging
/// fail on a key that is already held.
pub proof fn law_duplicate_rejected<K, V>(
    s: Seq<(K, V)>,
    items: Seq<(K, V)>,
    heights: Seq<u64>,
    bound: u64,
    i: int,
    j: int,
)
    requires
        keys_unique(s),
        heights.len() == items.len(),
        forall|x: int| 0 <= x < items.len() ==> #[trigger] heights[x] <= bound,
        0 <= i < j < items.len(),
        items[i].0 == items[j].0,
    ensures
        staged_inserts(s, items, heights, bound) is Exists,
{
    law_staging_succeeds_iff(s, items, heights, bound);
    lemma_failure_position(s, items, heights, bound);
    let all = s + items;
    assert(all[s.len() + i].0 == all[s.len() + j].0);
}

proof fn lemma_upserted_other<K, V>(s: Seq<(K, V)>, k: K, v: V, k2: K)
    requires
        keys_unique(s),
        k2 != k,
    ensures
        lookup(upserted(s, k, v), k2) == lookup(s, k2),
{
    lemma_upserted_unique(s, k, v);
    let t = upserted(s, k, v);
    if has_key(s, k2) {
        let i = key_index(s, k2);
        lemma_key_index(s, k2, i);
        assert(t[i] == s[i]);
        lemma_key_index(t, k2, i);
    }
    if has_key(t, k2) {
        let i = key_index(t, k2);
        assert(s[i] == t[i]);
    }
}

/// After a bulk merge, every key holds the value of the last pair that names it.
pub proof fn law_merge_keeps_last<K, V>(s: Seq<(K, V)>, t: Seq<(K, V)>, i: int)
    requires
        keys_unique(s),
        0 <= i < t.len(),
        forall|j: int| i < j < t.len() ==> (#[trigger] t[j]).0 != t[i].0,
    ensures
        lookup(upserted_all(s, t), t[i].0) == Some(t[i].1),
    decreases t.len(),
{
    let n = t.len() - 1;
    lemma_upserted_all_unique(s, t.drop_last());
    let u = upserted_all(s, t.drop_last());
    if i == n {
        lemma_upserted_unique(u, t[n].0, t[n].1);
    } else {
        law_merge_keeps_last(s, t.drop_last(), i);
        assert(t[n].0 != t[i].0);
        lemma_upserted_other(u, t[n].0, t[n].1, t[i].0);
    }
}

/// Groups of two different table kinds give the same store in either order, and fail in one
/// order exactly when they fail in the other.
pub proof fn law_kinds_commute(bounds: GenesisBounds, t: Tables, g1: Group, g2: Group)
    requires
        g1.kind_of() != g2.kind_of(),
    ensures
        (run_outcome(bounds, t, seq![g1, g2]) is Ok) <==> (run_outcome(
            bounds,
            t,
            seq![g2, g1],
        ) is Ok),
        run_outcome(bounds, t, seq![g1, g2]) is Ok ==> run_outcome(bounds, t, seq![g1, g2])
            == run_outcome(bounds, t, seq![g2, g1]),
{
    assert(seq![g1, g2].drop_last() =~= seq![g1]);
    assert(seq![g2, g1].drop_last() =~= seq![g2]);
    assert(seq![g1].drop_last() =~= Seq::<Group>::empty());
    assert(seq![g2].drop_last() =~= Seq::<Group>::empty());
    reveal_with_fuel(run_outcome, 3);
}

/// Whether every table of `t` holds each key once.
pub open spec fn tables_unique(t: Tables) -> bool {
    &&& keys_unique(t.coins)
    &&& keys_unique(t.messages)
    &&& keys_unique(t.contracts_raw_code)
    &&& keys_unique(t.contracts_latest_utxo)
    &&& keys_unique(t.contracts_state)
    &&& keys_unique(t.contracts_assets)
    &&& keys_unique(t.transactions)
}

/// Whether a group holds an entry that no store can take: a height above its genesis bound,
/// or a key that the group names twice in a table that takes each key once.
pub open spec fn group_invalid(bounds: GenesisBounds, g: Group) -> bool {
    match g {
        Group::Coins(v) => (exists|j: int|
            0 <= j < v@.len() && #[trigger] coin_heights(v@)[j] > bounds.block_height as u64)
            || !keys_unique(coin_pairs(v@)),
        Group::Messages(v) => (exists|j: int|
            0 <= j < v@.len() && #[trigger] message_heights(v@)[j] > bounds.da_block_height)
            || !keys_unique(message_pairs(v@)),
        Group::ContractsRawCode(v) => !keys_unique(entry_pairs(v@)),
        Group::ContractsLatestUtxo(v) => (exists|j: int|
            0 <= j < v@.len() && #[trigger] utxo_heights(v@)[j] > bounds.block_height as u64)
            || !keys_unique(entry_pairs(v@)),
        _ => false,
    }
}

proof fn lemma_staging_fails<K, V>(
    s: Seq<(K, V)>,
    items: Seq<(K, V)>,
    heights: Seq<u64>,
    bound: u64,
)
    requires
        keys_unique(s),
        heights.len() == items.len(),
        (exists|j: int| 0 <= j < items.len() && #[trigger] heights[j] > bound) || !keys_unique(
            items,
        ),
    ensures
        !(staged_inserts(s, items, heights, bound) is Done),
{
    law_staging_succeeds_iff(s, items, heights, bound);
    if keys_unique(s + items) {
        lemma_concat_unique(s, items);
    }
}

/// A store whose tables hold each key once still does after a run.
pub proof fn lemma_run_keeps_keys_unique(bounds: GenesisBounds, t: Tables, gs: Seq<Group>)
    requires
        tables_unique(t),
    ensures
        run_outcome(bounds, t, gs) matches Ok(t2) ==> tables_unique(t2),
    decreases gs.len(),
{
    if gs.len() > 0 {
        lemma_run_keeps_keys_unique(bounds, t, gs.drop_last());
        if let Ok(t1) = run_outcome(bounds, t, gs.drop_last()) {
            match gs.last() {
                Group::Coins(v) => {
                    law_staging_succeeds_iff(t1.coins, coin_pairs(v@), coin_heights(v@), bounds.block_height as u64);
                },
                Group::Messages(v) => {
                    law_staging_succeeds_iff(t1.messages, message_pairs(v@), message_heights(v@), bounds.da_block_height);
                },
                Group::ContractsRawCode(v) => {
                    law_staging_succeeds_iff(t1.contracts_raw_code, entry_pairs(v@), no_heights(v@), 0u64);
                },
                Group::ContractsLatestUtxo(v) => {
                    law_staging_succeeds_iff(t1.contracts_latest_utxo, entry_pairs(v@), utxo_heights(v@), bounds.block_height as u64);
                },
                Group::ContractsState(v) => {
                    lemma_upserted_all_unique(t1.contracts_state, entry_pairs(v@));
                },
                Group::ContractsAssets(v) => {
                    lemma_upserted_all_unique(t1.contracts_assets, entry_pairs(v@));
                },
                Group::Transactions(v) => {
                    lemma_upserted_all_unique(t1.transactions, entry_pairs(v@));
                },
            }
        }
    }
}

/// A snapshot with an invalid entry in any of its groups makes the whole run fail.
pub proof fn law_invalid_entry_fails_run(bounds: GenesisBounds, t: Tables, gs: Seq<Group>, i: int)
    requires
        tables_unique(t),
        0 <= i < gs.len(),
        group_invalid(bounds, gs[i]),
    ensures
        run_outcome(bounds, t, gs) is Err,
    decreases gs.len(),
{
    let n = gs.len() - 1;
    if i < n {
        law_invalid_entry_fails_run(bounds, t, gs.drop_last(), i);
    } else {
        lemma_run_keeps_keys_unique(bounds, t, gs.drop_last());
        if let Ok(t1) = run_outcome(bounds, t, gs.drop_last()) {
            match gs.last() {
                Group::Coins(v) => {
                    lemma_staging_fails(t1.coins, coin_pairs(v@), coin_heights(v@), bounds.block_height as u64);
                },
                Group::Messages(v) => {
                    lemma_staging_fails(t1.messages, message_pairs(v@), message_heights(v@), bounds.da_block_height);
                },
                Group::ContractsRawCode(v) => {
                    lemma_staging_fails(t1.contracts_raw_code, entry_pairs(v@), no_heights(v@), 0u64);
                },
                Group::ContractsLatestUtxo(v) => {
                    lemma_staging_fails(t1.contracts_latest_utxo, entry_pairs(v@), utxo_heights(v@), bounds.block_height as u64);
                },
                _ => {},
            }
        }
    }
}

} // verus!
