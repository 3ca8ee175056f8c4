//! Removal of out-of-date entries.

use vstd::prelude::*;
use crate::store::Store;
use crate::types::{is_expired, EntryModel};

verus! {

/// The entries of `m` that are still valid at time `now`.
pub open spec fn without_expired(m: Map<Seq<char>, EntryModel>, now: u64) -> Map<
    Seq<char>,
    EntryModel,
> {
    Map::new(|k: Seq<char>| m.contains_key(k) && !is_expired(m[k], now), |k: Seq<char>| m[k])
}

/// Removes the entries that can no longer be used because their expiry time
/// has passed: those whose expiry time is at or before `now`. Every other
/// entry is kept as it was.
pub fn cleaner_out_date(dic: &mut Store, now: u64)
    requires
        old(dic).wf(),
    ensures
        final(dic).wf(),
        final(dic)@ == without_expired(old(dic)@, now),
{
    let ghost start = dic@;
    let mut expired: Vec<String> = Vec::new();
    let n = dic.len();
    let mut i: usize = 0;
    proof {
        dic.lemma_listing_is_view();
    }
    let ghost listing = dic.listing();
    while i < n
        invariant
            dic.wf(),
            dic@ == start,
            dic.listing() == listing,
            n == listing.len(),
            i <= n,
            forall|j: int|
                0 <= j < expired@.len() ==> #[trigger] start.contains_key(expired@[j]@)
                    && is_expired(start[expired@[j]@], now),
            forall|j: int|
                0 <= j < i && is_expired(#[trigger] listing[j].1, now) ==> exists|m: int|
                    0 <= m < expired@.len() && #[trigger] expired@[m]@ == listing[j].0,
        decreases n - i,
    {
        let (key, val) = dic.entry_at(i);
        proof {
            dic.lemma_listing_is_view();
        }
        let ghost before = expired@;
        if val.expired_at(now) {
            expired.push(key.clone());
            proof {
                let last = expired@.len() - 1;
                assert(expired@[last]@ == listing[i as int].0);
                assert(start.contains_key(listing[i as int].0));
                assert(start[listing[i as int].0] == listing[i as int].1);
                assert(is_expired(listing[i as int].1, now));
            }
        }
        proof {
            assert forall|j: int|
                0 <= j < expired@.len() implies #[trigger] start.contains_key(expired@[j]@)
                && is_expired(start[expired@[j]@], now) by {
                if j < before.len() {
                    assert(expired@[j] == before[j]);
                }
            }
            assert forall|j: int|
                0 <= j < i + 1 && is_expired(#[trigger] listing[j].1, now) implies exists|m: int|
                0 <= m < expired@.len() && #[trigger] expired@[m]@ == listing[j].0 by {
                if j < i {
                    let m = choose|m: int|
                        0 <= m < before.len() && #[trigger] before[m]@ == listing[j].0;
                    assert(expired@[m] == before[m]);
                } else {
                    assert(expired@[expired@.len() - 1]@ == listing[j].0);
                }
            }
        }
        i = i + 1;
    }
    if !expired.is_empty() {
        let mut j: usize = 0;
        while j < expired.len()
            invariant
                dic.wf(),
                j <= expired@.len(),
                forall|m: int|
                    0 <= m < expired@.len() ==> #[trigger] start.contains_key(expired@[m]@)
                        && is_expired(start[expired@[m]@], now),
                forall|k: Seq<char>|
                    #[trigger] dic@.contains_key(k) <==> start.contains_key(k) && !(exists|m: int|
                        0 <= m < j && #[trigger] expired@[m]@ == k),
                forall|k: Seq<char>| #[trigger] dic@.contains_key(k) ==> dic@[k] == start[k],
            decreases expired@.len() - j,
        {
            let _ = dic.remove(expired[j].as_str());
            proof {
                assert forall|k: Seq<char>| #[trigger]
                    dic@.contains_key(k) <==> start.contains_key(k) && !(exists|m: int|
                        0 <= m < j + 1 && #[trigger] expired@[m]@ == k) by {
                    if k == expired@[j as int]@ {
                        assert(expired@[j as int]@ == k);
                    }
                }
            }
            j = j + 1;
        }
    }
    proof {
        let goal = without_expired(start, now);
        assert forall|k: Seq<char>| #[trigger] dic@.contains_key(k) <==> goal.contains_key(k) by {
            if start.contains_key(k) && is_expired(start[k], now) {
                let j = choose|j: int| 0 <= j < listing.len() && #[trigger] listing[j].0 == k;
                assert(is_expired(listing[j].1, now));
                assert(exists|m: int| 0 <= m < expired@.len() && #[trigger] expired@[m]@ == k);
            }
        }
        assert(dic@ =~= goal);
    }
}

} // verus!
