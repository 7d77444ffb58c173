//! The retention policy: which artifact sets stay and which are evicted.

use vstd::prelude::*;
use crate::identifier::{above, Identifier};
use crate::index::{
    canonical, complete_count, lead, lemma_count_grows, lemma_lead, lemma_lead_of_record,
    lemma_presence_decides, lemma_take_out, presence, take_out, InstalledIndex, Record, Slot,
};

verus! {

/// Whether the record at place `i` stays under a retention limit: its
/// artifact set is fully present, and fewer than `limit` fully present sets
/// outrank it.
pub open spec fn kept(s: Seq<Record>, i: int, limit: nat) -> bool {
    s[i].complete() && complete_count(s.take(i)) < limit
}

/// Whether the index has a record of `id` and it stays under the limit.
pub open spec fn retains(s: Seq<Record>, limit: nat, id: Identifier) -> bool {
    let p = lead(s, id);
    p < s.len() && s[p].id == id && kept(s, p, limit)
}

/// Whether the index has a record of `id` and it does not stay.
pub open spec fn evicts(s: Seq<Record>, limit: nat, id: Identifier) -> bool {
    let p = lead(s, id);
    p < s.len() && s[p].id == id && !kept(s, p, limit)
}

/// The records that stay under a retention limit, in ranking order.
pub open spec fn survivors(s: Seq<Record>, limit: nat) -> Seq<Record>
    decreases s.len(),
{
    if s.len() == 0 {
        Seq::empty()
    } else if kept(s, s.len() - 1, limit) {
        survivors(s.drop_last(), limit).push(s.last())
    } else {
        survivors(s.drop_last(), limit)
    }
}

/// The identifiers whose files are to be deleted under a retention limit,
/// in ranking order: the sets beyond the limit, and what is left of sets
/// that are not fully present.
pub open spec fn evicted(s: Seq<Record>, limit: nat) -> Seq<Identifier>
    decreases s.len(),
{
    if s.len() == 0 {
        Seq::empty()
    } else if kept(s, s.len() - 1, limit) {
        evicted(s.drop_last(), limit)
    } else {
        evicted(s.drop_last(), limit).push(s.last().id)
    }
}

/// The index after all four files of `id` have been removed.
pub open spec fn wipe(s: Seq<Record>, id: Identifier) -> Seq<Record> {
    take_out(
        take_out(take_out(take_out(s, id, Slot::Entry), id, Slot::Stub), id, Slot::Kernel),
        id,
        Slot::Initrd,
    )
}

/// The index after all files of the listed identifiers have been removed.
pub open spec fn purge(s: Seq<Record>, ids: Seq<Identifier>) -> Seq<Record>
    decreases ids.len(),
{
    if ids.len() == 0 {
        s
    } else {
        wipe(purge(s, ids.drop_last()), ids.last())
    }
}

/// Whether a record stays depends only on the records before it.
pub proof fn lemma_kept_in_front(s: Seq<Record>, n: int, i: int, limit: nat)
    requires
        0 <= i < n <= s.len(),
    ensures
        kept(s.take(n), i, limit) == kept(s, i, limit),
{
    assert(s.take(n).take(i) =~= s.take(i));
}

/// What staying and leaving mean for an index that ends in one more
/// record.
proof fn lemma_last_record(s: Seq<Record>, limit: nat, id: Identifier)
    requires
        canonical(s),
        s.len() > 0,
    ensures
        ({
            let front = s.drop_last();
            let last = s.last();
            &&& canonical(front)
            &&& id == last.id ==> lead(s, id) == s.len() - 1 && presence(s, id) == last
                && presence(front, id) == Record::blank(id) && !retains(front, limit, id)
                && !evicts(front, limit, id) && retains(s, limit, id) == kept(
                s,
                s.len() - 1,
                limit,
            ) && evicts(s, limit, id) == !kept(s, s.len() - 1, limit)
            &&& id != last.id ==> presence(s, id) == presence(front, id) && retains(s, limit, id)
                == retains(front, limit, id) && evicts(s, limit, id) == evicts(front, limit, id)
        }),
{
    let front = s.drop_last();
    let last = s.last();
    let n = s.len() - 1;
    lemma_lead(front, id);
    if id != last.id {
        let q = lead(front, id);
        if !above(last.id, id) {
            if q < n {
                lemma_kept_in_front(s, n, q, limit);
            }
        }
    }
}

/// The records that stay are in canonical form, they are the records of the
/// identifiers that the index retains, unchanged, and all of them are fully
/// present.
pub proof fn lemma_survivors(s: Seq<Record>, limit: nat)
    requires
        canonical(s),
    ensures
        canonical(survivors(s, limit)),
        survivors(s, limit).len() == if limit <= complete_count(s) {
            limit
        } else {
            complete_count(s)
        },
        forall|k: int|
            0 <= k < survivors(s, limit).len() ==> (#[trigger] survivors(s, limit)[k]).complete(),
        forall|id: Identifier| #[trigger]
            presence(survivors(s, limit), id) == if retains(s, limit, id) {
                presence(s, id)
            } else {
                Record::blank(id)
            },
    decreases s.len(),
{
    let v = survivors(s, limit);
    if s.len() > 0 {
        let front = s.drop_last();
        let last = s.last();
        let n = s.len() - 1;
        let w = survivors(front, limit);
        lemma_survivors(front, limit);
        // Every record that stays from the front outranks the last record.
        assert forall|k: int| 0 <= k < w.len() implies above(#[trigger] w[k].id, last.id) by {
            lemma_lead_of_record(w, k);
        }
        if kept(s, n, limit) {
            assert(v.drop_last() =~= w);
        }
        assert forall|id: Identifier| #[trigger]
            presence(v, id) == if retains(s, limit, id) {
                presence(s, id)
            } else {
                Record::blank(id)
            } by {
            lemma_last_record(s, limit, id);
            lemma_lead(w, id);
            assert(presence(w, id) == if retains(front, limit, id) {
                presence(front, id)
            } else {
                Record::blank(id)
            });
        }
    }
}

/// The identifiers to evict are those that the index has and does not
/// retain.
pub proof fn lemma_evicted(s: Seq<Record>, limit: nat)
    requires
        canonical(s),
    ensures
        forall|id: Identifier| #[trigger]
            evicted(s, limit).contains(id) == evicts(s, limit, id),
    decreases s.len(),
{
    let e = evicted(s, limit);
    if s.len() > 0 {
        let front = s.drop_last();
        let last = s.last();
        let f = evicted(front, limit);
        lemma_evicted(front, limit);
        assert forall|id: Identifier| #[trigger] e.contains(id) == evicts(s, limit, id) by {
            lemma_last_record(s, limit, id);
            if !kept(s, s.len() - 1, limit) {
                if f.contains(id) {
                    let k = choose|k: int| 0 <= k < f.len() && f[k] == id;
                    assert(e[k] == id);
                }
                if id == last.id {
                    assert(e[e.len() - 1] == id);
                }
            }
        }
    }
}

/// Removing all four files of an identifier leaves nothing of it, and
/// changes nothing else.
pub proof fn lemma_wipe(s: Seq<Record>, id: Identifier)
    requires
        canonical(s),
    ensures
        canonical(wipe(s, id)),
        forall|other: Identifier| #[trigger]
            presence(wipe(s, id), other) == if other == id {
                Record::blank(id)
            } else {
                presence(s, other)
            },
{
    let a = take_out(s, id, Slot::Entry);
    let b = take_out(a, id, Slot::Stub);
    let c = take_out(b, id, Slot::Kernel);
    lemma_take_out(s, id, Slot::Entry);
    lemma_take_out(a, id, Slot::Stub);
    lemma_take_out(b, id, Slot::Kernel);
    lemma_take_out(c, id, Slot::Initrd);
}

/// Removing all files of the listed identifiers leaves nothing of them,
/// and changes nothing else.
pub proof fn lemma_purge(s: Seq<Record>, ids: Seq<Identifier>)
    requires
        canonical(s),
    ensures
        canonical(purge(s, ids)),
        forall|id: Identifier| #[trigger]
            presence(purge(s, ids), id) == if ids.contains(id) {
                Record::blank(id)
            } else {
                presence(s, id)
            },
    decreases ids.len(),
{
    if ids.len() > 0 {
        let front = ids.drop_last();
        let last = ids.last();
        lemma_purge(s, front);
        lemma_wipe(purge(s, front), last);
        assert forall|id: Identifier| #[trigger]
            presence(purge(s, ids), id) == if ids.contains(id) {
                Record::blank(id)
            } else {
                presence(s, id)
            } by {
            if ids.contains(id) {
                let k = choose|k: int| 0 <= k < ids.len() && ids[k] == id;
                if k < front.len() {
                    assert(front[k] == id);
                }
            }
        }
    }
}

/// Deleting what is to be evicted leaves exactly the records that stay.
pub proof fn lemma_purge_leaves_survivors(s: Seq<Record>, limit: nat)
    requires
        canonical(s),
    ensures
        purge(s, evicted(s, limit)) == survivors(s, limit),
{
    let e = evicted(s, limit);
    lemma_purge(s, e);
    lemma_evicted(s, limit);
    lemma_survivors(s, limit);
    lemma_presence_decides(purge(s, e), survivors(s, limit));
}

/// After eviction at most `limit` artifact sets remain, or all fully
/// present ones if there are fewer. They are fully present, unchanged, and
/// each of them outranks every fully present set that had to go: they are
/// the sets of the highest versions.
pub proof fn law_retention_keeps_the_highest(s: Seq<Record>, limit: nat)
    requires
        canonical(s),
    ensures
        survivors(s, limit).len() == if limit <= complete_count(s) {
            limit
        } else {
            complete_count(s)
        },
        forall|k: int|
            0 <= k < survivors(s, limit).len() ==> {
                let r = #[trigger] survivors(s, limit)[k];
                r.complete() && presence(s, r.id) == r
            },
        forall|k: int, i: int|
            #![trigger survivors(s, limit)[k], s[i]]
            0 <= k < survivors(s, limit).len() && 0 <= i < s.len() && s[i].complete() && !kept(
                s,
                i,
                limit,
            ) ==> above(survivors(s, limit)[k].id, s[i].id) && survivors(s, limit)[k].id.version
                >= s[i].id.version,
{
    let v = survivors(s, limit);
    lemma_survivors(s, limit);
    assert forall|k: int| 0 <= k < v.len() implies {
        let r = #[trigger] v[k];
        r.complete() && presence(s, r.id) == r
    } by {
        lemma_lead_of_record(v, k);
    }
    assert forall|k: int, i: int|
        #![trigger v[k], s[i]]
        0 <= k < v.len() && 0 <= i < s.len() && s[i].complete() && !kept(s, i, limit) implies above(
        v[k].id,
        s[i].id,
    ) && v[k].id.version >= s[i].id.version by {
        lemma_lead_of_record(v, k);
        lemma_lead(s, v[k].id);
        let p = lead(s, v[k].id);
        if i <= p {
            lemma_count_grows(s, i, p);
        }
    }
}

/// The limit that a configured number stands for: zero stands for no
/// limit, which is a limit that no partition reaches.
pub open spec fn configured_bound(configured: usize) -> nat {
    if configured == 0 {
        usize::MAX as nat
    } else {
        configured as nat
    }
}

/// The retention policy: the number of artifact sets that stay on the
/// partition, at least one.
#[derive(Clone, Copy, Debug, PartialEq, Eq, Structural)]
pub struct RetentionPolicy {
    limit: usize,
}

impl RetentionPolicy {
    #[verifier::type_invariant]
    spec fn positive(self) -> bool {
        self.limit >= 1
    }

    /// The number of artifact sets that stay.
    pub closed spec fn bound(self) -> nat {
        self.limit as nat
    }

    /// The policy for a configured number of artifact sets; zero keeps all
    /// of them.
    pub fn new(configured: usize) -> (policy: RetentionPolicy)
        ensures
            policy.bound() == configured_bound(configured),
    {
        if configured == 0 {
            RetentionPolicy { limit: usize::MAX }
        } else {
            RetentionPolicy { limit: configured }
        }
    }

    /// The number of artifact sets that stay.
    pub fn limit(&self) -> (limit: usize)
        ensures
            limit == self.bound(),
            limit >= 1,
    {
        proof {
            use_type_invariant(self);
        }
        self.limit
    }

    /// The identifiers whose files are to be deleted, in ranking order: the
    /// fully present sets that `limit` or more fully present sets outrank,
    /// and what is left of sets that are not fully present.
    pub fn evictions(&self, index: &InstalledIndex) -> (ids: Vec<Identifier>)
        ensures
            ids@ == evicted(index@, self.bound()),
    {
        let total: usize = index.len();
        let mut ids: Vec<Identifier> = Vec::new();
        let mut count: usize = 0;
        let mut i: usize = 0;
        while i < total
            invariant
                total == index@.len(),
                i <= total,
                count == complete_count(index@.take(i as int)),
                count <= i,
                ids@ == evicted(index@.take(i as int), self.bound()),
            decreases total - i,
        {
            proof {
                assert(index@.take(i + 1).drop_last() =~= index@.take(i as int));
            }
            if let Some(record) = index.get(i) {
                let complete: bool = record.is_complete();
                if !(complete && count < self.limit) {
                    ids.push(record.id);
                }
                if complete {
                    count += 1;
                }
            }
            i += 1;
        }
        proof {
            assert(index@.take(total as int) =~= index@);
        }
        ids
    }
}

} // verus!
