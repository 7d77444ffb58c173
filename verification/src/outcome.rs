//! What a run in which every action succeeds makes of the partition.

use vstd::prelude::*;
use crate::identifier::Identifier;
use crate::index::{
    canonical, complete_count, lead, lemma_count_grows, lemma_count_step, lemma_lead,
    lemma_lead_of_record, lemma_presence_decides, lemma_put, presence, put, Record, Slot,
};
use crate::retention::{lemma_survivors, retains, survivors};

verus! {

/// The record of an identifier with all four files.
pub open spec fn full(id: Identifier) -> Record {
    Record { id, entry: true, stub: true, kernel: true, initrd: true }
}

/// The index after one generation has been installed: where its artifact
/// set was fully present only the loader entry is written, else kernel,
/// initrd and stub are published, in this order, and then the entry.
pub open spec fn admitted(s: Seq<Record>, id: Identifier) -> Seq<Record> {
    if presence(s, id).complete() {
        put(s, id, Slot::Entry)
    } else {
        put(put(put(put(s, id, Slot::Kernel), id, Slot::Initrd), id, Slot::Stub), id, Slot::Entry)
    }
}

/// The index after the requested generations have been installed, in the
/// order given.
pub open spec fn installed(s: Seq<Record>, ids: Seq<Identifier>) -> Seq<Record>
    decreases ids.len(),
{
    if ids.len() == 0 {
        s
    } else {
        admitted(installed(s, ids.drop_last()), ids.last())
    }
}

/// The index after a run: the requested generations are installed, then
/// all but the sets that stay under the limit are deleted.
pub open spec fn outcome(s: Seq<Record>, ids: Seq<Identifier>, limit: nat) -> Seq<Record> {
    survivors(installed(s, ids), limit)
}

/// Installing a generation leaves all four of its files on the partition,
/// and changes nothing else.
pub proof fn lemma_admitted(s: Seq<Record>, id: Identifier)
    requires
        canonical(s),
    ensures
        canonical(admitted(s, id)),
        forall|other: Identifier| #[trigger]
            presence(admitted(s, id), other) == if other == id {
                full(id)
            } else {
                presence(s, other)
            },
{
    if presence(s, id).complete() {
        lemma_put(s, id, Slot::Entry);
    } else {
        let a = put(s, id, Slot::Kernel);
        let b = put(a, id, Slot::Initrd);
        let c = put(b, id, Slot::Stub);
        lemma_put(s, id, Slot::Kernel);
        lemma_put(a, id, Slot::Initrd);
        lemma_put(b, id, Slot::Stub);
        lemma_put(c, id, Slot::Entry);
    }
}

/// Installing the requested generations leaves all four files of each of
/// them on the partition, and changes nothing else.
pub proof fn lemma_installed(s: Seq<Record>, ids: Seq<Identifier>)
    requires
        canonical(s),
    ensures
        canonical(installed(s, ids)),
        forall|id: Identifier| #[trigger]
            presence(installed(s, ids), id) == if ids.contains(id) {
                full(id)
            } else {
                presence(s, id)
            },
    decreases ids.len(),
{
    if ids.len() > 0 {
        let front = ids.drop_last();
        let last = ids.last();
        lemma_installed(s, front);
        lemma_admitted(installed(s, front), last);
        assert forall|id: Identifier| #[trigger]
            presence(installed(s, ids), id) == if ids.contains(id) {
                full(id)
            } else {
                presence(s, id)
            } by {
            if ids.contains(id) {
                let k = choose|k: int| 0 <= k < ids.len() && ids[k] == id;
                if k < front.len() {
                    assert(front[k] == id);
                }
            }
        }
    }
}

/// Where every record is fully present, there are as many fully present
/// sets as records.
pub proof fn lemma_count_all(s: Seq<Record>)
    requires
        forall|k: int| 0 <= k < s.len() ==> (#[trigger] s[k]).complete(),
    ensures
        complete_count(s) == s.len(),
    decreases s.len(),
{
    if s.len() > 0 {
        let front = s.drop_last();
        lemma_count_all(front);
    }
}

/// Where the fully present sets among the first `k` records of one index
/// are fully present in another, before place `q` there, the other index has
/// at least as many fully present sets before `q`.
pub proof fn lemma_embedding(a: Seq<Record>, b: Seq<Record>, k: int, q: int)
    requires
        canonical(a),
        canonical(b),
        0 <= k <= a.len(),
        0 <= q <= b.len(),
        forall|i: int|
            0 <= i < k && (#[trigger] a[i]).complete() ==> presence(b, a[i].id).complete() && lead(
                b,
                a[i].id,
            ) < q,
    ensures
        complete_count(a.take(k)) <= complete_count(b.take(q)),
    decreases k,
{
    if k > 0 {
        let i = k - 1;
        lemma_count_step(a, i);
        if a[i].complete() {
            let j = lead(b, a[i].id);
            lemma_lead(b, a[i].id);
            lemma_embedding(a, b, i, j);
            lemma_count_step(b, j);
            lemma_count_grows(b, j + 1, q);
        } else {
            lemma_embedding(a, b, i, q);
        }
    }
}

/// Running twice changes nothing: a second run with the same generations
/// and the same limit, started on what the first run left, leaves the same
/// files. No artifact set is added, renamed or lost.
pub proof fn law_second_run_changes_nothing(s: Seq<Record>, ids: Seq<Identifier>, limit: nat)
    requires
        canonical(s),
    ensures
        outcome(outcome(s, ids, limit), ids, limit) == outcome(s, ids, limit),
{
    let first_installed = installed(s, ids);
    let first = survivors(first_installed, limit);
    let second_installed = installed(first, ids);
    let second = survivors(second_installed, limit);
    lemma_installed(s, ids);
    lemma_survivors(first_installed, limit);
    lemma_installed(first, ids);
    lemma_survivors(second_installed, limit);
    lemma_count_all(first);
    assert(first.take(first.len() as int) =~= first);
    assert forall|id: Identifier| presence(second, id) == presence(first, id) by {
        let k = first_installed;
        let j = second_installed;
        lemma_lead(k, id);
        lemma_lead(j, id);
        let pk = lead(k, id);
        let pj = lead(j, id);
        assert(presence(j, id) == if ids.contains(id) {
            full(id)
        } else {
            presence(first, id)
        });
        assert(presence(k, id) == if ids.contains(id) {
            full(id)
        } else {
            presence(s, id)
        });
        if retains(k, limit, id) {
            // Every set of the second run was fully present in the first.
            assert forall|i: int| 0 <= i < pj && (#[trigger] j[i]).complete() implies presence(
                k,
                j[i].id,
            ).complete() && lead(k, j[i].id) < pk by {
                lemma_lead_of_record(j, i);
            }
            lemma_embedding(j, k, pj, pk);
        } else if ids.contains(id) {
            // The set is beyond the limit: `limit` sets outrank it, and all
            // of them are on the partition when the second run collects.
            lemma_count_grows(k, pk, k.len() as int);
            assert(k.take(k.len() as int) =~= k);
            assert forall|i: int|
                0 <= i < first.len() && (#[trigger] first[i]).complete() implies presence(
                j,
                first[i].id,
            ).complete() && lead(j, first[i].id) < pj by {
                let x = first[i].id;
                lemma_lead_of_record(first, i);
                lemma_lead(k, x);
                assert(presence(j, x) == if ids.contains(x) {
                    full(x)
                } else {
                    presence(first, x)
                });
                let px = lead(k, x);
                if pk <= px {
                    lemma_count_grows(k, pk, px);
                }
            }
            lemma_embedding(first, j, first.len() as int, pj);
        }
    }
    lemma_presence_decides(second, first);
}

} // verus!
