//! The artifact sets found on the partition.
//!
//! The index lists, for every identifier with a file on the partition,
//! which of its four files are there. It is kept in ranking order, highest
//! version first, so that the place of a record is the number of records
//! that outrank it.

use vstd::prelude::*;
use crate::identifier::{above, Identifier};

verus! {

/// One of the four files of an artifact set.
#[derive(Clone, Copy, Debug, PartialEq, Eq, Structural, Hash)]
pub enum Slot {
    /// The loader entry that offers the generation in the boot menu.
    Entry,
    /// The bootable stub.
    Stub,
    /// The signed kernel.
    Kernel,
    /// The signed initial ramdisk.
    Initrd,
}

/// Which files of one identifier are on the partition.
#[derive(Clone, Copy, Debug, PartialEq, Eq, Structural)]
pub struct Record {
    pub id: Identifier,
    pub entry: bool,
    pub stub: bool,
    pub kernel: bool,
    pub initrd: bool,
}

impl Record {
    /// The record of an identifier without any file.
    pub open spec fn blank(id: Identifier) -> Record {
        Record { id, entry: false, stub: false, kernel: false, initrd: false }
    }

    /// Whether the file is there.
    pub open spec fn has(self, slot: Slot) -> bool {
        match slot {
            Slot::Entry => self.entry,
            Slot::Stub => self.stub,
            Slot::Kernel => self.kernel,
            Slot::Initrd => self.initrd,
        }
    }

    /// The record with the file added.
    pub open spec fn with(self, slot: Slot) -> Record {
        match slot {
            Slot::Entry => Record { entry: true, ..self },
            Slot::Stub => Record { stub: true, ..self },
            Slot::Kernel => Record { kernel: true, ..self },
            Slot::Initrd => Record { initrd: true, ..self },
        }
    }

    /// The record with the file taken away.
    pub open spec fn without(self, slot: Slot) -> Record {
        match slot {
            Slot::Entry => Record { entry: false, ..self },
            Slot::Stub => Record { stub: false, ..self },
            Slot::Kernel => Record { kernel: false, ..self },
            Slot::Initrd => Record { initrd: false, ..self },
        }
    }

    /// Whether none of the four files is there.
    pub open spec fn is_blank(self) -> bool {
        !self.entry && !self.stub && !self.kernel && !self.initrd
    }

    /// Whether the artifact set is fully present: stub, kernel and initrd.
    pub open spec fn complete(self) -> bool {
        self.stub && self.kernel && self.initrd
    }

    /// Whether the files refer to files that are there: the entry to the
    /// stub, the stub to kernel and initrd.
    pub open spec fn bootable(self) -> bool {
        (self.entry ==> self.stub) && (self.stub ==> self.kernel && self.initrd)
    }

    /// The record of an identifier without any file.
    pub fn empty(id: Identifier) -> (record: Record)
        ensures
            record == Record::blank(id),
    {
        Record { id, entry: false, stub: false, kernel: false, initrd: false }
    }

    /// The record with the file added.
    pub fn mark(self, slot: Slot) -> (record: Record)
        ensures
            record == self.with(slot),
    {
        match slot {
            Slot::Entry => Record { entry: true, ..self },
            Slot::Stub => Record { stub: true, ..self },
            Slot::Kernel => Record { kernel: true, ..self },
            Slot::Initrd => Record { initrd: true, ..self },
        }
    }

    /// The record with the file taken away.
    pub fn clear(self, slot: Slot) -> (record: Record)
        ensures
            record == self.without(slot),
    {
        match slot {
            Slot::Entry => Record { entry: false, ..self },
            Slot::Stub => Record { stub: false, ..self },
            Slot::Kernel => Record { kernel: false, ..self },
            Slot::Initrd => Record { initrd: false, ..self },
        }
    }

    /// Tells whether none of the four files is there.
    pub fn is_empty(&self) -> (result: bool)
        ensures
            result == self.is_blank(),
    {
        !self.entry && !self.stub && !self.kernel && !self.initrd
    }

    /// Tells whether the file is there.
    pub fn contains(&self, slot: Slot) -> (result: bool)
        ensures
            result == self.has(slot),
    {
        match slot {
            Slot::Entry => self.entry,
            Slot::Stub => self.stub,
            Slot::Kernel => self.kernel,
            Slot::Initrd => self.initrd,
        }
    }

    /// Tells whether stub, kernel and initrd are all there.
    pub fn is_complete(&self) -> (result: bool)
        ensures
            result == self.complete(),
    {
        self.stub && self.kernel && self.initrd
    }
}

/// The records stand in ranking order, so no identifier occurs twice.
pub open spec fn ordered(s: Seq<Record>) -> bool {
    forall|i: int, j: int| #![trigger s[i], s[j]] 0 <= i < j < s.len() ==> above(s[i].id, s[j].id)
}

/// The form in which an index is kept: in ranking order, and without
/// records that hold no file.
pub open spec fn canonical(s: Seq<Record>) -> bool {
    &&& ordered(s)
    &&& forall|i: int| 0 <= i < s.len() ==> !(#[trigger] s[i]).is_blank()
}

/// The number of leading records that outrank `id`: the place where the
/// record of `id` stands or would stand.
pub open spec fn lead(s: Seq<Record>, id: Identifier) -> int
    decreases s.len(),
{
    if s.len() == 0 {
        0
    } else if above(s.last().id, id) {
        s.len() as int
    } else {
        lead(s.drop_last(), id)
    }
}

/// What the index knows of `id`; a blank record if it has none.
pub open spec fn presence(s: Seq<Record>, id: Identifier) -> Record {
    let p = lead(s, id);
    if p < s.len() && s[p].id == id {
        s[p]
    } else {
        Record::blank(id)
    }
}

/// Whether the file of `id` is on the partition.
pub open spec fn holds(s: Seq<Record>, id: Identifier, slot: Slot) -> bool {
    presence(s, id).has(slot)
}

/// The index after the file of `id` has been written.
pub open spec fn put(s: Seq<Record>, id: Identifier, slot: Slot) -> Seq<Record> {
    let p = lead(s, id);
    if p < s.len() && s[p].id == id {
        s.update(p, s[p].with(slot))
    } else {
        s.insert(p, Record::blank(id).with(slot))
    }
}

/// The index after the file of `id` has been removed.
pub open spec fn take_out(s: Seq<Record>, id: Identifier, slot: Slot) -> Seq<Record> {
    let p = lead(s, id);
    if p < s.len() && s[p].id == id {
        if s[p].without(slot).is_blank() {
            s.remove(p)
        } else {
            s.update(p, s[p].without(slot))
        }
    } else {
        s
    }
}

/// The number of artifact sets that are fully present.
pub open spec fn complete_count(s: Seq<Record>) -> nat
    decreases s.len(),
{
    if s.len() == 0 {
        0
    } else {
        complete_count(s.drop_last()) + if s.last().complete() {
            1nat
        } else {
            0nat
        }
    }
}

/// In an ordered index the records that outrank `id` are exactly those
/// before its place.
pub proof fn lemma_lead(s: Seq<Record>, id: Identifier)
    requires
        ordered(s),
    ensures
        0 <= lead(s, id) <= s.len(),
        forall|i: int| 0 <= i < lead(s, id) ==> above(#[trigger] s[i].id, id),
        forall|i: int| lead(s, id) <= i < s.len() ==> !above(#[trigger] s[i].id, id),
    decreases s.len(),
{
    if s.len() > 0 {
        let front = s.drop_last();
        if !above(s.last().id, id) {
            lemma_lead(front, id);
            assert forall|i: int| 0 <= i < lead(s, id) implies above(#[trigger] s[i].id, id) by {
                assert(s[i] == front[i]);
            }
            assert forall|i: int| lead(s, id) <= i < s.len() implies !above(
                #[trigger] s[i].id,
                id,
            ) by {
                if i < s.len() - 1 {
                    assert(s[i] == front[i]);
                }
            }
        }
    }
}

/// The place of `id` is the only one with all before it outranking `id`
/// and the record at it not.
pub proof fn lemma_lead_is(s: Seq<Record>, id: Identifier, place: int)
    requires
        ordered(s),
        0 <= place <= s.len(),
        forall|i: int| 0 <= i < place ==> above(#[trigger] s[i].id, id),
        place < s.len() ==> !above(s[place].id, id),
    ensures
        lead(s, id) == place,
{
    lemma_lead(s, id);
    let p = lead(s, id);
    if p < place {
        assert(above(s[p].id, id));
    }
}

/// Each record of an ordered index stands at the place of its identifier.
pub proof fn lemma_lead_of_record(s: Seq<Record>, i: int)
    requires
        ordered(s),
        0 <= i < s.len(),
    ensures
        lead(s, s[i].id) == i,
        presence(s, s[i].id) == s[i],
{
    lemma_lead_is(s, s[i].id, i);
}

/// Writing a file adds it to what the index holds of that identifier, and
/// changes nothing else.
pub proof fn lemma_put(s: Seq<Record>, id: Identifier, slot: Slot)
    requires
        canonical(s),
    ensures
        canonical(put(s, id, slot)),
        forall|other: Identifier| #[trigger]
            presence(put(s, id, slot), other) == if other == id {
                presence(s, id).with(slot)
            } else {
                presence(s, other)
            },
{
    let p = lead(s, id);
    let t = put(s, id, slot);
    lemma_lead(s, id);
    if p < s.len() && s[p].id == id {
        assert forall|other: Identifier| #[trigger]
            presence(t, other) == if other == id {
                presence(s, id).with(slot)
            } else {
                presence(s, other)
            } by {
            lemma_lead(s, other);
            let q = lead(s, other);
            lemma_lead_is(t, other, q);
        }
    } else {
        assert forall|other: Identifier| #[trigger]
            presence(t, other) == if other == id {
                presence(s, id).with(slot)
            } else {
                presence(s, other)
            } by {
            lemma_lead(s, other);
            let q = lead(s, other);
            if other == id {
                lemma_lead_is(t, other, p);
            } else if above(other, id) {
                lemma_lead_is(t, other, q);
            } else {
                if q < p {
                    assert(above(s[q].id, id));
                }
                lemma_lead_is(t, other, q + 1);
            }
        }
    }
}

/// Removing a file takes it from what the index holds of that identifier,
/// and changes nothing else.
pub proof fn lemma_take_out(s: Seq<Record>, id: Identifier, slot: Slot)
    requires
        canonical(s),
    ensures
        canonical(take_out(s, id, slot)),
        forall|other: Identifier| #[trigger]
            presence(take_out(s, id, slot), other) == if other == id {
                presence(s, id).without(slot)
            } else {
                presence(s, other)
            },
{
    let p = lead(s, id);
    let t = take_out(s, id, slot);
    lemma_lead(s, id);
    if p < s.len() && s[p].id == id {
        if s[p].without(slot).is_blank() {
            assert forall|other: Identifier| #[trigger]
                presence(t, other) == if other == id {
                    presence(s, id).without(slot)
                } else {
                    presence(s, other)
                } by {
                lemma_lead(s, other);
                let q = lead(s, other);
                if other == id {
                    lemma_lead_is(t, other, p);
                } else if above(other, id) {
                    lemma_lead_is(t, other, q);
                } else {
                    lemma_lead_is(t, other, q - 1);
                }
            }
        } else {
            assert forall|other: Identifier| #[trigger]
                presence(t, other) == if other == id {
                    presence(s, id).without(slot)
                } else {
                    presence(s, other)
                } by {
                lemma_lead(s, other);
                let q = lead(s, other);
                lemma_lead_is(t, other, q);
            }
        }
    }
}

/// Two indexes in canonical form that agree on every identifier, up to a
/// given place, hold the same records up to that place.
proof fn lemma_same_front(a: Seq<Record>, b: Seq<Record>, n: int)
    requires
        canonical(a),
        canonical(b),
        forall|id: Identifier| presence(a, id) == presence(b, id),
        0 <= n <= a.len(),
    ensures
        n <= b.len(),
        forall|k: int| 0 <= k < n ==> a[k] == b[k],
    decreases n,
{
    if n > 0 {
        lemma_same_front(a, b, n - 1);
        let i = n - 1;
        let id = a[i].id;
        lemma_lead_of_record(a, i);
        lemma_lead(b, id);
        let j = lead(b, id);
        if j > i {
            let other = b[i].id;
            lemma_lead_of_record(b, i);
            lemma_lead(a, other);
        }
    }
}

/// An index in canonical form is determined by what it holds of each
/// identifier.
pub proof fn lemma_presence_decides(a: Seq<Record>, b: Seq<Record>)
    requires
        canonical(a),
        canonical(b),
        forall|id: Identifier| presence(a, id) == presence(b, id),
    ensures
        a == b,
{
    lemma_same_front(a, b, a.len() as int);
    lemma_same_front(b, a, b.len() as int);
}

/// Counting fully present sets place by place.
pub proof fn lemma_count_step(s: Seq<Record>, i: int)
    requires
        0 <= i < s.len(),
    ensures
        complete_count(s.take(i + 1)) == complete_count(s.take(i)) + if s[i].complete() {
            1nat
        } else {
            0nat
        },
{
    assert(s.take(i + 1).drop_last() =~= s.take(i));
}

/// A longer front holds at least as many fully present sets, and no front
/// holds more of them than records.
pub proof fn lemma_count_grows(s: Seq<Record>, i: int, j: int)
    requires
        0 <= i <= j <= s.len(),
    ensures
        complete_count(s.take(i)) <= complete_count(s.take(j)) <= j,
    decreases j,
{
    if j > 0 {
        lemma_count_grows(s, if i < j { i } else { i - 1 }, j - 1);
        lemma_count_step(s, j - 1);
    }
}

/// The artifact sets on the partition, by identifier.
pub struct InstalledIndex {
    entries: Vec<Record>,
}

impl View for InstalledIndex {
    type V = Seq<Record>;

    closed spec fn view(&self) -> Seq<Record> {
        self.entries@
    }
}

impl InstalledIndex {
    /// The invariant of an index: its records are in canonical form.
    pub open spec fn wf(&self) -> bool {
        canonical(self@)
    }

    /// The index of an empty partition.
    pub fn new() -> (index: InstalledIndex)
        ensures
            index.wf(),
            index@ == Seq::<Record>::empty(),
    {
        InstalledIndex { entries: Vec::new() }
    }

    /// The number of identifiers with a file on the partition.
    pub fn len(&self) -> (n: usize)
        ensures
            n == self@.len(),
    {
        self.entries.len()
    }

    /// The record at a place of the ranking, the highest first.
    pub fn get(&self, place: usize) -> (record: Option<Record>)
        ensures
            record == if place < self@.len() {
                Some(self@[place as int])
            } else {
                None
            },
    {
        if place < self.entries.len() {
            Some(self.entries[place])
        } else {
            None
        }
    }

    fn place(&self, id: Identifier) -> (p: usize)
        requires
            self.wf(),
        ensures
            p == lead(self@, id),
            p <= self@.len(),
    {
        let n: usize = self.entries.len();
        let mut p: usize = 0;
        while p < n && self.entries[p].id.outranks(&id)
            invariant
                n == self.entries@.len(),
                p <= n,
                forall|i: int| 0 <= i < p ==> above(#[trigger] self.entries@[i].id, id),
            decreases n - p,
        {
            p += 1;
        }
        proof {
            lemma_lead_is(self@, id, p as int);
        }
        p
    }

    /// What the index holds of `id`.
    pub fn lookup(&self, id: Identifier) -> (record: Record)
        requires
            self.wf(),
        ensures
            record == presence(self@, id),
    {
        let p: usize = self.place(id);
        if p < self.entries.len() && self.entries[p].id == id {
            self.entries[p]
        } else {
            Record::empty(id)
        }
    }

    /// Whether the file of `id` is on the partition.
    pub fn holds(&self, id: Identifier, slot: Slot) -> (result: bool)
        requires
            self.wf(),
        ensures
            result == holds(self@, id, slot),
    {
        self.lookup(id).contains(slot)
    }

    /// Whether stub, kernel and initrd of `id` are all on the partition.
    pub fn is_complete(&self, id: Identifier) -> (result: bool)
        requires
            self.wf(),
        ensures
            result == presence(self@, id).complete(),
    {
        self.lookup(id).is_complete()
    }

    /// Notes that the file of `id` has been written.
    pub fn record(&mut self, id: Identifier, slot: Slot)
        requires
            old(self).wf(),
        ensures
            final(self).wf(),
            final(self)@ == put(old(self)@, id, slot),
    {
        let p: usize = self.place(id);
        proof {
            lemma_put(self@, id, slot);
        }
        if p < self.entries.len() && self.entries[p].id == id {
            let updated = self.entries[p].mark(slot);
            self.entries.set(p, updated);
        } else {
            self.entries.insert(p, Record::empty(id).mark(slot));
        }
    }

    /// Notes that the file of `id` has been removed.
    pub fn forget(&mut self, id: Identifier, slot: Slot)
        requires
            old(self).wf(),
        ensures
            final(self).wf(),
            final(self)@ == take_out(old(self)@, id, slot),
    {
        let p: usize = self.place(id);
        if p < self.entries.len() && self.entries[p].id == id {
            let updated = self.entries[p].clear(slot);
            if updated.is_empty() {
                self.entries.remove(p);
            } else {
                self.entries.set(p, updated);
            }
        }
    }

    /// The number of artifact sets that are fully present.
    pub fn complete_sets(&self) -> (n: usize)
        ensures
            n == complete_count(self@),
    {
        let total: usize = self.entries.len();
        let mut n: usize = 0;
        let mut i: usize = 0;
        while i < total
            invariant
                total == self.entries@.len(),
                i <= total,
                n == complete_count(self.entries@.take(i as int)),
                n <= i,
            decreases total - i,
        {
            proof {
                lemma_count_step(self.entries@, i as int);
            }
            if self.entries[i].is_complete() {
                n += 1;
            }
            i += 1;
        }
        proof {
            assert(self.entries@.take(total as int) =~= self.entries@);
        }
        n
    }
}

} // verus!
