//! Push-mode delivery: a registry of subscribers, each with a one-slot mailbox
//! that holds the latest snapshot it has not yet taken.
use vstd::prelude::*;
use crate::snapshot::{SnapshotModel, SystemSnapshot};

verus! {

/// What the registry holds for one subscriber: its id and the snapshot
/// waiting for it, if any.
pub type Slot = (u64, Option<SnapshotModel>);

struct Mailbox {
    id: u64,
    latest: Option<SystemSnapshot>,
}

/// The set of push-mode subscribers. Delivery is latest-value-wins: a
/// broadcast replaces whatever a subscriber has not yet taken, and a
/// subscriber never sees a snapshot broadcast before it registered.
pub struct Distributor {
    next_id: u64,
    boxes: Vec<Mailbox>,
}

/// The snapshot waiting in a mailbox, as a model.
pub open spec fn latest_view(o: Option<SystemSnapshot>) -> Option<SnapshotModel> {
    match o {
        Some(s) => Some(s@),
        None => None,
    }
}

/// The registry after a broadcast of `s`: every subscriber now holds `s`.
pub open spec fn after_broadcast(slots: Seq<Slot>, s: SnapshotModel) -> Seq<Slot> {
    slots.map_values(|e: Slot| (e.0, Some(s)))
}

/// `id` is the id of the subscriber at position `k`.
pub open spec fn holds_at(slots: Seq<Slot>, k: int, id: u64) -> bool {
    0 <= k < slots.len() && slots[k].0 == id
}

/// Some subscriber has id `id`.
pub open spec fn registered(slots: Seq<Slot>, id: u64) -> bool {
    exists|k: int| holds_at(slots, k, id)
}

/// No two subscribers share an id.
pub open spec fn ids_distinct(slots: Seq<Slot>) -> bool {
    forall|i: int, j: int| 0 <= i < slots.len() && 0 <= j < slots.len() && i != j ==> slots[i].0 != slots[j].0
}

/// A broadcast with no subscriber reaches nobody and leaves the registry empty.
pub proof fn lemma_broadcast_to_nobody(s: SnapshotModel)
    ensures
        after_broadcast(Seq::<Slot>::empty(), s) == Seq::<Slot>::empty(),
{
    assert(after_broadcast(Seq::<Slot>::empty(), s) =~= Seq::<Slot>::empty());
}

/// A subscriber that registers after a broadcast of `missed` does not hold
/// it, and holds the next broadcast `next` once that comes.
pub proof fn lemma_late_subscriber(slots: Seq<Slot>, missed: SnapshotModel, next: SnapshotModel, id: u64)
    ensures
        ({
            let joined = after_broadcast(slots, missed).push((id, None));
            &&& joined.last().1 is None
            &&& after_broadcast(joined, next).last() == (id, Some(next))
        }),
{
}

/// Latest value wins, in order: after broadcasts of `first` and then
/// `second`, every subscriber keeps its place and holds `second`; taken
/// after each broadcast, it gets `first` and then `second`.
pub proof fn lemma_delivery_in_order(slots: Seq<Slot>, first: SnapshotModel, second: SnapshotModel, k: int, id: u64)
    requires
        holds_at(slots, k, id),
    ensures
        after_broadcast(slots, first)[k] == (id, Some(first)),
        after_broadcast(after_broadcast(slots, first), second)[k] == (id, Some(second)),
        after_broadcast(after_broadcast(slots, first).update(k, (id, None)), second)[k] == (id, Some(second)),
        holds_at(after_broadcast(slots, first).update(k, (id, None)), k, id),
{
}

/// The registry after one tick: a broadcast of what the tick produced, or
/// unchanged when it produced nothing.
pub open spec fn tick_slots(slots: Seq<Slot>, out: Option<SnapshotModel>) -> Seq<Slot> {
    match out {
        Some(s) => after_broadcast(slots, s),
        None => slots,
    }
}

/// A run of ticks as seen by the subscriber at position `k`: the registry
/// afterwards, the snapshots it took in the order taken, the tick each came
/// from, and the tick whose snapshot still waits in its mailbox.
pub struct RunTrace {
    pub slots: Seq<Slot>,
    pub log: Seq<SnapshotModel>,
    pub ticks: Seq<int>,
    pub pending: Option<int>,
}

/// Runs the ticks `outs` (what each produced, `None` for a skipped tick);
/// after tick `i` the subscriber at position `k` takes its mailbox when
/// `takes[i]` holds.
pub open spec fn run_trace(slots: Seq<Slot>, k: int, outs: Seq<Option<SnapshotModel>>, takes: Seq<bool>) -> RunTrace
    decreases outs.len(),
{
    if outs.len() == 0 {
        RunTrace { slots, log: Seq::empty(), ticks: Seq::empty(), pending: None }
    } else {
        let n = outs.len() - 1;
        let prev = run_trace(slots, k, outs.take(n), takes.take(n));
        let now = tick_slots(prev.slots, outs[n]);
        let pending = if outs[n] is Some { Some(n) } else { prev.pending };
        if takes[n] && now[k].1 is Some {
            RunTrace {
                slots: now.update(k, (now[k].0, None)),
                log: prev.log.push(now[k].1->Some_0),
                ticks: prev.ticks.push(pending->Some_0),
                pending: None,
            }
        } else {
            RunTrace { slots: now, log: prev.log, ticks: prev.ticks, pending }
        }
    }
}

/// Over any run, a subscriber receives snapshots in production order, with
/// no duplicate: the ticks they came from strictly increase, and each
/// snapshot received is the one its tick produced. A snapshot left waiting
/// is the latest one produced after all it received.
pub proof fn lemma_run_in_order(slots: Seq<Slot>, k: int, id: u64, outs: Seq<Option<SnapshotModel>>, takes: Seq<bool>)
    requires
        holds_at(slots, k, id),
        slots[k].1 is None,
        takes.len() == outs.len(),
    ensures
        ({
            let t = run_trace(slots, k, outs, takes);
            &&& holds_at(t.slots, k, id)
            &&& t.log.len() == t.ticks.len()
            &&& forall|j: int| 0 <= j < t.ticks.len() ==> 0 <= #[trigger] t.ticks[j] < outs.len()
                && outs[t.ticks[j]] == Some(t.log[j])
            &&& forall|a: int, b: int| 0 <= a < b < t.ticks.len() ==> t.ticks[a] < t.ticks[b]
            &&& match t.pending {
                Some(p) => {
                    &&& 0 <= p < outs.len()
                    &&& t.slots[k].1 == outs[p]
                    &&& outs[p] is Some
                    &&& forall|j: int| 0 <= j < t.ticks.len() ==> #[trigger] t.ticks[j] < p
                    &&& forall|q: int| p < q < outs.len() ==> #[trigger] outs[q] is None
                },
                None => t.slots[k].1 is None,
            }
        }),
    decreases outs.len(),
{
    if outs.len() > 0 {
        let n = outs.len() - 1;
        lemma_run_in_order(slots, k, id, outs.take(n), takes.take(n));
        let prev = run_trace(slots, k, outs.take(n), takes.take(n));
        assert(forall|i: int| 0 <= i < n ==> outs.take(n)[i] == #[trigger] outs[i]);
        let now = tick_slots(prev.slots, outs[n]);
        assert(now.len() == prev.slots.len());
        assert(now[k].0 == id);
        let t = run_trace(slots, k, outs, takes);
        assert(forall|j: int| 0 <= j < prev.ticks.len() ==> 0 <= #[trigger] prev.ticks[j] < n);
        if takes[n] && now[k].1 is Some {
            assert(t.ticks.last() == t.ticks[prev.ticks.len() as int]);
            assert forall|j: int| 0 <= j < t.ticks.len() implies 0 <= #[trigger] t.ticks[j] < outs.len()
                && outs[t.ticks[j]] == Some(t.log[j]) by {
                if j < prev.ticks.len() {
                    assert(t.ticks[j] == prev.ticks[j]);
                    assert(t.log[j] == prev.log[j]);
                }
            }
            assert forall|a: int, b: int| 0 <= a < b < t.ticks.len() implies t.ticks[a] < t.ticks[b] by {
                assert(t.ticks[a] == prev.ticks[a]);
                if b < prev.ticks.len() {
                    assert(t.ticks[b] == prev.ticks[b]);
                }
            }
        }
    }
}

impl View for Distributor {
    type V = Seq<Slot>;

    closed spec fn view(&self) -> Seq<Slot> {
        self.boxes@.map_values(|b: Mailbox| (b.id, latest_view(b.latest)))
    }
}

impl Distributor {
    /// The registry is well formed: ids are distinct and below the next id to hand out.
    pub closed spec fn wf(&self) -> bool {
        &&& forall|i: int| 0 <= i < self.boxes@.len() ==> #[trigger] self.boxes@[i].id < self.next_id
        &&& forall|i: int, j: int|
            0 <= i < self.boxes@.len() && 0 <= j < self.boxes@.len() && i != j
                ==> self.boxes@[i].id != self.boxes@[j].id
    }

    /// How many ids have been handed out so far; the next subscriber gets
    /// this one.
    pub closed spec fn issued(&self) -> u64 {
        self.next_id
    }

    proof fn lemma_wf_distinct(&self)
        requires
            self.wf(),
        ensures
            ids_distinct(self@),
    {
        assert forall|i: int, j: int| 0 <= i < self@.len() && 0 <= j < self@.len() && i != j implies self@[i].0
            != self@[j].0 by {
            assert(self@[i].0 == self.boxes@[i].id);
            assert(self@[j].0 == self.boxes@[j].id);
        }
    }

    /// An empty registry.
    pub fn new() -> (r: Distributor)
        ensures
            r.wf(),
            r@.len() == 0,
            r.issued() == 0,
    {
        let r = Distributor { next_id: 0, boxes: Vec::new() };
        proof {
            assert(r@ =~= Seq::<Slot>::empty());
        }
        r
    }

    /// Number of registered subscribers.
    pub fn subscriber_count(&self) -> (r: usize)
        ensures
            r == self@.len(),
    {
        self.boxes.len()
    }

    /// Registers a new subscriber with an empty mailbox and returns its id;
    /// `None` once every id has been handed out.
    pub fn subscribe(&mut self) -> (r: Option<u64>)
        requires
            old(self).wf(),
        ensures
            final(self).wf(),
            ids_distinct(final(self)@),
            (r is Some) == (old(self).issued() < u64::MAX),
            r is Some ==> final(self).issued() == old(self).issued() + 1,
            r is None ==> final(self).issued() == old(self).issued(),
            match r {
                Some(id) => {
                    &&& id == old(self).issued()
                    &&& !registered(old(self)@, id)
                    &&& final(self)@ == old(self)@.push((id, None))
                },
                None => final(self)@ == old(self)@,
            },
    {
        if self.next_id == u64::MAX {
            proof {
                self.lemma_wf_distinct();
            }
            return None;
        }
        let id = self.next_id;
        proof {
            assert forall|k: int| !holds_at(old(self)@, k, id) by {
                if 0 <= k < old(self)@.len() {
                    assert(old(self)@[k].0 == old(self).boxes@[k].id);
                }
            }
        }
        self.boxes.push(Mailbox { id, latest: None });
        self.next_id = id + 1;
        proof {
            assert(self@ =~= old(self)@.push((id, None)));
            self.lemma_wf_distinct();
        }
        Some(id)
    }

    fn position(&self, id: u64) -> (r: Option<usize>)
        requires
            self.wf(),
        ensures
            match r {
                Some(k) => holds_at(self@, k as int, id),
                None => !registered(self@, id),
            },
    {
        let mut i: usize = 0;
        while i < self.boxes.len()
            invariant
                i <= self.boxes.len(),
                forall|k: int| 0 <= k < i ==> self.boxes@[k].id != id,
            decreases self.boxes.len() - i,
        {
            if self.boxes[i].id == id {
                return Some(i);
            }
            i = i + 1;
        }
        proof {
            assert forall|k: int| !holds_at(self@, k, id) by {
                if 0 <= k < self@.len() {
                    assert(self@[k].0 == self.boxes@[k].id);
                }
            }
        }
        None
    }

    /// Removes the subscriber `id`; false if it was not registered.
    pub fn unsubscribe(&mut self, id: u64) -> (r: bool)
        requires
            old(self).wf(),
        ensures
            final(self).wf(),
            final(self).issued() == old(self).issued(),
            r == registered(old(self)@, id),
            r ==> exists|k: int| holds_at(old(self)@, k, id) && final(self)@ == old(self)@.remove(k),
            !r ==> final(self)@ == old(self)@,
    {
        match self.position(id) {
            Some(k) => {
                self.boxes.remove(k);
                proof {
                    assert(self@ =~= old(self)@.remove(k as int));
                    assert(holds_at(old(self)@, k as int, id));
                    assert forall|i: int| 0 <= i < self.boxes@.len() implies #[trigger] self.boxes@[i].id
                        < self.next_id by {
                        if i < k {
                            assert(self.boxes@[i] == old(self).boxes@[i]);
                        } else {
                            assert(self.boxes@[i] == old(self).boxes@[i + 1]);
                        }
                    }
                    assert forall|i: int, j: int|
                        0 <= i < self.boxes@.len() && 0 <= j < self.boxes@.len() && i != j
                            implies self.boxes@[i].id != self.boxes@[j].id by {
                        let oi = if i < k { i } else { i + 1 };
                        let oj = if j < k { j } else { j + 1 };
                        assert(self.boxes@[i] == old(self).boxes@[oi]);
                        assert(self.boxes@[j] == old(self).boxes@[oj]);
                    }
                }
                true
            },
            None => false,
        }
    }

    /// Hands `s` to every registered subscriber, replacing what each had not
    /// yet taken, and returns how many received it (0 when none is registered).
    pub fn broadcast(&mut self, s: &SystemSnapshot) -> (r: usize)
        requires
            old(self).wf(),
        ensures
            final(self).wf(),
            final(self).issued() == old(self).issued(),
            final(self)@ == after_broadcast(old(self)@, s@),
            r == old(self)@.len(),
    {
        let n = self.boxes.len();
        let mut i: usize = 0;
        while i < n
            invariant
                n == self.boxes.len(),
                n == old(self).boxes.len(),
                i <= n,
                self.next_id == old(self).next_id,
                forall|k: int| 0 <= k < n ==> #[trigger] self.boxes@[k].id == old(self).boxes@[k].id,
                forall|k: int| 0 <= k < i ==> #[trigger] latest_view(self.boxes@[k].latest) == Some(s@),
                forall|k: int| i <= k < n ==> #[trigger] self.boxes@[k] == old(self).boxes@[k],
            decreases n - i,
        {
            let id = self.boxes[i].id;
            self.boxes.set(i, Mailbox { id, latest: Some(s.copy()) });
            i = i + 1;
        }
        proof {
            assert(self@ =~= after_broadcast(old(self)@, s@));
        }
        n
    }

    /// Takes the snapshot waiting for subscriber `id`, leaving its mailbox
    /// empty; `None` when nothing waits or `id` is not registered.
    pub fn take(&mut self, id: u64) -> (r: Option<SystemSnapshot>)
        requires
            old(self).wf(),
        ensures
            final(self).wf(),
            final(self).issued() == old(self).issued(),
            !registered(old(self)@, id) ==> r is None && final(self)@ == old(self)@,
            forall|k: int|
                holds_at(old(self)@, k, id) ==> {
                    &&& latest_view(r) == old(self)@[k].1
                    &&& final(self)@ == old(self)@.update(k, (id, None))
                },
    {
        match self.position(id) {
            Some(k) => {
                let mut taken = Mailbox { id, latest: None };
                std::mem::swap(&mut taken, &mut self.boxes[k]);
                proof {
                    self.lemma_wf_distinct();
                    old(self).lemma_wf_distinct();
                    assert(self@ =~= old(self)@.update(k as int, (id, None)));
                    assert(forall|i: int| 0 <= i < self.boxes@.len() ==> #[trigger] self.boxes@[i].id == old(self).boxes@[i].id);
                    assert forall|j: int| holds_at(old(self)@, j, id) implies j == k by {
                        assert(holds_at(old(self)@, k as int, id));
                    }
                }
                taken.latest
            },
            None => None,
        }
    }
}

} // verus!
