use vstd::prelude::*;

use crate::kv::kv_find;
use crate::kv::kv_has_key;
use crate::kv::kv_keys_unique;
use crate::kv::kv_set_at;
use crate::kv::vkv_map;
use crate::structs::Application;
use crate::structs::ApplicationView;
use crate::structs::AppId;
use crate::structs::Message;
use crate::structs::MessageView;
use crate::unique_callout::CalloutLockValue;
use crate::unique_callout::CalloutLockValueView;
use crate::unique_callout::WaiterAction;

verus! {

/// A value held by the shared store.  The host keeps serialized bytes; the
/// model keeps the decoded values, and the host adapter serializes at the
/// boundary.
#[derive(Debug)]
pub enum StoreVal {
    /// A cached `Application`, under its cache-key string.
    App(Application),
    /// The app id a user key resolves to, under the user-key string.
    MappedId(AppId),
    /// A callout lock, under its `"CL_"`-prefixed key.
    Lock(CalloutLockValue),
    /// The advisory memory-used counter.
    Counter(u64),
}

/// The mathematical value of a `StoreVal`.
#[verifier::ext_equal]
pub enum StoreValView {
    App(ApplicationView),
    MappedId(Seq<char>),
    Lock(CalloutLockValueView),
    Counter(u64),
}

impl View for StoreVal {
    type V = StoreValView;

    open spec fn view(&self) -> StoreValView {
        match self {
            StoreVal::App(a) => StoreValView::App(a@),
            StoreVal::MappedId(a) => StoreValView::MappedId(a@),
            StoreVal::Lock(l) => StoreValView::Lock(l@),
            StoreVal::Counter(c) => StoreValView::Counter(*c),
        }
    }
}

impl StoreVal {
    pub fn clone(&self) -> (r: Self)
        ensures
            r@ == self@,
    {
        match self {
            StoreVal::App(a) => StoreVal::App(a.clone()),
            StoreVal::MappedId(a) => StoreVal::MappedId(a.clone()),
            StoreVal::Lock(l) => StoreVal::Lock(l.clone()),
            StoreVal::Counter(c) => StoreVal::Counter(*c),
        }
    }
}

/// Why a store write was refused.
#[derive(Clone, Copy, Debug, PartialEq, Eq, Structural)]
pub enum StoreStatus {
    /// The caller's compare-and-swap value did not match the entry's.
    CasMismatch,
}

pub open spec fn opt_view(v: Option<StoreVal>) -> Option<StoreValView> {
    match v {
        Some(x) => Some(x@),
        None => None,
    }
}

/// One slot of the store: the value (cleared values stay as `None`) and the
/// cas stamped by the last write.
#[derive(Debug)]
pub struct Slot {
    pub value: Option<StoreVal>,
    pub cas: u32,
}

/// The process-wide shared store: a map from key to `(value, cas)` with
/// atomic compare-and-swap writes, modelling the proxy host's shared data.
///
/// Every successful write stamps the entry with a fresh cas drawn from a
/// counter that skips `0` and `1`: `0` stands for "no check" in a write and
/// `1` is the sentinel a first-time lock writer passes, so no stored entry
/// ever carries either.  The host achieves the same up to a rare, accepted
/// cas wraparound.
#[derive(Debug)]
pub struct SharedStore {
    entries: Vec<(String, Slot)>,
    next_cas: u32,
}

/// The view of one slot: the value's view and the cas.
pub open spec fn slot_view(s: Slot) -> (Option<StoreValView>, u32) {
    (opt_view(s.value), s.cas)
}

spec fn viewed(s: Seq<(String, Slot)>) -> Seq<(Seq<char>, (Option<StoreValView>, u32))> {
    s.map_values(|p: (String, Slot)| (p.0@, slot_view(p.1)))
}

spec fn vkeys_unique<V>(vs: Seq<(Seq<char>, V)>) -> bool {
    forall|x: int, y: int| 0 <= x < y < vs.len() ==> (#[trigger] vs[x]).0 != (#[trigger] vs[y]).0
}

proof fn lemma_vkv_index<V>(vs: Seq<(Seq<char>, V)>, i: int)
    requires
        vkeys_unique(vs),
        0 <= i < vs.len(),
    ensures
        vkv_map(vs).dom().contains(vs[i].0),
        vkv_map(vs)[vs[i].0] == vs[i].1,
    decreases vs.len(),
{
    if i < vs.len() - 1 {
        lemma_vkv_index(vs.drop_last(), i);
    }
}

proof fn lemma_vkv_absent<V>(vs: Seq<(Seq<char>, V)>, k: Seq<char>)
    requires
        forall|i: int| 0 <= i < vs.len() ==> (#[trigger] vs[i]).0 != k,
    ensures
        !vkv_map(vs).dom().contains(k),
    decreases vs.len(),
{
    if vs.len() > 0 {
        lemma_vkv_absent(vs.drop_last(), k);
    }
}

proof fn lemma_vkv_update<V>(vs: Seq<(Seq<char>, V)>, i: int, p: (Seq<char>, V))
    requires
        vkeys_unique(vs),
        0 <= i < vs.len(),
        p.0 == vs[i].0,
    ensures
        vkv_map(vs.update(i, p)) == vkv_map(vs).insert(p.0, p.1),
        vkeys_unique(vs.update(i, p)),
    decreases vs.len(),
{
    let t = vs.update(i, p);
    assert(vkeys_unique(t));
    if i == vs.len() - 1 {
        assert(t.drop_last() =~= vs.drop_last());
        assert(vkv_map(t) =~= vkv_map(vs).insert(p.0, p.1));
    } else {
        assert(vkeys_unique(vs.drop_last()));
        assert(t.drop_last() =~= vs.drop_last().update(i, p));
        lemma_vkv_update(vs.drop_last(), i, p);
        assert(t.last() == vs.last());
        assert(vs[i].0 != vs.last().0);
        assert(vkv_map(t) =~= vkv_map(vs).insert(p.0, p.1));
    }
}

impl SharedStore {
    /// The store as a map from key to the view of its slot.
    pub closed spec fn contents(&self) -> Map<Seq<char>, (Option<StoreValView>, u32)> {
        vkv_map(viewed(self.entries@))
    }

    pub closed spec fn wf(&self) -> bool {
        &&& kv_keys_unique(self.entries@)
        &&& self.next_cas >= 2
        &&& forall|i: int| 0 <= i < self.entries@.len() ==> (#[trigger] self.entries@[i]).1.cas >= 2
    }

    proof fn lemma_viewed_unique(&self)
        requires
            self.wf(),
        ensures
            vkeys_unique(viewed(self.entries@)),
    {
        let vs = viewed(self.entries@);
        assert forall|x: int, y: int| 0 <= x < y < vs.len() implies vs[x].0 != vs[y].0 by {
            assert(self.entries@[x].0@ != self.entries@[y].0@);
        }
    }

    /// Every stored entry's cas is at least 2: never `0`, never the sentinel.
    pub proof fn lemma_cas_floor(&self)
        requires
            self.wf(),
        ensures
            forall|k: Seq<char>| #[trigger] self.contents().dom().contains(k)
                ==> self.contents()[k].1 >= 2,
    {
        let vs = viewed(self.entries@);
        assert forall|k: Seq<char>| #[trigger] self.contents().dom().contains(k)
            implies self.contents()[k].1 >= 2 by {
            Self::lemma_cas_floor_rec(vs, k);
        }
    }

    proof fn lemma_cas_floor_rec(vs: Seq<(Seq<char>, (Option<StoreValView>, u32))>, k: Seq<char>)
        requires
            forall|i: int| 0 <= i < vs.len() ==> (#[trigger] vs[i]).1.1 >= 2,
            vkv_map(vs).dom().contains(k),
        ensures
            vkv_map(vs)[k].1 >= 2,
        decreases vs.len(),
    {
        if vs.len() > 0 {
            if k == vs.last().0 && vkv_map(vs)[k] == vs.last().1 {
            } else {
                Self::lemma_cas_floor_rec(vs.drop_last(), k);
            }
        }
    }

    pub fn new() -> (r: SharedStore)
        ensures
            r.wf(),
            r.contents() == Map::<Seq<char>, (Option<StoreValView>, u32)>::empty(),
    {
        let r = SharedStore { entries: Vec::new(), next_cas: 2 };
        proof {
            assert(r.contents() =~= Map::<Seq<char>, (Option<StoreValView>, u32)>::empty());
        }
        r
    }

    /// Reads a key: a missing key gives `(None, None)`, a key whose value
    /// was cleared gives `(None, Some(cas))`.
    pub fn get(&self, key: &str) -> (r: (Option<StoreVal>, Option<u32>))
        requires
            self.wf(),
        ensures
            match r.1 {
                Some(cas) => self.contents().dom().contains(key@)
                    && self.contents()[key@] == (opt_view(r.0), cas),
                None => !self.contents().dom().contains(key@) && r.0 is None,
            },
    {
        match kv_find(&self.entries, key) {
            Some(i) => {
                proof {
                    self.lemma_viewed_unique();
                    lemma_vkv_index(viewed(self.entries@), i as int);
                }
                let slot = &self.entries[i].1;
                let value = match &slot.value {
                    Some(v) => Some(v.clone()),
                    None => None,
                };
                let cas = slot.cas;
                proof {
                    assert(viewed(self.entries@)[i as int]
                        == (self.entries@[i as int].0@, slot_view(self.entries@[i as int].1)));
                }
                (value, Some(cas))
            },
            None => {
                proof {
                    let vs = viewed(self.entries@);
                    assert forall|i: int| 0 <= i < vs.len() implies (#[trigger] vs[i]).0 != key@ by {
                        assert(self.entries@[i].0@ != key@);
                    }
                    lemma_vkv_absent(vs, key@);
                }
                (None, None)
            },
        }
    }

    /// Writes a key under the host's compare-and-swap rule: a `cas` of
    /// `None` or `Some(0)` overwrites unconditionally, any other value must
    /// match the entry's current cas, and a missing key is always inserted.
    pub fn set(&mut self, key: &str, value: Option<StoreVal>, cas: Option<u32>) -> (r: Result<
        (),
        StoreStatus,
    >)
        requires
            old(self).wf(),
        ensures
            final(self).wf(),
            match r {
                Ok(()) => {
                    &&& final(self).contents().dom().contains(key@)
                    &&& final(self).contents()[key@].0 == opt_view(value)
                    &&& final(self).contents()[key@].1 >= 2
                    &&& final(self).contents() == old(self).contents().insert(
                        key@,
                        final(self).contents()[key@],
                    )
                },
                Err(StoreStatus::CasMismatch) => *final(self) == *old(self),
            },
            // a write is refused exactly when a checking cas does not match
            r is Err <==> (old(self).contents().dom().contains(key@) && match cas {
                Some(c) => c != 0 && c != old(self).contents()[key@].1,
                None => false,
            }),
    {
        let c = match cas {
            Some(c) => c,
            None => 0,
        };
        let fresh = self.next_cas;
        match kv_find(&self.entries, key) {
            Some(i) => {
                proof {
                    self.lemma_viewed_unique();
                    lemma_vkv_index(viewed(self.entries@), i as int);
                    assert(viewed(self.entries@)[i as int]
                        == (self.entries@[i as int].0@, slot_view(self.entries@[i as int].1)));
                }
                let entry_cas = self.entries[i].1.cas;
                if c != 0 && c != entry_cas {
                    return Err(StoreStatus::CasMismatch);
                }
                let ghost before = self.entries@;
                kv_set_at(&mut self.entries, i, Slot { value, cas: fresh });
                self.next_cas = if self.next_cas == u32::MAX {
                    2
                } else {
                    self.next_cas + 1
                };
                proof {
                    assert(viewed(self.entries@) =~= viewed(before).update(
                        i as int,
                        (key@, (opt_view(self.entries@[i as int].1.value), fresh)),
                    ));
                    lemma_vkv_update(
                        viewed(before),
                        i as int,
                        (key@, (opt_view(self.entries@[i as int].1.value), fresh)),
                    );
                    assert(self.wf());
                }
                Ok(())
            },
            None => {
                proof {
                    let vs = viewed(self.entries@);
                    assert forall|j: int| 0 <= j < vs.len() implies (#[trigger] vs[j]).0 != key@ by {
                        assert(self.entries@[j].0@ != key@);
                    }
                    lemma_vkv_absent(vs, key@);
                }
                let ghost before = self.entries@;
                self.entries.push((key.to_owned(), Slot { value, cas: fresh }));
                self.next_cas = if self.next_cas == u32::MAX {
                    2
                } else {
                    self.next_cas + 1
                };
                proof {
                    assert(viewed(self.entries@).drop_last() =~= viewed(before));
                    assert(viewed(self.entries@).last()
                        == (key@, (opt_view(self.entries@.last().1.value), fresh)));
                    assert(self.contents() == vkv_map(viewed(before)).insert(
                        key@,
                        (opt_view(self.entries@.last().1.value), fresh),
                    ));
                    assert forall|x: int, y: int|
                        0 <= x < y < self.entries@.len() implies self.entries@[x].0@
                        != self.entries@[y].0@ by {
                        if y == self.entries@.len() - 1 {
                            assert(before[x].0@ != key@);
                        }
                    }
                    assert(self.wf());
                }
                Ok(())
            },
        }
    }
}

/// The head of queue `q`, when such a queue exists and is not empty.
pub open spec fn queue_front(qs: Seq<(Seq<char>, Seq<QueueValView>)>, q: u32) -> Option<
    QueueValView,
> {
    if (q as int) < qs.len() && qs[q as int].1.len() > 0 {
        Some(qs[q as int].1[0])
    } else {
        None
    }
}

/// An item on a host queue: a wake-up action for a waiting context, or a
/// report message for the singleton.  The host carries serialized bytes; the
/// model carries the decoded values.
#[derive(Debug)]
pub enum QueueVal {
    Action(WaiterAction),
    Report(Message),
}

/// The mathematical value of a `QueueVal`.
#[verifier::ext_equal]
pub enum QueueValView {
    Action(WaiterAction),
    Report(MessageView),
}

impl View for QueueVal {
    type V = QueueValView;

    open spec fn view(&self) -> QueueValView {
        match self {
            QueueVal::Action(a) => QueueValView::Action(*a),
            QueueVal::Report(m) => QueueValView::Report(m@),
        }
    }
}

/// The host's named queues: each registered name owns one FIFO, addressed by
/// the index at which it was registered.
#[derive(Debug)]
pub struct QueueSet {
    queues: Vec<(String, Vec<QueueVal>)>,
}

spec fn queue_viewed(s: Seq<(String, Vec<QueueVal>)>) -> Seq<(Seq<char>, Seq<QueueValView>)> {
    s.map_values(|p: (String, Vec<QueueVal>)| (p.0@, p.1.deep_view()))
}

impl DeepView for QueueVal {
    type V = QueueValView;

    open spec fn deep_view(&self) -> QueueValView {
        self@
    }
}

impl QueueSet {
    /// The queues in registration order: each queue's name and items.
    pub closed spec fn qs(&self) -> Seq<(Seq<char>, Seq<QueueValView>)> {
        queue_viewed(self.queues@)
    }

    pub closed spec fn wf(&self) -> bool {
        &&& kv_keys_unique(self.queues@)
        &&& self.queues@.len() < u32::MAX
    }

    /// Whether some queue is registered under `name`.
    pub open spec fn has_queue(&self, name: Seq<char>) -> bool {
        exists|i: int| 0 <= i < self.qs().len() && self.qs()[i].0 == name
    }

    /// A queue id is its index; `name_at`/`items_at` read the view.
    pub open spec fn name_at(&self, i: int) -> Seq<char> {
        self.qs()[i].0
    }

    pub open spec fn items_at(&self, i: int) -> Seq<QueueValView> {
        self.qs()[i].1
    }

    pub fn new() -> (r: QueueSet)
        ensures
            r.wf(),
            r.qs() == Seq::<(Seq<char>, Seq<QueueValView>)>::empty(),
    {
        let r = QueueSet { queues: Vec::new() };
        proof {
            assert(r.qs() =~= Seq::<(Seq<char>, Seq<QueueValView>)>::empty());
        }
        r
    }

    /// Registers a queue under `name`, or returns the existing one.
    pub fn register_queue(&mut self, name: &str) -> (r: u32)
        requires
            old(self).wf(),
            old(self).qs().len() + 1 < u32::MAX,
        ensures
            final(self).wf(),
            (r as int) < final(self).qs().len(),
            final(self).name_at(r as int) == name@,
            if old(self).has_queue(name@) {
                final(self).qs() == old(self).qs()
            } else {
                final(self).qs() == old(self).qs().push((name@, Seq::<QueueValView>::empty()))
            },
    {
        match kv_find(&self.queues, name) {
            Some(i) => {
                proof {
                    assert(self.qs()[i as int] == (self.queues@[i as int].0@, self.queues@[i as int].1.deep_view()));
                    assert(self.qs()[i as int].0 == name@);
                    assert(self.has_queue(name@));
                }
                i as u32
            },
            None => {
                let ghost before = self.queues@;
                proof {
                    if old(self).has_queue(name@) {
                        let i = choose|i: int| 0 <= i < old(self).qs().len() && old(self).qs()[i].0 == name@;
                        assert(queue_viewed(before)[i] == (before[i].0@, before[i].1.deep_view()));
                        assert(before[i].0@ == name@);
                        assert(kv_has_key(before, name@));
                        assert(false);
                    }
                }
                self.queues.push((name.to_owned(), Vec::new()));
                let id = self.queues.len() - 1;
                proof {
                    assert(self.qs() =~~= queue_viewed(before).push((name@, Seq::<QueueValView>::empty())));
                    assert(kv_keys_unique(self.queues@)) by {
                        assert forall|x: int, y: int|
                            0 <= x < y < self.queues@.len() implies self.queues@[x].0@
                            != self.queues@[y].0@ by {
                            if y == self.queues@.len() - 1 {
                                assert(!kv_has_key(before, name@));
                                assert(before[x].0@ != name@);
                            }
                        }
                    }
                }
                id as u32
            },
        }
    }

    /// Finds the queue registered under `name`.
    pub fn resolve_queue(&self, name: &str) -> (r: Option<u32>)
        requires
            self.wf(),
        ensures
            match r {
                Some(i) => (i as int) < self.qs().len() && self.name_at(i as int) == name@,
                None => forall|i: int| 0 <= i < self.qs().len() ==> self.name_at(i) != name@,
            },
    {
        match kv_find(&self.queues, name) {
            Some(i) => {
                proof {
                    assert(self.qs()[i as int] == (self.queues@[i as int].0@, self.queues@[i as int].1.deep_view()));
                }
                Some(i as u32)
            },
            None => {
                proof {
                    assert forall|i: int| 0 <= i < self.qs().len() implies self.name_at(i) != name@ by {
                        assert(self.qs()[i] == (self.queues@[i].0@, self.queues@[i].1.deep_view()));
                        assert(self.queues@[i].0@ != name@);
                    }
                }
                None
            },
        }
    }

    /// Appends to the queue `id`; fails when no such queue exists.
    pub fn enqueue(&mut self, id: u32, v: QueueVal) -> (r: Result<(), ()>)
        requires
            old(self).wf(),
        ensures
            final(self).wf(),
            match r {
                Ok(()) => (id as int) < old(self).qs().len() && final(self).qs() == old(self).qs().update(
                    id as int,
                    (old(self).name_at(id as int), old(self).items_at(id as int).push(v@)),
                ),
                Err(()) => (id as int) >= old(self).qs().len() && final(self).qs() == old(self).qs(),
            },
    {
        let idx = id as usize;
        if idx >= self.queues.len() {
            return Err(());
        }
        let ghost before = self.queues@;
        let mut pair = self.queues.remove(idx);
        pair.1.push(v);
        self.queues.insert(idx, pair);
        proof {
            assert(self.queues@ =~= before.update(
                idx as int,
                (before[idx as int].0, self.queues@[idx as int].1),
            ));
            assert(self.queues@[idx as int].1.deep_view() =~= before[idx as int].1.deep_view().push(
                v@,
            ));
            assert(self.qs() =~~= queue_viewed(before).update(
                idx as int,
                (before[idx as int].0@, before[idx as int].1.deep_view().push(v@)),
            ));
        }
        Ok(())
    }

    /// Removes and returns the front of queue `id`, if any.
    pub fn dequeue(&mut self, id: u32) -> (r: Option<QueueVal>)
        requires
            old(self).wf(),
        ensures
            final(self).wf(),
            match r {
                Some(v) => {
                    &&& (id as int) < old(self).qs().len()
                    &&& old(self).items_at(id as int).len() > 0
                    &&& v@ == old(self).items_at(id as int)[0]
                    &&& final(self).qs() == old(self).qs().update(
                        id as int,
                        (old(self).name_at(id as int), old(self).items_at(id as int).drop_first()),
                    )
                },
                None => final(self).qs() == old(self).qs() && ((id as int) >= old(self).qs().len()
                    || old(self).items_at(id as int).len() == 0),
            },
    {
        let idx = id as usize;
        if idx >= self.queues.len() {
            return None;
        }
        if self.queues[idx].1.len() == 0 {
            proof {
                assert(self.qs()[idx as int] == (self.queues@[idx as int].0@, self.queues@[idx as int].1.deep_view()));
            }
            return None;
        }
        let ghost before = self.queues@;
        let mut pair = self.queues.remove(idx);
        let v = pair.1.remove(0);
        self.queues.insert(idx, pair);
        proof {
            assert(self.queues@[idx as int].1.deep_view() =~= before[idx as int].1.deep_view().drop_first());
            assert(self.qs() =~~= queue_viewed(before).update(
                idx as int,
                (before[idx as int].0@, before[idx as int].1.deep_view().drop_first()),
            ));
        }
        Some(v)
    }
}

} // verus!
