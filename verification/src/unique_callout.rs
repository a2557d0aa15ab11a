use vstd::prelude::*;

use crate::proxy::CacheKey;
use crate::store::QueueSet;
use crate::store::QueueVal;
use crate::store::QueueValView;
use crate::store::SharedStore;
use crate::store::StoreVal;
use crate::store::StoreValView;
use crate::strutil::dec_digits;
use crate::strutil::u64_to_dec;
use vstd::string::StringExecFns;

verus! {

/// One suspended request waiting for a callout's result: the id of its
/// worker's notification queue and the id of its http context.
#[derive(Clone, Copy, Debug, PartialEq, Eq, Structural)]
pub struct CalloutWaiter {
    /// The queue of the worker waiting for the callout response.
    pub queue_id: u32,
    /// The http context waiting for the callout response.
    pub http_context_id: u32,
}

/// The value stored under a callout-lock key: who owns the lock, and who is
/// waiting for it to be freed.
#[derive(Debug)]
pub struct CalloutLockValue {
    /// The worker that owns the lock.
    pub owned_by: u32,
    /// The contexts waiting for the lock to be freed.
    pub waiters: Vec<CalloutWaiter>,
}

/// The mathematical value of a `CalloutLockValue`.
#[verifier::ext_equal]
pub struct CalloutLockValueView {
    pub owned_by: u32,
    pub waiters: Seq<CalloutWaiter>,
}

impl View for CalloutLockValue {
    type V = CalloutLockValueView;

    open spec fn view(&self) -> CalloutLockValueView {
        CalloutLockValueView { owned_by: self.owned_by, waiters: self.waiters@ }
    }
}

impl CalloutLockValue {
    pub fn clone(&self) -> (r: Self)
        ensures
            r@ == self@,
    {
        let mut waiters: Vec<CalloutWaiter> = Vec::new();
        let mut i: usize = 0;
        while i < self.waiters.len()
            invariant
                i <= self.waiters@.len(),
                waiters@ == self.waiters@.subrange(0, i as int),
            decreases self.waiters@.len() - i,
        {
            waiters.push(self.waiters[i]);
            proof {
                assert(waiters@ =~= self.waiters@.subrange(0, i + 1));
            }
            i = i + 1;
        }
        proof {
            assert(waiters@ =~= self.waiters@);
        }
        CalloutLockValue { owned_by: self.owned_by, waiters }
    }
}

/// What a woken waiter must do, carrying the http context to resume.
#[derive(Clone, Copy, Debug, PartialEq, Eq, Structural)]
pub enum WaiterAction {
    /// The winner cached an application: follow the cache-hit path.
    HandleCacheHit(u32),
    /// The winner failed: follow the request-failure path.
    HandleFailure(u32),
}

/// `action` retargeted at the waiter's own http context.
pub open spec fn with_context(action: WaiterAction, ctx: u32) -> WaiterAction {
    match action {
        WaiterAction::HandleCacheHit(_) => WaiterAction::HandleCacheHit(ctx),
        WaiterAction::HandleFailure(_) => WaiterAction::HandleFailure(ctx),
    }
}

fn retarget(action: WaiterAction, ctx: u32) -> (r: WaiterAction)
    ensures
        r == with_context(action, ctx),
{
    match action {
        WaiterAction::HandleCacheHit(_) => WaiterAction::HandleCacheHit(ctx),
        WaiterAction::HandleFailure(_) => WaiterAction::HandleFailure(ctx),
    }
}

/// How acquiring the callout lock can end.
#[derive(Clone, Copy, Debug, PartialEq, Eq, Structural)]
pub enum SetCalloutLockStatus {
    /// This worker owns the lock and must perform the callout.
    LockAcquired,
    /// Another worker owns the lock; this context is on its waitlist.
    AddedToWaitlist,
}

/// Why a coordinator step failed.
#[derive(Clone, Copy, Debug, PartialEq, Eq, Structural)]
pub enum UniqueCalloutError {
    /// A foreign value sits under the lock key.
    DeserializeFail,
    /// The lock was expected to exist and does not.
    ProxyFailure,
    /// The worker's own notification queue could not be resolved.
    MQResolveFail(u32),
}

/// The store key that guards callouts for a cache key.
pub open spec fn callout_lock_key(k: Seq<char>) -> Seq<char> {
    seq!['C', 'L', '_'] + k
}

/// The live lock under `k`, if the store holds one there.
pub open spec fn lock_at(
    m: Map<Seq<char>, (Option<StoreValView>, u32)>,
    k: Seq<char>,
) -> Option<CalloutLockValueView> {
    if m.dom().contains(k) {
        match m[k].0 {
            Some(StoreValView::Lock(lv)) => Some(lv),
            _ => None,
        }
    } else {
        None
    }
}

fn make_lock_key(cache_key: &CacheKey) -> (r: String)
    ensures
        r@ == callout_lock_key(cache_key.spec_string()),
{
    let mut s = String::from_str("CL_");
    s.append(cache_key.as_string().as_str());
    proof {
        reveal_strlit("CL_");
        assert(s@ =~= callout_lock_key(cache_key.spec_string()));
    }
    s
}

/// One acquisition attempt, as a relation between the store's contents
/// before and after: the caller either took a free lock, becoming its owner
/// with an empty waitlist, or appended itself to the holder's waitlist.
pub open spec fn acquire_step(
    pre: Map<Seq<char>, (Option<StoreValView>, u32)>,
    post: Map<Seq<char>, (Option<StoreValView>, u32)>,
    key: Seq<char>,
    root_id: u32,
    w: CalloutWaiter,
    acquired: bool,
) -> bool {
    if acquired {
        &&& !(pre.dom().contains(key) && pre[key].0 is Some)
        &&& post.dom().contains(key)
        &&& post[key].0 == Some(
            StoreValView::Lock(
                CalloutLockValueView { owned_by: root_id, waiters: Seq::empty() },
            ),
        )
        &&& post == pre.insert(key, post[key])
    } else {
        &&& pre.dom().contains(key)
        &&& pre[key].0 matches Some(StoreValView::Lock(lv)) && {
            &&& post.dom().contains(key)
            &&& post[key].0 == Some(
                StoreValView::Lock(
                    CalloutLockValueView { owned_by: lv.owned_by, waiters: lv.waiters.push(w) },
                ),
            )
            &&& post == pre.insert(key, post[key])
        }
    }
}

/// Tries to take the callout lock for `cache_key`, or joins its waitlist.
///
/// A never-set key is written with the sentinel cas `1`: the store treats a
/// missing cas as an unconditional overwrite, so two racing first writers
/// would otherwise both succeed.  With the sentinel, the store's existence
/// check rejects the second writer.
pub fn set_callout_lock(
    store: &mut SharedStore,
    queues: &QueueSet,
    root_id: u32,
    context_id: u32,
    cache_key: &CacheKey,
) -> (r: Result<SetCalloutLockStatus, UniqueCalloutError>)
    requires
        old(store).wf(),
        queues.wf(),
    ensures
        final(store).wf(),
        match r {
            Ok(st) => exists|qid: u32|
                {
                    &&& (qid as int) < queues.qs().len()
                    &&& queues.name_at(qid as int) == dec_digits(root_id as int)
                    &&& acquire_step(
                        old(store).contents(),
                        final(store).contents(),
                        callout_lock_key(cache_key.spec_string()),
                        root_id,
                        CalloutWaiter { queue_id: qid, http_context_id: context_id },
                        st == SetCalloutLockStatus::LockAcquired,
                    )
                },
            Err(UniqueCalloutError::MQResolveFail(id)) => {
                &&& *final(store) == *old(store)
                &&& id == root_id
                &&& forall|i: int|
                    0 <= i < queues.qs().len() ==> queues.name_at(i) != dec_digits(root_id as int)
            },
            Err(UniqueCalloutError::DeserializeFail) => {
                &&& *final(store) == *old(store)
                &&& old(store).contents().dom().contains(
                    callout_lock_key(cache_key.spec_string()),
                )
                &&& match old(store).contents()[callout_lock_key(cache_key.spec_string())].0 {
                    Some(v) => !(v is Lock),
                    None => false,
                }
            },
            Err(UniqueCalloutError::ProxyFailure) => false,
        },
{
    let name = u64_to_dec(root_id as u64);
    let queue_id = match queues.resolve_queue(name.as_str()) {
        Some(q) => q,
        None => {
            return Err(UniqueCalloutError::MQResolveFail(root_id));
        },
    };
    let lock_key = make_lock_key(cache_key);
    let fresh_lock = StoreVal::Lock(CalloutLockValue { owned_by: root_id, waiters: Vec::new() });
    match store.get(lock_key.as_str()) {
        (_, None) => {
            // Never set: insert under the sentinel cas.
            let w = store.set(lock_key.as_str(), Some(fresh_lock), Some(1));
            proof {
                assert(w is Ok);
                assert(store.contents() == old(store).contents().insert(
                    lock_key@,
                    store.contents()[lock_key@],
                ));
            }
            Ok(SetCalloutLockStatus::LockAcquired)
        },
        (value, Some(cas)) => {
            proof {
                store.lemma_cas_floor();
            }
            match value {
                None => {
                    // Previously freed: retake it under the entry's cas.
                    let w = store.set(lock_key.as_str(), Some(fresh_lock), Some(cas));
                    proof {
                        assert(w is Ok);
                    }
                    Ok(SetCalloutLockStatus::LockAcquired)
                },
                Some(StoreVal::Lock(lv)) => {
                    // Held: append this context to the waitlist.
                    let mut updated = lv.clone();
                    updated.waiters.push(CalloutWaiter {
                        queue_id,
                        http_context_id: context_id,
                    });
                    let w = store.set(lock_key.as_str(), Some(StoreVal::Lock(updated)), Some(cas));
                    proof {
                        assert(w is Ok);
                    }
                    Ok(SetCalloutLockStatus::AddedToWaitlist)
                },
                Some(_) => Err(UniqueCalloutError::DeserializeFail),
            }
        },
    }
}

/// Frees the callout lock by clearing its value; the key slot stays behind,
/// as the store offers no deletion.
pub fn free_callout_lock(
    store: &mut SharedStore,
    root_id: u32,
    context_id: u32,
    cache_key: &CacheKey,
) -> (r: Result<(), UniqueCalloutError>)
    requires
        old(store).wf(),
    ensures
        final(store).wf(),
        match r {
            Ok(()) => {
                &&& old(store).contents().dom().contains(
                    callout_lock_key(cache_key.spec_string()),
                )
                &&& final(store).contents().dom().contains(
                    callout_lock_key(cache_key.spec_string()),
                )
                &&& final(store).contents()[callout_lock_key(cache_key.spec_string())].0 is None
                &&& final(store).contents() == old(store).contents().insert(
                    callout_lock_key(cache_key.spec_string()),
                    final(store).contents()[callout_lock_key(cache_key.spec_string())],
                )
            },
            Err(e) => {
                &&& e == UniqueCalloutError::ProxyFailure
                &&& *final(store) == *old(store)
                &&& !old(store).contents().dom().contains(
                    callout_lock_key(cache_key.spec_string()),
                )
            },
        },
{
    let lock_key = make_lock_key(cache_key);
    match store.get(lock_key.as_str()) {
        (_, None) => {
            // Freeing a lock that was never set: the coordinator promises
            // this cannot happen, so surface it.
            Err(UniqueCalloutError::ProxyFailure)
        },
        (_, Some(_cas)) => {
            let w = store.set(lock_key.as_str(), None, None);
            proof {
                assert(w is Ok);
            }
            Ok(())
        },
    }
}

/// The queues after every waiter in order was handed `action`, retargeted at
/// its own http context; a waiter naming no live queue is skipped.
pub open spec fn deliver_actions(
    qs: Seq<(Seq<char>, Seq<QueueValView>)>,
    waiters: Seq<CalloutWaiter>,
    action: WaiterAction,
) -> Seq<(Seq<char>, Seq<QueueValView>)>
    decreases waiters.len(),
{
    if waiters.len() == 0 {
        qs
    } else {
        let prev = deliver_actions(qs, waiters.drop_last(), action);
        let w = waiters.last();
        if (w.queue_id as int) < prev.len() {
            prev.update(
                w.queue_id as int,
                (
                    prev[w.queue_id as int].0,
                    prev[w.queue_id as int].1.push(
                        QueueValView::Action(with_context(action, w.http_context_id)),
                    ),
                ),
            )
        } else {
            prev
        }
    }
}

/// How many of the waiters name no queue among `n` of them.
pub open spec fn undeliverable(n: int, waiters: Seq<CalloutWaiter>) -> int
    decreases waiters.len(),
{
    if waiters.len() == 0 {
        0
    } else {
        undeliverable(n, waiters.drop_last()) + if (waiters.last().queue_id as int) < n {
            0int
        } else {
            1int
        }
    }
}

/// Hands `action` to every waiter recorded on the lock for `cache_key`,
/// retargeted at each waiter's http context.  Enqueue failures are counted
/// and returned, never aborting the loop: the remaining waiters must still
/// be notified.
pub fn send_action_to_waiters(
    store: &SharedStore,
    queues: &mut QueueSet,
    root_id: u32,
    context_id: u32,
    cache_key: &CacheKey,
    waiter_action: WaiterAction,
) -> (r: Result<usize, UniqueCalloutError>)
    requires
        store.wf(),
        old(queues).wf(),
    ensures
        final(queues).wf(),
        match r {
            Ok(failed) => {
                let key = callout_lock_key(cache_key.spec_string());
                if store.contents().dom().contains(key) {
                    match store.contents()[key].0 {
                        Some(StoreValView::Lock(lv)) => {
                            &&& final(queues).qs() == deliver_actions(
                                old(queues).qs(),
                                lv.waiters,
                                waiter_action,
                            )
                            &&& failed == undeliverable(
                                old(queues).qs().len() as int,
                                lv.waiters,
                            )
                        },
                        // No live lock: there was nobody to notify.
                        _ => final(queues).qs() == old(queues).qs() && failed == 0,
                    }
                } else {
                    final(queues).qs() == old(queues).qs() && failed == 0
                }
            },
            Err(e) => {
                let key = callout_lock_key(cache_key.spec_string());
                &&& e == UniqueCalloutError::DeserializeFail
                &&& final(queues).qs() == old(queues).qs()
                &&& store.contents().dom().contains(key)
                &&& !(store.contents()[key].0 matches Some(StoreValView::Lock(_)))
                &&& store.contents()[key].0 is Some
            },
        },
{
    let lock_key = make_lock_key(cache_key);
    match store.get(lock_key.as_str()) {
        (Some(StoreVal::Lock(lv)), Some(_cas)) => {
            let mut failed: usize = 0;
            let mut i: usize = 0;
            let ghost qs0 = queues.qs();
            proof {
                assert(deliver_actions(qs0, lv.waiters@.subrange(0, 0), waiter_action) == qs0);
                assert(undeliverable(qs0.len() as int, lv.waiters@.subrange(0, 0)) == 0);
            }
            while i < lv.waiters.len()
                invariant
                    queues.wf(),
                    i <= lv.waiters@.len(),
                    failed <= i,
                    queues.qs() == deliver_actions(
                        qs0,
                        lv.waiters@.subrange(0, i as int),
                        waiter_action,
                    ),
                    failed == undeliverable(qs0.len() as int, lv.waiters@.subrange(0, i as int)),
                    queues.qs().len() == qs0.len(),
                decreases lv.waiters@.len() - i,
            {
                let w = lv.waiters[i];
                let act = retarget(waiter_action, w.http_context_id);
                let ghost pre = queues.qs();
                let sent = queues.enqueue(w.queue_id, QueueVal::Action(act));
                proof {
                    assert(lv.waiters@.subrange(0, i + 1).drop_last() =~= lv.waiters@.subrange(
                        0,
                        i as int,
                    ));
                    assert(lv.waiters@.subrange(0, i + 1).last() == lv.waiters@[i as int]);
                }
                if sent.is_err() {
                    // Nothing more can signal that worker now; it will time
                    // out on its own.  Count it for the record.
                    failed = failed + 1;
                }
                i = i + 1;
                proof {
                    lemma_deliver_len(qs0, lv.waiters@.subrange(0, i as int), waiter_action);
                }
            }
            proof {
                assert(lv.waiters@.subrange(0, lv.waiters@.len() as int) =~= lv.waiters@);
            }
            Ok(failed)
        },
        (Some(_), Some(_cas)) => Err(UniqueCalloutError::DeserializeFail),
        _ => {
            // Either another worker already freed the waiters or nobody ever
            // waited; there is nothing to notify.
            Ok(0)
        },
    }
}

/// Delivery changes no queue's name and adds no queue.
pub proof fn lemma_deliver_len(
    qs: Seq<(Seq<char>, Seq<QueueValView>)>,
    waiters: Seq<CalloutWaiter>,
    action: WaiterAction,
)
    ensures
        deliver_actions(qs, waiters, action).len() == qs.len(),
        forall|j: int| 0 <= j < qs.len() ==> #[trigger] deliver_actions(qs, waiters, action)[j].0
            == qs[j].0,
    decreases waiters.len(),
{
    if waiters.len() > 0 {
        lemma_deliver_len(qs, waiters.drop_last(), action);
    }
}

/// Frees the lock and wakes its waiters: every recorded waiter is handed the
/// action first, then the lock value is cleared.
pub fn free_callout_lock_and_notify_waiters(
    store: &mut SharedStore,
    queues: &mut QueueSet,
    root_id: u32,
    context_id: u32,
    cache_key: &CacheKey,
    waiter_action: WaiterAction,
) -> (r: Result<usize, UniqueCalloutError>)
    requires
        old(store).wf(),
        old(queues).wf(),
    ensures
        final(store).wf(),
        final(queues).wf(),
        match r {
            Ok(failed) => {
                let key = callout_lock_key(cache_key.spec_string());
                &&& (if old(store).contents().dom().contains(key) {
                    match old(store).contents()[key].0 {
                        Some(StoreValView::Lock(lv)) => {
                            &&& final(queues).qs() == deliver_actions(
                                old(queues).qs(),
                                lv.waiters,
                                waiter_action,
                            )
                            &&& failed == undeliverable(
                                old(queues).qs().len() as int,
                                lv.waiters,
                            )
                        },
                        _ => final(queues).qs() == old(queues).qs() && failed == 0,
                    }
                } else {
                    final(queues).qs() == old(queues).qs() && failed == 0
                })
                &&& final(store).contents().dom().contains(key)
                &&& final(store).contents()[key].0 is None
                &&& final(store).contents() == old(store).contents().insert(
                    key,
                    final(store).contents()[key],
                )
            },
            Err(e) => {
                let key = callout_lock_key(cache_key.spec_string());
                &&& *final(store) == *old(store)
                &&& final(queues).qs() == old(queues).qs()
                &&& (e == UniqueCalloutError::ProxyFailure ==> !old(store).contents().dom().contains(
                    key,
                ))
                &&& (e == UniqueCalloutError::DeserializeFail ==> old(store).contents().dom().contains(key) && !(old(store).contents()[key].0 matches Some(
                    StoreValView::Lock(_),
                )))
                &&& (e == UniqueCalloutError::ProxyFailure || e
                    == UniqueCalloutError::DeserializeFail)
            },
        },
{
    let sent = send_action_to_waiters(store, queues, root_id, context_id, cache_key, waiter_action);
    let failed = match sent {
        Ok(f) => f,
        Err(e) => {
            return Err(e);
        },
    };
    match free_callout_lock(store, root_id, context_id, cache_key) {
        Ok(()) => Ok(failed),
        Err(e) => Err(e),
    }
}

/// The total number of items across all queues.
pub open spec fn total_items(qs: Seq<(Seq<char>, Seq<QueueValView>)>) -> int
    decreases qs.len(),
{
    if qs.len() == 0 {
        0
    } else {
        total_items(qs.drop_last()) + qs.last().1.len()
    }
}

proof fn lemma_total_update(qs: Seq<(Seq<char>, Seq<QueueValView>)>, i: int, p: (Seq<char>, Seq<QueueValView>))
    requires
        0 <= i < qs.len(),
    ensures
        total_items(qs.update(i, p)) == total_items(qs) - qs[i].1.len() + p.1.len(),
    decreases qs.len(),
{
    let t = qs.update(i, p);
    if i == qs.len() - 1 {
        assert(t.drop_last() =~= qs.drop_last());
    } else {
        assert(t.drop_last() =~= qs.drop_last().update(i, p));
        lemma_total_update(qs.drop_last(), i, p);
        assert(t.last() == qs.last());
    }
}

/// Freeing a lock wakes each waiter exactly once: across all queues, exactly
/// one action lands per waiter whose queue exists, every failure is counted,
/// and each such waiter's own queue holds the action retargeted at its http
/// context.
pub proof fn lemma_deliver_exactly_one_each(
    qs: Seq<(Seq<char>, Seq<QueueValView>)>,
    waiters: Seq<CalloutWaiter>,
    action: WaiterAction,
)
    ensures
        deliver_actions(qs, waiters, action).len() == qs.len(),
        total_items(deliver_actions(qs, waiters, action)) == total_items(qs) + waiters.len()
            - undeliverable(qs.len() as int, waiters),
        forall|i: int|
            0 <= i < waiters.len() && (waiters[i].queue_id as int) < qs.len()
                ==> deliver_actions(qs, waiters, action)[waiters[i].queue_id as int].1.contains(
                QueueValView::Action(with_context(action, (#[trigger] waiters[i]).http_context_id)),
            ),
        undeliverable(qs.len() as int, waiters) >= 0,
    decreases waiters.len(),
{
    lemma_deliver_len(qs, waiters, action);
    if waiters.len() > 0 {
        let ws = waiters.drop_last();
        lemma_deliver_exactly_one_each(qs, ws, action);
        lemma_deliver_len(qs, ws, action);
        let prev = deliver_actions(qs, ws, action);
        let w = waiters.last();
        let post = deliver_actions(qs, waiters, action);
        if (w.queue_id as int) < prev.len() {
            let q = w.queue_id as int;
            let item = QueueValView::Action(with_context(action, w.http_context_id));
            lemma_total_update(prev, q, (prev[q].0, prev[q].1.push(item)));
            assert(post[q].1 == prev[q].1.push(item));
            assert(post[q].1.contains(item)) by {
                assert(post[q].1.last() == item);
            }
            assert forall|i: int|
                0 <= i < waiters.len() && (waiters[i].queue_id as int) < qs.len()
                    implies post[(waiters[i].queue_id) as int].1.contains(
                    QueueValView::Action(
                        with_context(action, (#[trigger] waiters[i]).http_context_id),
                    ),
                ) by {
                if i < waiters.len() - 1 {
                    assert(ws[i] == waiters[i]);
                    let qi = waiters[i].queue_id as int;
                    let it = QueueValView::Action(with_context(action, waiters[i].http_context_id));
                    assert(prev[qi].1.contains(it));
                    if qi == q {
                        let wit = choose|wit: int| 0 <= wit < prev[qi].1.len() && prev[qi].1[wit] == it;
                        assert(post[qi].1[wit] == it);
                    } else {
                        assert(post[qi].1 == prev[qi].1);
                    }
                }
            }
        } else {
            assert forall|i: int|
                0 <= i < waiters.len() && (waiters[i].queue_id as int) < qs.len()
                    implies post[(waiters[i].queue_id) as int].1.contains(
                    QueueValView::Action(
                        with_context(action, (#[trigger] waiters[i]).http_context_id),
                    ),
                ) by {
                if i < waiters.len() - 1 {
                    assert(ws[i] == waiters[i]);
                }
            }
        }
    }
}

/// Among any run of acquirers racing for one free callout lock, exactly the
/// first wins it; every later one lands on the winner's waitlist, in order.
pub proof fn lemma_exactly_one_winner(
    states: Seq<Map<Seq<char>, (Option<StoreValView>, u32)>>,
    key: Seq<char>,
    roots: Seq<u32>,
    ws: Seq<CalloutWaiter>,
    acq: Seq<bool>,
)
    requires
        states.len() == acq.len() + 1,
        roots.len() == acq.len(),
        ws.len() == acq.len(),
        acq.len() >= 1,
        // the lock starts out never set or cleared
        !(states[0].dom().contains(key) && states[0][key].0 is Some),
        forall|i: int|
            0 <= i < acq.len() ==> acquire_step(
                #[trigger] states[i],
                states[i + 1],
                key,
                roots[i],
                ws[i],
                acq[i],
            ),
    ensures
        acq[0],
        forall|i: int| 1 <= i < acq.len() ==> !(#[trigger] acq[i]),
        states.last().dom().contains(key),
        states.last()[key].0 == Some(
            StoreValView::Lock(
                CalloutLockValueView {
                    owned_by: roots[0],
                    waiters: ws.subrange(1, ws.len() as int),
                },
            ),
        ),
    decreases acq.len(),
{
    if acq.len() == 1 {
        assert(acquire_step(states[0], states[1], key, roots[0], ws[0], acq[0]));
        if !acq[0] {
            assert(states[0].dom().contains(key));
            assert(false);
        }
        assert(ws.subrange(1, 1) =~= Seq::<CalloutWaiter>::empty());
        assert(states.last() == states[1]);
    } else {
        let n = acq.len() - 1;
        let states_p = states.drop_last();
        let roots_p = roots.drop_last();
        let ws_p = ws.drop_last();
        let acq_p = acq.drop_last();
        assert forall|i: int|
            0 <= i < acq_p.len() implies acquire_step(
            #[trigger] states_p[i],
            states_p[i + 1],
            key,
            roots_p[i],
            ws_p[i],
            acq_p[i],
        ) by {
            assert(states_p[i] == states[i]);
            assert(states_p[i + 1] == states[i + 1]);
            assert(acquire_step(states[i], states[i + 1], key, roots[i], ws[i], acq[i]));
        }
        lemma_exactly_one_winner(states_p, key, roots_p, ws_p, acq_p);
        assert(states_p.last() == states[n]);
        assert(acquire_step(states[n], states[n + 1], key, roots[n], ws[n], acq[n]));
        if acq[n] {
            assert(!(states[n].dom().contains(key) && states[n][key].0 is Some));
            assert(false);
        }
        assert(states.last() == states[n + 1]);
        assert(ws_p.subrange(1, ws_p.len() as int).push(ws[n]) =~= ws.subrange(
            1,
            ws.len() as int,
        ));
        assert forall|i: int| 1 <= i < acq.len() implies !(#[trigger] acq[i]) by {
            if i < acq.len() - 1 {
                assert(!acq_p[i]);
            }
        }
    }
}

} // verus!
