use vstd::prelude::*;

use crate::store::SharedStore;
use crate::store::StoreVal;
use crate::store::StoreValView;
use crate::store::StoreStatus;
use crate::store::opt_view;
use crate::structs::AppId;
use crate::structs::AppIdentifier;
use crate::structs::AppIdentifierView;
use crate::structs::Application;
use crate::structs::ApplicationView;
use crate::structs::ServiceId;
use crate::structs::UserKey;
use crate::strutil::sat_add;
use crate::strutil::sat_add64;
use vstd::string::StrSliceExecFns;
use vstd::string::StringExecFns;

verus! {

/// The store key of the advisory memory-used counter.
pub const SHARED_MEMORY_COUNTER_KEY: &'static str = "SHARED_MEMORY_COUNTER";

/// The counter's value when first observed missing.
pub const SHARED_MEMORY_INITIAL_SIZE: u64 = 1000;

/// Why a cache operation failed.
#[derive(Clone, Copy, Debug, PartialEq, Eq, Structural)]
pub enum CacheError {
    /// No app id is mapped for the user key.
    AppIdNotFound,
    /// No application is cached under the key.
    AppNotFound,
    /// A compare-and-swap write lost to a concurrent writer.
    CasMismatch,
}

/// The canonical store key for a service and an application's primary
/// string.
pub open spec fn cache_key_string(service: Seq<char>, primary: Seq<char>) -> Seq<char> {
    service + seq!['_'] + primary
}

/// The pair of a service and an application the cache is keyed by.  Its
/// canonical string form is `"{service_id}_{app_id}"`.
#[derive(Debug)]
pub struct CacheKey(ServiceId, AppIdentifier);

impl CacheKey {
    pub closed spec fn service_view(&self) -> Seq<char> {
        self.0@
    }

    pub closed spec fn app_view(&self) -> AppIdentifierView {
        self.1@
    }

    /// The canonical string form.
    pub open spec fn spec_string(&self) -> Seq<char> {
        cache_key_string(self.service_view(), self.app_view().primary())
    }

    pub fn as_string(&self) -> (r: String)
        ensures
            r@ == self.spec_string(),
    {
        let mut s = self.0.as_ref().to_owned();
        s.append("_");
        s.append(self.1.as_ref());
        proof {
            reveal_strlit("_");
            assert(s@ =~= self.spec_string());
        }
        s
    }

    pub fn service_id(&self) -> (r: &ServiceId)
        ensures
            r@ == self.service_view(),
    {
        &self.0
    }

    pub fn app_id(&self) -> (r: &AppIdentifier)
        ensures
            r@ == self.app_view(),
    {
        &self.1
    }

    pub fn default() -> (r: Self)
        ensures
            r.service_view() == Seq::<char>::empty(),
            r.app_view() == crate::structs::appid_split(Seq::<char>::empty()),
    {
        proof {
            reveal_strlit("");
        }
        Self(ServiceId::from(""), AppIdentifier::appid_from_str(""))
    }

    /// Rewrites the application part, as when a user key resolves to an
    /// app id.
    pub fn set_app_id(&mut self, new_app_id: &AppIdentifier)
        ensures
            final(self).service_view() == old(self).service_view(),
            final(self).app_view() == new_app_id@,
    {
        self.1 = new_app_id.clone();
    }

    pub fn from(a: &ServiceId, b: &AppIdentifier) -> (r: CacheKey)
        ensures
            r.service_view() == a@,
            r.app_view() == b@,
    {
        CacheKey(a.clone(), b.clone())
    }

    pub fn clone(&self) -> (r: Self)
        ensures
            r.service_view() == self.service_view(),
            r.app_view() == self.app_view(),
    {
        CacheKey(self.0.clone(), self.1.clone())
    }
}

/// Returns the cached `Application` under the key, with the entry's cas.
pub fn get_application_from_cache(store: &SharedStore, key: &CacheKey) -> (r: Result<
    (Application, u32),
    CacheError,
>)
    requires
        store.wf(),
    ensures
        match r {
            Ok((app, cas)) => store.contents().dom().contains(key.spec_string())
                && store.contents()[key.spec_string()] == (Some(StoreValView::App(app@)), cas),
            Err(e) => e == CacheError::AppNotFound && !(store.contents().dom().contains(
                key.spec_string(),
            ) && store.contents()[key.spec_string()].0 matches Some(StoreValView::App(_))),
        },
{
    let ks = key.as_string();
    match store.get(ks.as_str()) {
        (Some(StoreVal::App(app)), Some(cas)) => Ok((app, cas)),
        _ => Err(CacheError::AppNotFound),
    }
}

/// Returns the app id a user key was resolved to, if any.
pub fn get_app_id_from_cache(store: &SharedStore, user_key: &UserKey) -> (r: Result<
    AppId,
    CacheError,
>)
    requires
        store.wf(),
    ensures
        match r {
            Ok(app_id) => store.contents().dom().contains(user_key@)
                && store.contents()[user_key@].0 == Some(StoreValView::MappedId(app_id@)),
            Err(e) => e == CacheError::AppIdNotFound && !(store.contents().dom().contains(user_key@)
                && store.contents()[user_key@].0 matches Some(StoreValView::MappedId(_))),
        },
{
    match store.get(user_key.as_ref()) {
        (Some(StoreVal::MappedId(app_id)), Some(_cas)) => Ok(app_id),
        _ => Err(CacheError::AppIdNotFound),
    }
}

/// Records the user key to app id mapping, overwriting any previous one.
pub fn set_app_id_to_cache(store: &mut SharedStore, user_key: &UserKey, app_id: &AppId) -> (r:
    Result<(), CacheError>)
    requires
        old(store).wf(),
    ensures
        final(store).wf(),
        r is Ok,
        final(store).contents().dom().contains(user_key@),
        final(store).contents()[user_key@].0 == Some(StoreValView::MappedId(app_id@)),
        final(store).contents() == old(store).contents().insert(
            user_key@,
            final(store).contents()[user_key@],
        ),
{
    let r = store.set(user_key.as_ref(), Some(StoreVal::MappedId(app_id.clone())), None);
    match r {
        Ok(()) => Ok(()),
        Err(_) => Err(CacheError::CasMismatch),
    }
}

/// The model's stand-in for an entry's serialized length: the key's length
/// plus a per-value measure, saturating.
pub open spec fn spec_val_size(v: StoreValView) -> u64 {
    match v {
        StoreValView::App(a) => spec_app_size(a),
        StoreValView::MappedId(s) => s.len() as u64,
        StoreValView::Lock(l) => sat_add64(
            4,
            if l.waiters.len() > (u64::MAX / 8) as nat {
                u64::MAX
            } else {
                (8 * l.waiters.len()) as u64
            },
        ),
        StoreValView::Counter(_) => 8,
    }
}

pub open spec fn spec_state_size(s: Seq<(Seq<char>, crate::structs::UsageReport)>) -> u64
    decreases s.len(),
{
    if s.len() == 0 {
        0
    } else {
        sat_add64(spec_state_size(s.drop_last()), sat_add64(s.last().0.len() as u64, 40))
    }
}

pub open spec fn spec_strings_size(s: Seq<Seq<char>>) -> u64
    decreases s.len(),
{
    if s.len() == 0 {
        0
    } else {
        sat_add64(spec_strings_size(s.drop_last()), s.last().len() as u64)
    }
}

pub open spec fn spec_hierarchy_size(s: Seq<(Seq<char>, Seq<Seq<char>>)>) -> u64
    decreases s.len(),
{
    if s.len() == 0 {
        0
    } else {
        sat_add64(
            spec_hierarchy_size(s.drop_last()),
            sat_add64(s.last().0.len() as u64, spec_strings_size(s.last().1)),
        )
    }
}

pub open spec fn spec_app_size(a: ApplicationView) -> u64 {
    sat_add64(
        sat_add64(a.service_id.len() as u64, a.app_id.primary().len() as u64),
        sat_add64(
            spec_state_size(a.local_state),
            sat_add64(
                spec_hierarchy_size(a.metric_hierarchy),
                match a.app_keys {
                    Some(ks) => spec_strings_size(ks),
                    None => 0,
                },
            ),
        ),
    )
}

fn strings_size_keys(v: &Vec<crate::structs::AppKey>) -> (r: u64)
    ensures
        r == spec_strings_size(v.deep_view()),
{
    let mut acc: u64 = 0;
    let mut i: usize = 0;
    while i < v.len()
        invariant
            i <= v@.len(),
            acc == spec_strings_size(v.deep_view().subrange(0, i as int)),
        decreases v@.len() - i,
    {
        proof {
            assert(v.deep_view().subrange(0, i + 1).drop_last() =~= v.deep_view().subrange(
                0,
                i as int,
            ));
        }
        acc = sat_add(acc, v[i].as_ref().unicode_len() as u64);
        i = i + 1;
    }
    proof {
        assert(v.deep_view().subrange(0, v.deep_view().len() as int) =~= v.deep_view());
    }
    acc
}

fn strings_size_vec(v: &Vec<String>) -> (r: u64)
    ensures
        r == spec_strings_size(v.deep_view()),
{
    let mut acc: u64 = 0;
    let mut i: usize = 0;
    while i < v.len()
        invariant
            i <= v@.len(),
            acc == spec_strings_size(v.deep_view().subrange(0, i as int)),
        decreases v@.len() - i,
    {
        proof {
            assert(v.deep_view().subrange(0, i + 1).drop_last() =~= v.deep_view().subrange(
                0,
                i as int,
            ));
        }
        acc = sat_add(acc, v[i].as_str().unicode_len() as u64);
        i = i + 1;
    }
    proof {
        assert(v.deep_view().subrange(0, v.deep_view().len() as int) =~= v.deep_view());
    }
    acc
}

/// The measure of one stored value.
pub fn val_size(v: &StoreVal) -> (r: u64)
    ensures
        r == spec_val_size(v@),
{
    match v {
        StoreVal::App(a) => {
            let mut state: u64 = 0;
            let mut i: usize = 0;
            while i < a.local_state.len()
                invariant
                    i <= a.local_state@.len(),
                    state == spec_state_size(
                        crate::structs::state_view(a.local_state@).subrange(0, i as int),
                    ),
                decreases a.local_state@.len() - i,
            {
                proof {
                    let sv = crate::structs::state_view(a.local_state@);
                    assert(sv.subrange(0, i + 1).drop_last() =~= sv.subrange(0, i as int));
                    assert(sv[i as int] == (a.local_state@[i as int].0@, a.local_state@[i as int].1));
                }
                state = sat_add(state, sat_add(a.local_state[i].0.as_str().unicode_len() as u64, 40));
                i = i + 1;
            }
            proof {
                let sv = crate::structs::state_view(a.local_state@);
                assert(sv.subrange(0, sv.len() as int) =~= sv);
            }
            let mut hier: u64 = 0;
            let mut i: usize = 0;
            while i < a.metric_hierarchy.len()
                invariant
                    i <= a.metric_hierarchy@.len(),
                    hier == spec_hierarchy_size(
                        crate::structs::hierarchy_view(a.metric_hierarchy@).subrange(0, i as int),
                    ),
                decreases a.metric_hierarchy@.len() - i,
            {
                proof {
                    let hv = crate::structs::hierarchy_view(a.metric_hierarchy@);
                    assert(hv.subrange(0, i + 1).drop_last() =~= hv.subrange(0, i as int));
                    assert(hv[i as int] == (
                        a.metric_hierarchy@[i as int].0@,
                        a.metric_hierarchy@[i as int].1.deep_view(),
                    ));
                }
                let children = strings_size_vec(&a.metric_hierarchy[i].1);
                hier = sat_add(
                    hier,
                    sat_add(a.metric_hierarchy[i].0.as_str().unicode_len() as u64, children),
                );
                i = i + 1;
            }
            proof {
                let hv = crate::structs::hierarchy_view(a.metric_hierarchy@);
                assert(hv.subrange(0, hv.len() as int) =~= hv);
            }
            let keys: u64 = match &a.app_keys {
                Some(ks) => strings_size_keys(ks),
                None => 0,
            };
            sat_add(
                sat_add(
                    a.service_id.as_ref().unicode_len() as u64,
                    a.app_id.as_ref().unicode_len() as u64,
                ),
                sat_add(state, sat_add(hier, keys)),
            )
        },
        StoreVal::MappedId(id) => id.as_ref().unicode_len() as u64,
        StoreVal::Lock(l) => {
            let n = l.waiters.len() as u64;
            let bytes = if n > u64::MAX / 8 {
                u64::MAX
            } else {
                8 * n
            };
            sat_add(4, bytes)
        },
        StoreVal::Counter(_) => 8,
    }
}

/// The memory the pair under `key` occupies: the key's length plus the
/// stored value's measure, or the key's length alone when the value is
/// cleared or missing.
pub fn get_cache_pair_size(store: &SharedStore, key: &str) -> (r: u64)
    requires
        store.wf(),
    ensures
        r == sat_add64(
            key@.len() as u64,
            match store.contents().dom().contains(key@) {
                true => match store.contents()[key@].0 {
                    Some(v) => spec_val_size(v),
                    None => 0,
                },
                false => 0,
            },
        ),
{
    match store.get(key) {
        (Some(v), _) => sat_add(key.unicode_len() as u64, val_size(&v)),
        (None, _) => sat_add(key.unicode_len() as u64, 0),
    }
}

/// Adds `delta` to the advisory memory-used counter, initializing it when
/// missing.  A lost compare-and-swap is reported, never retried here: the
/// counter may lag and that is accepted.
pub fn update_shared_memory_size(store: &mut SharedStore, delta: i64) -> (r: Result<(), CacheError>)
    requires
        old(store).wf(),
    ensures
        final(store).wf(),
        r is Ok,
        final(store).contents().dom().contains(SHARED_MEMORY_COUNTER_KEY@),
        final(store).contents() == old(store).contents().insert(
            SHARED_MEMORY_COUNTER_KEY@,
            final(store).contents()[SHARED_MEMORY_COUNTER_KEY@],
        ),
        final(store).contents()[SHARED_MEMORY_COUNTER_KEY@].0 matches Some(
            StoreValView::Counter(_),
        ),
{
    let ghost pre = *store;
    let (memory_used, cas): (u64, u32) = match store.get(SHARED_MEMORY_COUNTER_KEY) {
        (Some(StoreVal::Counter(c)), Some(cas)) => (c, cas),
        (_, _) => {
            // The counter was never initialized or was lost: seed it.
            let seeded = store.set(
                SHARED_MEMORY_COUNTER_KEY,
                Some(StoreVal::Counter(SHARED_MEMORY_INITIAL_SIZE)),
                None,
            );
            proof {
                assert(seeded is Ok);
            }
            (SHARED_MEMORY_INITIAL_SIZE, 1)
        },
    };
    let final_size: u64 = if delta < 0 {
        let neg = if delta == i64::MIN {
            9223372036854775808u64
        } else {
            (-delta) as u64
        };
        if memory_used <= neg {
            // Memory should only ever grow while entries cannot be deleted;
            // a negative excursion falls back to the initial value.
            SHARED_MEMORY_INITIAL_SIZE
        } else {
            memory_used - neg
        }
    } else {
        sat_add(memory_used, delta as u64)
    };
    let cas_arg = if cas == 1 {
        None
    } else {
        Some(cas)
    };
    proof {
        store.lemma_cas_floor();
    }
    let w = store.set(SHARED_MEMORY_COUNTER_KEY, Some(StoreVal::Counter(final_size)), cas_arg);
    proof {
        assert(w is Ok);
        assert(store.contents() =~= pre.contents().insert(
            SHARED_MEMORY_COUNTER_KEY@,
            store.contents()[SHARED_MEMORY_COUNTER_KEY@],
        ));
    }
    Ok(())
}

/// Writes the application under `key`.  A `cas` of `0` overwrites; any other
/// value is an optimistic write that fails on a concurrent update.  On
/// success the advisory memory counter is nudged by the entry's growth; the
/// counter never blocks a set.
pub fn set_application_to_cache(store: &mut SharedStore, key: &str, app: &Application, cas: u32) -> (r:
    Result<(), CacheError>)
    requires
        old(store).wf(),
    ensures
        final(store).wf(),
        match r {
            Ok(()) => (exists|stamp: u32, cnt: (Option<StoreValView>, u32)|
                final(store).contents() == old(store).contents().insert(
                    key@,
                    (Some(StoreValView::App(app@)), stamp),
                ).insert(SHARED_MEMORY_COUNTER_KEY@, cnt)) && final(store).contents()[SHARED_MEMORY_COUNTER_KEY@].0 matches Some(StoreValView::Counter(_)),
            Err(e) => {
                &&& e == CacheError::CasMismatch
                &&& *final(store) == *old(store)
                &&& cas != 0
            },
        },
        key@ != SHARED_MEMORY_COUNTER_KEY@ && r is Ok ==> final(store).contents().dom().contains(
            key@,
        ) && final(store).contents()[key@].0 == Some(StoreValView::App(app@)),
        // the write is refused exactly when a nonzero cas does not match
        r is Err <==> (old(store).contents().dom().contains(key@) && cas != 0 && cas != old(store).contents()[key@].1),
{
    let prev = get_cache_pair_size(store, key);
    let new_size = sat_add(key.unicode_len() as u64, val_size(&StoreVal::App(app.clone())));
    let cas_arg = if cas == 0 {
        None
    } else {
        Some(cas)
    };
    match store.set(key, Some(StoreVal::App(app.clone())), cas_arg) {
        Ok(()) => {
            let ghost mid = *store;
            let ghost stamp = store.contents()[key@].1;
            let delta: i64 = if new_size >= prev {
                let d = new_size - prev;
                if d > i64::MAX as u64 {
                    i64::MAX
                } else {
                    d as i64
                }
            } else {
                let d = prev - new_size;
                if d > i64::MAX as u64 {
                    -i64::MAX
                } else {
                    -(d as i64)
                }
            };
            // The counter is advisory; in this model one try always lands.
            let u = update_shared_memory_size(store, delta);
            proof {
                assert(u is Ok);
                let cnt = store.contents()[SHARED_MEMORY_COUNTER_KEY@];
                assert(store.contents() == old(store).contents().insert(
                    key@,
                    (Some(StoreValView::App(app@)), stamp),
                ).insert(SHARED_MEMORY_COUNTER_KEY@, cnt));
            }
            Ok(())
        },
        Err(StoreStatus::CasMismatch) => Err(CacheError::CasMismatch),
    }
}

/// Clears the application under `key`.  True deletion is unavailable in the
/// store: clearing the value suffices, at the cost of a leaked key slot.
pub fn remove_application_from_cache(store: &mut SharedStore, key: &str)
    requires
        old(store).wf(),
    ensures
        final(store).wf(),
        final(store).contents().dom().contains(key@),
        final(store).contents()[key@].0 is None,
        final(store).contents() == old(store).contents().insert(
            key@,
            final(store).contents()[key@],
        ),
{
    let r = store.set(key, None, None);
    proof {
        assert(r is Ok);
    }
}
} // verus!
