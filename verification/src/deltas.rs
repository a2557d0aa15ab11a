use vstd::prelude::*;

use crate::configuration::DeltaStoreConfig;
use crate::configuration::FlushMode;
use crate::kv::kv_find;
use crate::kv::kv_has_key;
use crate::kv::kv_keys_unique;
use crate::kv::kv_set_at;
use crate::kv::lemma_sfind;
use crate::kv::lemma_sfind_push;
use crate::kv::lemma_sfind_update;
use crate::kv::sfind;
use crate::kv::vkv_map;
use crate::structs::metrics_view;
use crate::structs::AppIdentifier;
use crate::structs::Metrics;
use crate::structs::ThreescaleData;
use crate::structs::UsageReport;
use crate::strutil::sat_add;
use crate::strutil::sat_add64;
use crate::strutil::str_eq;
use vstd::string::StringExecFns;

verus! {

/// Early sketch of a per-worker delta holder; kept as a stub interface.
#[derive(Debug)]
pub struct CacheDeltas {
    pub last_update: u64,
    pub deltas: Vec<(String, UsageReport)>,
    pub count: i32,
}

impl CacheDeltas {
    pub fn update_cache_deltas(&self, _threescale: &ThreescaleData) -> (r: bool)
        ensures
            r,
    {
        true
    }

    pub fn flush_deltas(&self) -> (r: bool)
        ensures
            r,
    {
        true
    }
}

/// Whether the delta store asks for a flush after an update.
#[derive(Clone, Copy, Debug, PartialEq, Eq, Structural)]
pub enum DeltaStoreState {
    Flush,
    Idle,
}

/// Modelled heap costs of one new delta entry, standing in for the
/// `size_of`-based accounting: a string header, a counter, a map header and
/// an identifier.
pub const STRING_COST: u64 = 24;
pub const U64_COST: u64 = 8;
pub const MAP_COST: u64 = 48;
pub const APP_ID_COST: u64 = 56;

/// One service's pending deltas: each application's accumulated hits per
/// metric.  Applications are keyed by their primary string.
pub type ServiceDeltas = Vec<(AppIdentifier, Metrics)>;

/// The character-level value of one service's deltas.
pub open spec fn bucket_view(s: Seq<(AppIdentifier, Metrics)>) -> Seq<
    (Seq<char>, Seq<(Seq<char>, u64)>),
> {
    s.map_values(|p: (AppIdentifier, Metrics)| (p.0@.primary(), metrics_view(p.1@)))
}

/// The character-level value of the whole store.
pub open spec fn deltas_view(s: Seq<(String, ServiceDeltas)>) -> Seq<
    (Seq<char>, Seq<(Seq<char>, Seq<(Seq<char>, u64)>)>),
> {
    s.map_values(|p: (String, ServiceDeltas)| (p.0@, bucket_view(p.1@)))
}

/// The accumulated hits under a metric in a view-level metrics list, zero
/// when absent.
pub open spec fn metric_at(ms: Seq<(Seq<char>, u64)>, m: Seq<char>) -> u64 {
    if sfind(ms, m) >= 0 {
        ms[sfind(ms, m)].1
    } else {
        0
    }
}

/// The accumulated hits for `(service_key, app_primary, metric)`, zero
/// wherever the path is absent.
pub open spec fn lookup_delta(
    dv: Seq<(Seq<char>, Seq<(Seq<char>, Seq<(Seq<char>, u64)>)>)>,
    skey: Seq<char>,
    pk: Seq<char>,
    m: Seq<char>,
) -> u64 {
    if sfind(dv, skey) >= 0 {
        let b = dv[sfind(dv, skey)].1;
        if sfind(b, pk) >= 0 {
            metric_at(b[sfind(b, pk)].1, m)
        } else {
            0
        }
    } else {
        0
    }
}

/// A metrics list after folding in new hits, metric by metric in order:
/// known metrics accumulate saturating, new ones are appended.
pub open spec fn merge_metrics(
    ms: Seq<(Seq<char>, u64)>,
    add: Seq<(Seq<char>, u64)>,
) -> Seq<(Seq<char>, u64)>
    decreases add.len(),
{
    if add.len() == 0 {
        ms
    } else {
        let prev = merge_metrics(ms, add.drop_last());
        let m = add.last().0;
        let h = add.last().1;
        let i = sfind(prev, m);
        if i >= 0 {
            prev.update(i, (m, sat_add64(prev[i].1, h)))
        } else {
            prev.push((m, h))
        }
    }
}

/// What merging does to each metric: the added ones accumulate, the rest
/// stay.
pub proof fn lemma_merge_metrics(ms: Seq<(Seq<char>, u64)>, add: Seq<(Seq<char>, u64)>, m: Seq<char>)
    requires
        forall|x: int, y: int| 0 <= x < y < add.len() ==> (#[trigger] add[x]).0 != (#[trigger] add[y]).0,
    ensures
        sfind(add, m) >= 0 ==> metric_at(merge_metrics(ms, add), m) == sat_add64(
            metric_at(ms, m),
            add[sfind(add, m)].1,
        ),
        sfind(add, m) < 0 ==> metric_at(merge_metrics(ms, add), m) == metric_at(ms, m),
    decreases add.len(),
{
    lemma_sfind(add, m);
    if add.len() > 0 {
        let a = add.drop_last();
        assert(add =~= a.push(add.last()));
        assert(forall|x: int, y: int| 0 <= x < y < a.len()
            ==> (#[trigger] a[x]).0 != (#[trigger] a[y]).0);
        lemma_merge_metrics(ms, a, m);
        lemma_sfind(a, m);
        let prev = merge_metrics(ms, a);
        let lm = add.last().0;
        let lh = add.last().1;
        let i = sfind(prev, lm);
        lemma_sfind(prev, lm);
        lemma_sfind(prev, m);
        lemma_sfind_push(a, add.last(), m);
        if i >= 0 {
            lemma_sfind_update(prev, i, (lm, sat_add64(prev[i].1, lh)), m);
        } else {
            lemma_sfind_push(prev, (lm, lh), m);
        }
        if m == lm {
            // The pair for `m` is the appended one; `m` cannot occur earlier.
            assert forall|j: int| 0 <= j < a.len() implies (#[trigger] a[j]).0 != m by {
                assert(a[j] == add[j]);
                assert(add[j].0 != add.last().0);
            }
            lemma_sfind(a, m);
            assert(sfind(a, m) < 0);
            assert(metric_at(prev, m) == metric_at(ms, m));
            assert(sfind(add, m) >= 0);
            assert(add[sfind(add, m)] == add.last()) by {
                if sfind(add, m) < add.len() - 1 {
                    assert(add[sfind(add, m)].0 != add.last().0);
                    assert(false);
                }
            }
            if i >= 0 {
                assert(sfind(prev, m) == i);
                assert(metric_at(prev, m) == prev[i].1);
                let merged = prev.update(i, (m, sat_add64(prev[i].1, lh)));
                assert(sfind(merged, m) == i);
                assert(metric_at(merged, m) == sat_add64(metric_at(ms, m), lh));
            } else {
                let merged = prev.push((m, lh));
                assert(sfind(merged, m) == prev.len());
                assert(metric_at(prev, m) == 0);
                assert(metric_at(merged, m) == lh);
                assert(sat_add64(0, lh) == lh);
            }
        } else {
            assert(sfind(add, m) == sfind(a, m));
            if sfind(a, m) >= 0 {
                assert(a[sfind(a, m)] == add[sfind(add, m)]);
            }
            // The step touches only `lm`'s slot, so `m`'s value survives.
            if i >= 0 {
                assert(prev[i].0 == lm);
                if sfind(prev, m) >= 0 {
                    assert(sfind(prev, m) != i);
                    assert(prev.update(i, (lm, sat_add64(prev[i].1, lh)))[sfind(prev, m)] == prev[sfind(prev, m)]);
                }
            } else {
                if sfind(prev, m) >= 0 {
                    assert(prev.push((lm, lh))[sfind(prev, m)] == prev[sfind(prev, m)]);
                }
            }
        }
    }
}

/// How one request's data moves the store's deltas: each of its metrics
/// accumulates exactly its hits under the request's service key and
/// application, saturating, and every other delta is untouched.
pub open spec fn delta_update_rel(
    pre: Seq<(Seq<char>, Seq<(Seq<char>, Seq<(Seq<char>, u64)>)>)>,
    post: Seq<(Seq<char>, Seq<(Seq<char>, Seq<(Seq<char>, u64)>)>)>,
    skey: Seq<char>,
    pk: Seq<char>,
    mv: Seq<(Seq<char>, u64)>,
) -> bool {
    &&& forall|m: Seq<char>|
        sfind(mv, m) >= 0 ==> lookup_delta(post, skey, pk, m) == sat_add64(
            lookup_delta(pre, skey, pk, m),
            mv[sfind(mv, m)].1,
        )
    &&& forall|sk: Seq<char>, pk2: Seq<char>, m: Seq<char>|
        sk != skey || pk2 != pk || sfind(mv, m) < 0 ==> lookup_delta(post, sk, pk2, m)
            == lookup_delta(pre, sk, pk2, m)
}

/// The in-memory accumulator of consumed hits pending a flush: a service to
/// application to metric hierarchy mirroring the shape of a bulk report.
#[derive(Debug)]
pub struct DeltaStore {
    /// Seconds-since-epoch of the last flush, if any.
    pub last_update: Option<u64>,
    /// Pending deltas per service key (`"{service_id}_{service_token}"`).
    pub deltas: Vec<(String, ServiceDeltas)>,
    /// A value proportional to the memory the deltas occupy; an
    /// underestimate meant only to bound the store, never to account.
    pub memory_allocated: u64,
    pub config: DeltaStoreConfig,
}

pub open spec fn bucket_wf(s: Seq<(AppIdentifier, Metrics)>) -> bool {
    &&& forall|x: int, y: int|
        0 <= x < y < s.len() ==> (#[trigger] s[x]).0@.primary() != (#[trigger] s[y]).0@.primary()
    &&& forall|i: int| 0 <= i < s.len() ==> kv_keys_unique((#[trigger] s[i]).1@)
}

impl DeltaStore {
    pub open spec fn wf(&self) -> bool {
        &&& kv_keys_unique(self.deltas@)
        &&& forall|i: int| 0 <= i < self.deltas@.len() ==> bucket_wf((#[trigger] self.deltas@[i]).1@)
    }

    pub open spec fn view_of(&self) -> Seq<(Seq<char>, Seq<(Seq<char>, Seq<(Seq<char>, u64)>)>)> {
        deltas_view(self.deltas@)
    }
}

fn bucket_find(bucket: &ServiceDeltas, primary: &str) -> (r: Option<usize>)
    ensures
        match r {
            Some(i) => i < bucket@.len() && bucket@[i as int].0@.primary() == primary@,
            None => forall|i: int|
                0 <= i < bucket@.len() ==> (#[trigger] bucket@[i]).0@.primary() != primary@,
        },
{
    let mut i: usize = 0;
    while i < bucket.len()
        invariant
            i <= bucket@.len(),
            forall|j: int| 0 <= j < i ==> (#[trigger] bucket@[j]).0@.primary() != primary@,
        decreases bucket@.len() - i,
    {
        if str_eq(bucket[i].0.as_ref(), primary) {
            return Some(i);
        }
        i = i + 1;
    }
    None
}

/// Folds the request's hits into one application's pending deltas, returning
/// the modelled growth in memory.
fn update_app_delta(app_delta: &mut Metrics, threescale: &ThreescaleData) -> (alloc: u64)
    requires
        kv_keys_unique(old(app_delta)@),
        threescale.wf(),
    ensures
        kv_keys_unique(final(app_delta)@),
        metrics_view(final(app_delta)@) == merge_metrics(
            metrics_view(old(app_delta)@),
            metrics_view(threescale.metrics@),
        ),
{
    let ghost mv = metrics_view(threescale.metrics@);
    let ghost base = metrics_view(old(app_delta)@);
    let mut alloc: u64 = 0;
    let mut i: usize = 0;
    proof {
        assert(mv.subrange(0, 0) =~= Seq::<(Seq<char>, u64)>::empty());
    }
    while i < threescale.metrics.len()
        invariant
            i <= threescale.metrics@.len(),
            mv == metrics_view(threescale.metrics@),
            mv.len() == threescale.metrics@.len(),
            base == metrics_view(old(app_delta)@),
            kv_keys_unique(app_delta@),
            metrics_view(app_delta@) == merge_metrics(base, mv.subrange(0, i as int)),
        decreases threescale.metrics@.len() - i,
    {
        proof {
            assert(mv[i as int] == (threescale.metrics@[i as int].0@, threescale.metrics@[i as int].1));
            assert(mv.subrange(0, i + 1).drop_last() =~= mv.subrange(0, i as int));
            assert(mv.subrange(0, i + 1).last() == mv[i as int]);
        }
        let metric = &threescale.metrics[i].0;
        let value = threescale.metrics[i].1;
        let ghost cur = metrics_view(app_delta@);
        proof {
            lemma_sfind(cur, metric@);
        }
        match kv_find(app_delta, metric.as_str()) {
            Some(j) => {
                proof {
                    if sfind(cur, metric@) != j as int {
                        assert(cur[j as int] == (app_delta@[j as int].0@, app_delta@[j as int].1));
                        assert(cur[sfind(cur, metric@)]
                            == (app_delta@[sfind(cur, metric@)].0@, app_delta@[sfind(cur, metric@)].1));
                        assert(false);
                    }
                }
                let ghost pre = app_delta@;
                let newv = sat_add(app_delta[j].1, value);
                kv_set_at(app_delta, j, newv);
                proof {
                    crate::kv::lemma_kv_map_update(pre, j as int, (pre[j as int].0, newv));
                    assert(metrics_view(app_delta@) =~= cur.update(
                        j as int,
                        (metric@, sat_add64(cur[j as int].1, value)),
                    ));
                }
            },
            None => {
                proof {
                    if sfind(cur, metric@) >= 0 {
                        assert(cur[sfind(cur, metric@)]
                            == (app_delta@[sfind(cur, metric@)].0@, app_delta@[sfind(cur, metric@)].1));
                        assert(kv_has_key(app_delta@, metric@));
                        assert(false);
                    }
                }
                let ghost pre = app_delta@;
                app_delta.push((metric.clone(), value));
                alloc = sat_add(alloc, STRING_COST + U64_COST);
                proof {
                    assert(metrics_view(app_delta@) =~= cur.push((metric@, value)));
                    assert forall|x: int, y: int|
                        0 <= x < y < app_delta@.len() implies app_delta@[x].0@
                        != app_delta@[y].0@ by {
                        if y == app_delta@.len() - 1 {
                            if pre[x].0@ == metric@ {
                                assert(kv_has_key(pre, metric@));
                                assert(false);
                            }
                        }
                    }
                }
            },
        }
        i = i + 1;
    }
    proof {
        assert(mv.subrange(0, mv.len() as int) =~= mv);
    }
    alloc
}

impl DeltaStore {
    /// Folds one request's data into the store, and says whether the store
    /// has grown past its capacity and must flush.  Each named metric of the
    /// service's application accumulates exactly the request's hits; every
    /// other delta is untouched.
    pub fn update_delta_store(&mut self, threescale: &ThreescaleData) -> (r: DeltaStoreState)
        requires
            old(self).wf(),
            threescale.wf(),
        ensures
            final(self).wf(),
            final(self).config == old(self).config,
            delta_update_rel(
                old(self).view_of(),
                final(self).view_of(),
                crate::proxy::cache_key_string(threescale.service_id@, threescale.service_token@),
                threescale.app_id@.primary(),
                metrics_view(threescale.metrics@),
            ),
            old(self).config.flush_mode == FlushMode::Periodical ==> final(self).memory_allocated
                == old(self).memory_allocated && r == DeltaStoreState::Idle,
            old(self).config.flush_mode != FlushMode::Periodical ==> (
            final(self).memory_allocated >= old(self).memory_allocated && (r
                == DeltaStoreState::Flush <==> final(self).memory_allocated
                >= old(self).config.capacity)),
    {
        let mut skey = threescale.service_id.as_ref().to_owned();
        skey.append("_");
        skey.append(threescale.service_token.as_ref());
        proof {
            reveal_strlit("_");
            assert(skey@ =~= crate::proxy::cache_key_string(
                threescale.service_id@,
                threescale.service_token@,
            ));
        }
        let primary = threescale.app_id.as_ref();
        let ghost pre_dv = deltas_view(self.deltas@);
        proof {
            lemma_sfind(pre_dv, skey@);
        }
        let delta_increase: u64;
        match kv_find(&self.deltas, skey.as_str()) {
            Some(si) => {
                proof {
                    assert(pre_dv[si as int] == (self.deltas@[si as int].0@, bucket_view(self.deltas@[si as int].1@)));
                    if sfind(pre_dv, skey@) != si as int {
                        assert(pre_dv[sfind(pre_dv, skey@)]
                            == (self.deltas@[sfind(pre_dv, skey@)].0@, bucket_view(self.deltas@[sfind(pre_dv, skey@)].1@)));
                        assert(false);
                    }
                }
                let ghost pre_list = self.deltas@;
                let mut pair = self.deltas.remove(si);
                let ghost pre_bucket = bucket_view(pair.1@);
                proof {
                    lemma_sfind(pre_bucket, primary@);
                }
                let ghost mv = metrics_view(threescale.metrics@);
                let app_existed: bool;
                match bucket_find(&pair.1, primary) {
                    Some(ai) => {
                        proof {
                            assert(pre_bucket[ai as int]
                                == (pair.1@[ai as int].0@.primary(), metrics_view(pair.1@[ai as int].1@)));
                            if sfind(pre_bucket, primary@) != ai as int {
                                assert(pre_bucket[sfind(pre_bucket, primary@)]
                                    == (pair.1@[sfind(pre_bucket, primary@)].0@.primary(),
                                        metrics_view(pair.1@[sfind(pre_bucket, primary@)].1@)));
                                assert(false);
                            }
                        }
                        let ghost pre_apps = pair.1@;
                        let mut app_pair = pair.1.remove(ai);
                        let alloc = update_app_delta(&mut app_pair.1, threescale);
                        pair.1.insert(ai, app_pair);
                        delta_increase = alloc;
                        app_existed = true;
                        proof {
                            assert(bucket_view(pair.1@) =~= pre_bucket.update(
                                ai as int,
                                (primary@, merge_metrics(pre_bucket[ai as int].1, mv)),
                            ));
                            assert(bucket_wf(pair.1@)) by {
                                assert(forall|i: int| 0 <= i < pair.1@.len() && i != ai as int
                                    ==> pair.1@[i] == pre_apps[i]);
                                assert(pair.1@[ai as int].0@.primary() == pre_apps[ai as int].0@.primary());
                            }
                        }
                    },
                    None => {
                        let app_clone = threescale.app_id.clone();
                        let metrics_clone = clone_metrics(&threescale.metrics);
                        pair.1.push((app_clone, metrics_clone));
                        delta_increase = sat_add(
                            APP_ID_COST + MAP_COST,
                            sat_mul_cost(threescale.metrics.len()),
                        );
                        app_existed = false;
                        proof {
                            assert(bucket_view(pair.1@) =~= pre_bucket.push((primary@, mv)));
                            assert(sfind(pre_bucket, primary@) < 0) by {
                                lemma_sfind(pre_bucket, primary@);
                                if sfind(pre_bucket, primary@) >= 0 {
                                    assert(pre_bucket[sfind(pre_bucket, primary@)]
                                        == (pair.1@[sfind(pre_bucket, primary@)].0@.primary(),
                                            metrics_view(pair.1@[sfind(pre_bucket, primary@)].1@)));
                                }
                            }
                            assert(bucket_wf(pair.1@)) by {
                                assert forall|x: int, y: int|
                                    0 <= x < y < pair.1@.len() implies pair.1@[x].0@.primary()
                                    != pair.1@[y].0@.primary() by {
                                    if y == pair.1@.len() - 1 {
                                        assert(pre_bucket[x]
                                            == (pair.1@[x].0@.primary(), metrics_view(pair.1@[x].1@)));
                                        lemma_sfind(pre_bucket, primary@);
                                    }
                                }
                            }
                        }
                    },
                }
                let ghost b2 = bucket_view(pair.1@);
                let ghost merged_val = if app_existed {
                    merge_metrics(pre_bucket[sfind(pre_bucket, primary@)].1, mv)
                } else {
                    mv
                };
                self.deltas.insert(si, pair);
                proof {
                    assert(self.deltas@ =~= pre_list.update(
                        si as int,
                        (pre_list[si as int].0, self.deltas@[si as int].1),
                    ));
                    let dv2 = deltas_view(self.deltas@);
                    assert(dv2 =~= pre_dv.update(si as int, (skey@, b2)));
                    assert(self.wf()) by {
                        assert(forall|i: int| 0 <= i < self.deltas@.len() && i != si as int
                            ==> self.deltas@[i] == pre_list[i]);
                        assert(forall|x: int, y: int| 0 <= x < y < self.deltas@.len()
                            ==> (#[trigger] self.deltas@[x]).0@ != (#[trigger] self.deltas@[y]).0@);
                    }
                    let ai = sfind(pre_bucket, primary@);
                    lemma_sfind(pre_bucket, primary@);
                    assert forall|m: Seq<char>| sfind(mv, m) >= 0 implies lookup_delta(
                        dv2,
                        skey@,
                        primary@,
                        m,
                    ) == sat_add64(
                        lookup_delta(pre_dv, skey@, primary@, m),
                        mv[sfind(mv, m)].1,
                    ) by {
                        lemma_sfind_update(pre_dv, si as int, (skey@, b2), skey@);
                        if app_existed {
                            lemma_sfind_update(
                                pre_bucket,
                                ai,
                                (primary@, merged_val),
                                primary@,
                            );
                            lemma_merge_metrics(pre_bucket[ai].1, mv, m);
                        } else {
                            lemma_sfind_push(pre_bucket, (primary@, mv), primary@);
                            assert(b2[pre_bucket.len() as int].1 == mv);
                            lemma_sfind(mv, m);
                            assert(metric_at(mv, m) == mv[sfind(mv, m)].1);
                            assert(lookup_delta(pre_dv, skey@, primary@, m) == 0);
                            assert(sat_add64(0, mv[sfind(mv, m)].1) == mv[sfind(mv, m)].1);
                        }
                    }
                    assert forall|sk: Seq<char>, pk2: Seq<char>, m: Seq<char>|
                        sk != skey@ || pk2 != primary@ || sfind(mv, m) < 0 implies lookup_delta(
                        dv2,
                        sk,
                        pk2,
                        m,
                    ) == lookup_delta(pre_dv, sk, pk2, m) by {
                        lemma_sfind(pre_dv, sk);
                        lemma_sfind_update(pre_dv, si as int, (skey@, b2), sk);
                        if sk == skey@ {
                            lemma_sfind(pre_bucket, pk2);
                            if app_existed {
                                lemma_sfind_update(pre_bucket, ai, (primary@, merged_val), pk2);
                                if pk2 == primary@ {
                                    lemma_merge_metrics(pre_bucket[ai].1, mv, m);
                                } else {
                                    if sfind(pre_bucket, pk2) >= 0 {
                                        assert(sfind(pre_bucket, pk2) != ai);
                                        assert(b2[sfind(pre_bucket, pk2)]
                                            == pre_bucket[sfind(pre_bucket, pk2)]);
                                    }
                                }
                            } else {
                                lemma_sfind_push(pre_bucket, (primary@, mv), pk2);
                                if pk2 == primary@ {
                                    // the app is new and the metric absent
                                    lemma_sfind(mv, m);
                                    assert(metric_at(mv, m) == 0);
                                } else {
                                    if sfind(pre_bucket, pk2) >= 0 {
                                        assert(b2[sfind(pre_bucket, pk2)]
                                            == pre_bucket[sfind(pre_bucket, pk2)]);
                                    }
                                }
                            }
                        } else {
                            if sfind(pre_dv, sk) >= 0 {
                                assert(sfind(pre_dv, sk) != si as int);
                                assert(dv2[sfind(pre_dv, sk)] == pre_dv[sfind(pre_dv, sk)]);
                            }
                        }
                    }
                }
            },
            None => {
                proof {
                    if sfind(pre_dv, skey@) >= 0 {
                        assert(pre_dv[sfind(pre_dv, skey@)]
                            == (self.deltas@[sfind(pre_dv, skey@)].0@, bucket_view(self.deltas@[sfind(pre_dv, skey@)].1@)));
                        assert(kv_has_key(self.deltas@, skey@));
                        assert(false);
                    }
                }
                let ghost pre_list = self.deltas@;
                let ghost mv = metrics_view(threescale.metrics@);
                let ghost skey_v = skey@;
                let app_clone = threescale.app_id.clone();
                let metrics_clone = clone_metrics(&threescale.metrics);
                let mut bucket: ServiceDeltas = Vec::new();
                bucket.push((app_clone, metrics_clone));
                let ghost b0 = bucket_view(bucket@);
                self.deltas.push((skey, bucket));
                delta_increase = sat_add(
                    STRING_COST + MAP_COST + MAP_COST + APP_ID_COST,
                    sat_mul_cost(threescale.metrics.len()),
                );
                proof {
                    assert forall|x: int, y: int|
                        0 <= x < y < self.deltas@.len() implies self.deltas@[x].0@
                        != self.deltas@[y].0@ by {
                        if y == self.deltas@.len() - 1 {
                            if pre_list[x].0@ == self.deltas@[y].0@ {
                                assert(kv_has_key(pre_list, self.deltas@[y].0@));
                                assert(false);
                            }
                        }
                    }
                    assert(b0 =~= seq![(primary@, mv)]);
                    let dv2 = deltas_view(self.deltas@);
                    assert(dv2 =~= pre_dv.push((skey_v, b0)));
                    assert(self.wf()) by {
                        assert(forall|i: int| 0 <= i < pre_list.len()
                            ==> #[trigger] self.deltas@[i] == pre_list[i]);
                        assert(bucket_wf(self.deltas@[self.deltas@.len() - 1].1@));
                    }
                    assert(sfind(pre_dv, skey_v) < 0);
                    assert forall|m: Seq<char>| sfind(mv, m) >= 0 implies lookup_delta(
                        dv2,
                        skey_v,
                        primary@,
                        m,
                    ) == sat_add64(
                        lookup_delta(pre_dv, skey_v, primary@, m),
                        mv[sfind(mv, m)].1,
                    ) by {
                        lemma_sfind_push(pre_dv, (skey_v, b0), skey_v);
                        assert(sfind(dv2, skey_v) == pre_dv.len());
                        assert(dv2[pre_dv.len() as int].1 == b0);
                        assert(sfind(b0, primary@) == 0) by {
                            assert(b0.first().0 == primary@);
                        }
                        assert(b0[0].1 == mv);
                        lemma_sfind(mv, m);
                        assert(metric_at(mv, m) == mv[sfind(mv, m)].1);
                        assert(lookup_delta(pre_dv, skey_v, primary@, m) == 0);
                        assert(sat_add64(0, mv[sfind(mv, m)].1) == mv[sfind(mv, m)].1);
                    }
                    assert forall|sk: Seq<char>, pk2: Seq<char>, m: Seq<char>|
                        sk != skey_v || pk2 != primary@ || sfind(mv, m) < 0 implies lookup_delta(
                        dv2,
                        sk,
                        pk2,
                        m,
                    ) == lookup_delta(pre_dv, sk, pk2, m) by {
                        lemma_sfind(pre_dv, sk);
                        lemma_sfind_push(pre_dv, (skey_v, b0), sk);
                        if sk == skey_v {
                            assert(sfind(dv2, sk) == pre_dv.len());
                            assert(lookup_delta(pre_dv, sk, pk2, m) == 0);
                            if pk2 == primary@ {
                                assert(sfind(b0, primary@) == 0) by {
                                    assert(b0.first().0 == primary@);
                                }
                                lemma_sfind(mv, m);
                                assert(metric_at(mv, m) == 0);
                            } else {
                                lemma_sfind(b0, pk2);
                                if sfind(b0, pk2) >= 0 {
                                    assert(b0[sfind(b0, pk2)].0 == pk2);
                                    assert(false);
                                }
                            }
                        } else {
                            if sfind(pre_dv, sk) >= 0 {
                                assert(dv2[sfind(pre_dv, sk)] == pre_dv[sfind(pre_dv, sk)]);
                            }
                        }
                    }
                }
            },
        }
        if !matches!(self.config.flush_mode, FlushMode::Periodical) {
            self.memory_allocated = sat_add(self.memory_allocated, delta_increase);
            if self.memory_allocated >= self.config.capacity {
                DeltaStoreState::Flush
            } else {
                DeltaStoreState::Idle
            }
        } else {
            DeltaStoreState::Idle
        }
    }
}

/// The modelled heap cost of `n` metric entries.
fn sat_mul_cost(n: usize) -> (r: u64)
    ensures
        r == if n as int * 32 <= u64::MAX { (n as int * 32) as u64 } else { u64::MAX },
{
    if n as u64 > u64::MAX / 32 {
        u64::MAX
    } else {
        (n as u64) * 32
    }
}

/// A base accumulated through a sequence of saturating additions.
pub open spec fn sat_fold(base: u64, hs: Seq<u64>) -> u64
    decreases hs.len(),
{
    if hs.len() == 0 {
        base
    } else {
        sat_add64(sat_fold(base, hs.drop_last()), hs.last())
    }
}

/// Feeding a metric's hits one message at a time accumulates exactly their
/// sum, as long as the sum stays within `u64`.  Each `update_delta_store`
/// call adds one message's hits to `lookup_delta` by its contract; this
/// closes the chain of those additions.
pub proof fn lemma_delta_store_additive(base: u64, hs: Seq<u64>)
    requires
        base + crate::utils::sum64(hs) <= u64::MAX,
    ensures
        sat_fold(base, hs) == base + crate::utils::sum64(hs),
    decreases hs.len(),
{
    crate::utils::lemma_sum64_nonneg(hs);
    if hs.len() > 0 {
        crate::utils::lemma_sum64_nonneg(hs.drop_last());
        lemma_delta_store_additive(base, hs.drop_last());
    }
}

/// A fresh copy of a metrics list.
pub fn clone_metrics(m: &Metrics) -> (r: Metrics)
    ensures
        metrics_view(r@) == metrics_view(m@),
        kv_keys_unique(m@) ==> kv_keys_unique(r@),
{
    let mut out: Metrics = Vec::new();
    let mut i: usize = 0;
    while i < m.len()
        invariant
            i <= m@.len(),
            out@.len() == i,
            forall|j: int| 0 <= j < i ==> (#[trigger] out@[j]).0@ == m@[j].0@ && out@[j].1
                == m@[j].1,
        decreases m@.len() - i,
    {
        let pair = &m[i];
        out.push((pair.0.clone(), pair.1));
        i = i + 1;
    }
    proof {
        assert(metrics_view(out@) =~= metrics_view(m@));
        if kv_keys_unique(m@) {
            assert forall|x: int, y: int| 0 <= x < y < out@.len() implies out@[x].0@
                != out@[y].0@ by {
                assert(m@[x].0@ != m@[y].0@);
            }
        }
    }
    out
}

} // verus!
