use vstd::prelude::*;

use crate::kv::kv_find;
use crate::kv::kv_has_key;
use crate::kv::kv_keys_unique;
use crate::kv::kv_map;
use crate::kv::kv_set_at;
use crate::kv::lemma_kv_map_index;
use crate::kv::lemma_kv_map_update;
use crate::proxy::set_application_to_cache;
use crate::proxy::CacheKey;
use crate::store::SharedStore;
use crate::store::StoreValView;
use crate::structs::metrics_view;
use crate::structs::Application;
use crate::structs::Period;
use crate::structs::PeriodWindow;
use crate::structs::ThreescaleData;
use crate::structs::UsageReport;
use crate::strutil::sat_add;
use crate::strutil::sat_add64;
use crate::strutil::str_eq;
use vstd::arithmetic::div_mod::lemma_div_pos_is_pos;
use vstd::arithmetic::div_mod::lemma_fundamental_div_mod;
use vstd::arithmetic::div_mod::lemma_mod_division_less_than_divisor;

verus! {

/// Why the limit engine refused a request.
#[derive(Clone, Copy, Debug, PartialEq, Eq, Structural)]
pub enum UpdateMetricsError {
    /// Rolling a window forward would overflow the time arithmetic.
    DurationOverflow,
    /// The request exceeds the quota left in some metric's window.
    RateLimited,
    /// Writing the updated application back to the cache lost a race.
    CacheUpdateFail,
}

/// Whether rolling `u` forward to cover `now` stays within `u64` time.
pub open spec fn roll_ok(u: UsageReport, now: u64) -> bool {
    let p = u.period_window;
    if p.window != Period::Eternity && p.end < now {
        let secs = p.window.spec_as_secs() as int;
        let n = (now - p.start) as int / secs;
        p.end + n * secs <= u64::MAX
    } else {
        true
    }
}

/// A usage report with its window rolled forward to cover `now`: expired
/// windows advance by whole periods and the quota resets; anything else is
/// untouched.
pub open spec fn roll_window(u: UsageReport, now: u64) -> UsageReport {
    let p = u.period_window;
    if p.window != Period::Eternity && p.end < now {
        let secs = p.window.spec_as_secs() as int;
        let n = (now - p.start) as int / secs;
        UsageReport {
            period_window: PeriodWindow {
                start: (p.start + n * secs) as u64,
                end: (p.end + n * secs) as u64,
                window: p.window,
            },
            left_hits: u.max_value,
            max_value: u.max_value,
        }
    } else {
        u
    }
}

/// How one limit-engine pass ends.
#[derive(Clone, Copy, Debug, PartialEq, Eq, Structural)]
pub enum SpecLimitOutcome {
    Authorized,
    RateLimited,
    Overflow,
}

/// The limit engine's effect on the quota state, one metric at a time and in
/// order: an unknown metric is skipped (authority for it is upstream), an
/// expired window rolls forward, a request beyond the quota left stops the
/// pass rate-limited, and otherwise the quota is consumed.
pub open spec fn spec_limit_check(
    state: Map<Seq<char>, UsageReport>,
    metrics: Seq<(Seq<char>, u64)>,
    now: u64,
) -> (Map<Seq<char>, UsageReport>, SpecLimitOutcome)
    decreases metrics.len(),
{
    if metrics.len() == 0 {
        (state, SpecLimitOutcome::Authorized)
    } else {
        let prefix = spec_limit_check(state, metrics.drop_last(), now);
        if prefix.1 != SpecLimitOutcome::Authorized {
            prefix
        } else {
            let st = prefix.0;
            let m = metrics.last().0;
            let hits = metrics.last().1;
            if !st.dom().contains(m) {
                (st, SpecLimitOutcome::Authorized)
            } else {
                let u = st[m];
                if !roll_ok(u, now) {
                    (st, SpecLimitOutcome::Overflow)
                } else {
                    let rolled = roll_window(u, now);
                    if rolled.left_hits < hits {
                        (st.insert(m, rolled), SpecLimitOutcome::RateLimited)
                    } else {
                        (
                            st.insert(
                                m,
                                UsageReport {
                                    left_hits: (rolled.left_hits - hits) as u64,
                                    ..rolled
                                },
                            ),
                            SpecLimitOutcome::Authorized,
                        )
                    }
                }
            }
        }
    }
}

/// Rolling keeps the window's length and the quota's bound, resets the quota
/// exactly when the window had expired, and leaves the window covering `now`
/// whenever `now` had not run ahead of the machine's time range nor behind
/// the window's start, the one boundary instant `now == end` aside.
/// For positive `d` and nonnegative `x`, the quotient scales back to within
/// one divisor of `x`.
pub proof fn lemma_div_mul_bounds(x: int, d: int)
    requires
        x >= 0,
        d > 0,
    ensures
        0 <= (x / d) * d <= x,
        x < (x / d) * d + d,
{
    lemma_fundamental_div_mod(x, d);
    lemma_mod_division_less_than_divisor(x, d);
    lemma_div_pos_is_pos(x, d);
    assert(d * (x / d) == (x / d) * d) by (nonlinear_arith);
    assert((x / d) * d >= 0) by (nonlinear_arith)
        requires
            x / d >= 0,
            d > 0,
    ;
}

pub proof fn lemma_roll_window(u: UsageReport, now: u64)
    requires
        u.wf(),
        roll_ok(u, now),
    ensures
        roll_window(u, now).wf(),
        roll_window(u, now).max_value == u.max_value,
        roll_window(u, now).period_window.window == u.period_window.window,
        u.period_window.end < now ==> u.period_window.window != Period::Eternity
            ==> roll_window(u, now).left_hits == u.max_value,
        u.period_window.window != Period::Eternity && u.period_window.start <= now && now
            != u.period_window.end && roll_ok(u, now) ==> {
            &&& roll_window(u, now).period_window.start <= now < roll_window(u, now).period_window.end
            &&& roll_window(u, now).period_window.end - roll_window(u, now).period_window.start
                == u.period_window.window.spec_as_secs()
        },
        u.period_window.window != Period::Eternity && u.period_window.end < now ==> {
            let k = (now - u.period_window.start) as int / u.period_window.window.spec_as_secs() as int;
            &&& roll_window(u, now).period_window.start == u.period_window.start + k
                * u.period_window.window.spec_as_secs()
            &&& roll_window(u, now).left_hits == u.max_value
        },
{
    let p = u.period_window;
    if p.window != Period::Eternity && p.end < now {
        let secs = p.window.spec_as_secs() as int;
        assert(secs > 0);
        let x = (now - p.start) as int;
        let n = x / secs;
        lemma_div_mul_bounds(x, secs);
        assert(n * secs <= x);
        assert(x < n * secs + secs);
        assert(p.end - p.start == secs);
        assert(p.start + n * secs <= now);
        assert(now < p.start + n * secs + secs);
    }
}

/// Once some step of the pass stops it, the remaining metrics change
/// nothing.
pub proof fn lemma_limit_check_stuck(
    state: Map<Seq<char>, UsageReport>,
    metrics: Seq<(Seq<char>, u64)>,
    now: u64,
    k: int,
)
    requires
        0 <= k <= metrics.len(),
        spec_limit_check(state, metrics.subrange(0, k), now).1 != SpecLimitOutcome::Authorized,
    ensures
        spec_limit_check(state, metrics, now) == spec_limit_check(
            state,
            metrics.subrange(0, k),
            now,
        ),
    decreases metrics.len() - k,
{
    if k == metrics.len() {
        assert(metrics.subrange(0, k) =~= metrics);
    } else {
        assert(metrics.subrange(0, k + 1).drop_last() =~= metrics.subrange(0, k));
        lemma_limit_check_stuck(state, metrics, now, k + 1);
    }
}

/// Every usage report in the state stays well formed through the engine, and
/// the set of known metrics never changes.
pub proof fn lemma_limit_check_wf(
    state: Map<Seq<char>, UsageReport>,
    metrics: Seq<(Seq<char>, u64)>,
    now: u64,
)
    requires
        forall|m: Seq<char>| #[trigger] state.dom().contains(m) ==> state[m].wf(),
    ensures
        ({
            let post = spec_limit_check(state, metrics, now).0;
            &&& post.dom() == state.dom()
            &&& forall|m: Seq<char>| #[trigger] post.dom().contains(m) ==> post[m].wf()
        }),
    decreases metrics.len(),
{
    if metrics.len() > 0 {
        lemma_limit_check_wf(state, metrics.drop_last(), now);
        let prefix = spec_limit_check(state, metrics.drop_last(), now);
        let st = prefix.0;
        let m = metrics.last().0;
        if prefix.1 == SpecLimitOutcome::Authorized && st.dom().contains(m) && roll_ok(st[m], now) {
            lemma_roll_window(st[m], now);
            assert(spec_limit_check(state, metrics, now).0.dom() =~= state.dom());
        } else {
            assert(spec_limit_check(state, metrics, now).0.dom() =~= state.dom());
        }
    } else {
        assert(spec_limit_check(state, metrics, now).0.dom() =~= state.dom());
    }
}

/// Updates the application's quota state for the request's metrics and, when
/// nothing rate-limits, writes the updated application back to the cache
/// under `app_cas`.  A lost write surfaces as `CacheUpdateFail` and the
/// caller retries with a fresh read.
pub fn limit_check_and_update_application(
    data: &ThreescaleData,
    app: &mut Application,
    app_cas: u32,
    current_time: u64,
    store: &mut SharedStore,
) -> (r: Result<(), UpdateMetricsError>)
    requires
        old(app).wf(),
        data.wf(),
        old(store).wf(),
    ensures
        final(app).wf(),
        final(store).wf(),
        final(app).app_id@ == old(app).app_id@,
        final(app).service_id@ == old(app).service_id@,
        final(app).app_keys == old(app).app_keys,
        crate::structs::hierarchy_view(final(app).metric_hierarchy@) == crate::structs::hierarchy_view(
            old(app).metric_hierarchy@,
        ),
        final(app).state_map() == spec_limit_check(
            old(app).state_map(),
            metrics_view(data.metrics@),
            current_time,
        ).0,
        ({
            let outcome = spec_limit_check(
                old(app).state_map(),
                metrics_view(data.metrics@),
                current_time,
            ).1;
            match r {
                Ok(()) => {
                    &&& outcome == SpecLimitOutcome::Authorized
                    &&& final(store).contents()[crate::proxy::SHARED_MEMORY_COUNTER_KEY@].0
                        matches Some(StoreValView::Counter(_))
                    &&& exists|stamp: u32, cnt: (Option<StoreValView>, u32)|
                        final(store).contents() == old(store).contents().insert(
                            crate::proxy::cache_key_string(
                                old(app).service_id@,
                                old(app).app_id@.primary(),
                            ),
                            (Some(StoreValView::App(final(app)@)), stamp),
                        ).insert(crate::proxy::SHARED_MEMORY_COUNTER_KEY@, cnt)
                },
                Err(UpdateMetricsError::RateLimited) => {
                    &&& outcome == SpecLimitOutcome::RateLimited
                    &&& *final(store) == *old(store)
                },
                Err(UpdateMetricsError::DurationOverflow) => {
                    &&& outcome == SpecLimitOutcome::Overflow
                    &&& *final(store) == *old(store)
                },
                Err(UpdateMetricsError::CacheUpdateFail) => {
                    &&& outcome == SpecLimitOutcome::Authorized
                    &&& *final(store) == *old(store)
                    &&& app_cas != 0
                    &&& old(store).contents().dom().contains(
                        crate::proxy::cache_key_string(
                            old(app).service_id@,
                            old(app).app_id@.primary(),
                        ),
                    )
                    &&& old(store).contents()[crate::proxy::cache_key_string(
                        old(app).service_id@,
                        old(app).app_id@.primary(),
                    )].1 != app_cas
                },
            }
        }),
{
    let ghost state0 = old(app).state_map();
    let ghost mv = metrics_view(data.metrics@);
    let mut i: usize = 0;
    proof {
        assert(mv.subrange(0, 0) =~= Seq::<(Seq<char>, u64)>::empty());
    }
    while i < data.metrics.len()
        invariant
            *store == *old(store),
            store.wf(),
            i <= data.metrics@.len(),
            mv == metrics_view(data.metrics@),
            mv.len() == data.metrics@.len(),
            app.wf(),
            app.app_id@ == old(app).app_id@,
            app.service_id@ == old(app).service_id@,
            app.app_id == old(app).app_id,
            app.service_id == old(app).service_id,
            app.metric_hierarchy == old(app).metric_hierarchy,
            app.app_keys == old(app).app_keys,
            state0 == old(app).state_map(),
            spec_limit_check(state0, mv.subrange(0, i as int), current_time) == (
                app.state_map(),
                SpecLimitOutcome::Authorized,
            ),
        decreases data.metrics@.len() - i,
    {
        proof {
            assert(mv[i as int] == (data.metrics@[i as int].0@, data.metrics@[i as int].1));
            assert(mv.subrange(0, i + 1).drop_last() =~= mv.subrange(0, i as int));
            assert(mv.subrange(0, i + 1).last() == mv[i as int]);
        }
        let metric = &data.metrics[i].0;
        let hits = data.metrics[i].1;
        match kv_find(&app.local_state, metric.as_str()) {
            None => {
                // Unknown metrics are not limited locally; authority for
                // them lives upstream.
                proof {
                    crate::kv::lemma_kv_map_dom(app.local_state@);
                }
            },
            Some(j) => {
                proof {
                    lemma_kv_map_index(app.local_state@, j as int);
                }
                let usage = app.local_state[j].1;
                let period = usage.period_window;
                let mut report = usage;
                if !matches!(period.window, Period::Eternity) && period.end < current_time {
                    let secs = period.window.as_secs();
                    let num_windows = (current_time - period.start) / secs;
                    proof {
                        lemma_div_mul_bounds((current_time - period.start) as int, secs as int);
                    }
                    let seconds_to_add = num_windows * secs;
                    let new_start = match period.start.checked_add(seconds_to_add) {
                        Some(s) => s,
                        None => {
                            // The roll never moves the start past `now`.
                            proof {
                                assert(false);
                            }
                            return Err(UpdateMetricsError::DurationOverflow);
                        },
                    };
                    let new_end = match period.end.checked_add(seconds_to_add) {
                        Some(e) => e,
                        None => {
                            proof {
                                assert(!roll_ok(usage, current_time));
                                assert(spec_limit_check(state0, mv.subrange(0, i + 1), current_time)
                                    == (app.state_map(), SpecLimitOutcome::Overflow));
                                lemma_limit_check_stuck(state0, mv, current_time, i + 1);
                            }
                            return Err(UpdateMetricsError::DurationOverflow);
                        },
                    };
                    report = UsageReport {
                        period_window: PeriodWindow {
                            start: new_start,
                            end: new_end,
                            window: period.window,
                        },
                        left_hits: usage.max_value,
                        max_value: usage.max_value,
                    };
                    proof {
                        assert(roll_ok(usage, current_time));
                        assert(report == roll_window(usage, current_time));
                    }
                }
                let ghost pre_list = app.local_state@;
                if report.left_hits < hits {
                    kv_set_at(&mut app.local_state, j, report);
                    proof {
                        lemma_kv_map_update(pre_list, j as int, (pre_list[j as int].0, report));
                        assert(spec_limit_check(state0, mv.subrange(0, i + 1), current_time) == (
                            app.state_map(),
                            SpecLimitOutcome::RateLimited,
                        ));
                        lemma_limit_check_stuck(state0, mv, current_time, i + 1);
                        lemma_roll_window(usage, current_time);
                    }
                    return Err(UpdateMetricsError::RateLimited);
                }
                let updated = UsageReport { left_hits: report.left_hits - hits, ..report };
                kv_set_at(&mut app.local_state, j, updated);
                proof {
                    lemma_kv_map_update(pre_list, j as int, (pre_list[j as int].0, updated));
                }
            },
        }
        i = i + 1;
        proof {
            assert(mv.subrange(0, i as int).drop_last() =~= mv.subrange(0, i - 1));
        }
    }
    proof {
        assert(mv.subrange(0, mv.len() as int) =~= mv);
    }
    // The request passes: publish the consumed quota.
    let cache_key = CacheKey::from(&app.service_id, &app.app_id);
    let key_string = cache_key.as_string();
    let app_ref = &*app;
    match set_application_to_cache(store, key_string.as_str(), app_ref, app_cas) {
        Ok(()) => Ok(()),
        Err(_) => Err(UpdateMetricsError::CacheUpdateFail),
    }
}


/// Metrics absent from the request leave their state untouched.
pub proof fn lemma_limit_check_frame(
    state: Map<Seq<char>, UsageReport>,
    metrics: Seq<(Seq<char>, u64)>,
    now: u64,
    k: Seq<char>,
)
    requires
        forall|i: int| 0 <= i < metrics.len() ==> (#[trigger] metrics[i]).0 != k,
    ensures
        ({
            let post = spec_limit_check(state, metrics, now).0;
            &&& post.dom().contains(k) == state.dom().contains(k)
            &&& state.dom().contains(k) ==> post[k] == state[k]
        }),
    decreases metrics.len(),
{
    if metrics.len() > 0 {
        assert(forall|i: int| 0 <= i < metrics.drop_last().len()
            ==> (#[trigger] metrics.drop_last()[i]).0 != k);
        lemma_limit_check_frame(state, metrics.drop_last(), now, k);
    }
}

/// What an authorized pass does to each known metric of the request: its
/// window is rolled to cover the call and exactly the requested hits leave
/// its quota.
pub proof fn lemma_limit_check_metric(
    state: Map<Seq<char>, UsageReport>,
    metrics: Seq<(Seq<char>, u64)>,
    now: u64,
    i: int,
)
    requires
        forall|x: int, y: int|
            0 <= x < y < metrics.len() ==> (#[trigger] metrics[x]).0 != (#[trigger] metrics[y]).0,
        spec_limit_check(state, metrics, now).1 == SpecLimitOutcome::Authorized,
        0 <= i < metrics.len(),
        state.dom().contains(metrics[i].0),
    ensures
        ({
            let u = state[metrics[i].0];
            let rolled = roll_window(u, now);
            &&& roll_ok(u, now)
            &&& rolled.left_hits >= metrics[i].1
            &&& spec_limit_check(state, metrics, now).0[metrics[i].0] == UsageReport {
                left_hits: (rolled.left_hits - metrics[i].1) as u64,
                ..rolled
            }
        }),
    decreases metrics.len(),
{
    let prefix = spec_limit_check(state, metrics.drop_last(), now);
    let m = metrics[i].0;
    if i == metrics.len() - 1 {
        assert(forall|j: int| 0 <= j < metrics.drop_last().len()
            ==> (#[trigger] metrics.drop_last()[j]).0 != m);
        lemma_limit_check_frame(state, metrics.drop_last(), now, m);
        assert(prefix.0[m] == state[m]);
    } else {
        assert(prefix.1 == SpecLimitOutcome::Authorized);
        lemma_limit_check_metric(state, metrics.drop_last(), now, i);
        assert(metrics.last().0 != m);
    }
}

/// After an authorized pass at time
/// `now`, every metric the request names and the state knows with a finite
/// window has `start <= now < end` and `end - start` equal to the period's
/// length — provided `now` did not lie before the window's start and did not
/// strike exactly its end.
pub proof fn lemma_window_covers_call_time(
    state: Map<Seq<char>, UsageReport>,
    metrics: Seq<(Seq<char>, u64)>,
    now: u64,
    i: int,
)
    requires
        forall|m: Seq<char>| #[trigger] state.dom().contains(m) ==> state[m].wf(),
        forall|x: int, y: int|
            0 <= x < y < metrics.len() ==> (#[trigger] metrics[x]).0 != (#[trigger] metrics[y]).0,
        spec_limit_check(state, metrics, now).1 == SpecLimitOutcome::Authorized,
        0 <= i < metrics.len(),
        state.dom().contains(metrics[i].0),
        state[metrics[i].0].period_window.window != Period::Eternity,
        state[metrics[i].0].period_window.start <= now,
        now != state[metrics[i].0].period_window.end,
    ensures
        ({
            let w = spec_limit_check(state, metrics, now).0[metrics[i].0].period_window;
            &&& w.start <= now < w.end
            &&& w.end - w.start == w.window.spec_as_secs()
        }),
{
    lemma_limit_check_metric(state, metrics, now, i);
    lemma_roll_window(state[metrics[i].0], now);
}

/// The sum of a sequence of hit counts.
pub open spec fn sum64(s: Seq<u64>) -> int
    decreases s.len(),
{
    if s.len() == 0 {
        0
    } else {
        sum64(s.drop_last()) + s.last()
    }
}

pub proof fn lemma_sum64_nonneg(s: Seq<u64>)
    ensures
        sum64(s) >= 0,
    decreases s.len(),
{
    if s.len() > 0 {
        lemma_sum64_nonneg(s.drop_last());
    }
}

/// The quota state after a sequence of single-metric calls, each at its own
/// time.
pub open spec fn apply_calls(
    state: Map<Seq<char>, UsageReport>,
    m: Seq<char>,
    hitss: Seq<u64>,
    times: Seq<u64>,
) -> Map<Seq<char>, UsageReport>
    decreases hitss.len(),
{
    if hitss.len() == 0 {
        state
    } else {
        spec_limit_check(
            apply_calls(state, m, hitss.drop_last(), times.drop_last()),
            seq![(m, hitss.last())],
            times.last(),
        ).0
    }
}

/// Whether every call in the sequence comes back authorized.
pub open spec fn calls_all_authorized(
    state: Map<Seq<char>, UsageReport>,
    m: Seq<char>,
    hitss: Seq<u64>,
    times: Seq<u64>,
) -> bool
    decreases hitss.len(),
{
    if hitss.len() == 0 {
        true
    } else {
        &&& calls_all_authorized(state, m, hitss.drop_last(), times.drop_last())
        &&& spec_limit_check(
            apply_calls(state, m, hitss.drop_last(), times.drop_last()),
            seq![(m, hitss.last())],
            times.last(),
        ).1 == SpecLimitOutcome::Authorized
    }
}

/// A sequence of calls on one metric, all
/// within its current window and with total hits within the quota left, is
/// authorized throughout and drains exactly the total from `left_hits`,
/// leaving the window alone.
pub proof fn lemma_accumulate_in_window(
    state: Map<Seq<char>, UsageReport>,
    m: Seq<char>,
    hitss: Seq<u64>,
    times: Seq<u64>,
)
    requires
        hitss.len() == times.len(),
        state.dom().contains(m),
        state[m].wf(),
        forall|i: int| 0 <= i < times.len() ==> state[m].period_window.start <= #[trigger] times[i]
            <= state[m].period_window.end,
        sum64(hitss) <= state[m].left_hits,
    ensures
        ({
            let post = apply_calls(state, m, hitss, times);
            &&& post.dom() == state.dom()
            &&& post[m] == UsageReport {
                left_hits: (state[m].left_hits - sum64(hitss)) as u64,
                ..state[m]
            }
            &&& calls_all_authorized(state, m, hitss, times)
        }),
    decreases hitss.len(),
{
    lemma_sum64_nonneg(hitss);
    if hitss.len() == 0 {
        assert(apply_calls(state, m, hitss, times).dom() =~= state.dom());
        assert(state[m] == UsageReport {
            left_hits: (state[m].left_hits - sum64(hitss)) as u64,
            ..state[m]
        });
    } else {
        let hs = hitss.drop_last();
        let ts = times.drop_last();
        assert(forall|i: int| 0 <= i < ts.len() ==> state[m].period_window.start
            <= #[trigger] ts[i] <= state[m].period_window.end) by {
            assert(forall|i: int| 0 <= i < ts.len() ==> ts[i] == times[i]);
        }
        assert(sum64(hs) <= sum64(hitss) - hitss.last() + hitss.last());
        assert(sum64(hs) + hitss.last() == sum64(hitss));
        lemma_sum64_nonneg(hs);
        lemma_accumulate_in_window(state, m, hs, ts);
        let mid = apply_calls(state, m, hs, ts);
        let now = times.last();
        let h = hitss.last();
        assert(mid.dom().contains(m));
        let u = mid[m];
        assert(u == UsageReport {
            left_hits: (state[m].left_hits - sum64(hs)) as u64,
            ..state[m]
        });
        assert(u.left_hits == state[m].left_hits - sum64(hs));
        assert(state[m].period_window.start <= now <= state[m].period_window.end);
        assert(u.period_window == state[m].period_window);
        assert(!(u.period_window.end < now));
        assert(roll_ok(u, now));
        assert(roll_window(u, now) == u);
        let call = seq![(m, h)];
        assert(call.drop_last() =~= Seq::<(Seq<char>, u64)>::empty());
        assert(spec_limit_check(mid, call.drop_last(), now) == (
            mid,
            SpecLimitOutcome::Authorized,
        ));
        assert(u.left_hits >= h);
        let post = apply_calls(state, m, hitss, times);
        assert(post == mid.insert(m, UsageReport { left_hits: (u.left_hits - h) as u64, ..u }));
        assert(spec_limit_check(mid, call, now).1 == SpecLimitOutcome::Authorized);
        assert(post.dom() =~= state.dom());
    }
}


/// The first index holding key `k`, or `-1`.
pub open spec fn vfind(ms: Seq<(Seq<char>, u64)>, k: Seq<char>) -> int
    decreases ms.len(),
{
    if ms.len() == 0 {
        -1
    } else if ms.first().0 == k {
        0
    } else {
        let r = vfind(ms.drop_first(), k);
        if r < 0 {
            -1
        } else {
            r + 1
        }
    }
}

pub proof fn lemma_vfind(ms: Seq<(Seq<char>, u64)>, k: Seq<char>)
    ensures
        vfind(ms, k) >= 0 ==> vfind(ms, k) < ms.len() && ms[vfind(ms, k)].0 == k,
        vfind(ms, k) < 0 ==> forall|i: int| 0 <= i < ms.len() ==> (#[trigger] ms[i]).0 != k,
        vfind(ms, k) >= 0 ==> forall|i: int| 0 <= i < vfind(ms, k) ==> (#[trigger] ms[i]).0 != k,
    decreases ms.len(),
{
    if ms.len() > 0 && ms.first().0 != k {
        lemma_vfind(ms.drop_first(), k);
        if vfind(ms.drop_first(), k) < 0 {
            assert forall|i: int| 0 <= i < ms.len() implies (#[trigger] ms[i]).0 != k by {
                if i > 0 {
                    assert(ms.drop_first()[i - 1] == ms[i]);
                }
            }
        } else {
            assert forall|i: int| 0 <= i < vfind(ms, k) implies (#[trigger] ms[i]).0 != k by {
                if i > 0 {
                    assert(ms.drop_first()[i - 1] == ms[i]);
                }
            }
            assert(ms.drop_first()[vfind(ms.drop_first(), k)] == ms[vfind(ms, k)]);
        }
    }
}

/// Whether some metric's name is among the children.
pub open spec fn any_match(ms: Seq<(Seq<char>, u64)>, children: Seq<Seq<char>>) -> bool {
    exists|i: int| 0 <= i < ms.len() && children.contains((#[trigger] ms[i]).0)
}

/// `base` plus the hits of every metric named among the children, in order,
/// saturating.
pub open spec fn parent_total(
    ms: Seq<(Seq<char>, u64)>,
    children: Seq<Seq<char>>,
    base: u64,
) -> u64
    decreases ms.len(),
{
    if ms.len() == 0 {
        base
    } else {
        let t = parent_total(ms.drop_last(), children, base);
        if children.contains(ms.last().0) {
            sat_add64(t, ms.last().1)
        } else {
            t
        }
    }
}

/// One parent's expansion: when any of its children occurs among the
/// metrics, the parent's counter becomes its previous value (or zero) plus
/// all matching hits; otherwise nothing changes.
pub open spec fn apply_parent(
    ms: Seq<(Seq<char>, u64)>,
    parent: Seq<char>,
    children: Seq<Seq<char>>,
) -> Seq<(Seq<char>, u64)> {
    if !any_match(ms, children) {
        ms
    } else {
        let idx = vfind(ms, parent);
        if idx < 0 {
            ms.push((parent, parent_total(ms, children, 0)))
        } else {
            ms.update(idx, (parent, parent_total(ms, children, ms[idx].1)))
        }
    }
}

/// The request's metrics after hierarchy expansion, parents in order.
pub open spec fn expand_metrics(
    h: Seq<(Seq<char>, Seq<Seq<char>>)>,
    ms: Seq<(Seq<char>, u64)>,
) -> Seq<(Seq<char>, u64)>
    decreases h.len(),
{
    if h.len() == 0 {
        ms
    } else {
        apply_parent(expand_metrics(h.drop_last(), ms), h.last().0, h.last().1)
    }
}

fn contains_str(v: &Vec<String>, s: &str) -> (r: bool)
    ensures
        r == v.deep_view().contains(s@),
{
    let mut i: usize = 0;
    while i < v.len()
        invariant
            i <= v@.len(),
            forall|j: int| 0 <= j < i ==> v.deep_view()[j] != s@,
        decreases v@.len() - i,
    {
        if str_eq(v[i].as_str(), s) {
            proof {
                assert(v.deep_view()[i as int] == s@);
            }
            return true;
        }
        i = i + 1;
    }
    proof {
        assert(forall|j: int| 0 <= j < v.deep_view().len() ==> v.deep_view()[j] != s@);
    }
    false
}

/// Expands the request's metrics by the application's hierarchy: each parent
/// whose children include a requested metric accumulates those hits onto its
/// own counter, additions saturating.
pub fn add_hierarchy_to_metrics(hierarchy: &crate::structs::Hierarchy, metrics: &mut crate::structs::Metrics)
    requires
        kv_keys_unique(old(metrics)@),
    ensures
        kv_keys_unique(final(metrics)@),
        metrics_view(final(metrics)@) == expand_metrics(
            crate::structs::hierarchy_view(hierarchy@),
            metrics_view(old(metrics)@),
        ),
{
    let ghost hv = crate::structs::hierarchy_view(hierarchy@);
    let ghost mv0 = metrics_view(old(metrics)@);
    let mut p: usize = 0;
    proof {
        assert(hv.subrange(0, 0) =~= Seq::<(Seq<char>, Seq<Seq<char>>)>::empty());
    }
    while p < hierarchy.len()
        invariant
            p <= hierarchy@.len(),
            hv == crate::structs::hierarchy_view(hierarchy@),
            hv.len() == hierarchy@.len(),
            mv0 == metrics_view(old(metrics)@),
            kv_keys_unique(metrics@),
            metrics_view(metrics@) == expand_metrics(hv.subrange(0, p as int), mv0),
        decreases hierarchy@.len() - p,
    {
        proof {
            assert(hv[p as int] == (hierarchy@[p as int].0@, hierarchy@[p as int].1.deep_view()));
            assert(hv.subrange(0, p + 1).drop_last() =~= hv.subrange(0, p as int));
            assert(hv.subrange(0, p + 1).last() == hv[p as int]);
        }
        let parent = &hierarchy[p].0;
        let children = &hierarchy[p].1;
        let ghost ms = metrics_view(metrics@);
        // The parent's current counter, or zero.
        let base_idx = kv_find(metrics, parent.as_str());
        let base: u64 = match base_idx {
            Some(j) => metrics[j].1,
            None => 0,
        };
        proof {
            lemma_vfind(ms, parent@);
            match base_idx {
                Some(j) => {
                    assert(ms[j as int] == (metrics@[j as int].0@, metrics@[j as int].1));
                    if vfind(ms, parent@) != j as int {
                        assert(ms[vfind(ms, parent@)].0 == ms[j as int].0);
                        assert(false);
                    }
                },
                None => {
                    if vfind(ms, parent@) >= 0 {
                        assert(crate::kv::kv_has_key(metrics@, parent@)) by {
                            assert(ms[vfind(ms, parent@)]
                                == (metrics@[vfind(ms, parent@)].0@, metrics@[vfind(ms, parent@)].1));
                        }
                        assert(false);
                    }
                },
            }
        }
        // Scan the metrics as they stand, summing the matching hits.
        let mut total: u64 = base;
        let mut matched = false;
        let mut i: usize = 0;
        proof {
            assert(ms.subrange(0, 0) =~= Seq::<(Seq<char>, u64)>::empty());
        }
        while i < metrics.len()
            invariant
                i <= metrics@.len(),
                ms == metrics_view(metrics@),
                ms.len() == metrics@.len(),
                total == parent_total(ms.subrange(0, i as int), children.deep_view(), base),
                matched == any_match(ms.subrange(0, i as int), children.deep_view()),
            decreases metrics@.len() - i,
        {
            proof {
                assert(ms[i as int] == (metrics@[i as int].0@, metrics@[i as int].1));
                assert(ms.subrange(0, i + 1).drop_last() =~= ms.subrange(0, i as int));
                assert(ms.subrange(0, i + 1).last() == ms[i as int]);
            }
            if contains_str(children, metrics[i].0.as_str()) {
                total = sat_add(total, metrics[i].1);
                matched = true;
                proof {
                    assert(any_match(ms.subrange(0, i + 1), children.deep_view())) by {
                        assert(ms.subrange(0, i + 1)[i as int] == ms[i as int]);
                    }
                }
            } else {
                proof {
                    if any_match(ms.subrange(0, i + 1), children.deep_view()) {
                        let w = choose|w: int|
                            0 <= w < ms.subrange(0, i + 1).len() && children.deep_view().contains(
                                (#[trigger] ms.subrange(0, i + 1)[w]).0,
                            );
                        if w == i {
                            assert(false);
                        } else {
                            assert(ms.subrange(0, i as int)[w] == ms.subrange(0, i + 1)[w]);
                        }
                    }
                }
            }
            i = i + 1;
        }
        proof {
            assert(ms.subrange(0, ms.len() as int) =~= ms);
        }
        if matched {
            let ghost pre = metrics@;
            match base_idx {
                Some(j) => {
                    kv_set_at(metrics, j, total);
                    proof {
                        lemma_kv_map_update(pre, j as int, (pre[j as int].0, total));
                        assert(metrics_view(metrics@) =~= ms.update(
                            j as int,
                            (parent@, total),
                        ));
                    }
                },
                None => {
                    metrics.push((parent.clone(), total));
                    proof {
                        assert(metrics_view(metrics@) =~= ms.push((parent@, total)));
                        assert forall|x: int, y: int|
                            0 <= x < y < metrics@.len() implies metrics@[x].0@
                            != metrics@[y].0@ by {
                            if y == metrics@.len() - 1 {
                                assert(ms[x] == (pre[x].0@, pre[x].1));
                                if pre[x].0@ == parent@ {
                                    assert(crate::kv::kv_has_key(pre, parent@));
                                    assert(false);
                                }
                            }
                        }
                    }
                },
            }
        }
        p = p + 1;
        proof {
            assert(hv.subrange(0, p as int).drop_last() =~= hv.subrange(0, p - 1));
        }
    }
    proof {
        assert(hv.subrange(0, hv.len() as int) =~= hv);
    }
}


/// A string's UTF-8 byte length, as `str::len` reports it.
pub open spec fn byte_len(s: Seq<char>) -> int {
    (vstd::utf8::encode_utf8(s).len() as usize) as int
}

/// An `int` capped at `usize::MAX`, mirroring saturating size arithmetic.
pub open spec fn cap_usize(v: int) -> int {
    if v > usize::MAX {
        usize::MAX as int
    } else {
        v
    }
}

/// Implemented by types whose heap footprint counts against the delta
/// store's budget.  The measure is the held bytes, not allocator capacity:
/// the accounting is advisory and capacity is the allocator's business.
pub trait AllocatedSize {
    /// The measured footprint.
    spec fn spec_dynamic_size(&self) -> int;

    fn dynamic_allocated_size(&self) -> (r: usize)
        ensures
            r as int == self.spec_dynamic_size(),
    ;
}

impl AllocatedSize for String {
    open spec fn spec_dynamic_size(&self) -> int {
        byte_len(self@)
    }

    fn dynamic_allocated_size(&self) -> (r: usize) {
        self.as_str().len()
    }
}

impl AllocatedSize for crate::structs::AppIdentifier {
    open spec fn spec_dynamic_size(&self) -> int {
        match self@ {
            crate::structs::AppIdentifierView::AppId { id, app_key } => cap_usize(
                byte_len(id) + match app_key {
                    Some(k) => byte_len(k),
                    None => 0,
                },
            ),
            crate::structs::AppIdentifierView::UserKey { user_key } => byte_len(user_key),
        }
    }

    fn dynamic_allocated_size(&self) -> (r: usize) {
        match self {
            crate::structs::AppIdentifier::AppId(id, None) => id.as_ref().len(),
            crate::structs::AppIdentifier::AppId(id, Some(key)) => {
                let a = id.as_ref().len();
                let b = key.as_ref().len();
                if a > usize::MAX - b {
                    usize::MAX
                } else {
                    a + b
                }
            },
            crate::structs::AppIdentifier::UserKey(user_key) => user_key.as_ref().len(),
        }
    }
}

/// The keys' footprints; the counters are fixed-size.
pub open spec fn spec_metrics_size(s: Seq<(Seq<char>, u64)>) -> int
    decreases s.len(),
{
    if s.len() == 0 {
        0
    } else {
        cap_usize(spec_metrics_size(s.drop_last()) + byte_len(s.last().0))
    }
}

impl AllocatedSize for crate::structs::Metrics {
    open spec fn spec_dynamic_size(&self) -> int {
        spec_metrics_size(metrics_view(self@))
    }

    fn dynamic_allocated_size(&self) -> (r: usize) {
        let ghost mv = metrics_view(self@);
        let mut acc: usize = 0;
        let mut i: usize = 0;
        proof {
            assert(mv.subrange(0, 0) =~= Seq::<(Seq<char>, u64)>::empty());
        }
        while i < self.len()
            invariant
                i <= self@.len(),
                mv == metrics_view(self@),
                mv.len() == self@.len(),
                acc as int == spec_metrics_size(mv.subrange(0, i as int)),
            decreases self@.len() - i,
        {
            proof {
                assert(mv[i as int] == (self@[i as int].0@, self@[i as int].1));
                assert(mv.subrange(0, i + 1).drop_last() =~= mv.subrange(0, i as int));
                assert(mv.subrange(0, i + 1).last() == mv[i as int]);
            }
            let b = self[i].0.as_str().len();
            acc = if acc > usize::MAX - b {
                usize::MAX
            } else {
                acc + b
            };
            i = i + 1;
        }
        proof {
            assert(mv.subrange(0, mv.len() as int) =~= mv);
        }
        acc
    }
}

} // verus!



