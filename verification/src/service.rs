use vstd::prelude::*;

use crate::configuration::FlushMode;
use crate::configuration::ServiceConfig;
use crate::deltas::DeltaStore;
use crate::deltas::DeltaStoreState;
use crate::deltas::ServiceDeltas;
use crate::filter::build_state;
use crate::filter::check_app_usable;
use crate::filter::dedup_hierarchy;
use crate::proxy::get_application_from_cache;
use crate::proxy::set_application_to_cache;
use crate::proxy::CacheKey;
use crate::report::report;
use crate::report::Report;
use crate::response::AuthorizationStatusData;
use crate::store::QueueSet;
use crate::store::QueueVal;
use crate::store::QueueValView;
use crate::store::SharedStore;
use crate::structs::AppId;
use crate::structs::AppIdentifier;
use crate::structs::Application;
use crate::structs::Message;
use crate::structs::ServiceId;
use crate::structs::ServiceToken;
use crate::structs::ThreescaleData;
use crate::strutil::str_eq;
use crate::utils::limit_check_and_update_application;
use crate::utils::UpdateMetricsError;

verus! {

/// Why a singleton step failed.
#[derive(Debug)]
pub enum SingletonServiceError {
    /// No cache entry to reconcile under this key.
    GetCacheFailure(String),
    /// Writing the reconciled entry lost out.
    SetCacheFailure(String),
    /// An authorize response carried no usage reports.
    EmptyAuthUsages(String),
    /// The upstream answered with an authorization error.
    AuthResponse,
    /// The authorize response could not be processed.
    AuthResponseProcess,
    /// The authorize response listed no app keys.
    AuthAppKeysMissing,
    /// A period boundary was negative or ill-formed.
    NegativeTimeErr,
    /// The limit engine failed while reconciling.
    UpdateMetricsFail(UpdateMetricsError),
}

/// What a flush asks the host adapter to dispatch: one report per service
/// with pending deltas, then one authorize per remembered application.
pub struct FlushPlan {
    pub reports: Vec<Report>,
    pub auth_calls: Vec<threescalers::http::Request>,
}

/// The cache key a request's deltas reconcile under.
pub open spec fn reconcile_key(t: crate::structs::ThreescaleDataView) -> Seq<char> {
    crate::proxy::cache_key_string(t.service_id, t.app_id.primary())
}

/// Whether the store holds a usable application under the request's key.
pub open spec fn reconcile_usable(
    m: Map<Seq<char>, (Option<crate::store::StoreValView>, u32)>,
    t: crate::structs::ThreescaleDataView,
) -> bool {
    &&& m.dom().contains(reconcile_key(t))
    &&& m[reconcile_key(t)].0 matches Some(crate::store::StoreValView::App(pre))
        && crate::filter::app_view_usable(pre, reconcile_key(t))
}

/// The quota state the reconciliation would leave, judged at `time`.
pub open spec fn reconcile_state(
    m: Map<Seq<char>, (Option<crate::store::StoreValView>, u32)>,
    t: crate::structs::ThreescaleDataView,
    time: u64,
) -> Map<Seq<char>, crate::structs::UsageReport> {
    match m[reconcile_key(t)].0 {
        Some(crate::store::StoreValView::App(pre)) => crate::utils::spec_limit_check(
            pre.state_map(),
            t.metrics,
            time,
        ).0,
        _ => Map::empty(),
    }
}

/// How the reconciliation's engine pass ends, judged at `time`.
pub open spec fn reconcile_outcome(
    m: Map<Seq<char>, (Option<crate::store::StoreValView>, u32)>,
    t: crate::structs::ThreescaleDataView,
    time: u64,
) -> crate::utils::SpecLimitOutcome {
    match m[reconcile_key(t)].0 {
        Some(crate::store::StoreValView::App(pre)) => crate::utils::spec_limit_check(
            pre.state_map(),
            t.metrics,
            time,
        ).1,
        _ => crate::utils::SpecLimitOutcome::Authorized,
    }
}

/// The process-wide aggregator: drains the shared message queue into the
/// delta store and flushes it upstream by capacity or by timer.
pub struct SingletonService {
    pub context_id: u32,
    pub config: ServiceConfig,
    pub queue_id: Option<u32>,
    pub delta_store: DeltaStore,
    /// Each known application's cache key and the token to re-authorize it.
    pub cache_keys: Vec<(CacheKey, ServiceToken)>,
    /// Report calls in flight, by call token.
    pub report_requests: Vec<(u32, Report)>,
}

impl SingletonService {
    pub fn new(context_id: u32, config: ServiceConfig) -> (r: SingletonService)
        ensures
            r.delta_store.wf(),
            r.delta_store.config == config.delta_store_config,
    {
        SingletonService {
            context_id,
            config,
            queue_id: None,
            delta_store: DeltaStore {
                last_update: None,
                deltas: Vec::new(),
                memory_allocated: 0,
                config: config.delta_store_config,
            },
            cache_keys: Vec::new(),
            report_requests: Vec::new(),
        }
    }

    /// Registers the shared message queue all workers feed.
    pub fn on_vm_start(&mut self, queues: &mut QueueSet)
        requires
            old(queues).wf(),
            old(queues).qs().len() + 1 < u32::MAX,
        ensures
            final(queues).wf(),
            final(self).queue_id matches Some(q) && (q as int) < final(queues).qs().len()
                && final(queues).name_at(q as int) == crate::filter::message_queue_name(),
    {
        let q = queues.register_queue("message_queue");
        self.queue_id = Some(q);
    }

    /// Takes the configuration and hands back the flush period to arm the
    /// host timer with.
    pub fn on_configure(&mut self, config: ServiceConfig) -> (r: u64)
        ensures
            final(self).config == config,
            final(self).delta_store.config == config.delta_store_config,
            r == config.delta_store_config.periodical_flush,
    {
        self.config = config;
        self.delta_store.config = config.delta_store_config;
        config.delta_store_config.periodical_flush
    }

    /// Reconciles the cache for a request whose worker could not write its
    /// consumed quota: re-run the limit engine against the cached entry.
    pub fn update_application_cache(
        &self,
        store: &mut SharedStore,
        threescale: &ThreescaleData,
        req_time: u64,
    ) -> (r: Result<(), SingletonServiceError>)
        requires
            old(store).wf(),
            threescale.wf(),
        ensures
            final(store).wf(),
            // the entry is reconciled exactly when a usable application
            // sits under the key and the engine authorizes the request
            (r matches Err(SingletonServiceError::GetCacheFailure(_))) <==> !reconcile_usable(
                old(store).contents(),
                threescale@,
            ),
            reconcile_usable(old(store).contents(), threescale@) ==> ((r is Ok)
                <==> reconcile_outcome(old(store).contents(), threescale@, req_time)
                == crate::utils::SpecLimitOutcome::Authorized),
            reconcile_usable(old(store).contents(), threescale@) ==> ((r matches Err(
                SingletonServiceError::UpdateMetricsFail(e),
            )) <==> reconcile_outcome(old(store).contents(), threescale@, req_time)
                != crate::utils::SpecLimitOutcome::Authorized),
            reconcile_usable(old(store).contents(), threescale@) ==> (r matches Err(
                SingletonServiceError::UpdateMetricsFail(e),
            ) ==> ((e == crate::utils::UpdateMetricsError::RateLimited) <==> reconcile_outcome(
                old(store).contents(),
                threescale@,
                req_time,
            ) == crate::utils::SpecLimitOutcome::RateLimited)),
            // on success the cached entry advances by exactly this
            // request's metrics, judged at the request's own time
            (r is Ok && reconcile_key(threescale@) != crate::proxy::SHARED_MEMORY_COUNTER_KEY@)
                ==> (final(store).contents().dom().contains(reconcile_key(threescale@)) && (final(store).contents()[reconcile_key(threescale@)].0 matches Some(
                crate::store::StoreValView::App(av),
            ) && av.state_map() == reconcile_state(old(store).contents(), threescale@, req_time))),
            !(r is Ok) ==> *final(store) == *old(store),
    {
        let cache_key = CacheKey::from(&threescale.service_id, &threescale.app_id);
        match get_application_from_cache(store, &cache_key) {
            Ok((mut application, cas)) => {
                if !check_app_usable(&application, &cache_key) {
                    return Err(SingletonServiceError::GetCacheFailure(cache_key.as_string()));
                }
                proof {
                    crate::kv::lemma_kv_map_is_vkv_map(application.local_state@);
                }
                let result = limit_check_and_update_application(
                    threescale,
                    &mut application,
                    cas,
                    req_time,
                    store,
                );
                proof {
                    crate::kv::lemma_kv_map_is_vkv_map(application.local_state@);
                }
                match result {
                    Ok(()) => Ok(()),
                    Err(UpdateMetricsError::CacheUpdateFail) => {
                        // Unreachable against the atomic store model: the
                        // cas was read moments ago and nothing intervened.
                        proof {
                            assert(false);
                        }
                        Err(SingletonServiceError::SetCacheFailure(cache_key.as_string()))
                    },
                    Err(e) => Err(SingletonServiceError::UpdateMetricsFail(e)),
                }
            },
            Err(_) => {
                // Nothing cached: nothing to reconcile.
                Err(SingletonServiceError::GetCacheFailure(cache_key.as_string()))
            },
        }
    }

    fn remember_cache_key(&mut self, threescale: &ThreescaleData)
        ensures
            final(self).queue_id == old(self).queue_id,
            final(self).config == old(self).config,
            final(self).delta_store == old(self).delta_store,
            final(self).report_requests == old(self).report_requests,
    {
        let key = CacheKey::from(&threescale.service_id, &threescale.app_id);
        let key_string = key.as_string();
        let mut i: usize = 0;
        let mut known = false;
        while i < self.cache_keys.len()
            invariant
                i <= self.cache_keys@.len(),
            decreases self.cache_keys@.len() - i,
        {
            if str_eq(
                self.cache_keys[i].0.as_string().as_str(),
                key_string.as_str(),
            ) {
                known = true;
            }
            i = i + 1;
        }
        if !known {
            self.cache_keys.push((key, threescale.service_token.clone()));
        }
    }

    /// Drains one message: reconcile the cache when the worker asked for
    /// it, remember the application for re-authorization, fold the deltas
    /// in, and flush when the store crossed its capacity.
    pub fn on_queue_ready(&mut self, store: &mut SharedStore, queues: &mut QueueSet) -> (r: Option<
        FlushPlan,
    >)
        requires
            old(store).wf(),
            old(queues).wf(),
            old(self).delta_store.wf(),
        ensures
            final(store).wf(),
            final(queues).wf(),
            final(self).delta_store.wf(),
            final(self).queue_id == old(self).queue_id,
            final(self).config == old(self).config,
            old(self).queue_id is None ==> (r is None && *final(store) == *old(store) && final(queues).qs() == old(queues).qs() && final(self).delta_store == old(self).delta_store),
            // nothing queued, or a worker wake-up on the wrong queue: no work
            old(self).queue_id matches Some(q) ==> (crate::store::queue_front(
                old(queues).qs(),
                q,
            ) is None ==> (r is None && *final(store) == *old(store) && final(queues).qs() == old(queues).qs() && final(self).delta_store == old(self).delta_store)),
            old(self).queue_id matches Some(q) ==> (crate::store::queue_front(
                old(queues).qs(),
                q,
            ) matches Some(QueueValView::Action(_)) ==> (r is None && *final(store) == *old(store)
                && final(self).delta_store == old(self).delta_store && final(queues).qs() == old(queues).qs().update(
                q as int,
                (old(queues).name_at(q as int), old(queues).items_at(q as int).drop_first()),
            ))),
            // a report folds in: the message decides everything that follows
            old(self).queue_id matches Some(q) ==> (crate::store::queue_front(
                old(queues).qs(),
                q,
            ) matches Some(QueueValView::Report(msgv)) ==> {
                let skey = crate::proxy::cache_key_string(
                    msgv.data.service_id,
                    msgv.data.service_token,
                );
                let pk = msgv.data.app_id.primary();
                let uniq = forall|x: int, y: int|
                    0 <= x < y < msgv.data.metrics.len() ==> (#[trigger] msgv.data.metrics[x]).0
                        != (#[trigger] msgv.data.metrics[y]).0;
                &&& final(queues).qs() == old(queues).qs().update(
                    q as int,
                    (old(queues).name_at(q as int), old(queues).items_at(q as int).drop_first()),
                )
                &&& (!uniq ==> r is None && *final(store) == *old(store) && final(self).delta_store
                    == old(self).delta_store)
                &&& (uniq && !msgv.update_cache_from_singleton ==> *final(store) == *old(store))
                &&& (uniq && msgv.update_cache_from_singleton ==> (!(reconcile_usable(
                    old(store).contents(),
                    msgv.data,
                ) && reconcile_outcome(old(store).contents(), msgv.data, msgv.req_time)
                    == crate::utils::SpecLimitOutcome::Authorized) ==> *final(store) == *old(store)))
                &&& (uniq && msgv.update_cache_from_singleton ==> ((reconcile_usable(
                    old(store).contents(),
                    msgv.data,
                ) && reconcile_outcome(old(store).contents(), msgv.data, msgv.req_time)
                    == crate::utils::SpecLimitOutcome::Authorized && reconcile_key(msgv.data)
                    != crate::proxy::SHARED_MEMORY_COUNTER_KEY@) ==> (final(store).contents().dom().contains(reconcile_key(msgv.data)) && (final(store).contents()[reconcile_key(msgv.data)].0 matches Some(
                    crate::store::StoreValView::App(av),
                ) && av.state_map() == reconcile_state(
                    old(store).contents(),
                    msgv.data,
                    msgv.req_time,
                )))))
                &&& (uniq && r is None ==> crate::deltas::delta_update_rel(
                    old(self).delta_store.view_of(),
                    final(self).delta_store.view_of(),
                    skey,
                    pk,
                    msgv.data.metrics,
                ))
                &&& (uniq ==> (r matches Some(plan) ==> {
                    &&& final(self).delta_store.view_of().len() == 0
                    &&& final(self).delta_store.memory_allocated == 0
                    &&& plan.auth_calls@.len() == final(self).cache_keys@.len()
                    &&& exists|mid: Seq<(String, ServiceDeltas)>| {
                        &&& crate::deltas::delta_update_rel(
                            old(self).delta_store.view_of(),
                            #[trigger] crate::deltas::deltas_view(mid),
                            skey,
                            pk,
                            msgv.data.metrics,
                        )
                        &&& plan.reports@.len() == mid.len()
                        &&& forall|i: int|
                            0 <= i < mid.len() ==> crate::report::report_matches_bucket(
                                &(#[trigger] plan.reports@[i]),
                                mid[i].0@,
                                mid[i].1@,
                            )
                    }
                }))
            }),
    {
        let qid = match self.queue_id {
            Some(q) => q,
            None => {
                return None;
            },
        };
        let message: Message = match queues.dequeue(qid) {
            Some(QueueVal::Report(m)) => m,
            Some(QueueVal::Action(_)) => {
                // A worker wake-up on the singleton queue: not ours.
                return None;
            },
            None => {
                return None;
            },
        };
        let threescale = message.data;
        let unique = threescale.metrics_unique();
        proof {
            let msgv = crate::store::queue_front(old(queues).qs(), qid)->0->Report_0;
            assert(msgv.data == threescale@);
            if unique {
                assert forall|x: int, y: int|
                    0 <= x < y < msgv.data.metrics.len() implies (#[trigger] msgv.data.metrics[x]).0
                    != (#[trigger] msgv.data.metrics[y]).0 by {
                    assert(msgv.data.metrics[x] == (threescale.metrics@[x].0@, threescale.metrics@[x].1));
                    assert(msgv.data.metrics[y] == (threescale.metrics@[y].0@, threescale.metrics@[y].1));
                }
            } else {
                if forall|x: int, y: int|
                    0 <= x < y < msgv.data.metrics.len() ==> (#[trigger] msgv.data.metrics[x]).0
                        != (#[trigger] msgv.data.metrics[y]).0 {
                    assert forall|x: int, y: int|
                        0 <= x < y < threescale.metrics@.len() implies threescale.metrics@[x].0@
                        != threescale.metrics@[y].0@ by {
                        assert(msgv.data.metrics[x] == (threescale.metrics@[x].0@, threescale.metrics@[x].1));
                        assert(msgv.data.metrics[y] == (threescale.metrics@[y].0@, threescale.metrics@[y].1));
                    }
                    assert(false);
                }
            }
        }
        if !unique {
            return None;
        }
        if message.update_cache_from_singleton {
            let _ = self.update_application_cache(store, &threescale, message.req_time);
        }
        self.remember_cache_key(&threescale);
        let state = self.delta_store.update_delta_store(&threescale);
        if matches!(state, DeltaStoreState::Flush) {
            let ghost mid = self.delta_store.deltas@;
            let plan = self.flush_local_cache();
            proof {
                assert(crate::deltas::delta_update_rel(
                    old(self).delta_store.view_of(),
                    crate::deltas::deltas_view(mid),
                    crate::proxy::cache_key_string(threescale.service_id@, threescale.service_token@),
                    threescale.app_id@.primary(),
                    crate::structs::metrics_view(threescale.metrics@),
                ));
            }
            Some(plan)
        } else {
            None
        }
    }

    /// Takes every pending delta out of the store, leaving it empty.
    pub fn flush_delta_store(&mut self) -> (r: Vec<(String, ServiceDeltas)>)
        requires
            old(self).delta_store.wf(),
        ensures
            final(self).delta_store.wf(),
            final(self).delta_store.view_of().len() == 0,
            final(self).delta_store.memory_allocated == 0,
            r@ == old(self).delta_store.deltas@,
            final(self).cache_keys == old(self).cache_keys,
            final(self).queue_id == old(self).queue_id,
            final(self).config == old(self).config,
            final(self).report_requests == old(self).report_requests,
            final(self).delta_store.config == old(self).delta_store.config,
    {
        let mut taken: Vec<(String, ServiceDeltas)> = Vec::new();
        core::mem::swap(&mut taken, &mut self.delta_store.deltas);
        self.delta_store.memory_allocated = 0;
        proof {
            assert(self.delta_store.view_of() =~= crate::deltas::deltas_view(
                Seq::<(String, ServiceDeltas)>::empty(),
            ));
            assert(crate::deltas::deltas_view(Seq::<(String, ServiceDeltas)>::empty()).len() == 0);
        }
        taken
    }

    /// Flushes the pending deltas: one report per service carrying exactly
    /// that bucket's accumulated pairs, then one authorize per remembered
    /// application to refresh the cache.
    pub fn flush_local_cache(&mut self) -> (r: FlushPlan)
        requires
            old(self).delta_store.wf(),
        ensures
            final(self).delta_store.wf(),
            final(self).delta_store.view_of().len() == 0,
            final(self).delta_store.memory_allocated == 0,
            r.reports@.len() == old(self).delta_store.deltas@.len(),
            forall|i: int|
                0 <= i < r.reports@.len() ==> crate::report::report_matches_bucket(
                    &(#[trigger] r.reports@[i]),
                    old(self).delta_store.deltas@[i].0@,
                    old(self).delta_store.deltas@[i].1@,
                ),
            r.auth_calls@.len() == old(self).cache_keys@.len(),
            final(self).cache_keys == old(self).cache_keys,
            final(self).queue_id == old(self).queue_id,
            final(self).config == old(self).config,
            final(self).delta_store.config == old(self).delta_store.config,
    {
        let deltas = self.flush_delta_store();
        let mut reports: Vec<Report> = Vec::new();
        let mut i: usize = 0;
        while i < deltas.len()
            invariant
                i <= deltas@.len(),
                reports@.len() == i,
                deltas@ == old(self).delta_store.deltas@,
                forall|j: int|
                    0 <= j < i ==> crate::report::report_matches_bucket(
                        &(#[trigger] reports@[j]),
                        deltas@[j].0@,
                        deltas@[j].1@,
                    ),
            decreases deltas@.len() - i,
        {
            let entry = &deltas[i];
            reports.push(report(entry.0.as_str(), &entry.1));
            i = i + 1;
        }
        let auth_calls = self.update_local_cache();
        FlushPlan { reports, auth_calls }
    }

    /// The refresh pass after a flush: one authorize per remembered
    /// application.
    pub fn update_local_cache(&self) -> (r: Vec<threescalers::http::Request>)
        ensures
            r@.len() == self.cache_keys@.len(),
    {
        let mut out: Vec<threescalers::http::Request> = Vec::new();
        let mut i: usize = 0;
        while i < self.cache_keys.len()
            invariant
                i <= self.cache_keys@.len(),
                out@.len() == i,
            decreases self.cache_keys@.len() - i,
        {
            let pair = &self.cache_keys[i];
            let request = crate::tsc::build_plain_authorize_request(
                pair.0.service_id().as_ref(),
                pair.1.as_ref(),
                pair.0.app_id(),
            );
            if let Some(req) = request {
                out.push(req);
            }
            i = i + 1;
        }
        out
    }

    /// Tracks a dispatched report by its call token.
    pub fn record_report_dispatch(&mut self, token_id: u32, rep: Report)
        ensures
            final(self).report_requests@.len() == old(self).report_requests@.len() + 1,
    {
        self.report_requests.push((token_id, rep));
    }

    /// A report came back: drop it from the in-flight set.  A failure is
    /// logged by the adapter; re-enqueueing is left open.
    pub fn handle_report_response(&mut self, token_id: u32)
        ensures
            final(self).report_requests@.len() <= old(self).report_requests@.len(),
    {
        let mut i: usize = 0;
        while i < self.report_requests.len()
            invariant
                i <= self.report_requests@.len(),
                self.report_requests@ == old(self).report_requests@,
            decreases self.report_requests@.len() - i,
        {
            if self.report_requests[i].0 == token_id {
                let _ = self.report_requests.remove(i);
                return ;
            }
            i = i + 1;
        }
    }

    /// Whether a dispatched report is known under this token.
    pub fn knows_report(&self, token_id: u32) -> (r: bool)
        ensures
            r == (exists|i: int|
                0 <= i < self.report_requests@.len() && (#[trigger] self.report_requests@[i]).0
                    == token_id),
    {
        let mut i: usize = 0;
        while i < self.report_requests.len()
            invariant
                i <= self.report_requests@.len(),
                forall|j: int| 0 <= j < i ==> (#[trigger] self.report_requests@[j]).0 != token_id,
            decreases self.report_requests@.len() - i,
        {
            if self.report_requests[i].0 == token_id {
                proof {
                    assert(self.report_requests@[i as int].0 == token_id);
                }
                return true;
            }
            i = i + 1;
        }
        false
    }

    /// An authorize came back during a refresh: rebuild the application the
    /// response describes and overwrite its cache entry unconditionally.
    /// An upstream rate-limit answer still carries the state and is cached
    /// all the same.
    pub fn handle_auth_response(
        &self,
        store: &mut SharedStore,
        response: &AuthorizationStatusData,
        rate_limited_status: bool,
    ) -> (r: Result<(), SingletonServiceError>)
        requires
            old(store).wf(),
        ensures
            final(store).wf(),
            (r matches Err(SingletonServiceError::AuthResponse)) <==> !(response.authorized
                || rate_limited_status),
            (r matches Err(SingletonServiceError::AuthAppKeysMissing)) <==> ((response.authorized
                || rate_limited_status) && !crate::filter::keys_complete(response)),
            (r matches Err(SingletonServiceError::EmptyAuthUsages(_))) <==> ((response.authorized
                || rate_limited_status) && crate::filter::keys_complete(response)
                && response.usage_reports is None),
            (r matches Err(SingletonServiceError::NegativeTimeErr)) <==> ((response.authorized
                || rate_limited_status) && crate::filter::keys_complete(response)
                && response.usage_reports is Some && !crate::filter::reports_all_ok(response)),
            // success is owed exactly on a complete, well-formed answer
            (r is Ok) <==> ((response.authorized || rate_limited_status)
                && crate::filter::keys_complete(response) && response.usage_reports is Some
                && crate::filter::reports_all_ok(response)),
            !(r is Ok) ==> *final(store) == *old(store),
            ({
                // On success the response's application is cached verbatim:
                // its quota state is exactly what the reports build.
                match r {
                    Ok(()) => response.app_keys matches Some(ak) && ak.app_id matches Some(aid)
                        && ak.service_id matches Some(sid) && response.usage_reports matches Some(
                        rs,
                    ) && {
                        let key = crate::proxy::cache_key_string(sid@, aid@);
                        key != crate::proxy::SHARED_MEMORY_COUNTER_KEY@ ==> (final(store).contents().dom().contains(key) && (final(store).contents()[key].0
                            matches Some(crate::store::StoreValView::App(av)) && av.state_map()
                            == crate::filter::reports_state(rs@)))
                    },
                    Err(_) => true,
                }
            }),
    {
        if !(response.authorized || rate_limited_status) {
            return Err(SingletonServiceError::AuthResponse);
        }
        let app_keys = match &response.app_keys {
            Some(ak) => ak,
            None => {
                return Err(SingletonServiceError::AuthAppKeysMissing);
            },
        };
        let app_id_str = match &app_keys.app_id {
            Some(a) => a,
            None => {
                return Err(SingletonServiceError::AuthAppKeysMissing);
            },
        };
        let service_id_str = match &app_keys.service_id {
            Some(s) => s,
            None => {
                return Err(SingletonServiceError::AuthAppKeysMissing);
            },
        };
        let reports = match &response.usage_reports {
            Some(rs) => rs,
            None => {
                return Err(SingletonServiceError::EmptyAuthUsages(app_id_str.clone()));
            },
        };
        let state = match build_state(reports) {
            Ok(s) => s,
            Err(_) => {
                proof {
                    assert(!crate::filter::reports_all_ok(response)) by {
                        let b = choose|b: int|
                            0 <= b < reports@.len() && !crate::filter::report_ok(
                                #[trigger] reports@[b],
                            );
                        assert(crate::filter::response_reports(response)[b] == reports@[b]);
                    }
                }
                return Err(SingletonServiceError::NegativeTimeErr);
            },
        };
        let mut built: crate::structs::Hierarchy = Vec::new();
        let mut i: usize = 0;
        while i < response.hierarchy.len()
            decreases response.hierarchy@.len() - i,
        {
            let pair = &response.hierarchy[i];
            let mut children: Vec<String> = Vec::new();
            let mut j: usize = 0;
            while j < pair.1.len()
                decreases pair.1@.len() - j,
            {
                children.push(pair.1[j].clone());
                j = j + 1;
            }
            built.push((pair.0.clone(), children));
            i = i + 1;
        }
        let hierarchy = dedup_hierarchy(built);
        let mut keys: Vec<crate::structs::AppKey> = Vec::new();
        let mut i: usize = 0;
        while i < app_keys.keys.len()
            decreases app_keys.keys@.len() - i,
        {
            keys.push(crate::structs::AppKey::from(app_keys.keys[i].as_str()));
            i = i + 1;
        }
        let app_identifier = AppIdentifier::from_app_id(AppId::from(app_id_str.as_str()));
        let service_id = ServiceId::from(service_id_str.as_str());
        let cache_key = CacheKey::from(&service_id, &app_identifier);
        let app = Application {
            app_id: app_identifier,
            service_id,
            local_state: state,
            metric_hierarchy: hierarchy,
            app_keys: Some(keys),
        };
        proof {
            crate::kv::lemma_kv_map_is_vkv_map(app.local_state@);
        }
        proof {
            assert(crate::filter::reports_all_ok(response)) by {
                assert forall|i: int|
                    0 <= i < crate::filter::response_reports(response).len() implies crate::filter::report_ok(
                    #[trigger] crate::filter::response_reports(response)[i],
                ) by {
                    assert(crate::filter::response_reports(response)[i] == reports@[i]);
                }
            }
        }
        match set_application_to_cache(store, cache_key.as_string().as_str(), &app, 0) {
            Ok(()) => Ok(()),
            Err(_) => {
                // Unreachable: an unconditional write is never refused.
                proof {
                    assert(false);
                }
                Err(SingletonServiceError::SetCacheFailure(cache_key.as_string()))
            },
        }
    }

    /// The timer fired: every mode but the pure container limit flushes.
    pub fn on_tick(&mut self) -> (r: Option<FlushPlan>)
        requires
            old(self).delta_store.wf(),
        ensures
            final(self).delta_store.wf(),
            r is Some <==> old(self).delta_store.config.flush_mode != FlushMode::ContainerLimit,
    {
        if !matches!(self.delta_store.config.flush_mode, FlushMode::ContainerLimit) {
            Some(self.flush_local_cache())
        } else {
            None
        }
    }
}

} // verus!
