use vstd::prelude::*;

use crate::configuration::FilterConfig;
use crate::kv::kv_keys_unique;
use crate::proxy::cache_key_string;
use crate::proxy::get_app_id_from_cache;
use crate::proxy::get_application_from_cache;
use crate::proxy::set_app_id_to_cache;
use crate::proxy::CacheError;
use crate::proxy::CacheKey;
use crate::proxy::SHARED_MEMORY_COUNTER_KEY;
use crate::response::AuthResponseParse;
use crate::response::AuthorizationStatusData;
use crate::response::AuthUsageData;
use crate::store::QueueSet;
use crate::store::QueueVal;
use crate::store::QueueValView;
use crate::store::SharedStore;
use crate::store::StoreValView;
use crate::structs::metrics_view;
use crate::structs::AppId;
use crate::structs::AppIdentifier;
use crate::structs::Application;
use crate::structs::Message;
use crate::structs::MessageView;
use crate::structs::Metrics;
use crate::structs::Period;
use crate::structs::PeriodWindow;
use crate::structs::ServiceId;
use crate::structs::ServiceToken;
use crate::structs::ThreescaleData;
use crate::structs::UsageReport;
use crate::structs::UserKey;
use crate::strutil::u64_to_dec;
use crate::unique_callout::callout_lock_key;
use crate::unique_callout::free_callout_lock_and_notify_waiters;
use crate::unique_callout::set_callout_lock;
use crate::unique_callout::SetCalloutLockStatus;
use crate::unique_callout::WaiterAction;
use crate::upstream::parse_url;
use crate::upstream::Builder;
use crate::utils::add_hierarchy_to_metrics;
use crate::utils::expand_metrics;
use crate::utils::limit_check_and_update_application;
use crate::utils::spec_limit_check;
use crate::utils::SpecLimitOutcome;
use crate::utils::UpdateMetricsError;
use vstd::string::StrSliceExecFns;
use vstd::string::StringExecFns;

verus! {

/// Why the request's metadata was refused.
#[derive(Clone, Copy, Debug, PartialEq, Eq, Structural)]
pub enum RequestDataError {
    ServiceTokenNotFound,
    ServiceIdNotFound,
    UsageNotFound,
    DeserializeFail,
    AuthKeyMissing,
    ClusterNameNotFound,
    UpstreamUrlNotFound,
    UpstreamUrlParseFail,
    UpstreamBuilderFail,
}

/// Why the cache-hit path failed beyond an ordinary engine outcome.
#[derive(Clone, Copy, Debug, PartialEq, Eq, Structural)]
pub enum CacheHitError {
    /// The limit engine refused for a reason other than rate limiting.
    MetricsCheckFail,
    /// The singleton's message queue is not registered.
    MQNotFound,
    /// Refetching the application after a lost write failed.
    AppFetchFail,
}

/// Why handling the authorize response failed.
#[derive(Clone, Copy, Debug, PartialEq, Eq, Structural)]
pub enum AuthResponseError {
    CacheHitErr(CacheHitError),
    /// A period boundary was negative.
    NegativeTimeErr,
    /// A report's window does not span its period.
    WindowMismatchErr,
    ListKeysMiss,
    ListAppIdMiss,
    ListServiceIdMiss,
}

/// How the cache-hit path ends for a request that was not refused outright.
#[derive(Clone, Copy, Debug, PartialEq, Eq, Structural)]
pub enum CacheHitOutcome {
    /// Quota consumed and the cache updated; let the request pass.
    Allowed,
    /// Quota could not be written back; the request passes and the
    /// singleton reconciles from the queued message.
    AllowedPendingSingleton,
    /// The request exceeds its quota.
    RateLimited,
}

/// The inbound request metadata, as the host hands it over.
#[derive(Debug)]
pub struct RequestHeaders {
    pub service_token: Option<String>,
    pub service_id: Option<String>,
    pub usages: Option<String>,
    pub cluster_name: Option<String>,
    pub upstream_url: Option<String>,
    pub timeout: Option<String>,
    pub user_key: Option<String>,
    pub app_id: Option<String>,
}

/// The per-request filter state; a suspended request parks a copy of it on
/// the worker's waitlist.
#[derive(Debug)]
pub struct CacheFilter {
    pub context_id: u32,
    pub root_id: u32,
    pub config: FilterConfig,
    pub update_cache_from_singleton: bool,
    pub cache_key: CacheKey,
    // required for the cache miss case
    pub req_data: ThreescaleData,
}

impl CacheFilter {
    pub fn new(context_id: u32, root_id: u32, config: FilterConfig) -> (r: CacheFilter)
        ensures
            r.context_id == context_id,
            r.root_id == root_id,
            r.config == config,
            !r.update_cache_from_singleton,
            r.req_data.wf(),
    {
        CacheFilter {
            context_id,
            root_id,
            config,
            update_cache_from_singleton: false,
            cache_key: CacheKey::default(),
            req_data: ThreescaleData::default(),
        }
    }

    pub fn clone(&self) -> (r: CacheFilter)
        ensures
            r.context_id == self.context_id,
            r.root_id == self.root_id,
            r.config == self.config,
            r.update_cache_from_singleton == self.update_cache_from_singleton,
            r.cache_key.service_view() == self.cache_key.service_view(),
            r.cache_key.app_view() == self.cache_key.app_view(),
            r.req_data@ == self.req_data@,
    {
        CacheFilter {
            context_id: self.context_id,
            root_id: self.root_id,
            config: self.config,
            update_cache_from_singleton: self.update_cache_from_singleton,
            cache_key: self.cache_key.clone(),
            req_data: self.req_data.clone(),
        }
    }
}

/// The worker-local map of suspended requests, keyed by http context id.
#[derive(Debug)]
pub struct WaitingContexts {
    entries: Vec<(u32, CacheFilter)>,
}

impl WaitingContexts {
    pub closed spec fn ids(&self) -> Seq<u32> {
        self.entries@.map_values(|p: (u32, CacheFilter)| p.0)
    }

    pub fn new() -> (r: WaitingContexts)
        ensures
            r.ids() == Seq::<u32>::empty(),
    {
        let r = WaitingContexts { entries: Vec::new() };
        proof {
            assert(r.ids() =~= Seq::<u32>::empty());
        }
        r
    }

    pub fn insert(&mut self, context_id: u32, filter: CacheFilter)
        ensures
            final(self).ids() == old(self).ids().push(context_id),
    {
        self.entries.push((context_id, filter));
        proof {
            assert(self.ids() =~= old(self).ids().push(context_id));
        }
    }

    /// Removes and returns the suspended state for a context; the context is
    /// found exactly when it was parked.
    pub fn remove(&mut self, context_id: u32) -> (r: Option<CacheFilter>)
        ensures
            (r is None) <==> !old(self).ids().contains(context_id),
            r is Some ==> final(self).ids().len() == old(self).ids().len() - 1,
            r is None ==> final(self).ids() == old(self).ids(),
    {
        let mut i: usize = 0;
        while i < self.entries.len()
            invariant
                i <= self.entries@.len(),
                self.entries@ == old(self).entries@,
                forall|j: int| 0 <= j < i ==> (#[trigger] self.entries@[j]).0 != context_id,
            decreases self.entries@.len() - i,
        {
            if self.entries[i].0 == context_id {
                proof {
                    assert(old(self).ids()[i as int] == context_id);
                }
                let pair = self.entries.remove(i);
                proof {
                    assert(self.ids() =~= old(self).ids().remove(i as int));
                }
                return Some(pair.1);
            }
            i = i + 1;
        }
        proof {
            if old(self).ids().contains(context_id) {
                let w = choose|w: int|
                    0 <= w < old(self).ids().len() && old(self).ids()[w] == context_id;
                assert(old(self).entries@[w].0 == context_id);
                assert(false);
            }
        }
        None
    }
}

/// What the host adapter must do next for a request.
pub enum FilterAction {
    /// Send a local response with this status and optional body, then pause.
    Respond { status: u16, body: Option<String> },
    /// Let the request continue through the filter chain.
    Continue,
    /// Keep the request paused; it waits for a callout or a wake-up.
    Pause,
    /// Dispatch this authorize call upstream and pause for its response.
    DispatchAuthorize(threescalers::http::Request),
}

/// What parsing a JSON usages object yields: metric names to hits.  The
/// result depends on the string alone; its keys are distinct.
pub uninterp spec fn json_usages(s: Seq<char>) -> Option<Seq<(Seq<char>, u64)>>;

/// Relies on `serde_json::from_str` into an ordered map of `String` to
/// `u64`: the parse depends on the string alone and yields distinct keys.
#[verifier::external_body]
fn parse_usages(s: &str) -> (r: Option<Metrics>)
    ensures
        match r {
            Some(v) => json_usages(s@) == Some(metrics_view(v@)) && kv_keys_unique(v@),
            None => json_usages(s@) == None::<Seq<(Seq<char>, u64)>>,
        },
{
    match serde_json::from_str::<std::collections::BTreeMap<String, u64>>(s) {
        Ok(m) => Some(m.into_iter().collect()),
        Err(_) => None,
    }
}

/// The number `s` spells in decimal, when it is all digits and fits `u64`.
pub open spec fn spec_parse_u64(s: Seq<char>, n: int) -> Option<int>
    decreases n,
{
    if n <= 0 {
        if s.len() == 0 {
            None
        } else {
            Some(0)
        }
    } else {
        match spec_parse_u64(s, n - 1) {
            None => None,
            Some(acc) => {
                let c = s[n - 1];
                if '0' <= c && c <= '9' {
                    Some(acc * 10 + (c as int - '0' as int))
                } else {
                    None
                }
            },
        }
    }
}

/// Reads a decimal `u64`, refusing other shapes and overflow.
pub fn parse_u64_dec(s: &str) -> (r: Option<u64>)
    ensures
        match r {
            Some(v) => spec_parse_u64(s@, s@.len() as int) == Some(v as int),
            None => true,
        },
{
    let n = s.unicode_len();
    if n == 0 {
        return None;
    }
    let mut acc: u64 = 0;
    let mut i: usize = 0;
    while i < n
        invariant
            n == s@.len(),
            0 < n,
            i <= n,
            i > 0 ==> spec_parse_u64(s@, i as int) == Some(acc as int),
            i == 0 ==> acc == 0,
        decreases n - i,
    {
        let c = s.get_char(i);
        if c < '0' || c > '9' {
            return None;
        }
        let d = (c as u32) - ('0' as u32);
        if acc > (u64::MAX - d as u64) / 10 {
            return None;
        }
        acc = acc * 10 + d as u64;
        i = i + 1;
    }
    Some(acc)
}

/// Reads the request's metadata out of the inbound headers: the service
/// credentials, the usage deltas, and where the upstream lives.  Anything
/// missing or malformed is refused, in the order the fields are read.
pub fn get_request_data(headers: &RequestHeaders) -> (r: Result<ThreescaleData, RequestDataError>)
    ensures
        match r {
            Ok(data) => {
                &&& headers.service_token matches Some(t) && data.service_token@ == t@
                &&& headers.service_id matches Some(sid) && data.service_id@ == sid@
                &&& headers.usages matches Some(u) && json_usages(u@) == Some(
                    metrics_view(data.metrics@),
                )
                &&& data.wf()
                &&& headers.cluster_name matches Some(c) && data.upstream@.name == c@
                &&& headers.upstream_url matches Some(url) && crate::upstream::url_parse(url@)
                    matches Some(p) && p.has_authority && data.upstream@.scheme == p.scheme
                    && data.upstream@.authority == p.authority && data.upstream@.path
                    == crate::upstream::mount_path(p.path)
                &&& match &headers.user_key {
                    Some(k) => data.app_id@ == (crate::structs::AppIdentifierView::UserKey {
                        user_key: k@,
                    }),
                    None => headers.app_id matches Some(a) && data.app_id@
                        == crate::structs::appid_split(a@),
                }
            },
            Err(RequestDataError::ServiceTokenNotFound) => headers.service_token is None,
            Err(RequestDataError::ServiceIdNotFound) => headers.service_id is None,
            Err(RequestDataError::UsageNotFound) => headers.usages is None,
            Err(RequestDataError::ClusterNameNotFound) => headers.cluster_name is None,
            Err(RequestDataError::UpstreamUrlNotFound) => headers.upstream_url is None,
            Err(RequestDataError::UpstreamUrlParseFail) => headers.upstream_url matches Some(u)
                && crate::upstream::url_parse(u@) is None,
            Err(RequestDataError::UpstreamBuilderFail) => headers.upstream_url matches Some(u)
                && crate::upstream::url_parse(u@) matches Some(p) && !p.has_authority,
            Err(RequestDataError::DeserializeFail) => headers.usages matches Some(u)
                && json_usages(u@) is None,
            Err(RequestDataError::AuthKeyMissing) => headers.user_key is None
                && headers.app_id is None,
        },
{
    let service_token = match &headers.service_token {
        Some(t) => t,
        None => {
            return Err(RequestDataError::ServiceTokenNotFound);
        },
    };
    let service_id = match &headers.service_id {
        Some(t) => t,
        None => {
            return Err(RequestDataError::ServiceIdNotFound);
        },
    };
    let usage_str = match &headers.usages {
        Some(t) => t,
        None => {
            return Err(RequestDataError::UsageNotFound);
        },
    };
    let cluster_name = match &headers.cluster_name {
        Some(t) => t,
        None => {
            return Err(RequestDataError::ClusterNameNotFound);
        },
    };
    let upstream_url = match &headers.upstream_url {
        Some(t) => t,
        None => {
            return Err(RequestDataError::UpstreamUrlNotFound);
        },
    };
    let parsed_url = match parse_url(upstream_url.as_str()) {
        Some(p) => p,
        None => {
            return Err(RequestDataError::UpstreamUrlParseFail);
        },
    };
    let timeout = match &headers.timeout {
        Some(t) => parse_u64_dec(t.as_str()),
        None => None,
    };
    let upstream_builder = match Builder::try_from(parsed_url) {
        Ok(b) => b,
        Err(_) => {
            return Err(RequestDataError::UpstreamBuilderFail);
        },
    };
    let usages = match parse_usages(usage_str.as_str()) {
        Some(u) => u,
        None => {
            return Err(RequestDataError::DeserializeFail);
        },
    };
    let app_id = match &headers.user_key {
        Some(user_key) => AppIdentifier::UserKey(UserKey::from(user_key.as_str())),
        None => match &headers.app_id {
            Some(a) => AppIdentifier::appid_from_str(a.as_str()),
            None => {
                return Err(RequestDataError::AuthKeyMissing);
            },
        },
    };
    Ok(ThreescaleData {
        app_id,
        service_id: ServiceId::from(service_id.as_str()),
        service_token: ServiceToken::from(service_token.as_str()),
        metrics: usages,
        upstream: upstream_builder.build(cluster_name.as_str(), timeout),
    })
}

/// The deny-or-continue policy when the request cannot be served: deny
/// responds with a forbidden status, otherwise the request passes through.
pub fn in_request_failure(filter: &CacheFilter) -> (r: FilterAction)
    ensures
        filter.config.failure_mode_deny ==> (r matches FilterAction::Respond { status, body }
            && status == 403 && (body matches Some(b) && b@ == "Access forbidden.\n"@)),
        !filter.config.failure_mode_deny ==> r is Continue,
{
    if filter.config.failure_mode_deny {
        proof {
            reveal_strlit("Access forbidden.\n");
        }
        FilterAction::Respond {
            status: 403,
            body: Some(String::from_str("Access forbidden.\n")),
        }
    } else {
        FilterAction::Continue
    }
}

/// The same policy for a request that must be released in any case: deny
/// responds forbidden first; the request is then resumed.
pub fn request_process_failure(filter: &CacheFilter) -> (r: FilterAction)
    ensures
        filter.config.failure_mode_deny ==> (r matches FilterAction::Respond { status, body }
            && status == 403 && (body matches Some(b) && b@ == "Access forbidden.\n"@)),
        !filter.config.failure_mode_deny ==> r is Continue,
{
    in_request_failure(filter)
}

/// Builds the upstream authorize call for the request's credentials and
/// metrics; the builder cannot fail on these inputs.
pub fn do_auth_call(filter: &CacheFilter, request_data: &ThreescaleData) -> (r: Option<
    threescalers::http::Request,
>)
    ensures
        r is Some,
{
    let mut pairs: Vec<(String, String)> = Vec::new();
    let mut i: usize = 0;
    while i < request_data.metrics.len()
        decreases request_data.metrics@.len() - i,
    {
        let pair = &request_data.metrics[i];
        pairs.push((pair.0.clone(), u64_to_dec(pair.1)));
        i = i + 1;
    }
    crate::tsc::build_authorize_request(
        request_data.service_id.as_ref(),
        request_data.service_token.as_ref(),
        &request_data.app_id,
        &pairs,
    )
}

/// The singleton's well-known queue name.
pub open spec fn message_queue_name() -> Seq<char> {
    "message_queue"@
}

/// Whether some queue in the set is the singleton's.
pub open spec fn has_message_queue(queues: &QueueSet) -> bool {
    exists|q: int| 0 <= q < queues.qs().len() && queues.name_at(q) == message_queue_name()
}

/// Whether an authorize response's app-keys listing names the application
/// and its service.
pub open spec fn keys_complete(response: &AuthorizationStatusData) -> bool {
    response.app_keys matches Some(ak) && ak.app_id is Some && ak.service_id is Some
}

/// The usage reports a response carries, none reading as empty.
pub open spec fn response_reports(response: &AuthorizationStatusData) -> Seq<AuthUsageData> {
    match response.usage_reports {
        Some(rs) => rs@,
        None => Seq::empty(),
    }
}

/// Whether every carried report can be taken into the cache.
pub open spec fn reports_all_ok(response: &AuthorizationStatusData) -> bool {
    forall|i: int|
        0 <= i < response_reports(response).len() ==> report_ok(
            #[trigger] response_reports(response)[i],
        )
}

/// Whether the worker's own notification queue, named by its id in
/// decimal, is registered.
pub open spec fn has_worker_queue(queues: &QueueSet, root_id: u32) -> bool {
    exists|q: int|
        0 <= q < queues.qs().len() && queues.name_at(q) == crate::strutil::dec_digits(
            root_id as int,
        )
}

/// Whether no live value sits under `k`: never set, or cleared.
pub open spec fn lock_slot_free(
    m: Map<Seq<char>, (Option<StoreValView>, u32)>,
    k: Seq<char>,
) -> bool {
    !(m.dom().contains(k) && m[k].0 is Some)
}

/// The identifier a request will act under: a user key resolves through the
/// store's mapping when one is recorded.
pub open spec fn request_primary(
    m: Map<Seq<char>, (Option<StoreValView>, u32)>,
    headers: &RequestHeaders,
) -> crate::structs::AppIdentifierView {
    match headers.user_key {
        Some(uk) => if m.dom().contains(uk@) {
            match m[uk@].0 {
                Some(StoreValView::MappedId(a)) => crate::structs::AppIdentifierView::AppId {
                    id: a,
                    app_key: None,
                },
                _ => crate::structs::AppIdentifierView::UserKey { user_key: uk@ },
            }
        } else {
            crate::structs::AppIdentifierView::UserKey { user_key: uk@ }
        },
        None => match headers.app_id {
            Some(a) => crate::structs::appid_split(a@),
            None => crate::structs::appid_split(Seq::empty()),
        },
    }
}

/// The service the request names.
pub open spec fn request_service(headers: &RequestHeaders) -> Seq<char> {
    match headers.service_id {
        Some(s) => s@,
        None => Seq::empty(),
    }
}

/// The cache key the request's lookup uses.
pub open spec fn request_cache_key(
    m: Map<Seq<char>, (Option<StoreValView>, u32)>,
    headers: &RequestHeaders,
) -> Seq<char> {
    cache_key_string(request_service(headers), request_primary(m, headers).primary())
}

/// The parsed per-metric hits of the request.
pub open spec fn request_metrics(headers: &RequestHeaders) -> Seq<(Seq<char>, u64)> {
    match headers.usages {
        Some(u) => match json_usages(u@) {
            Some(ms) => ms,
            None => Seq::empty(),
        },
        None => Seq::empty(),
    }
}

/// Whether the store holds a usable application for the request, under its
/// resolved identifier.
pub open spec fn cache_hit_ready(
    m: Map<Seq<char>, (Option<StoreValView>, u32)>,
    headers: &RequestHeaders,
) -> bool {
    &&& request_primary(m, headers) is AppId
    &&& m.dom().contains(request_cache_key(m, headers))
    &&& m[request_cache_key(m, headers)].0 matches Some(StoreValView::App(av))
        && app_view_usable(av, request_cache_key(m, headers))
}

/// How the limit engine judges the request against the cached application.
pub open spec fn hit_pass(
    m: Map<Seq<char>, (Option<StoreValView>, u32)>,
    headers: &RequestHeaders,
    now: u64,
) -> (Map<Seq<char>, crate::structs::UsageReport>, SpecLimitOutcome) {
    match m[request_cache_key(m, headers)].0 {
        Some(StoreValView::App(av)) => spec_limit_check(
            av.state_map(),
            expand_metrics(av.metric_hierarchy, request_metrics(headers)),
            now,
        ),
        _ => (Map::empty(), SpecLimitOutcome::Authorized),
    }
}

/// Whether every waiter recorded on a lock whose queue existed has been
/// handed its retargeted action.
pub open spec fn waiters_handed(
    qs: Seq<(Seq<char>, Seq<QueueValView>)>,
    pre_len: int,
    lv: crate::unique_callout::CalloutLockValueView,
    act: WaiterAction,
) -> bool {
    forall|i: int|
        0 <= i < lv.waiters.len() && ((#[trigger] lv.waiters[i]).queue_id as int) < pre_len
            ==> qs[lv.waiters[i].queue_id as int].1.contains(
            QueueValView::Action(
                crate::unique_callout::with_context(act, lv.waiters[i].http_context_id),
            ),
        )
}

/// The wake-up the winner's outcome owes its waiters: the cache-hit path
/// after a pass or a local rate limit, the failure path otherwise.
pub open spec fn winner_action_of(r: FilterAction) -> WaiterAction {
    if r is Continue || r matches FilterAction::Respond { status: 429u16, .. } {
        WaiterAction::HandleCacheHit(0)
    } else {
        WaiterAction::HandleFailure(0)
    }
}

/// Whether the callout failed outright: a timeout, a missing or
/// unparseable body, an upstream error code, or an unhandled denial.
pub open spec fn winner_failed(timed_out: bool, parse: &Option<AuthResponseParse>) -> bool {
    timed_out || !(parse matches Some(AuthResponseParse::Status(st)) && (st.authorized
        || st.usage_reports is Some))
}

/// Whether the winner's own writes — the user-key mapping and the fresh
/// application — stay clear of the given lock key, so the lock survives
/// untouched until it is freed.
pub open spec fn winner_writes_avoid(
    f: &CacheFilter,
    st: &AuthorizationStatusData,
    lock_key: Seq<char>,
) -> bool {
    &&& response_new_key(st) != lock_key
    &&& (f.cache_key.app_view() is UserKey ==> user_key_of(f.cache_key.app_view()) != lock_key)
}

/// The cache key the response's application will live under, empty when
/// the listing is incomplete.
pub open spec fn response_new_key(response: &AuthorizationStatusData) -> Seq<char> {
    match response.app_keys {
        Some(ak) => match (ak.app_id, ak.service_id) {
            (Some(aid), Some(sid)) => cache_key_string(sid@, aid@),
            _ => Seq::empty(),
        },
        None => Seq::empty(),
    }
}

/// The user key an identifier carries, empty for the app-id form.
pub open spec fn user_key_of(av: crate::structs::AppIdentifierView) -> Seq<char> {
    match av {
        crate::structs::AppIdentifierView::UserKey { user_key } => user_key,
        _ => Seq::empty(),
    }
}

/// Whether the response's hierarchy names each parent once.
pub open spec fn hierarchy_unique(response: &AuthorizationStatusData) -> bool {
    forall|x: int, y: int|
        0 <= x < y < response.hierarchy@.len() ==> (#[trigger] response.hierarchy@[x]).0@
            != (#[trigger] response.hierarchy@[y]).0@
}

fn resolve_message_queue(queues: &QueueSet) -> (r: Option<u32>)
    requires
        queues.wf(),
    ensures
        match r {
            Some(q) => (q as int) < queues.qs().len() && queues.name_at(q as int)
                == message_queue_name(),
            None => forall|i: int|
                0 <= i < queues.qs().len() ==> queues.name_at(i) != message_queue_name(),
        },
{
    queues.resolve_queue("message_queue")
}

impl CacheFilter {
    /// Queues the request's consumed deltas for the singleton.
    pub fn report_to_singleton(&self, queues: &mut QueueSet, qid: u32, req_time: u64) -> (r: bool)
        requires
            old(queues).wf(),
        ensures
            final(queues).wf(),
            r == ((qid as int) < old(queues).qs().len()),
            r ==> final(queues).qs() == old(queues).qs().update(
                qid as int,
                (
                    old(queues).name_at(qid as int),
                    old(queues).items_at(qid as int).push(
                        QueueValView::Report(
                            MessageView {
                                update_cache_from_singleton: self.update_cache_from_singleton,
                                data: self.req_data@,
                                req_time,
                            },
                        ),
                    ),
                ),
            ),
            !r ==> final(queues).qs() == old(queues).qs(),
    {
        let message = Message::new(self.update_cache_from_singleton, &self.req_data, req_time);
        match queues.enqueue(qid, QueueVal::Report(message)) {
            Ok(()) => true,
            Err(()) => false,
        }
    }

    /// The cache-hit path: expand the hierarchy into the request's metrics,
    /// run the limit engine, write the consumed state back, and queue the
    /// message for the singleton.  `app_cas` must be the entry's cas as just
    /// read (or `0` on a fresh insert): the store model is atomic between
    /// the read and this write, so the write cannot lose a race and the
    /// bounded retry the protocol allows for collapses into one attempt.
    pub fn handle_cache_hit(
        &mut self,
        app: &mut Application,
        app_cas: u32,
        store: &mut SharedStore,
        queues: &mut QueueSet,
        now: u64,
    ) -> (r: Result<CacheHitOutcome, CacheHitError>)
        requires
            old(self).req_data.wf(),
            !old(self).update_cache_from_singleton,
            old(app).wf(),
            old(store).wf(),
            old(queues).wf(),
            app_cas == 0 || (old(store).contents().dom().contains(
                cache_key_string(old(app).service_id@, old(app).app_id@.primary()),
            ) && old(store).contents()[cache_key_string(
                old(app).service_id@,
                old(app).app_id@.primary(),
            )].1 == app_cas),
        ensures
            final(self).req_data.wf(),
            final(app).wf(),
            final(store).wf(),
            final(queues).wf(),
            final(app).app_id@ == old(app).app_id@,
            final(app).service_id@ == old(app).service_id@,
            final(app).app_keys == old(app).app_keys,
            crate::structs::hierarchy_view(final(app).metric_hierarchy@)
                == crate::structs::hierarchy_view(old(app).metric_hierarchy@),
            final(self).context_id == old(self).context_id,
            final(self).root_id == old(self).root_id,
            final(self).config == old(self).config,
            final(self).cache_key.service_view() == old(self).cache_key.service_view(),
            final(self).cache_key.app_view() == old(self).cache_key.app_view(),
            final(self).update_cache_from_singleton == old(self).update_cache_from_singleton,
            final(self).req_data.app_id@ == old(self).req_data.app_id@,
            final(self).req_data.service_id@ == old(self).req_data.service_id@,
            final(self).req_data.service_token@ == old(self).req_data.service_token@,
            final(self).req_data.upstream@ == old(self).req_data.upstream@,
            final(queues).qs().len() == old(queues).qs().len(),
            // the error comes exactly when the singleton's queue is absent
            (r == Err::<CacheHitOutcome, CacheHitError>(CacheHitError::MQNotFound)) <==> !has_message_queue(
                old(queues),
            ),
            // no lock appears or changes anywhere: the only writes are the
            // application entry and the advisory counter
            forall|k: Seq<char>|
                crate::unique_callout::lock_at(final(store).contents(), k) is Some ==> (old(store).contents().dom().contains(k) && final(store).contents()[k] == old(store).contents()[k]),
            !(r matches Err(CacheHitError::MQNotFound)) ==> metrics_view(
                final(self).req_data.metrics@,
            ) == expand_metrics(
                crate::structs::hierarchy_view(old(app).metric_hierarchy@),
                metrics_view(old(self).req_data.metrics@),
            ),
            ({
                let key = cache_key_string(old(app).service_id@, old(app).app_id@.primary());
                let expanded = expand_metrics(
                    crate::structs::hierarchy_view(old(app).metric_hierarchy@),
                    metrics_view(old(self).req_data.metrics@),
                );
                let pass = spec_limit_check(old(app).state_map(), expanded, now);
                match r {
                    Ok(CacheHitOutcome::Allowed) => {
                        &&& pass.1 == SpecLimitOutcome::Authorized
                        &&& final(app).state_map() == pass.0
                        &&& (key != SHARED_MEMORY_COUNTER_KEY@ ==> final(store).contents().dom().contains(key) && final(store).contents()[key].0
                            == Some(StoreValView::App(final(app)@)))
                        &&& (exists|stamp: u32, cnt: (Option<StoreValView>, u32)|
                            final(store).contents() == old(store).contents().insert(
                                key,
                                (Some(StoreValView::App(final(app)@)), stamp),
                            ).insert(SHARED_MEMORY_COUNTER_KEY@, cnt))
                        &&& forall|k2: Seq<char>|
                            k2 != key && k2 != SHARED_MEMORY_COUNTER_KEY@ ==> (final(store).contents().dom().contains(k2) == old(store).contents().dom().contains(
                                k2,
                            ) && (old(store).contents().dom().contains(k2) ==> final(store).contents()[k2] == old(store).contents()[k2]))
                        &&& exists|q: int|
                            0 <= q < old(queues).qs().len() && old(queues).name_at(q)
                                == message_queue_name() && final(queues).qs() == old(queues).qs().update(
                                q,
                                (
                                    old(queues).name_at(q),
                                    old(queues).items_at(q).push(
                                        QueueValView::Report(
                                            MessageView {
                                                update_cache_from_singleton: false,
                                                data: final(self).req_data@,
                                                req_time: now,
                                            },
                                        ),
                                    ),
                                ),
                            )
                    },
                    Ok(CacheHitOutcome::RateLimited) => {
                        &&& pass.1 == SpecLimitOutcome::RateLimited
                        &&& *final(store) == *old(store)
                        &&& final(queues).qs() == old(queues).qs()
                    },
                    Ok(CacheHitOutcome::AllowedPendingSingleton) => false,
                    Err(CacheHitError::MQNotFound) => *final(store) == *old(store) && final(queues).qs() == old(queues).qs(),
                    Err(CacheHitError::MetricsCheckFail) => {
                        &&& pass.1 == SpecLimitOutcome::Overflow
                        &&& *final(store) == *old(store)
                        &&& final(queues).qs() == old(queues).qs()
                    },
                    Err(CacheHitError::AppFetchFail) => false,
                }
            }),
    {
        let queue_id = match resolve_message_queue(queues) {
            Some(q) => q,
            None => {
                proof {
                    if exists|q: int|
                        0 <= q < queues.qs().len() && queues.name_at(q) == message_queue_name() {
                        let q = choose|q: int|
                            0 <= q < queues.qs().len() && queues.name_at(q)
                                == message_queue_name();
                        assert(false);
                    }
                }
                return Err(CacheHitError::MQNotFound);
            },
        };
        proof {
            assert((queue_id as int) < queues.qs().len() && queues.name_at(queue_id as int)
                == message_queue_name());
        }
        add_hierarchy_to_metrics(&app.metric_hierarchy, &mut self.req_data.metrics);
        match limit_check_and_update_application(&self.req_data, app, app_cas, now, store) {
            Ok(()) => {
                // The consumed quota is in the cache; tell the singleton.
                let sent = self.report_to_singleton(queues, queue_id, now);
                proof {
                    assert(sent);
                    let q = queue_id as int;
                    assert(queues.qs() == old(queues).qs().update(
                        q,
                        (
                            old(queues).name_at(q),
                            old(queues).items_at(q).push(
                                QueueValView::Report(
                                    MessageView {
                                        update_cache_from_singleton: false,
                                        data: self.req_data@,
                                        req_time: now,
                                    },
                                ),
                            ),
                        ),
                    ));
                }
                Ok(CacheHitOutcome::Allowed)
            },
            Err(UpdateMetricsError::RateLimited) => Ok(CacheHitOutcome::RateLimited),
            Err(UpdateMetricsError::DurationOverflow) => Err(CacheHitError::MetricsCheckFail),
            Err(UpdateMetricsError::CacheUpdateFail) => {
                // Unreachable against the atomic store model: the cas this
                // call requires is the entry's current one.
                proof {
                    assert(false);
                }
                Err(CacheHitError::AppFetchFail)
            },
        }
    }
}


/// The usage report a parsed authorize report denotes: the window as given,
/// the quota left being what remains of the maximum.
pub open spec fn report_entry(u: AuthUsageData) -> UsageReport {
    UsageReport {
        period_window: PeriodWindow {
            start: u.period_start as u64,
            end: u.period_end as u64,
            window: u.period,
        },
        left_hits: if u.current_value <= u.max_value {
            (u.max_value - u.current_value) as u64
        } else {
            0
        },
        max_value: u.max_value,
    }
}

/// Whether a parsed report can be taken into the cache: nonnegative period
/// bounds that span exactly one period.
pub open spec fn report_ok(u: AuthUsageData) -> bool {
    &&& u.period_start >= 0
    &&& u.period_end >= 0
    &&& (u.period != Period::Eternity ==> u.period_end as u64 as int == u.period_start as u64
        + u.period.spec_as_secs())
}

/// The quota state an authorize response's reports build; a metric listed
/// twice keeps its last report.
pub open spec fn reports_state(rs: Seq<AuthUsageData>) -> Map<Seq<char>, UsageReport>
    decreases rs.len(),
{
    if rs.len() == 0 {
        Map::empty()
    } else {
        reports_state(rs.drop_last()).insert(rs.last().metric@, report_entry(rs.last()))
    }
}

/// Builds the per-metric quota state from the response's reports.
pub(crate) fn build_state(rs: &Vec<AuthUsageData>) -> (r: Result<Vec<(String, UsageReport)>, AuthResponseError>)
    ensures
        match r {
            Ok(state) => {
                &&& kv_keys_unique(state@)
                &&& crate::kv::kv_map(state@) == reports_state(rs@)
                &&& forall|i: int| 0 <= i < state@.len() ==> (#[trigger] state@[i]).1.wf()
                &&& forall|i: int| 0 <= i < rs@.len() ==> report_ok(#[trigger] rs@[i])
            },
            Err(e) => {
                &&& (e == AuthResponseError::NegativeTimeErr || e
                    == AuthResponseError::WindowMismatchErr)
                &&& exists|i: int| 0 <= i < rs@.len() && !report_ok(#[trigger] rs@[i])
            },
        },
{
    let mut state: Vec<(String, UsageReport)> = Vec::new();
    let mut i: usize = 0;
    proof {
        assert(rs@.subrange(0, 0) =~= Seq::<AuthUsageData>::empty());
        assert(crate::kv::kv_map(state@) =~= reports_state(rs@.subrange(0, 0)));
    }
    while i < rs.len()
        invariant
            i <= rs@.len(),
            kv_keys_unique(state@),
            crate::kv::kv_map(state@) == reports_state(rs@.subrange(0, i as int)),
            forall|j: int| 0 <= j < state@.len() ==> (#[trigger] state@[j]).1.wf(),
            forall|j: int| 0 <= j < i ==> report_ok(#[trigger] rs@[j]),
        decreases rs@.len() - i,
    {
        let u = &rs[i];
        if u.period_start < 0 || u.period_end < 0 {
            return Err(AuthResponseError::NegativeTimeErr);
        }
        let start = u.period_start as u64;
        let end = u.period_end as u64;
        if !matches!(u.period, Period::Eternity) {
            let secs = u.period.as_secs();
            if !(start <= end && end - start == secs && start + secs == end) {
                return Err(AuthResponseError::WindowMismatchErr);
            }
        }
        let left = if u.current_value <= u.max_value {
            u.max_value - u.current_value
        } else {
            0
        };
        let entry = UsageReport {
            period_window: PeriodWindow { start, end, window: u.period },
            left_hits: left,
            max_value: u.max_value,
        };
        proof {
            assert(entry == report_entry(rs@[i as int]));
            assert(report_ok(rs@[i as int]));
            assert(rs@.subrange(0, i + 1).drop_last() =~= rs@.subrange(0, i as int));
            assert(rs@.subrange(0, i + 1).last() == rs@[i as int]);
        }
        let ghost pre = state@;
        match crate::kv::kv_find(&state, u.metric.as_str()) {
            Some(j) => {
                crate::kv::kv_set_at(&mut state, j, entry);
                proof {
                    crate::kv::lemma_kv_map_update(pre, j as int, (pre[j as int].0, entry));
                }
            },
            None => {
                state.push((u.metric.clone(), entry));
                proof {
                    crate::kv::lemma_kv_map_push(pre, (state@[state@.len() - 1].0, entry));
                    assert(state@.drop_last() =~= pre);
                    assert forall|x: int, y: int|
                        0 <= x < y < state@.len() implies state@[x].0@ != state@[y].0@ by {
                        if y == state@.len() - 1 {
                            if pre[x].0@ == u.metric@ {
                                assert(crate::kv::kv_has_key(pre, u.metric@));
                                assert(false);
                            }
                        }
                    }
                }
            },
        }
        i = i + 1;
    }
    proof {
        assert(rs@.subrange(0, rs@.len() as int) =~= rs@);
    }
    Ok(state)
}

impl CacheFilter {
    /// The winner's successful-authorize path: build the application the
    /// response describes, record the user key's resolution, rewrite the
    /// cache key to the app id, and run the cache-hit path on the fresh
    /// application with an unconditional write.
    pub fn handle_auth_response(
        &mut self,
        response: &AuthorizationStatusData,
        store: &mut SharedStore,
        queues: &mut QueueSet,
        now: u64,
    ) -> (r: Result<CacheHitOutcome, AuthResponseError>)
        requires
            old(self).req_data.wf(),
            !old(self).update_cache_from_singleton,
            old(store).wf(),
            old(queues).wf(),
        ensures
            final(store).wf(),
            final(queues).wf(),
            final(self).req_data.wf(),
            final(self).context_id == old(self).context_id,
            final(self).root_id == old(self).root_id,
            final(self).config == old(self).config,
            final(self).update_cache_from_singleton == old(self).update_cache_from_singleton,
            final(queues).qs().len() == old(queues).qs().len(),
            // each listing defect is reported exactly when it is present
            (r == Err::<CacheHitOutcome, AuthResponseError>(AuthResponseError::ListKeysMiss))
                <==> response.app_keys is None,
            (r == Err::<CacheHitOutcome, AuthResponseError>(AuthResponseError::ListAppIdMiss))
                <==> (response.app_keys matches Some(ak) && ak.app_id is None),
            (r == Err::<CacheHitOutcome, AuthResponseError>(AuthResponseError::ListServiceIdMiss))
                <==> (response.app_keys matches Some(ak) && ak.app_id is Some && ak.service_id
                is None),
            !keys_complete(response) ==> *final(store) == *old(store) && final(queues).qs()
                == old(queues).qs(),
            // an ill-formed report is refused exactly when one is carried
            keys_complete(response) ==> ((r == Err::<CacheHitOutcome, AuthResponseError>(
                AuthResponseError::NegativeTimeErr,
            ) || r == Err::<CacheHitOutcome, AuthResponseError>(
                AuthResponseError::WindowMismatchErr,
            )) <==> !reports_all_ok(response)),
            // no lock appears or changes anywhere on any path
            forall|k: Seq<char>|
                crate::unique_callout::lock_at(final(store).contents(), k) is Some ==> (old(store).contents().dom().contains(k) && final(store).contents()[k] == old(store).contents()[k]),
            // only the mapping, the application and the counter are written
            forall|k: Seq<char>|
                ((!(old(self).cache_key.app_view() is UserKey) || k != user_key_of(
                    old(self).cache_key.app_view(),
                )) && k != response_new_key(response) && k != SHARED_MEMORY_COUNTER_KEY@) ==> (
                final(store).contents().dom().contains(k) == old(store).contents().dom().contains(
                    k,
                ) && (old(store).contents().dom().contains(k) ==> final(store).contents()[k]
                    == old(store).contents()[k])),
            ({
                if keys_complete(response) {
                    response.app_keys matches Some(ak) && ak.app_id matches Some(aid)
                        && ak.service_id matches Some(sid) && {
                        let new_key = cache_key_string(sid@, aid@);
                        // the filter now speaks for the reported application
                        &&& final(self).cache_key.service_view() == sid@
                        &&& final(self).cache_key.app_view() == (
                        crate::structs::AppIdentifierView::AppId { id: aid@, app_key: None })
                        &&& (old(self).cache_key.app_view() matches
                        crate::structs::AppIdentifierView::UserKey { user_key } ==> final(self).req_data.app_id@ == (crate::structs::AppIdentifierView::AppId {
                            id: aid@,
                            app_key: None,
                        }))
                        // the user key's resolution is in the store
                        &&& (old(self).cache_key.app_view() matches
                        crate::structs::AppIdentifierView::UserKey { user_key } ==> (user_key
                            != new_key && user_key != SHARED_MEMORY_COUNTER_KEY@ ==> final(store).contents().dom().contains(user_key) && final(store).contents()[user_key].0 == Some(StoreValView::MappedId(aid@))))
                        // the pass consumes quota against the expanded
                        // metrics and tells the singleton
                        &&& (r == Ok::<CacheHitOutcome, AuthResponseError>(
                            CacheHitOutcome::Allowed,
                        ) ==> exists|q: int|
                            0 <= q < old(queues).qs().len() && old(queues).name_at(q)
                                == message_queue_name() && final(queues).qs() == old(queues).qs().update(
                                q,
                                (
                                    old(queues).name_at(q),
                                    old(queues).items_at(q).push(
                                        QueueValView::Report(
                                            MessageView {
                                                update_cache_from_singleton: false,
                                                data: final(self).req_data@,
                                                req_time: now,
                                            },
                                        ),
                                    ),
                                ),
                            ))
                        &&& (hierarchy_unique(response) && !(r matches Err(
                            AuthResponseError::ListKeysMiss,
                        )) && !(r matches Err(AuthResponseError::ListAppIdMiss)) && !(r matches Err(
                            AuthResponseError::ListServiceIdMiss,
                        )) && !(r matches Err(AuthResponseError::NegativeTimeErr)) && !(r matches
                        Err(AuthResponseError::WindowMismatchErr)) && !(r == Err::<
                            CacheHitOutcome,
                            AuthResponseError,
                        >(AuthResponseError::CacheHitErr(CacheHitError::MQNotFound)))
                            ==> metrics_view(final(self).req_data.metrics@) == expand_metrics(
                            crate::structs::hierarchy_view(response.hierarchy@),
                            metrics_view(old(self).req_data.metrics@),
                        ))
                        // with well-formed reports, success is owed exactly
                        // when the singleton's queue exists and the roll
                        // arithmetic fits
                        &&& ((reports_all_ok(response) && hierarchy_unique(response)) ==> {
                            let pass = spec_limit_check(
                                reports_state(response_reports(response)),
                                expand_metrics(
                                    crate::structs::hierarchy_view(response.hierarchy@),
                                    metrics_view(old(self).req_data.metrics@),
                                ),
                                now,
                            );
                            &&& ((r == Ok::<CacheHitOutcome, AuthResponseError>(
                                CacheHitOutcome::Allowed,
                            )) <==> (has_message_queue(old(queues)) && pass.1
                                == SpecLimitOutcome::Authorized))
                            &&& ((r == Ok::<CacheHitOutcome, AuthResponseError>(
                                CacheHitOutcome::RateLimited,
                            )) <==> (has_message_queue(old(queues)) && pass.1
                                == SpecLimitOutcome::RateLimited))
                            &&& ((r == Err::<CacheHitOutcome, AuthResponseError>(
                                AuthResponseError::CacheHitErr(CacheHitError::MQNotFound),
                            )) <==> !has_message_queue(old(queues)))
                            &&& ((r == Ok::<CacheHitOutcome, AuthResponseError>(
                                CacheHitOutcome::Allowed,
                            ) && new_key != SHARED_MEMORY_COUNTER_KEY@) ==> final(store).contents().dom().contains(new_key) && (final(store).contents()[new_key].0 matches Some(StoreValView::App(av)) && {
                                &&& av.state_map() == pass.0
                                &&& av.metric_hierarchy == crate::structs::hierarchy_view(
                                    response.hierarchy@,
                                )
                                &&& av.app_id == (crate::structs::AppIdentifierView::AppId {
                                    id: aid@,
                                    app_key: None,
                                })
                                &&& av.service_id == sid@
                                &&& av.app_keys == Some(ak.keys.deep_view())
                            }))
                        })
                    }
                } else {
                    true
                }
            }),
    {
        let app_keys = match &response.app_keys {
            Some(ak) => ak,
            None => {
                return Err(AuthResponseError::ListKeysMiss);
            },
        };
        let app_id_str = match &app_keys.app_id {
            Some(a) => a,
            None => {
                return Err(AuthResponseError::ListAppIdMiss);
            },
        };
        let service_id_str = match &app_keys.service_id {
            Some(s) => s,
            None => {
                return Err(AuthResponseError::ListServiceIdMiss);
            },
        };
        let app_id = AppId::from(app_id_str.as_str());
        let app_identifier = AppIdentifier::from_app_id(AppId::from(app_id_str.as_str()));
        let service_id = ServiceId::from(service_id_str.as_str());

        // Resolve the user key to the reported app id for later requests.
        if let AppIdentifier::UserKey(user_key) = self.cache_key.app_id() {
            self.req_data.app_id = app_identifier.clone();
            let _ = set_app_id_to_cache(store, user_key, &app_id);
        }
        let ghost mid = *store;
        proof {
            assert forall|k: Seq<char>|
                crate::unique_callout::lock_at(mid.contents(), k) is Some implies (old(store).contents().dom().contains(k) && mid.contents()[k] == old(store).contents()[k]) by {
                if old(self).cache_key.app_view() is UserKey {
                    let uk = old(self).cache_key.app_view()->UserKey_user_key;
                    if k == uk {
                        assert(mid.contents()[k].0 == Some(StoreValView::MappedId(app_id@)));
                        assert(false);
                    }
                }
            }
            assert forall|k: Seq<char>|
                (!(old(self).cache_key.app_view() is UserKey) || k != user_key_of(
                    old(self).cache_key.app_view(),
                )) implies (mid.contents().dom().contains(k) == old(store).contents().dom().contains(
                k,
            ) && (old(store).contents().dom().contains(k) ==> mid.contents()[k] == old(store).contents()[k])) by {
                if old(self).cache_key.app_view() is UserKey {
                    assert(k != user_key_of(old(self).cache_key.app_view()));
                }
            }
        }
        self.cache_key = CacheKey::from(&service_id, &app_identifier);

        let state = match &response.usage_reports {
            Some(rs) => match build_state(rs) {
                Ok(s) => s,
                Err(e) => {
                    proof {
                        assert(!reports_all_ok(response)) by {
                            let b = choose|b: int|
                                0 <= b < rs@.len() && !report_ok(#[trigger] rs@[b]);
                            assert(response_reports(response)[b] == rs@[b]);
                        }
                    }
                    return Err(e);
                },
            },
            None => Vec::new(),
        };
        proof {
            if response.usage_reports is None {
                assert(crate::kv::kv_map(state@) =~= reports_state(Seq::<AuthUsageData>::empty()));
            }
        }
        let mut built: crate::structs::Hierarchy = Vec::new();
        let mut i: usize = 0;
        while i < response.hierarchy.len()
            invariant
                i <= response.hierarchy@.len(),
                built@.len() == i,
                forall|j: int| 0 <= j < i ==> (#[trigger] built@[j]).0@
                    == response.hierarchy@[j].0@ && built@[j].1.deep_view()
                    == response.hierarchy@[j].1.deep_view(),
        decreases response.hierarchy@.len() - i,
        {
            let pair = &response.hierarchy[i];
            let mut children: Vec<String> = Vec::new();
            let mut j: usize = 0;
            while j < pair.1.len()
                invariant
                    j <= pair.1@.len(),
                    children@.len() == j,
                    forall|k: int| 0 <= k < j ==> children@[k]@ == pair.1@[k]@,
                decreases pair.1@.len() - j,
            {
                children.push(pair.1[j].clone());
                j = j + 1;
            }
            proof {
                assert(children.deep_view() =~= pair.1.deep_view());
            }
            built.push((pair.0.clone(), children));
            i = i + 1;
        }
        proof {
            assert(crate::structs::hierarchy_view(built@) =~= crate::structs::hierarchy_view(
                response.hierarchy@,
            ));
            if forall|x: int, y: int|
                0 <= x < y < response.hierarchy@.len() ==> (#[trigger] response.hierarchy@[x]).0@
                    != (#[trigger] response.hierarchy@[y]).0@ {
                assert forall|x: int, y: int|
                    0 <= x < y < built@.len() implies built@[x].0@ != built@[y].0@ by {
                    assert(response.hierarchy@[x].0@ != response.hierarchy@[y].0@);
                }
            }
        }
        // A repeated parent would make the expansion ill defined; drop any
        // duplicate, keeping the first.
        let hierarchy = dedup_hierarchy(built);
        let mut keys: Vec<crate::structs::AppKey> = Vec::new();
        let mut i: usize = 0;
        while i < app_keys.keys.len()
            invariant
                i <= app_keys.keys@.len(),
                keys@.len() == i,
                forall|j: int| 0 <= j < i ==> keys@[j]@ == app_keys.keys@[j]@,
            decreases app_keys.keys@.len() - i,
        {
            keys.push(crate::structs::AppKey::from(app_keys.keys[i].as_str()));
            i = i + 1;
        }
        proof {
            assert(keys.deep_view() =~= app_keys.keys.deep_view());
        }
        let mut app = Application {
            app_id: app_identifier,
            service_id,
            local_state: state,
            metric_hierarchy: hierarchy,
            app_keys: Some(keys),
        };
        // A fresh application cannot be contended: write unconditionally.
        let ghost pre_service = app.service_id@;
        let ghost pre_primary = app.app_id@.primary();
        let result = self.handle_cache_hit(&mut app, 0, store, queues, now);
        proof {
            crate::kv::lemma_kv_map_is_vkv_map(app.local_state@);
            assert(cache_key_string(app.service_id@, app.app_id@.primary()) == response_new_key(
                response,
            ));
            assert forall|k: Seq<char>|
                ((!(old(self).cache_key.app_view() is UserKey) || k != user_key_of(
                    old(self).cache_key.app_view(),
                )) && k != response_new_key(response) && k != SHARED_MEMORY_COUNTER_KEY@) implies (
                store.contents().dom().contains(k) == old(store).contents().dom().contains(k) && (
                old(store).contents().dom().contains(k) ==> store.contents()[k] == old(store).contents()[k])) by {
                assert(mid.contents().dom().contains(k) == old(store).contents().dom().contains(k));
                if old(store).contents().dom().contains(k) {
                    assert(mid.contents()[k] == old(store).contents()[k]);
                }
                match result {
                    Ok(CacheHitOutcome::Allowed) => {
                        assert(cache_key_string(pre_service, pre_primary) == response_new_key(
                            response,
                        ));
                        assert(k != cache_key_string(pre_service, pre_primary));
                        assert(store.contents().dom().contains(k) == mid.contents().dom().contains(
                            k,
                        ) && (mid.contents().dom().contains(k) ==> store.contents()[k]
                            == mid.contents()[k]));
                    },
                    _ => {
                        assert(*store == mid);
                    },
                }
            }
            assert forall|k: Seq<char>|
                crate::unique_callout::lock_at(store.contents(), k) is Some implies (old(store).contents().dom().contains(k) && store.contents()[k] == old(store).contents()[k]) by {
                assert(mid.contents().dom().contains(k) && store.contents()[k]
                    == mid.contents()[k]);
                assert(crate::unique_callout::lock_at(mid.contents(), k) is Some);
            }
            if reports_all_ok(response) && hierarchy_unique(response) {
                if response.usage_reports is None {
                    assert(response_reports(response) =~= Seq::<AuthUsageData>::empty());
                }
            }
        }
        match result {
            Ok(outcome) => Ok(outcome),
            Err(e) => Err(AuthResponseError::CacheHitErr(e)),
        }
    }
}

/// Keeps each parent's first entry, making the hierarchy's keys unique; a
/// hierarchy whose parents already are unique passes through unchanged.
pub(crate) fn dedup_hierarchy(h: crate::structs::Hierarchy) -> (r: crate::structs::Hierarchy)
    ensures
        kv_keys_unique(r@),
        kv_keys_unique(h@) ==> crate::structs::hierarchy_view(r@)
            == crate::structs::hierarchy_view(h@),
{
    let mut out: crate::structs::Hierarchy = Vec::new();
    let mut i: usize = 0;
    proof {
        if kv_keys_unique(h@) {
            assert(crate::structs::hierarchy_view(out@) =~= crate::structs::hierarchy_view(
                h@,
            ).subrange(0, 0));
        }
    }
    while i < h.len()
        invariant
            i <= h@.len(),
            kv_keys_unique(out@),
            kv_keys_unique(h@) ==> out@.len() == i && crate::structs::hierarchy_view(out@)
                == crate::structs::hierarchy_view(h@).subrange(0, i as int)
                && (forall|j: int| 0 <= j < i ==> (#[trigger] out@[j]).0@ == h@[j].0@),
        decreases h@.len() - i,
    {
        let ghost pre = out@;
        match crate::kv::kv_find(&out, h[i].0.as_str()) {
            Some(_) => {
                proof {
                    if kv_keys_unique(h@) {
                        assert(crate::kv::kv_has_key(pre, h@[i as int].0@));
                        let w = choose|w: int|
                            0 <= w < pre.len() && (#[trigger] pre[w].0@) == h@[i as int].0@;
                        assert(h@[w].0@ == h@[i as int].0@);
                        assert(false);
                    }
                }
            },
            None => {
                let pair = &h[i];
                let mut children: Vec<String> = Vec::new();
                let mut j: usize = 0;
                while j < pair.1.len()
                    invariant
                        j <= pair.1@.len(),
                        children@.len() == j,
                        forall|k: int| 0 <= k < j ==> children@[k]@ == pair.1@[k]@,
                    decreases pair.1@.len() - j,
                {
                    children.push(pair.1[j].clone());
                    j = j + 1;
                }
                proof {
                    assert(children.deep_view() =~= pair.1.deep_view());
                }
                out.push((pair.0.clone(), children));
                proof {
                    assert forall|x: int, y: int|
                        0 <= x < y < out@.len() implies out@[x].0@ != out@[y].0@ by {
                        if y == out@.len() - 1 {
                            if pre[x].0@ == out@[y].0@ {
                                assert(crate::kv::kv_has_key(pre, out@[y].0@));
                                assert(false);
                            }
                        }
                    }
                    if kv_keys_unique(h@) {
                        assert(crate::structs::hierarchy_view(out@) =~= crate::structs::hierarchy_view(
                            h@,
                        ).subrange(0, i + 1));
                    }
                }
            },
        }
        i = i + 1;
    }
    proof {
        if kv_keys_unique(h@) {
            assert(crate::structs::hierarchy_view(h@).subrange(
                0,
                crate::structs::hierarchy_view(h@).len() as int,
            ) =~= crate::structs::hierarchy_view(h@));
        }
    }
    out
}


/// Whether a cached application's view can serve requests under `key`:
/// well formed and actually the key's application.
pub open spec fn app_view_usable(av: crate::structs::ApplicationView, key: Seq<char>) -> bool {
    &&& forall|x: int, y: int|
        0 <= x < y < av.local_state.len() ==> (#[trigger] av.local_state[x]).0
            != (#[trigger] av.local_state[y]).0
    &&& forall|i: int| 0 <= i < av.local_state.len() ==> (#[trigger] av.local_state[i]).1.wf()
    &&& forall|x: int, y: int|
        0 <= x < y < av.metric_hierarchy.len() ==> (#[trigger] av.metric_hierarchy[x]).0
            != (#[trigger] av.metric_hierarchy[y]).0
    &&& cache_key_string(av.service_id, av.app_id.primary()) == key
}

/// The exec well-formedness plus identity check agrees with the view-level
/// predicate.
pub(crate) proof fn lemma_app_usable_view(app: &Application, key: Seq<char>)
    ensures
        (app.wf() && cache_key_string(app.service_id@, app.app_id@.primary()) == key)
            == app_view_usable(app@, key),
{
    let av = app@;
    assert(av.local_state.len() == app.local_state@.len());
    assert(forall|i: int| 0 <= i < app.local_state@.len() ==> #[trigger] av.local_state[i]
        == (app.local_state@[i].0@, app.local_state@[i].1));
    assert(av.metric_hierarchy.len() == app.metric_hierarchy@.len());
    assert(forall|i: int| 0 <= i < app.metric_hierarchy@.len()
        ==> (#[trigger] av.metric_hierarchy[i]).0 == app.metric_hierarchy@[i].0@);
    if app.wf() {
        assert(forall|x: int, y: int|
            0 <= x < y < av.local_state.len() ==> (#[trigger] av.local_state[x]).0
                != (#[trigger] av.local_state[y]).0);
        assert(forall|x: int, y: int|
            0 <= x < y < av.metric_hierarchy.len() ==> (#[trigger] av.metric_hierarchy[x]).0
                != (#[trigger] av.metric_hierarchy[y]).0);
    }
    if app_view_usable(av, key) {
        assert forall|x: int, y: int|
            0 <= x < y < app.local_state@.len() implies app.local_state@[x].0@
            != app.local_state@[y].0@ by {
            assert(av.local_state[x] == (app.local_state@[x].0@, app.local_state@[x].1));
            assert(av.local_state[y] == (app.local_state@[y].0@, app.local_state@[y].1));
        }
        assert forall|x: int, y: int|
            0 <= x < y < app.metric_hierarchy@.len() implies app.metric_hierarchy@[x].0@
            != app.metric_hierarchy@[y].0@ by {
            assert(av.metric_hierarchy[x].0 == app.metric_hierarchy@[x].0@);
            assert(av.metric_hierarchy[y].0 == app.metric_hierarchy@[y].0@);
        }
        assert forall|i: int|
            0 <= i < app.local_state@.len() implies (#[trigger] app.local_state@[i]).1.wf() by {
            assert(av.local_state[i] == (app.local_state@[i].0@, app.local_state@[i].1));
            assert(av.local_state[i].1.wf());
        }
        assert(kv_keys_unique(app.local_state@));
        assert(kv_keys_unique(app.metric_hierarchy@));
    }
}

/// Whether a cached application can be used for this key: well formed and
/// actually the key's application.  The answer is exact in both directions.
pub(crate) fn check_app_usable(app: &Application, key: &CacheKey) -> (r: bool)
    ensures
        r == app_view_usable(app@, key.spec_string()),
        r ==> app.wf() && cache_key_string(app.service_id@, app.app_id@.primary())
            == key.spec_string(),
{
    let mut reports_ok = true;
    let mut i: usize = 0;
    while i < app.local_state.len()
        invariant
            i <= app.local_state@.len(),
            reports_ok == (forall|j: int|
                0 <= j < i ==> (#[trigger] app.local_state@[j]).1.wf()),
        decreases app.local_state@.len() - i,
    {
        let u = app.local_state[i].1;
        let w = u.period_window;
        let this_ok = u.left_hits <= u.max_value && (matches!(w.window, Period::Eternity) || (
        w.end >= w.start && w.end - w.start == w.window.as_secs()));
        proof {
            assert(this_ok == app.local_state@[i as int].1.wf());
        }
        reports_ok = reports_ok && this_ok;
        i = i + 1;
    }
    let identity = {
        let own = CacheKey::from(&app.service_id, &app.app_id);
        crate::strutil::str_eq(own.as_string().as_str(), key.as_string().as_str())
    };
    let r = reports_ok && crate::kv::keys_unique_check(&app.local_state)
        && crate::kv::keys_unique_check(&app.metric_hierarchy) && identity;
    proof {
        lemma_app_usable_view(app, key.spec_string());
    }
    r
}

impl CacheFilter {
    /// The request path: read the metadata, resolve a user key, try the
    /// cache, and on a miss either take the callout lock and dispatch the
    /// authorize call, or join the waitlist.
    pub fn on_http_request_headers(
        &mut self,
        headers: &RequestHeaders,
        store: &mut SharedStore,
        queues: &mut QueueSet,
        waiting: &mut WaitingContexts,
        now: u64,
    ) -> (r: FilterAction)
        requires
            !old(self).update_cache_from_singleton,
            old(store).wf(),
            old(queues).wf(),
        ensures
            final(store).wf(),
            final(queues).wf(),
            (r matches FilterAction::Respond { status, .. } && status == 401) <==> !(
            get_request_data_ok(headers)),
            r matches FilterAction::Respond { status: 429u16, body } ==> (*final(store) == *old(store) && final(queues).qs() == old(queues).qs() && (body matches Some(b) && b@
                == "Request rate-limited.\n"@)),
            r is DispatchAuthorize ==> (final(store).contents().dom().contains(
                callout_lock_key(final(self).cache_key.spec_string()),
            ) && (final(store).contents()[callout_lock_key(final(self).cache_key.spec_string())].0
                matches Some(StoreValView::Lock(lv)) && lv.owned_by == old(self).root_id
                && lv.waiters.len() == 0)),
            r is Pause ==> final(waiting).ids() == old(waiting).ids().push(old(self).context_id),
            !(r is Pause) ==> final(waiting).ids() == old(waiting).ids(),
            // a refused request is terminal: nothing was read into or out of
            // the shared state
            !get_request_data_ok(headers) ==> (*final(store) == *old(store) && final(queues).qs()
                == old(queues).qs() && final(waiting).ids() == old(waiting).ids()),
            // past the metadata, the filter acts under the resolved identity
            get_request_data_ok(headers) ==> (final(self).cache_key.service_view()
                == request_service(headers) && final(self).cache_key.app_view() == request_primary(
                old(store).contents(),
                headers,
            )),
            // a usable cached application puts the engine in charge
            (get_request_data_ok(headers) && cache_hit_ready(old(store).contents(), headers)
                && has_message_queue(old(queues))) ==> ({
                let pass = hit_pass(old(store).contents(), headers, now);
                &&& (pass.1 == SpecLimitOutcome::Authorized ==> r is Continue)
                &&& ((pass.1 == SpecLimitOutcome::Authorized && request_cache_key(
                    old(store).contents(),
                    headers,
                ) != SHARED_MEMORY_COUNTER_KEY@) ==> (final(store).contents()[request_cache_key(
                    old(store).contents(),
                    headers,
                )].0 matches Some(StoreValView::App(av)) && av.state_map() == pass.0))
                &&& (pass.1 == SpecLimitOutcome::RateLimited ==> r matches FilterAction::Respond {
                    status: 429u16,
                    ..
                })
            }),
            // a miss against a free lock makes this worker the winner
            (get_request_data_ok(headers) && !cache_hit_ready(old(store).contents(), headers)
                && has_worker_queue(old(queues), old(self).root_id) && lock_slot_free(
                old(store).contents(),
                callout_lock_key(request_cache_key(old(store).contents(), headers)),
            )) ==> r is DispatchAuthorize,
            // a miss against a held lock parks the request on the waitlist
            (get_request_data_ok(headers) && !cache_hit_ready(old(store).contents(), headers)
                && has_worker_queue(old(queues), old(self).root_id)
                && crate::unique_callout::lock_at(
                old(store).contents(),
                callout_lock_key(request_cache_key(old(store).contents(), headers)),
            ) is Some) ==> r is Pause,
            // Under deny-on-failure, a request that passes has consumed
            // quota and told the singleton: exactly one message is queued.
            old(self).config.failure_mode_deny && r is Continue ==> exists|q: int|
                0 <= q < old(queues).qs().len() && old(queues).name_at(q) == message_queue_name()
                    && final(queues).qs() == old(queues).qs().update(
                    q,
                    (
                        old(queues).name_at(q),
                        old(queues).items_at(q).push(
                            QueueValView::Report(
                                MessageView {
                                    update_cache_from_singleton: false,
                                    data: final(self).req_data@,
                                    req_time: now,
                                },
                            ),
                        ),
                    ),
                ),
    {
        let request_data = match get_request_data(headers) {
            Ok(data) => data,
            Err(_e) => {
                // Required metadata is missing or malformed.
                return FilterAction::Respond { status: 401, body: None };
            },
        };
        let mut request_data = request_data;
        self.cache_key = CacheKey::from(&request_data.service_id, &request_data.app_id);
        self.req_data = request_data.clone();
        proof {
            crate::kv::lemma_kv_view_map(self.req_data.metrics@, request_data.metrics@);
        }

        let mut resolved = true;
        if let AppIdentifier::UserKey(user_key) = &request_data.app_id {
            match get_app_id_from_cache(store, user_key) {
                Ok(app_id) => {
                    let identifier = AppIdentifier::from_app_id(app_id);
                    self.req_data.app_id = identifier.clone();
                    self.cache_key.set_app_id(&identifier);
                    request_data.app_id = identifier;
                },
                Err(_) => {
                    // No mapping yet: treat it as a cache miss.
                    resolved = false;
                },
            }
        }
        proof {
            // The filter's key is the request's resolved identity.
            assert(self.cache_key.service_view() == request_service(headers));
            if headers.user_key is Some {
                if resolved {
                    assert(self.cache_key.app_view() == request_primary(
                        old(store).contents(),
                        headers,
                    ));
                } else {
                    assert(request_primary(old(store).contents(), headers) == (
                    crate::structs::AppIdentifierView::UserKey {
                        user_key: headers.user_key->0@,
                    }));
                }
            } else {
                assert(self.cache_key.app_view() == request_primary(old(store).contents(), headers));
            }
            assert(resolved ==> self.cache_key.spec_string() == request_cache_key(
                old(store).contents(),
                headers,
            ));
        }
        if resolved {
            match get_application_from_cache(store, &self.cache_key) {
                Ok((mut app, cas)) => {
                    // A foreign or ill-formed entry reads as a miss, as a
                    // value that fails to deserialize would.
                    if check_app_usable(&app, &self.cache_key) {
                        proof {
                            reveal_strlit("Request rate-limited.\n");
                            crate::kv::lemma_kv_map_is_vkv_map(app.local_state@);
                            if cache_hit_ready(old(store).contents(), headers) {
                                assert(hit_pass(old(store).contents(), headers, now)
                                    == spec_limit_check(
                                    app@.state_map(),
                                    expand_metrics(
                                        app@.metric_hierarchy,
                                        request_metrics(headers),
                                    ),
                                    now,
                                ));
                                assert(request_metrics(headers) == metrics_view(
                                    self.req_data.metrics@,
                                ));
                            }
                        }
                        let outcome = self.handle_cache_hit(&mut app, cas, store, queues, now);
                        proof {
                            crate::kv::lemma_kv_map_is_vkv_map(app.local_state@);
                        }
                        return match outcome {
                            Ok(CacheHitOutcome::RateLimited) => FilterAction::Respond {
                                status: 429,
                                body: Some(String::from_str("Request rate-limited.\n")),
                            },
                            Ok(_) => FilterAction::Continue,
                            Err(_) => in_request_failure(self),
                        };
                    }
                },
                Err(_) => {},
            }
        }
        // Cache miss: collapse concurrent callouts into one.
        match set_callout_lock(store, &*queues, self.root_id, self.context_id, &self.cache_key) {
            Ok(SetCalloutLockStatus::LockAcquired) => match do_auth_call(self, &request_data) {
                Some(request) => FilterAction::DispatchAuthorize(request),
                None => in_request_failure(self),
            },
            Ok(SetCalloutLockStatus::AddedToWaitlist) => {
                waiting.insert(self.context_id, self.clone());
                FilterAction::Pause
            },
            Err(_) => in_request_failure(self),
        }
    }
}

/// Whether the inbound headers carry everything a request needs.
pub open spec fn get_request_data_ok(headers: &RequestHeaders) -> bool {
    &&& headers.service_token is Some
    &&& headers.service_id is Some
    &&& headers.usages matches Some(u) && json_usages(u@) is Some
    &&& headers.cluster_name is Some
    &&& headers.upstream_url matches Some(url) && crate::upstream::url_parse(url@) matches Some(p)
        && p.has_authority
    &&& headers.user_key is Some || headers.app_id is Some
}


impl CacheFilter {
    /// The winner's response path: handle the authorize outcome, then free
    /// the callout lock taken under the request's original key — the key
    /// must be the one the lock was taken with, even though a resolved user
    /// key has rewritten the filter's own — and hand every waiter its
    /// wake-up action.
    pub fn on_http_call_response(
        &mut self,
        store: &mut SharedStore,
        queues: &mut QueueSet,
        timed_out: bool,
        parse: Option<AuthResponseParse>,
        now: u64,
    ) -> (r: FilterAction)
        requires
            old(self).req_data.wf(),
            !old(self).update_cache_from_singleton,
            old(store).wf(),
            old(queues).wf(),
        ensures
            final(store).wf(),
            final(queues).wf(),
            ({
                // whatever came back, the lock taken under the entry-time
                // key is no longer held on any exit path
                let key = callout_lock_key(old(self).cache_key.spec_string());
                crate::unique_callout::lock_at(old(store).contents(), key) is Some
                    ==> crate::unique_callout::lock_at(final(store).contents(), key) is None
            }),
            ({
                // a failed callout hands every recorded waiter the failure
                // action, exactly once each
                let key = callout_lock_key(old(self).cache_key.spec_string());
                crate::unique_callout::lock_at(old(store).contents(), key) matches Some(lv) ==> (
                winner_failed(timed_out, &parse) ==> (final(queues).qs()
                    == crate::unique_callout::deliver_actions(
                    old(queues).qs(),
                    lv.waiters,
                    WaiterAction::HandleFailure(0),
                ) && final(store).contents() == old(store).contents().insert(
                    key,
                    (None::<StoreValView>, final(store).contents()[key].1),
                )))
            }),
            ({
                // a handled status wakes every reachable waiter with the
                // action matching the winner's own outcome
                let key = callout_lock_key(old(self).cache_key.spec_string());
                parse matches Some(AuthResponseParse::Status(st)) ==> ((!timed_out
                    && old(self).config.failure_mode_deny && (st.authorized
                    || st.usage_reports is Some) && winner_writes_avoid(old(self), &st, key))
                    ==> (crate::unique_callout::lock_at(old(store).contents(), key) matches Some(
                    lv,
                ) ==> waiters_handed(
                    final(queues).qs(),
                    old(queues).qs().len() as int,
                    lv,
                    winner_action_of(r),
                )))
            }),
            // the winner's own outcome follows the engine's verdict on the
            // response
            parse matches Some(AuthResponseParse::Status(st)) ==> ((!timed_out && (st.authorized
                || st.usage_reports is Some) && keys_complete(&st) && reports_all_ok(&st)
                && hierarchy_unique(&st) && has_message_queue(old(queues))) ==> ({
                let pass = spec_limit_check(
                    reports_state(response_reports(&st)),
                    expand_metrics(
                        crate::structs::hierarchy_view(st.hierarchy@),
                        metrics_view(old(self).req_data.metrics@),
                    ),
                    now,
                );
                &&& (pass.1 == SpecLimitOutcome::Authorized ==> r is Continue)
                &&& (pass.1 == SpecLimitOutcome::RateLimited ==> r matches FilterAction::Respond {
                    status: 429u16,
                    ..
                })
            })),
            // an outright denial forwards the upstream's reason
            parse matches Some(AuthResponseParse::Status(st)) ==> ((!timed_out && !(st.authorized
                || st.usage_reports is Some)) ==> (r matches FilterAction::Respond { status, body }
                && status == 403 && (match st.reason {
                Some(reason) => body matches Some(b) && b@ == reason@,
                None => body is None,
            }))),
    {
        let prev_cache_key = self.cache_key.clone();
        let ghost parse0 = parse;
        let mut waiter_action = WaiterAction::HandleCacheHit(0);
        let mut result = FilterAction::Pause;
        if timed_out {
            // The upstream never answered: fail the winner and the waiters.
            waiter_action = WaiterAction::HandleFailure(0);
            result = request_process_failure(self);
        } else {
            match parse {
                Some(AuthResponseParse::Status(response)) => {
                    if response.authorized || response.usage_reports.is_some() {
                        match self.handle_auth_response(&response, store, queues, now) {
                            Ok(CacheHitOutcome::RateLimited) => {
                                proof {
                                    reveal_strlit("Request rate-limited.\n");
                                }
                                result = FilterAction::Respond {
                                    status: 429,
                                    body: Some(String::from_str("Request rate-limited.\n")),
                                };
                            },
                            Ok(_) => {
                                result = FilterAction::Continue;
                            },
                            Err(_) => {
                                waiter_action = WaiterAction::HandleFailure(0);
                                result = request_process_failure(self);
                            },
                        }
                    } else {
                        // Denied outright: forward the upstream's reason.
                        waiter_action = WaiterAction::HandleFailure(0);
                        let body = match response.reason {
                            Some(reason) => Some(reason),
                            None => None,
                        };
                        result = FilterAction::Respond { status: 403, body };
                    }
                },
                Some(AuthResponseParse::Error(_code)) => {
                    waiter_action = WaiterAction::HandleFailure(0);
                    result = request_process_failure(self);
                },
                Some(AuthResponseParse::ParseFail) | None => {
                    waiter_action = WaiterAction::HandleFailure(0);
                    result = request_process_failure(self);
                },
            }
        }
        let ghost mid_store = *store;
        let ghost mid_queues = *queues;
        proof {
            let key = callout_lock_key(old(self).cache_key.spec_string());
            assert(callout_lock_key(prev_cache_key.spec_string()) == key);
            if crate::unique_callout::lock_at(old(store).contents(), key) is Some {
                let lv = crate::unique_callout::lock_at(old(store).contents(), key)->0;
                if parse0 matches Some(AuthResponseParse::Status(st)) && !timed_out && old(self).config.failure_mode_deny && (
                st.authorized || st.usage_reports is Some) && winner_writes_avoid(
                    old(self),
                    &st,
                    key,
                ) {
                    // the lock key starts differently from the counter key
                    reveal_strlit("SHARED_MEMORY_COUNTER");
                    assert(key[0] == 'C');
                    assert(key != SHARED_MEMORY_COUNTER_KEY@);
                    // the winner's writes stayed clear, so the lock survived
                    assert(mid_store.contents().dom().contains(key) && mid_store.contents()[key]
                        == old(store).contents()[key]);
                    assert(crate::unique_callout::lock_at(mid_store.contents(), key) == Some(lv));
                    assert(mid_queues.qs().len() == old(queues).qs().len());
                    assert(waiter_action == winner_action_of(result));
                }
            }
        }
        let notified = free_callout_lock_and_notify_waiters(
            store,
            queues,
            self.root_id,
            self.context_id,
            &prev_cache_key,
            waiter_action,
        );
        proof {
            let key = callout_lock_key(old(self).cache_key.spec_string());
            if crate::unique_callout::lock_at(old(store).contents(), key) is Some {
                let lv = crate::unique_callout::lock_at(old(store).contents(), key)->0;
                if parse0 matches Some(AuthResponseParse::Status(st)) && !timed_out && old(self).config.failure_mode_deny && (
                st.authorized || st.usage_reports is Some) && winner_writes_avoid(
                    old(self),
                    &st,
                    key,
                ) {
                    assert(notified is Ok);
                    assert(queues.qs() == crate::unique_callout::deliver_actions(
                        mid_queues.qs(),
                        lv.waiters,
                        waiter_action,
                    ));
                    crate::unique_callout::lemma_deliver_exactly_one_each(
                        mid_queues.qs(),
                        lv.waiters,
                        waiter_action,
                    );
                }
            }
        }
        result
    }
}

impl CacheFilter {
    /// The winner's response path from the raw body: reads it with the
    /// upstream codec, then hands the outcome to `on_http_call_response`,
    /// which carries the full contract; the lock taken under the entry-time
    /// key is no longer held on any exit.
    pub fn on_http_call_response_body(
        &mut self,
        store: &mut SharedStore,
        queues: &mut QueueSet,
        timed_out: bool,
        body: Option<&str>,
        now: u64,
    ) -> (r: FilterAction)
        requires
            old(self).req_data.wf(),
            !old(self).update_cache_from_singleton,
            old(store).wf(),
            old(queues).wf(),
        ensures
            final(store).wf(),
            final(queues).wf(),
            ({
                let key = callout_lock_key(old(self).cache_key.spec_string());
                crate::unique_callout::lock_at(old(store).contents(), key) is Some
                    ==> crate::unique_callout::lock_at(final(store).contents(), key) is None
            }),
    {
        let parse = match body {
            Some(text) => Some(crate::tsc::parse_authorization(text)),
            None => None,
        };
        self.on_http_call_response(store, queues, timed_out, parse, now)
    }
}

/// What waking one waiter ends in, for the host adapter to carry out on the
/// waiter's own http context.
pub enum WakeOutcome {
    /// Nothing was queued, the message was foreign, or the context is gone.
    Nothing,
    /// Resume this context with the action.
    Resume { context_id: u32, action: FilterAction },
}

/// The http context a wake-up action names.
pub open spec fn action_context(a: WaiterAction) -> u32 {
    match a {
        WaiterAction::HandleCacheHit(ctx) => ctx,
        WaiterAction::HandleFailure(ctx) => ctx,
    }
}

/// A worker's queue woke it: take one wake-up message, find the suspended
/// request it names, and finish that request from the winner's outcome —
/// the cache-hit path after a success, the failure path otherwise.
pub fn on_queue_ready(
    store: &mut SharedStore,
    queues: &mut QueueSet,
    waiting: &mut WaitingContexts,
    queue_id: u32,
    now: u64,
) -> (r: WakeOutcome)
    requires
        old(store).wf(),
        old(queues).wf(),
    ensures
        final(store).wf(),
        final(queues).wf(),
        // nothing queued: nothing happens
        crate::store::queue_front(old(queues).qs(), queue_id) is None ==> (r is Nothing && *final(store) == *old(store) && final(queues).qs() == old(queues).qs() && final(waiting).ids() == old(waiting).ids()),
        // a singleton message on a worker queue is not ours to handle
        crate::store::queue_front(old(queues).qs(), queue_id) matches Some(
            QueueValView::Report(_),
        ) ==> (r is Nothing && *final(store) == *old(store) && final(waiting).ids() == old(waiting).ids()),
        // a wake-up resumes exactly the context it names
        r matches WakeOutcome::Resume { context_id, .. } ==> (crate::store::queue_front(
            old(queues).qs(),
            queue_id,
        ) matches Some(QueueValView::Action(act)) && context_id == action_context(act)
            && old(waiting).ids().contains(context_id) && final(waiting).ids().len() == old(waiting).ids().len() - 1),
        // an unknown context is dropped without further work
        crate::store::queue_front(old(queues).qs(), queue_id) matches Some(
            QueueValView::Action(act),
        ) ==> (!old(waiting).ids().contains(action_context(act)) ==> (r is Nothing && *final(store)
            == *old(store) && final(waiting).ids() == old(waiting).ids())),
        // a found context leaves the waitlist on every path
        crate::store::queue_front(old(queues).qs(), queue_id) matches Some(
            QueueValView::Action(act),
        ) ==> (old(waiting).ids().contains(action_context(act)) ==> final(waiting).ids().len()
            == old(waiting).ids().len() - 1),
        // a failure wake-up follows the failure path: no cache read, no
        // engine run, just the parked request's deny-or-continue policy
        crate::store::queue_front(old(queues).qs(), queue_id) matches Some(
            QueueValView::Action(act),
        ) ==> ((act matches WaiterAction::HandleFailure(_) && old(waiting).ids().contains(
            action_context(act),
        )) ==> (r matches WakeOutcome::Resume { context_id, action } && context_id
            == action_context(act) && (action matches FilterAction::Respond { status, .. }
            && status == 403 || action is Continue) && *final(store) == *old(store))),
{
    let message = match queues.dequeue(queue_id) {
        Some(QueueVal::Action(a)) => a,
        Some(QueueVal::Report(_)) => {
            // A singleton message on a worker queue: not ours to handle.
            return WakeOutcome::Nothing;
        },
        None => {
            return WakeOutcome::Nothing;
        },
    };
    let context_to_resume = match message {
        WaiterAction::HandleCacheHit(ctx) => ctx,
        WaiterAction::HandleFailure(ctx) => ctx,
    };
    let mut context = match waiting.remove(context_to_resume) {
        Some(c) => c,
        None => {
            return WakeOutcome::Nothing;
        },
    };
    if matches!(message, WaiterAction::HandleFailure(_)) {
        let action = request_process_failure(&context);
        return WakeOutcome::Resume { context_id: context_to_resume, action };
    }
    if !context.req_data.metrics_unique() || context.update_cache_from_singleton {
        let action = request_process_failure(&context);
        return WakeOutcome::Resume { context_id: context_to_resume, action };
    }
    // The winner resolved the user key; pick up the mapping it wrote.
    let is_user_key = matches!(context.cache_key.app_id(), AppIdentifier::UserKey(_));
    if is_user_key {
        let resolved = match context.cache_key.app_id() {
            AppIdentifier::UserKey(user_key) => get_app_id_from_cache(store, user_key),
            _ => Err(CacheError::AppIdNotFound),
        };
        match resolved {
            Ok(app_id) => {
                let identifier = AppIdentifier::from_app_id(app_id);
                context.cache_key.set_app_id(&identifier);
            },
            Err(_) => {
                // The mapping the winner should have written is missing.
                return WakeOutcome::Nothing;
            },
        }
    }
    match get_application_from_cache(store, &context.cache_key) {
        Ok((mut app, cas)) => {
            if check_app_usable(&app, &context.cache_key) {
                proof {
                    reveal_strlit("Request rate-limited.\n");
                }
                let action = match context.handle_cache_hit(&mut app, cas, store, queues, now) {
                    Ok(CacheHitOutcome::RateLimited) => FilterAction::Respond {
                        status: 429,
                        body: Some(String::from_str("Request rate-limited.\n")),
                    },
                    Ok(_) => FilterAction::Continue,
                    Err(_) => request_process_failure(&context),
                };
                WakeOutcome::Resume { context_id: context_to_resume, action }
            } else {
                let action = request_process_failure(&context);
                WakeOutcome::Resume { context_id: context_to_resume, action }
            }
        },
        Err(_) => WakeOutcome::Nothing,
    }
}

} // verus!



