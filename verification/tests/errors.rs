use threescale_cache::AppId;
use threescale_cache::AppIdentifier;
use threescale_cache::AppKeysData;
use threescale_cache::Application;
use threescale_cache::AuthResponseError;
use threescale_cache::AuthUsageData;
use threescale_cache::AuthorizationStatusData;
use threescale_cache::CacheFilter;
use threescale_cache::CacheHitError;
use threescale_cache::CacheKey;
use threescale_cache::CalloutLockValue;
use threescale_cache::CalloutWaiter;
use threescale_cache::FilterConfig;
use threescale_cache::Period;
use threescale_cache::PeriodWindow;
use threescale_cache::QueueSet;
use threescale_cache::ServiceId;
use threescale_cache::ServiceToken;
use threescale_cache::SharedStore;
use threescale_cache::StoreVal;
use threescale_cache::ThreescaleData;
use threescale_cache::UniqueCalloutError;
use threescale_cache::UpdateMetricsError;
use threescale_cache::Upstream;
use threescale_cache::UsageReport;
use threescale_cache::WaiterAction;
use threescale_cache::free_callout_lock_and_notify_waiters;
use threescale_cache::limit_check_and_update_application;
use threescale_cache::set_application_to_cache;
use threescale_cache::set_callout_lock;

fn data(hits: u64) -> ThreescaleData {
    ThreescaleData {
        app_id: AppIdentifier::from_app_id(AppId::from("A1")),
        service_id: ServiceId::from("S1"),
        service_token: ServiceToken::from("T1"),
        metrics: vec![("hits".to_string(), hits)],
        upstream: Upstream {
            name: "up".to_string(),
            scheme: "https".to_string(),
            authority: "su1.3scale.net".to_string(),
            path: "/".to_string(),
            query: None,
            timeout_ms: 1000,
        },
    }
}

fn app(start: u64, end: u64, left: u64, max: u64) -> Application {
    Application {
        app_id: AppIdentifier::from_app_id(AppId::from("A1")),
        service_id: ServiceId::from("S1"),
        local_state: vec![(
            "hits".to_string(),
            UsageReport {
                period_window: PeriodWindow { start, end, window: Period::Minute },
                left_hits: left,
                max_value: max,
            },
        )],
        metric_hierarchy: Vec::new(),
        app_keys: None,
    }
}

// Rolling a window across the end of the representable time range is
// refused rather than wrapped.
#[test]
fn engine_reports_duration_overflow() {
    let mut store = SharedStore::new();
    let mut a = app(0, 60, 10, 10);
    let r = limit_check_and_update_application(&data(1), &mut a, 0, u64::MAX, &mut store);
    assert_eq!(r, Err(UpdateMetricsError::DurationOverflow));
}

// A write under a stale cas loses and asks the caller to retry.
#[test]
fn engine_reports_lost_write() {
    let mut store = SharedStore::new();
    let a0 = app(0, 60, 10, 10);
    set_application_to_cache(&mut store, "S1_A1", &a0, 0).unwrap();
    let (_, cas) = store.get("S1_A1");
    let stale = cas.unwrap().wrapping_add(1);
    let mut a = app(0, 60, 10, 10);
    let r = limit_check_and_update_application(&data(1), &mut a, stale, 30, &mut store);
    assert_eq!(r, Err(UpdateMetricsError::CacheUpdateFail));
}

// Without the singleton's queue the cache-hit path cannot proceed.
#[test]
fn cache_hit_without_message_queue() {
    let mut store = SharedStore::new();
    let mut queues = QueueSet::new();
    let mut filter = CacheFilter::new(1, 7, FilterConfig::default());
    let mut a = app(0, 60, 10, 10);
    let r = filter.handle_cache_hit(&mut a, 0, &mut store, &mut queues, 30);
    assert_eq!(r, Err(CacheHitError::MQNotFound));
}

// Acquiring needs the worker's own queue; a foreign value under the lock
// key reads as garbage.
#[test]
fn lock_error_variants() {
    let mut store = SharedStore::new();
    let queues = QueueSet::new();
    let key = CacheKey::from(&ServiceId::from("S"), &AppIdentifier::from_app_id(AppId::from("A")));
    assert_eq!(
        set_callout_lock(&mut store, &queues, 9, 1, &key),
        Err(UniqueCalloutError::MQResolveFail(9))
    );
    let mut queues = QueueSet::new();
    queues.register_queue("9");
    store.set("CL_S_A", Some(StoreVal::Counter(1)), None).unwrap();
    assert_eq!(
        set_callout_lock(&mut store, &queues, 9, 1, &key),
        Err(UniqueCalloutError::DeserializeFail)
    );
    // freeing a lock that never existed is the coordinator's own fault
    let other = CacheKey::from(&ServiceId::from("X"), &AppIdentifier::from_app_id(AppId::from("Y")));
    assert_eq!(
        free_callout_lock_and_notify_waiters(
            &mut store,
            &mut queues,
            9,
            1,
            &other,
            WaiterAction::HandleCacheHit(0),
        ),
        Err(UniqueCalloutError::ProxyFailure)
    );
}

// A waiter whose queue is gone is counted, and the rest are still served.
#[test]
fn notify_counts_undeliverable_waiters() {
    let mut store = SharedStore::new();
    let mut queues = QueueSet::new();
    let q1 = queues.register_queue("1");
    let key = CacheKey::from(&ServiceId::from("S"), &AppIdentifier::from_app_id(AppId::from("A")));
    let lock = CalloutLockValue {
        owned_by: 7,
        waiters: vec![
            CalloutWaiter { queue_id: 99, http_context_id: 5 },
            CalloutWaiter { queue_id: q1, http_context_id: 6 },
        ],
    };
    store.set("CL_S_A", Some(StoreVal::Lock(lock)), None).unwrap();
    let failed = free_callout_lock_and_notify_waiters(
        &mut store,
        &mut queues,
        7,
        1,
        &key,
        WaiterAction::HandleFailure(0),
    )
    .unwrap();
    assert_eq!(failed, 1);
    match queues.dequeue(q1) {
        Some(threescale_cache::QueueVal::Action(WaiterAction::HandleFailure(ctx))) => {
            assert_eq!(ctx, 6)
        },
        _ => panic!("expected the reachable waiter to be served"),
    }
}

fn response_base() -> AuthorizationStatusData {
    AuthorizationStatusData {
        authorized: true,
        reason: None,
        usage_reports: Some(vec![AuthUsageData {
            metric: "hits".to_string(),
            period: Period::Minute,
            period_start: 0,
            period_end: 60,
            max_value: 10,
            current_value: 0,
        }]),
        hierarchy: Vec::new(),
        app_keys: Some(AppKeysData {
            app_id: Some("A1".to_string()),
            service_id: Some("S1".to_string()),
            keys: Vec::new(),
        }),
    }
}

#[test]
fn auth_response_error_variants() {
    let mut store = SharedStore::new();
    let mut queues = QueueSet::new();
    queues.register_queue("message_queue");
    let mut filter = CacheFilter::new(1, 7, FilterConfig::default());

    let mut r = response_base();
    r.app_keys = None;
    assert_eq!(
        filter.handle_auth_response(&r, &mut store, &mut queues, 5),
        Err(AuthResponseError::ListKeysMiss)
    );
    let mut r = response_base();
    r.app_keys.as_mut().unwrap().app_id = None;
    assert_eq!(
        filter.handle_auth_response(&r, &mut store, &mut queues, 5),
        Err(AuthResponseError::ListAppIdMiss)
    );
    let mut r = response_base();
    r.app_keys.as_mut().unwrap().service_id = None;
    assert_eq!(
        filter.handle_auth_response(&r, &mut store, &mut queues, 5),
        Err(AuthResponseError::ListServiceIdMiss)
    );
    let mut r = response_base();
    r.usage_reports.as_mut().unwrap()[0].period_start = -1;
    assert_eq!(
        filter.handle_auth_response(&r, &mut store, &mut queues, 5),
        Err(AuthResponseError::NegativeTimeErr)
    );
    let mut r = response_base();
    r.usage_reports.as_mut().unwrap()[0].period_end = 59;
    assert_eq!(
        filter.handle_auth_response(&r, &mut store, &mut queues, 5),
        Err(AuthResponseError::WindowMismatchErr)
    );
}

// The user key's resolution is recorded as soon as the listing is read,
// even when the reports are then refused.
#[test]
fn mapping_survives_report_refusal() {
    let mut store = SharedStore::new();
    let mut queues = QueueSet::new();
    queues.register_queue("message_queue");
    let mut filter = CacheFilter::new(1, 7, FilterConfig::default());
    // park the filter on a user-key identity
    filter.cache_key = CacheKey::from(
        &ServiceId::from("S1"),
        &AppIdentifier::from_user_key(threescale_cache::UserKey::from("U7")),
    );
    let mut r = response_base();
    r.usage_reports.as_mut().unwrap()[0].period_end = 59;
    assert_eq!(
        filter.handle_auth_response(&r, &mut store, &mut queues, 5),
        Err(AuthResponseError::WindowMismatchErr)
    );
    let mapped = threescale_cache::get_app_id_from_cache(
        &store,
        &threescale_cache::UserKey::from("U7"),
    )
    .unwrap();
    assert_eq!(mapped.as_ref(), "A1");
    // the filter already speaks for the reported application
    assert_eq!(filter.cache_key.as_string(), "S1_A1");
}

// The quota left is what remains of the maximum, clamped at zero when the
// upstream reports an overrun.
#[test]
fn auth_response_remaining_is_clamped() {
    let mut store = SharedStore::new();
    let mut queues = QueueSet::new();
    queues.register_queue("message_queue");
    let mut filter = CacheFilter::new(1, 7, FilterConfig::default());
    let mut r = response_base();
    r.usage_reports.as_mut().unwrap()[0].current_value = 12;
    // the request asks for nothing, so the over-consumed state still caches
    filter.req_data.metrics.clear();
    filter
        .handle_auth_response(&r, &mut store, &mut queues, 5)
        .unwrap();
    let key = CacheKey::from(&ServiceId::from("S1"), &AppIdentifier::from_app_id(AppId::from("A1")));
    let (app, _) = threescale_cache::get_application_from_cache(&store, &key).unwrap();
    assert_eq!(app.local_state[0].1.left_hits, 0);
    assert_eq!(app.local_state[0].1.max_value, 10);
}
