use threescale_cache::AppKeysData;
use threescale_cache::AppIdentifier;
use threescale_cache::AuthResponseParse;
use threescale_cache::AuthUsageData;
use threescale_cache::AuthorizationStatusData;
use threescale_cache::CacheFilter;
use threescale_cache::CacheKey;
use threescale_cache::DeltaStore;
use threescale_cache::DeltaStoreConfig;
use threescale_cache::DeltaStoreState;
use threescale_cache::FilterAction;
use threescale_cache::FilterConfig;
use threescale_cache::FlushMode;
use threescale_cache::LogStore;
use threescale_cache::Period;
use threescale_cache::Prng;
use threescale_cache::QueueSet;
use threescale_cache::QueueVal;
use threescale_cache::RequestHeaders;
use threescale_cache::ServiceConfig;
use threescale_cache::ServiceId;
use threescale_cache::ServiceToken;
use threescale_cache::SetCalloutLockStatus;
use threescale_cache::SharedStore;
use threescale_cache::SingletonService;
use threescale_cache::StoreVal;
use threescale_cache::ThreescaleData;
use threescale_cache::Upstream;
use threescale_cache::UserKey;
use threescale_cache::WaiterAction;
use threescale_cache::WaitingContexts;
use threescale_cache::WakeOutcome;
use threescale_cache::free_callout_lock_and_notify_waiters;
use threescale_cache::get_app_id_from_cache;
use threescale_cache::get_application_from_cache;
use threescale_cache::get_request_data;
use threescale_cache::on_queue_ready;
use threescale_cache::parse_u64_dec;
use threescale_cache::set_callout_lock;
use threescale_cache::u64_to_dec;
use threescale_cache::AppId;
use threescale_cache::RequestDataError;

fn headers(user_key: Option<&str>, app_id: Option<&str>) -> RequestHeaders {
    RequestHeaders {
        service_token: Some("T1".to_string()),
        service_id: Some("S1".to_string()),
        usages: Some("{\"hits\":1}".to_string()),
        cluster_name: Some("threescale_SM_API".to_string()),
        upstream_url: Some("https://su1.3scale.net".to_string()),
        timeout: Some("5000".to_string()),
        user_key: user_key.map(str::to_string),
        app_id: app_id.map(str::to_string),
    }
}

/// Registers a worker's own notification queue, named by its id in decimal.
fn register_worker(queues: &mut QueueSet, root_id: u32) -> u32 {
    queues.register_queue(&u64_to_dec(root_id as u64))
}

fn ok_response(app_id: &str, service_id: &str) -> AuthorizationStatusData {
    AuthorizationStatusData {
        authorized: true,
        reason: None,
        usage_reports: Some(vec![AuthUsageData {
            metric: "hits".to_string(),
            period: Period::Minute,
            period_start: 0,
            period_end: 60,
            max_value: 10,
            current_value: 0,
        }]),
        hierarchy: Vec::new(),
        app_keys: Some(AppKeysData {
            app_id: Some(app_id.to_string()),
            service_id: Some(service_id.to_string()),
            keys: Vec::new(),
        }),
    }
}

#[test]
fn request_metadata_errors() {
    let mut h = headers(Some("U1"), None);
    h.service_token = None;
    assert_eq!(get_request_data(&h).unwrap_err(), RequestDataError::ServiceTokenNotFound);
    let mut h = headers(Some("U1"), None);
    h.service_id = None;
    assert_eq!(get_request_data(&h).unwrap_err(), RequestDataError::ServiceIdNotFound);
    let mut h = headers(Some("U1"), None);
    h.usages = None;
    assert_eq!(get_request_data(&h).unwrap_err(), RequestDataError::UsageNotFound);
    let mut h = headers(Some("U1"), None);
    h.usages = Some("not json".to_string());
    assert_eq!(get_request_data(&h).unwrap_err(), RequestDataError::DeserializeFail);
    let mut h = headers(Some("U1"), None);
    h.cluster_name = None;
    assert_eq!(get_request_data(&h).unwrap_err(), RequestDataError::ClusterNameNotFound);
    let mut h = headers(Some("U1"), None);
    h.upstream_url = None;
    assert_eq!(get_request_data(&h).unwrap_err(), RequestDataError::UpstreamUrlNotFound);
    let mut h = headers(Some("U1"), None);
    h.upstream_url = Some("::nonsense::".to_string());
    assert_eq!(get_request_data(&h).unwrap_err(), RequestDataError::UpstreamUrlParseFail);
    let mut h = headers(Some("U1"), None);
    h.upstream_url = Some("mailto:a@b".to_string());
    assert_eq!(get_request_data(&h).unwrap_err(), RequestDataError::UpstreamBuilderFail);
    let h = headers(None, None);
    assert_eq!(get_request_data(&h).unwrap_err(), RequestDataError::AuthKeyMissing);
}

#[test]
fn request_metadata_parses_through_the_real_parsers() {
    // The JSON and URL both go through the outside crates; a parser that
    // handed its argument back unchanged could not produce these values.
    let mut h = headers(None, Some("A1:K1"));
    h.usages = Some("{\"hits\": 2, \"searches\": 7}".to_string());
    h.upstream_url = Some("https://su1.3scale.net/some/dir?x=1".to_string());
    let data = get_request_data(&h).unwrap();
    let mut metrics = data.metrics.clone();
    metrics.sort();
    assert_eq!(metrics, vec![("hits".to_string(), 2), ("searches".to_string(), 7)]);
    assert_eq!(data.upstream.scheme, "https");
    assert_eq!(data.upstream.authority, "su1.3scale.net");
    assert_eq!(data.upstream.path, "/some/dir/");
    assert_eq!(data.upstream.query, Some("x=1".to_string()));
    assert_eq!(data.upstream.timeout_ms, 5000);
    match data.app_id {
        AppIdentifier::AppId(id, Some(key)) => {
            assert_eq!(id.as_ref(), "A1");
            assert_eq!(key.as_ref(), "K1");
        },
        _ => panic!("expected app id and key"),
    }
}

#[test]
fn timeout_header_parsing() {
    assert_eq!(parse_u64_dec("5000"), Some(5000));
    assert_eq!(parse_u64_dec(""), None);
    assert_eq!(parse_u64_dec("12x"), None);
    assert_eq!(parse_u64_dec("99999999999999999999999"), None);
}

// First-ever request on a user key: miss, lock, authorize, mapping written,
// application cached with one hit consumed, message queued.
#[test]
fn first_request_cache_miss_then_authorize() {
    let mut store = SharedStore::new();
    let mut queues = QueueSet::new();
    let mut waiting = WaitingContexts::new();
    queues.register_queue("message_queue");
    register_worker(&mut queues, 77);
    let mut filter = CacheFilter::new(1, 77, FilterConfig::default());

    let action = filter.on_http_request_headers(&headers(Some("U1"), None), &mut store, &mut queues, &mut waiting, 5);
    let request = match action {
        FilterAction::DispatchAuthorize(r) => r,
        _ => panic!("expected an authorize dispatch"),
    };
    let (uri, body) = request.uri_and_body();
    let exchange = format!("{}{}", uri, body.unwrap_or(""));
    assert!(exchange.contains("service_id=S1"));
    assert!(exchange.contains("user_key=U1"));
    assert!(exchange.contains("usage%5Bhits%5D=1") || exchange.contains("usage[hits]=1"));

    let parse = AuthResponseParse::Status(ok_response("A1", "S1"));
    let action = filter.on_http_call_response(&mut store, &mut queues, false, Some(parse), 5);
    assert!(matches!(action, FilterAction::Continue));

    // the mapping and the consumed application are in the cache
    let mapped = get_app_id_from_cache(&store, &UserKey::from("U1")).unwrap();
    assert_eq!(mapped.as_ref(), "A1");
    let key = CacheKey::from(&ServiceId::from("S1"), &AppIdentifier::from_app_id(AppId::from("A1")));
    let (app, _) = get_application_from_cache(&store, &key).unwrap();
    let hits = app.local_state.iter().find(|(m, _)| m == "hits").unwrap().1;
    assert_eq!(hits.left_hits, 9);
    assert_eq!(hits.max_value, 10);
    assert_eq!(hits.period_window.start, 0);
    assert_eq!(hits.period_window.end, 60);

    // the singleton got exactly one message for this request
    let qid = queues.resolve_queue("message_queue").unwrap();
    match queues.dequeue(qid) {
        Some(QueueVal::Report(msg)) => {
            assert!(!msg.update_cache_from_singleton);
            assert_eq!(msg.req_time, 5);
            assert_eq!(msg.data.metrics, vec![("hits".to_string(), 1)]);
        },
        _ => panic!("expected the singleton message"),
    }
    assert!(queues.dequeue(qid).is_none());
}

// A cached application with an expired window rolls over on a hit.
#[test]
fn cache_hit_with_rollover() {
    let mut store = SharedStore::new();
    let mut queues = QueueSet::new();
    let mut waiting = WaitingContexts::new();
    queues.register_queue("message_queue");
    register_worker(&mut queues, 77);
    let mut filter = CacheFilter::new(1, 77, FilterConfig::default());

    // seed the cache as after an earlier authorize
    let parse = AuthResponseParse::Status(AuthorizationStatusData {
        usage_reports: Some(vec![AuthUsageData {
            metric: "hits".to_string(),
            period: Period::Minute,
            period_start: 0,
            period_end: 60,
            max_value: 10,
            current_value: 10,
        }]),
        ..ok_response("A1", "S1")
    });
    let mut h = headers(None, Some("A1"));
    h.usages = Some("{\"hits\":0}".to_string());
    let action = filter.on_http_request_headers(&h, &mut store, &mut queues, &mut waiting, 5);
    assert!(matches!(action, FilterAction::DispatchAuthorize(_)));
    filter.on_http_call_response(&mut store, &mut queues, false, Some(parse), 5);

    // now = 65: the [0,60) window is stale and left_hits was 0
    let mut filter2 = CacheFilter::new(2, 77, FilterConfig::default());
    let mut h = headers(None, Some("A1"));
    h.usages = Some("{\"hits\":3}".to_string());
    let action = filter2.on_http_request_headers(&h, &mut store, &mut queues, &mut waiting, 65);
    assert!(matches!(action, FilterAction::Continue));
    let key = CacheKey::from(&ServiceId::from("S1"), &AppIdentifier::from_app_id(AppId::from("A1")));
    let (app, _) = get_application_from_cache(&store, &key).unwrap();
    let hits = app.local_state.iter().find(|(m, _)| m == "hits").unwrap().1;
    assert_eq!(hits.period_window.start, 60);
    assert_eq!(hits.period_window.end, 120);
    assert_eq!(hits.left_hits, 7);
}

// A request over quota gets 429, and neither a cache write nor a message.
#[test]
fn rate_limited_writes_nothing() {
    let mut store = SharedStore::new();
    let mut queues = QueueSet::new();
    let mut waiting = WaitingContexts::new();
    queues.register_queue("message_queue");
    register_worker(&mut queues, 77);

    // seed: left_hits = 2 of 10 in [0, 60)
    let mut filter = CacheFilter::new(1, 77, FilterConfig::default());
    let parse = AuthResponseParse::Status(AuthorizationStatusData {
        usage_reports: Some(vec![AuthUsageData {
            metric: "hits".to_string(),
            period: Period::Minute,
            period_start: 0,
            period_end: 60,
            max_value: 10,
            current_value: 8,
        }]),
        ..ok_response("A1", "S1")
    });
    let mut h = headers(None, Some("A1"));
    h.usages = Some("{\"hits\":0}".to_string());
    filter.on_http_request_headers(&h, &mut store, &mut queues, &mut waiting, 5);
    filter.on_http_call_response(&mut store, &mut queues, false, Some(parse), 5);
    let qid = queues.resolve_queue("message_queue").unwrap();
    while queues.dequeue(qid).is_some() {}

    let key = CacheKey::from(&ServiceId::from("S1"), &AppIdentifier::from_app_id(AppId::from("A1")));
    let before = get_application_from_cache(&store, &key).unwrap();

    let mut filter2 = CacheFilter::new(2, 77, FilterConfig::default());
    let mut h = headers(None, Some("A1"));
    h.usages = Some("{\"hits\":3}".to_string());
    let action = filter2.on_http_request_headers(&h, &mut store, &mut queues, &mut waiting, 30);
    match action {
        FilterAction::Respond { status, body } => {
            assert_eq!(status, 429);
            assert_eq!(body.unwrap(), "Request rate-limited.\n");
        },
        _ => panic!("expected a rate-limit response"),
    }
    // no cache write and no singleton message
    let after = get_application_from_cache(&store, &key).unwrap();
    assert_eq!(before.1, after.1);
    assert!(queues.dequeue(qid).is_none());
}

// Two workers race for one callout: one wins, one waits; the winner's
// notification wakes the waiter, which finishes from the cache.
#[test]
fn concurrent_callout_collapses() {
    let mut store = SharedStore::new();
    let mut queues = QueueSet::new();
    let mut waiting_w2 = WaitingContexts::new();
    queues.register_queue("message_queue");
    register_worker(&mut queues, 10);
    let q2 = register_worker(&mut queues, 20);

    let mut w1 = CacheFilter::new(1, 10, FilterConfig::default());
    let mut w2 = CacheFilter::new(2, 20, FilterConfig::default());
    let h = headers(None, Some("A2"));
    let mut h = h;
    h.service_id = Some("S2".to_string());

    let mut dispatched = 0;
    let a1 = w1.on_http_request_headers(&h, &mut store, &mut queues, &mut waiting_w2, 5);
    if matches!(a1, FilterAction::DispatchAuthorize(_)) {
        dispatched += 1;
    }
    let a2 = w2.on_http_request_headers(&h, &mut store, &mut queues, &mut waiting_w2, 5);
    if matches!(a2, FilterAction::DispatchAuthorize(_)) {
        dispatched += 1;
    }
    // exactly one upstream authorize goes out; the other request waits
    assert_eq!(dispatched, 1);
    assert!(matches!(a2, FilterAction::Pause));

    // the winner's response wakes the waiter through its queue
    let parse = AuthResponseParse::Status(ok_response("A2", "S2"));
    let action = w1.on_http_call_response(&mut store, &mut queues, false, Some(parse), 5);
    assert!(matches!(action, FilterAction::Continue));

    match on_queue_ready(&mut store, &mut queues, &mut waiting_w2, q2, 5) {
        WakeOutcome::Resume { context_id, action } => {
            assert_eq!(context_id, 2);
            assert!(matches!(action, FilterAction::Continue));
        },
        _ => panic!("expected the waiter to resume"),
    }
    // both requests consumed one hit each
    let key = CacheKey::from(&ServiceId::from("S2"), &AppIdentifier::from_app_id(AppId::from("A2")));
    let (app, _) = get_application_from_cache(&store, &key).unwrap();
    let hits = app.local_state.iter().find(|(m, _)| m == "hits").unwrap().1;
    assert_eq!(hits.left_hits, 8);
}

// The winner resolves the user key; the lock lives under the original key
// and the waiter picks the mapping up before reading the cache.
#[test]
fn user_key_resolution_for_waiters() {
    let mut store = SharedStore::new();
    let mut queues = QueueSet::new();
    let mut waiting = WaitingContexts::new();
    queues.register_queue("message_queue");
    register_worker(&mut queues, 10);
    let q2 = register_worker(&mut queues, 20);

    let mut h = headers(Some("U3"), None);
    h.service_id = Some("S3".to_string());
    let mut w1 = CacheFilter::new(1, 10, FilterConfig::default());
    let mut w2 = CacheFilter::new(2, 20, FilterConfig::default());
    assert!(matches!(
        w1.on_http_request_headers(&h, &mut store, &mut queues, &mut waiting, 5),
        FilterAction::DispatchAuthorize(_)
    ));
    assert!(matches!(
        w2.on_http_request_headers(&h, &mut store, &mut queues, &mut waiting, 5),
        FilterAction::Pause
    ));
    // the lock sits under the original user-key form
    match store.get("CL_S3_U3") {
        (Some(StoreVal::Lock(l)), Some(_)) => {
            assert_eq!(l.owned_by, 10);
            assert_eq!(l.waiters.len(), 1);
            assert_eq!(l.waiters[0].http_context_id, 2);
        },
        _ => panic!("expected the callout lock under the user-key form"),
    }

    let parse = AuthResponseParse::Status(ok_response("A3", "S3"));
    w1.on_http_call_response(&mut store, &mut queues, false, Some(parse), 5);
    // mapping written, lock freed under the original key
    assert_eq!(get_app_id_from_cache(&store, &UserKey::from("U3")).unwrap().as_ref(), "A3");
    match store.get("CL_S3_U3") {
        (None, Some(_)) => {},
        _ => panic!("expected the lock to be freed"),
    }
    // the waiter resolves U3 -> A3 and finishes from the cache
    match on_queue_ready(&mut store, &mut queues, &mut waiting, q2, 5) {
        WakeOutcome::Resume { context_id, action } => {
            assert_eq!(context_id, 2);
            assert!(matches!(action, FilterAction::Continue));
        },
        _ => panic!("expected the waiter to resume"),
    }
    let key = CacheKey::from(&ServiceId::from("S3"), &AppIdentifier::from_app_id(AppId::from("A3")));
    let (app, _) = get_application_from_cache(&store, &key).unwrap();
    let hits = app.local_state.iter().find(|(m, _)| m == "hits").unwrap().1;
    assert_eq!(hits.left_hits, 8);
}

// A failed callout wakes every waiter with the failure action.
#[test]
fn timeout_fails_winner_and_waiters() {
    let mut store = SharedStore::new();
    let mut queues = QueueSet::new();
    let mut waiting = WaitingContexts::new();
    queues.register_queue("message_queue");
    register_worker(&mut queues, 10);
    let q2 = register_worker(&mut queues, 20);

    let h = headers(None, Some("A4"));
    let mut w1 = CacheFilter::new(1, 10, FilterConfig::default());
    let mut w2 = CacheFilter::new(2, 20, FilterConfig::default());
    w1.on_http_request_headers(&h, &mut store, &mut queues, &mut waiting, 5);
    w2.on_http_request_headers(&h, &mut store, &mut queues, &mut waiting, 5);

    let action = w1.on_http_call_response(&mut store, &mut queues, true, None, 5);
    // deny-on-failure is the default
    assert!(matches!(action, FilterAction::Respond { status: 403, .. }));
    match queues.dequeue(q2) {
        Some(QueueVal::Action(WaiterAction::HandleFailure(ctx))) => assert_eq!(ctx, 2),
        _ => panic!("expected a failure action for the waiter"),
    }
}

// Direct exercise of the lock protocol: one acquirer wins, the rest queue
// up, and freeing delivers exactly one action per waiter.
#[test]
fn lock_protocol_counts() {
    let mut store = SharedStore::new();
    let mut queues = QueueSet::new();
    let q1 = register_worker(&mut queues, 1);
    let q2 = register_worker(&mut queues, 2);
    let q3 = register_worker(&mut queues, 3);
    let key = CacheKey::from(&ServiceId::from("S"), &AppIdentifier::from_app_id(AppId::from("A")));

    assert!(matches!(
        set_callout_lock(&mut store, &queues, 1, 11, &key),
        Ok(SetCalloutLockStatus::LockAcquired)
    ));
    assert!(matches!(
        set_callout_lock(&mut store, &queues, 2, 22, &key),
        Ok(SetCalloutLockStatus::AddedToWaitlist)
    ));
    assert!(matches!(
        set_callout_lock(&mut store, &queues, 3, 33, &key),
        Ok(SetCalloutLockStatus::AddedToWaitlist)
    ));
    let failed = free_callout_lock_and_notify_waiters(
        &mut store,
        &mut queues,
        1,
        11,
        &key,
        WaiterAction::HandleCacheHit(0),
    )
    .unwrap();
    assert_eq!(failed, 0);
    assert!(queues.dequeue(q1).is_none());
    match queues.dequeue(q2) {
        Some(QueueVal::Action(WaiterAction::HandleCacheHit(ctx))) => assert_eq!(ctx, 22),
        _ => panic!("expected a wake-up for the first waiter"),
    }
    match queues.dequeue(q3) {
        Some(QueueVal::Action(WaiterAction::HandleCacheHit(ctx))) => assert_eq!(ctx, 33),
        _ => panic!("expected a wake-up for the second waiter"),
    }
    assert!(queues.dequeue(q2).is_none());
    assert!(queues.dequeue(q3).is_none());
    // a second acquisition succeeds on the freed slot
    assert!(matches!(
        set_callout_lock(&mut store, &queues, 2, 22, &key),
        Ok(SetCalloutLockStatus::LockAcquired)
    ));
}

fn delta_data(service: &str, app: &str, hits: u64) -> ThreescaleData {
    ThreescaleData {
        app_id: AppIdentifier::from_app_id(AppId::from(app)),
        service_id: ServiceId::from(service),
        service_token: ServiceToken::from("T"),
        metrics: vec![("hits".to_string(), hits)],
        upstream: Upstream {
            name: "up".to_string(),
            scheme: "https".to_string(),
            authority: "su1.3scale.net".to_string(),
            path: "/".to_string(),
            query: None,
            timeout_ms: 1000,
        },
    }
}

// Delta accumulation is additive per metric.
#[test]
fn delta_store_is_additive() {
    let mut ds = DeltaStore {
        last_update: None,
        deltas: Vec::new(),
        memory_allocated: 0,
        config: DeltaStoreConfig { capacity: 1 << 40, ..Default::default() },
    };
    let hits = [5u64, 7, 11];
    for h in hits {
        ds.update_delta_store(&delta_data("S", "A", h));
    }
    let bucket = &ds.deltas.iter().find(|(k, _)| k == "S_T").unwrap().1;
    let app = bucket.iter().find(|(a, _)| a.as_ref() == "A").unwrap();
    let total = app.1.iter().find(|(m, _)| m == "hits").unwrap().1;
    assert_eq!(total, 5 + 7 + 11);
}

// Filling the store past its capacity asks for a flush whose reports carry
// exactly the accumulated pairs, and empties the store.
#[test]
fn singleton_flushes_by_capacity() {
    let mut store = SharedStore::new();
    let mut queues = QueueSet::new();
    let config = ServiceConfig {
        delta_store_config: DeltaStoreConfig {
            capacity: 256,
            flush_mode: FlushMode::ContainerLimit,
            ..Default::default()
        },
    };
    let mut service = SingletonService::new(1, config);
    service.on_vm_start(&mut queues);
    let qid = service.queue_id.unwrap();

    let mut flushes = 0;
    let mut flushed_reports = Vec::new();
    for i in 0..300u64 {
        let (svc, app) = match i % 3 {
            0 => ("S1", "A1"),
            1 => ("S1", "A2"),
            _ => ("S2", "A3"),
        };
        let msg = threescale_cache::Message::new(false, &delta_data(svc, app, 1), i);
        queues.enqueue(qid, QueueVal::Report(msg)).unwrap();
        if let Some(plan) = service.on_queue_ready(&mut store, &mut queues) {
            flushes += 1;
            assert_eq!(service.delta_store.deltas.len(), 0);
            assert_eq!(service.delta_store.memory_allocated, 0);
            flushed_reports.extend(plan.reports);
        }
    }
    assert!(flushes >= 1);
    // every hit fed in is accounted for in some flushed report or still
    // pending: the flushed reports carry exact decimal totals
    let mut accounted = 0u64;
    for rep in &flushed_reports {
        for (_, pairs) in rep.usages().iter() {
            for (metric, value) in pairs.iter() {
                assert_eq!(metric, "hits");
                accounted += value.parse::<u64>().unwrap();
            }
        }
    }
    for (_, bucket) in service.delta_store.deltas.iter() {
        for (_, metrics) in bucket.iter() {
            for (_, v) in metrics.iter() {
                accounted += v;
            }
        }
    }
    assert_eq!(accounted, 300);
    // the flush also schedules one authorize per remembered application
    let plan = service.flush_local_cache();
    assert_eq!(plan.auth_calls.len(), 3);
}

// A worker that lost its cache write asks the singleton to reconcile.
#[test]
fn singleton_reconciles_flagged_messages() {
    let mut store = SharedStore::new();
    let mut queues = QueueSet::new();
    let mut service = SingletonService::new(1, ServiceConfig::default());
    service.on_vm_start(&mut queues);
    let qid = service.queue_id.unwrap();

    // seed a cached application with 10 of 10 left
    let app = threescale_cache::Application {
        app_id: AppIdentifier::from_app_id(AppId::from("A1")),
        service_id: ServiceId::from("S1"),
        local_state: vec![(
            "hits".to_string(),
            threescale_cache::UsageReport {
                period_window: threescale_cache::PeriodWindow {
                    start: 0,
                    end: 60,
                    window: Period::Minute,
                },
                left_hits: 10,
                max_value: 10,
            },
        )],
        metric_hierarchy: Vec::new(),
        app_keys: None,
    };
    threescale_cache::set_application_to_cache(&mut store, "S1_A1", &app, 0).unwrap();

    let msg = threescale_cache::Message::new(true, &delta_data("S1", "A1", 4), 30);
    queues.enqueue(qid, QueueVal::Report(msg)).unwrap();
    service.on_queue_ready(&mut store, &mut queues);
    let key = CacheKey::from(&ServiceId::from("S1"), &AppIdentifier::from_app_id(AppId::from("A1")));
    let (app, _) = get_application_from_cache(&store, &key).unwrap();
    assert_eq!(app.local_state[0].1.left_hits, 6);
}

// The singleton's refresh response overwrites the cache unconditionally.
#[test]
fn singleton_auth_refresh_overwrites() {
    let mut store = SharedStore::new();
    let service = SingletonService::new(1, ServiceConfig::default());
    service
        .handle_auth_response(&mut store, &ok_response("A9", "S9"), false)
        .unwrap();
    let key = CacheKey::from(&ServiceId::from("S9"), &AppIdentifier::from_app_id(AppId::from("A9")));
    let (app, _) = get_application_from_cache(&store, &key).unwrap();
    assert_eq!(app.local_state[0].1.left_hits, 10);
    // a denial without the rate-limit status is not cached
    let denied = AuthorizationStatusData { authorized: false, ..ok_response("A8", "S9") };
    assert!(service.handle_auth_response(&mut store, &denied, false).is_err());
}

#[test]
fn log_store_collects_and_serializes() {
    let mut logs = LogStore::new();
    logs.store_logs(5, "first");
    logs.store_logs(5, "second");
    let (k, v) = logs.get_logs_header_pair(5);
    assert_eq!(k, "filter-logs");
    assert_eq!(v, "[\"first\",\"second\"]");
    let (_, v) = logs.get_logs_header_pair(6);
    assert_eq!(v, "couldn't find logs in the hashmap for this context");
}

#[test]
fn prng_is_seed_deterministic() {
    let mut a = Prng::new(42);
    let mut b = Prng::new(42);
    assert_eq!(a.next_u32(), b.next_u32());
    assert_eq!(a.next_u64(), b.next_u64());
    let mut c = Prng::new(43);
    let (x, y) = (Prng::new(42).next_u32(), c.next_u32());
    // different seeds give a different first draw here
    assert_ne!(x, y);
}
