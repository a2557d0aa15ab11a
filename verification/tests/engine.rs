use threescale_cache::AppId;
use threescale_cache::AppIdentifier;
use threescale_cache::Application;
use threescale_cache::CacheKey;
use threescale_cache::Period;
use threescale_cache::PeriodWindow;
use threescale_cache::ServiceId;
use threescale_cache::ServiceToken;
use threescale_cache::SharedStore;
use threescale_cache::StoreVal;
use threescale_cache::ThreescaleData;
use threescale_cache::UsageReport;
use threescale_cache::UserKey;
use threescale_cache::Upstream;
use threescale_cache::add_hierarchy_to_metrics;
use threescale_cache::get_application_from_cache;
use threescale_cache::limit_check_and_update_application;
use threescale_cache::set_application_to_cache;
use threescale_cache::u64_to_dec;
use threescale_cache::split_service_key;
use threescale_cache::UpdateMetricsError;

fn upstream() -> Upstream {
    Upstream {
        name: "outbound|443||su1.3scale.net".to_string(),
        scheme: "https".to_string(),
        authority: "su1.3scale.net".to_string(),
        path: "/".to_string(),
        query: None,
        timeout_ms: 5000,
    }
}

fn data(service: &str, token: &str, app: AppIdentifier, metrics: Vec<(&str, u64)>) -> ThreescaleData {
    ThreescaleData {
        app_id: app,
        service_id: ServiceId::from(service),
        service_token: ServiceToken::from(token),
        metrics: metrics.into_iter().map(|(m, h)| (m.to_string(), h)).collect(),
        upstream: upstream(),
    }
}

fn app_with(service: &str, app_id: &str, reports: Vec<(&str, u64, u64, u64, u64, Period)>) -> Application {
    Application {
        app_id: AppIdentifier::from_app_id(AppId::from(app_id)),
        service_id: ServiceId::from(service),
        local_state: reports
            .into_iter()
            .map(|(m, start, end, left, max, period)| {
                (
                    m.to_string(),
                    UsageReport {
                        period_window: PeriodWindow { start, end, window: period },
                        left_hits: left,
                        max_value: max,
                    },
                )
            })
            .collect(),
        metric_hierarchy: Vec::new(),
        app_keys: None,
    }
}

fn state_of(app: &Application, metric: &str) -> UsageReport {
    for (m, u) in app.local_state.iter() {
        if m == metric {
            return *u;
        }
    }
    panic!("metric {} not cached", metric);
}

#[test]
fn period_seconds() {
    assert_eq!(Period::Minute.as_secs(), 60);
    assert_eq!(Period::Hour.as_secs(), 3600);
    assert_eq!(Period::Day.as_secs(), 86400);
    assert_eq!(Period::Week.as_secs(), 604800);
    assert_eq!(Period::Month.as_secs(), 2592000);
    assert_eq!(Period::Year.as_secs(), 31536000);
    assert_eq!(Period::Eternity.as_secs(), u64::MAX);
}

#[test]
fn appid_splits_on_single_colon() {
    match AppIdentifier::appid_from_str("a:b") {
        AppIdentifier::AppId(id, Some(key)) => {
            assert_eq!(id.as_ref(), "a");
            assert_eq!(key.as_ref(), "b");
        },
        _ => panic!("expected id and key"),
    }
    match AppIdentifier::appid_from_str("plain") {
        AppIdentifier::AppId(id, None) => assert_eq!(id.as_ref(), "plain"),
        _ => panic!("expected bare id"),
    }
    // more than one colon keeps only the first segment, with no key
    match AppIdentifier::appid_from_str("a:b:c") {
        AppIdentifier::AppId(id, None) => assert_eq!(id.as_ref(), "a"),
        _ => panic!("expected bare id"),
    }
}

#[test]
fn cache_key_string_form() {
    let key = CacheKey::from(
        &ServiceId::from("S1"),
        &AppIdentifier::from_app_id(AppId::from("A1")),
    );
    assert_eq!(key.as_string(), "S1_A1");
    let mut key = key;
    key.set_app_id(&AppIdentifier::from_user_key(UserKey::from("U9")));
    assert_eq!(key.as_string(), "S1_U9");
}

#[test]
fn decimal_rendering() {
    assert_eq!(u64_to_dec(0), "0");
    assert_eq!(u64_to_dec(7), "7");
    assert_eq!(u64_to_dec(12345), "12345");
    assert_eq!(u64_to_dec(u64::MAX), "18446744073709551615");
}

#[test]
fn service_key_split() {
    assert_eq!(split_service_key("S1_T1"), ("S1".to_string(), "T1".to_string()));
    // the token is everything after the first separator: tokens may
    // themselves contain one
    assert_eq!(split_service_key("a_b_c"), ("a".to_string(), "b_c".to_string()));
    assert_eq!(split_service_key("bare"), ("bare".to_string(), "".to_string()));
}

// Consuming quota within the window decrements left_hits and caches the
// result.
#[test]
fn engine_consumes_quota() {
    let mut store = SharedStore::new();
    let mut app = app_with("S1", "A1", vec![("hits", 0, 60, 10, 10, Period::Minute)]);
    let d = data("S1", "T1", AppIdentifier::from_app_id(AppId::from("A1")), vec![("hits", 1)]);
    limit_check_and_update_application(&d, &mut app, 0, 30, &mut store).unwrap();
    assert_eq!(state_of(&app, "hits").left_hits, 9);
    let key = CacheKey::from(&app.service_id, &app.app_id);
    let (cached, _cas) = get_application_from_cache(&store, &key).unwrap();
    assert_eq!(state_of(&cached, "hits").left_hits, 9);
}

// An expired window rolls forward by whole periods, the quota resets, and
// the roll is itself counted against the new window.
#[test]
fn engine_rolls_expired_window() {
    let mut store = SharedStore::new();
    let mut app = app_with("S1", "A1", vec![("hits", 0, 60, 0, 10, Period::Minute)]);
    let d = data("S1", "T1", AppIdentifier::from_app_id(AppId::from("A1")), vec![("hits", 3)]);
    limit_check_and_update_application(&d, &mut app, 0, 65, &mut store).unwrap();
    let u = state_of(&app, "hits");
    assert_eq!(u.period_window.start, 60);
    assert_eq!(u.period_window.end, 120);
    assert_eq!(u.left_hits, 7);
    assert_eq!(u.max_value, 10);
}

// A window several periods stale advances by exactly that many periods.
#[test]
fn engine_rolls_many_periods() {
    let mut store = SharedStore::new();
    let mut app = app_with("S1", "A1", vec![("hits", 0, 60, 2, 10, Period::Minute)]);
    let d = data("S1", "T1", AppIdentifier::from_app_id(AppId::from("A1")), vec![("hits", 1)]);
    limit_check_and_update_application(&d, &mut app, 0, 60 * 5 + 30, &mut store).unwrap();
    let u = state_of(&app, "hits");
    assert_eq!(u.period_window.start, 300);
    assert_eq!(u.period_window.end, 360);
    assert_eq!(u.period_window.end - u.period_window.start, Period::Minute.as_secs());
    assert_eq!(u.left_hits, 9);
}

// Beyond the window's quota the request is refused and nothing is written.
#[test]
fn engine_rate_limits_without_write() {
    let mut store = SharedStore::new();
    let mut app = app_with("S1", "A1", vec![("hits", 0, 60, 2, 10, Period::Minute)]);
    let d = data("S1", "T1", AppIdentifier::from_app_id(AppId::from("A1")), vec![("hits", 3)]);
    let r = limit_check_and_update_application(&d, &mut app, 0, 30, &mut store);
    assert_eq!(r, Err(UpdateMetricsError::RateLimited));
    let key = CacheKey::from(&app.service_id, &app.app_id);
    assert!(get_application_from_cache(&store, &key).is_err());
}

// Unknown metrics pass through untouched: their authority is upstream.
#[test]
fn engine_skips_unknown_metrics() {
    let mut store = SharedStore::new();
    let mut app = app_with("S1", "A1", vec![("hits", 0, 60, 10, 10, Period::Minute)]);
    let d = data("S1", "T1", AppIdentifier::from_app_id(AppId::from("A1")), vec![("other", 50)]);
    limit_check_and_update_application(&d, &mut app, 0, 30, &mut store).unwrap();
    assert_eq!(state_of(&app, "hits").left_hits, 10);
}

// Non-rate-limited calls accumulate exactly their total within one window.
#[test]
fn engine_accumulates_across_calls() {
    let mut store = SharedStore::new();
    let mut app = app_with("S1", "A1", vec![("hits", 0, 60, 10, 10, Period::Minute)]);
    let key = CacheKey::from(&app.service_id, &app.app_id);
    let hits = [1u64, 2, 3];
    let mut cas = 0u32;
    for h in hits {
        let d = data("S1", "T1", AppIdentifier::from_app_id(AppId::from("A1")), vec![("hits", h)]);
        limit_check_and_update_application(&d, &mut app, cas, 30, &mut store).unwrap();
        let fetched = get_application_from_cache(&store, &key).unwrap();
        app = fetched.0;
        cas = fetched.1;
    }
    let u = state_of(&app, "hits");
    assert_eq!(u.left_hits, 10 - (1 + 2 + 3));
    assert!(u.left_hits <= u.max_value);
}

// The quota invariant holds for every metric after a pass.
#[test]
fn engine_keeps_reports_within_bounds() {
    let mut store = SharedStore::new();
    let mut app = app_with(
        "S1",
        "A1",
        vec![
            ("hits", 0, 60, 5, 10, Period::Minute),
            ("calls", 0, 3600, 100, 100, Period::Hour),
        ],
    );
    let d = data(
        "S1",
        "T1",
        AppIdentifier::from_app_id(AppId::from("A1")),
        vec![("hits", 5), ("calls", 100)],
    );
    limit_check_and_update_application(&d, &mut app, 0, 30, &mut store).unwrap();
    for (_, u) in app.local_state.iter() {
        assert!(u.left_hits <= u.max_value);
        let w = u.period_window;
        assert!(w.start <= 30 && 30 < w.end);
        assert_eq!(w.end - w.start, w.window.as_secs());
    }
}

// Hierarchy expansion adds each matching child's hits onto its parent.
#[test]
fn hierarchy_expansion_accumulates_parents() {
    let hierarchy = vec![("parent".to_string(), vec!["child_a".to_string(), "child_b".to_string()])];
    let mut metrics: Vec<(String, u64)> =
        vec![("child_a".to_string(), 2), ("child_b".to_string(), 3)];
    add_hierarchy_to_metrics(&hierarchy, &mut metrics);
    let parent = metrics.iter().find(|(m, _)| m == "parent").unwrap();
    assert_eq!(parent.1, 5);
    // an existing parent counter accumulates on top of its own hits
    let mut metrics: Vec<(String, u64)> =
        vec![("parent".to_string(), 1), ("child_a".to_string(), 2)];
    add_hierarchy_to_metrics(&hierarchy, &mut metrics);
    let parent = metrics.iter().find(|(m, _)| m == "parent").unwrap();
    assert_eq!(parent.1, 3);
    // a hierarchy with no matching child changes nothing
    let mut metrics: Vec<(String, u64)> = vec![("other".to_string(), 4)];
    add_hierarchy_to_metrics(&hierarchy, &mut metrics);
    assert_eq!(metrics, vec![("other".to_string(), 4)]);
}

// The store's compare-and-swap refuses a stale write and accepts the fresh
// cas.
#[test]
fn store_cas_semantics() {
    let mut store = SharedStore::new();
    store.set("k", Some(StoreVal::Counter(1)), None).unwrap();
    let (_, cas) = store.get("k");
    let cas = cas.unwrap();
    // a stale (wrong) cas is refused
    assert!(store.set("k", Some(StoreVal::Counter(2)), Some(cas + 1)).is_err());
    // the current cas wins
    store.set("k", Some(StoreVal::Counter(2)), Some(cas)).unwrap();
    // cas 0 overwrites unconditionally
    store.set("k", Some(StoreVal::Counter(3)), Some(0)).unwrap();
    match store.get("k") {
        (Some(StoreVal::Counter(3)), Some(_)) => {},
        _ => panic!("expected counter 3"),
    }
}

// Writing an application nudges the advisory memory counter into existence.
#[test]
fn set_application_seeds_memory_counter() {
    let mut store = SharedStore::new();
    let app = app_with("S1", "A1", vec![("hits", 0, 60, 10, 10, Period::Minute)]);
    set_application_to_cache(&mut store, "S1_A1", &app, 0).unwrap();
    match store.get("SHARED_MEMORY_COUNTER") {
        (Some(StoreVal::Counter(n)), Some(_)) => assert!(n >= 1000),
        _ => panic!("expected the counter to exist"),
    }
}
