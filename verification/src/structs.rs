use vstd::prelude::*;

use crate::strutil::str_eq;
use vstd::string::StrSliceExecFns;
use vstd::string::StringExecFns;

verus! {

/// The quota periods a usage report may cover.  Each period other than
/// `Eternity` has a fixed length in seconds.
#[derive(Clone, Copy, Debug, PartialEq, Eq, Structural)]
pub enum Period {
    Minute,
    Hour,
    Day,
    Week,
    Month,
    Year,
    Eternity,
}

pub const MINUTE_SECS: u64 = 60;
pub const HOUR_SECS: u64 = 3600;
pub const DAY_SECS: u64 = 86400;
pub const WEEK_SECS: u64 = 604800;
pub const MONTH_SECS: u64 = 2592000;
pub const YEAR_SECS: u64 = 31536000;

impl Period {
    /// The period's length in seconds; `Eternity` is mapped to `u64::MAX`.
    pub open spec fn spec_as_secs(&self) -> u64 {
        match *self {
            Period::Minute => MINUTE_SECS,
            Period::Hour => HOUR_SECS,
            Period::Day => DAY_SECS,
            Period::Week => WEEK_SECS,
            Period::Month => MONTH_SECS,
            Period::Year => YEAR_SECS,
            Period::Eternity => u64::MAX,
        }
    }

    #[verifier::when_used_as_spec(spec_as_secs)]
    pub fn as_secs(&self) -> (r: u64)
        ensures
            r == self.spec_as_secs(),
    {
        match *self {
            Period::Minute => MINUTE_SECS,
            Period::Hour => HOUR_SECS,
            Period::Day => DAY_SECS,
            Period::Week => WEEK_SECS,
            Period::Month => MONTH_SECS,
            Period::Year => YEAR_SECS,
            Period::Eternity => u64::MAX,
        }
    }
}

/// The `[start, end)` interval of seconds since the epoch that a metric's
/// quota currently applies to.
#[derive(Clone, Copy, Debug, PartialEq, Eq, Structural)]
pub struct PeriodWindow {
    pub start: u64,
    pub end: u64,
    pub window: Period,
}

impl PeriodWindow {
    /// A window is well formed when, for a finite period, its length is
    /// exactly the period's length in seconds.
    pub open spec fn wf(self) -> bool {
        self.window != Period::Eternity ==> self.end == self.start + self.window.spec_as_secs()
    }
}

/// The cached quota state of one metric: the current window, the hits that
/// are still allowed in it, and the window's full quota.
#[derive(Clone, Copy, Debug, PartialEq, Eq, Structural)]
pub struct UsageReport {
    pub period_window: PeriodWindow,
    pub left_hits: u64,
    // Required to renew the window until new state is fetched upstream.
    pub max_value: u64,
}

impl UsageReport {
    pub open spec fn wf(self) -> bool {
        &&& self.period_window.wf()
        &&& self.left_hits <= self.max_value
    }
}

#[derive(Debug)]
pub struct AppId(String);

#[derive(Debug)]
pub struct AppKey(String);

#[derive(Debug)]
pub struct UserKey(String);

#[derive(Debug)]
pub struct ServiceToken(String);

#[derive(Debug)]
pub struct ServiceId(String);

impl View for AppId {
    type V = Seq<char>;

    closed spec fn view(&self) -> Seq<char> {
        self.0@
    }
}

impl View for AppKey {
    type V = Seq<char>;

    closed spec fn view(&self) -> Seq<char> {
        self.0@
    }
}

impl View for UserKey {
    type V = Seq<char>;

    closed spec fn view(&self) -> Seq<char> {
        self.0@
    }
}

impl View for ServiceToken {
    type V = Seq<char>;

    closed spec fn view(&self) -> Seq<char> {
        self.0@
    }
}

impl View for ServiceId {
    type V = Seq<char>;

    closed spec fn view(&self) -> Seq<char> {
        self.0@
    }
}


impl DeepView for AppId {
    type V = Seq<char>;

    open spec fn deep_view(&self) -> Seq<char> {
        self@
    }
}

impl DeepView for AppKey {
    type V = Seq<char>;

    open spec fn deep_view(&self) -> Seq<char> {
        self@
    }
}

impl DeepView for UserKey {
    type V = Seq<char>;

    open spec fn deep_view(&self) -> Seq<char> {
        self@
    }
}

impl DeepView for ServiceToken {
    type V = Seq<char>;

    open spec fn deep_view(&self) -> Seq<char> {
        self@
    }
}

impl DeepView for ServiceId {
    type V = Seq<char>;

    open spec fn deep_view(&self) -> Seq<char> {
        self@
    }
}

impl AppId {
    pub fn from(a: &str) -> (r: Self)
        ensures
            r@ == a@,
    {
        AppId(a.to_owned())
    }

    pub fn as_ref(&self) -> (r: &str)
        ensures
            r@ == self@,
    {
        self.0.as_str()
    }

    pub fn clone(&self) -> (r: Self)
        ensures
            r@ == self@,
    {
        AppId(self.0.clone())
    }
}

impl AppKey {
    pub fn from(a: &str) -> (r: Self)
        ensures
            r@ == a@,
    {
        AppKey(a.to_owned())
    }

    pub fn as_ref(&self) -> (r: &str)
        ensures
            r@ == self@,
    {
        self.0.as_str()
    }

    pub fn clone(&self) -> (r: Self)
        ensures
            r@ == self@,
    {
        AppKey(self.0.clone())
    }
}

impl UserKey {
    pub fn from(a: &str) -> (r: Self)
        ensures
            r@ == a@,
    {
        UserKey(a.to_owned())
    }

    pub fn as_ref(&self) -> (r: &str)
        ensures
            r@ == self@,
    {
        self.0.as_str()
    }

    pub fn clone(&self) -> (r: Self)
        ensures
            r@ == self@,
    {
        UserKey(self.0.clone())
    }
}

impl ServiceToken {
    pub fn from(a: &str) -> (r: Self)
        ensures
            r@ == a@,
    {
        ServiceToken(a.to_owned())
    }

    pub fn as_ref(&self) -> (r: &str)
        ensures
            r@ == self@,
    {
        self.0.as_str()
    }

    pub fn clone(&self) -> (r: Self)
        ensures
            r@ == self@,
    {
        ServiceToken(self.0.clone())
    }
}

impl ServiceId {
    pub fn from(a: &str) -> (r: Self)
        ensures
            r@ == a@,
    {
        ServiceId(a.to_owned())
    }

    pub fn as_ref(&self) -> (r: &str)
        ensures
            r@ == self@,
    {
        self.0.as_str()
    }

    pub fn clone(&self) -> (r: Self)
        ensures
            r@ == self@,
    {
        ServiceId(self.0.clone())
    }
}

/// How a calling application identifies itself: either by an app id with an
/// optional app key, or by a user key.  Two identifiers are the same
/// application exactly when their primary strings match.
#[derive(Debug)]
pub enum AppIdentifier {
    AppId(AppId, Option<AppKey>),
    UserKey(UserKey),
}

/// The mathematical value of an `AppIdentifier`.
#[verifier::ext_equal]
pub enum AppIdentifierView {
    AppId { id: Seq<char>, app_key: Option<Seq<char>> },
    UserKey { user_key: Seq<char> },
}

impl AppIdentifierView {
    /// The primary string: the app id, or the user key.
    pub open spec fn primary(self) -> Seq<char> {
        match self {
            AppIdentifierView::AppId { id, .. } => id,
            AppIdentifierView::UserKey { user_key } => user_key,
        }
    }

    pub open spec fn is_user_key(self) -> bool {
        self is UserKey
    }
}

impl View for AppIdentifier {
    type V = AppIdentifierView;

    open spec fn view(&self) -> AppIdentifierView {
        match self {
            AppIdentifier::AppId(id, key) => AppIdentifierView::AppId {
                id: id@,
                app_key: match key {
                    Some(k) => Some(k@),
                    None => None,
                },
            },
            AppIdentifier::UserKey(k) => AppIdentifierView::UserKey { user_key: k@ },
        }
    }
}

/// The number of `':'` characters among the first `n` of `s`.
pub open spec fn colon_count(s: Seq<char>, n: int) -> int
    decreases n,
{
    if n <= 0 {
        0
    } else {
        colon_count(s, n - 1) + if s[n - 1] == ':' { 1int } else { 0int }
    }
}

/// The index of the first `':'` in `s`, or `s.len()` if there is none.
pub open spec fn first_colon(s: Seq<char>) -> int
    decreases s.len(),
{
    if s.len() == 0 {
        0
    } else if s[0] == ':' {
        0
    } else {
        1 + first_colon(s.drop_first())
    }
}

pub proof fn lemma_first_colon(s: Seq<char>)
    ensures
        0 <= first_colon(s) <= s.len(),
        forall|i: int| 0 <= i < first_colon(s) ==> s[i] != ':',
        first_colon(s) < s.len() ==> s[first_colon(s)] == ':',
    decreases s.len(),
{
    if s.len() > 0 && s[0] != ':' {
        lemma_first_colon(s.drop_first());
        assert forall|i: int| 0 <= i < first_colon(s) implies s[i] != ':' by {
            if i > 0 {
                assert(s.drop_first()[i - 1] != ':');
            }
        }
        if first_colon(s) < s.len() {
            assert(s[first_colon(s)] == s.drop_first()[first_colon(s.drop_first())]);
        }
    }
}

impl AppIdentifier {
    pub fn as_ref(&self) -> (r: &str)
        ensures
            r@ == self@.primary(),
    {
        match self {
            AppIdentifier::AppId(id, _key) => id.as_ref(),
            // Unreachable once a user key is mapped to an app id.
            AppIdentifier::UserKey(user_key) => user_key.as_ref(),
        }
    }

    pub fn clone(&self) -> (r: Self)
        ensures
            r@ == self@,
    {
        match self {
            AppIdentifier::AppId(id, key) => AppIdentifier::AppId(
                id.clone(),
                match key {
                    Some(k) => Some(k.clone()),
                    None => None,
                },
            ),
            AppIdentifier::UserKey(k) => AppIdentifier::UserKey(k.clone()),
        }
    }

    pub fn from_app_id(a: AppId) -> (r: Self)
        ensures
            r@ == (AppIdentifierView::AppId { id: a@, app_key: None }),
    {
        AppIdentifier::AppId(a, None)
    }

    pub fn from_user_key(u: UserKey) -> (r: Self)
        ensures
            r@ == (AppIdentifierView::UserKey { user_key: u@ }),
    {
        AppIdentifier::UserKey(u)
    }
}


/// How `appid_from_str` divides a raw credential string: at the first `':'`
/// when the string holds exactly one, with everything after it as the app
/// key; otherwise the first segment alone, with no key.
pub open spec fn appid_split(s: Seq<char>) -> AppIdentifierView {
    if colon_count(s, s.len() as int) == 1 {
        AppIdentifierView::AppId {
            id: s.subrange(0, first_colon(s)),
            app_key: Some(s.subrange(first_colon(s) + 1, s.len() as int)),
        }
    } else {
        AppIdentifierView::AppId { id: s.subrange(0, first_colon(s)), app_key: None }
    }
}

pub proof fn lemma_no_colon_count(s: Seq<char>, n: int)
    requires
        0 <= n <= s.len(),
    ensures
        colon_count(s, n) >= 0,
        (forall|j: int| 0 <= j < n ==> s[j] != ':') ==> colon_count(s, n) == 0,
        colon_count(s, n) == 0 ==> (forall|j: int| 0 <= j < n ==> s[j] != ':'),
    decreases n,
{
    if n > 0 {
        lemma_no_colon_count(s, n - 1);
    }
}

impl AppIdentifier {
    /// Reads an `app_id` or `app_id:app_key` credential string.
    pub fn appid_from_str(s: &str) -> (r: AppIdentifier)
        ensures
            r@ == appid_split(s@),
    {
        let n = s.unicode_len();
        let mut i: usize = 0;
        let mut colons: usize = 0;
        let mut first: usize = n;
        while i < n
            invariant
                n == s@.len(),
                i <= n,
                colons <= i,
                colons == colon_count(s@, i as int),
                if colons == 0 {
                    first == n && (forall|j: int| 0 <= j < i ==> s@[j] != ':')
                } else {
                    first == first_colon(s@)
                },
            decreases n - i,
        {
            let c = s.get_char(i);
            if c == ':' {
                if colons == 0 {
                    first = i;
                    proof {
                        lemma_first_colon(s@);
                        if first_colon(s@) < i {
                            assert(s@[first_colon(s@)] != ':');
                        }
                        if first_colon(s@) > i {
                            assert(s@[i as int] != ':');
                        }
                    }
                }
                colons = colons + 1;
            }
            i = i + 1;
        }
        proof {
            lemma_first_colon(s@);
            lemma_no_colon_count(s@, s@.len() as int);
            if colons == 0 {
                if first_colon(s@) < s@.len() {
                    assert(s@[first_colon(s@)] != ':');
                }
            } else {
                if first_colon(s@) == s@.len() {
                    assert(colon_count(s@, s@.len() as int) == 0);
                    assert(false);
                }
            }
        }
        if colons == 1 {
            let id = s.substring_char(0, first).to_owned();
            let key = s.substring_char(first + 1, n).to_owned();
            AppIdentifier::AppId(AppId(id), Some(AppKey(key)))
        } else {
            let id = s.substring_char(0, first).to_owned();
            AppIdentifier::AppId(AppId(id), None)
        }
    }
}

/// The per-request metric deltas, as metric name to hits.
pub type Metrics = Vec<(String, u64)>;

/// Parent metric to its child metrics.
pub type Hierarchy = Vec<(String, Vec<String>)>;

/// The character-level value of a metrics list.
pub open spec fn metrics_view(s: Seq<(String, u64)>) -> Seq<(Seq<char>, u64)> {
    crate::kv::kv_view(s)
}

/// The character-level value of a usage-report list.
pub open spec fn state_view(s: Seq<(String, UsageReport)>) -> Seq<(Seq<char>, UsageReport)> {
    crate::kv::kv_view(s)
}

/// The character-level value of a hierarchy list.
pub open spec fn hierarchy_view(s: Seq<(String, Vec<String>)>) -> Seq<(Seq<char>, Seq<Seq<char>>)> {
    s.map_values(|p: (String, Vec<String>)| (p.0@, p.1.deep_view()))
}

/// The mathematical value of an `Application`.
#[verifier::ext_equal]
pub struct ApplicationView {
    pub app_id: AppIdentifierView,
    pub service_id: Seq<char>,
    pub local_state: Seq<(Seq<char>, UsageReport)>,
    pub metric_hierarchy: Seq<(Seq<char>, Seq<Seq<char>>)>,
    pub app_keys: Option<Seq<Seq<char>>>,
}

impl ApplicationView {
    /// The quota state as a map from metric name to usage report.
    pub open spec fn state_map(self) -> Map<Seq<char>, UsageReport> {
        crate::kv::vkv_map(self.local_state)
    }
}

/// The cached authorization state of one application: its identity, the
/// per-metric quota state, the metric hierarchy, and the app keys that the
/// upstream listed for it.
#[derive(Debug)]
pub struct Application {
    pub app_id: AppIdentifier,
    pub service_id: ServiceId,
    pub local_state: Vec<(String, UsageReport)>,
    pub metric_hierarchy: Hierarchy,
    pub app_keys: Option<Vec<AppKey>>,
}

impl View for Application {
    type V = ApplicationView;

    open spec fn view(&self) -> ApplicationView {
        ApplicationView {
            app_id: self.app_id@,
            service_id: self.service_id@,
            local_state: state_view(self.local_state@),
            metric_hierarchy: hierarchy_view(self.metric_hierarchy@),
            app_keys: match &self.app_keys {
                Some(ks) => Some(ks.deep_view()),
                None => None,
            },
        }
    }
}

impl Application {
    /// The quota state as a map from metric name to usage report.
    pub open spec fn state_map(&self) -> Map<Seq<char>, UsageReport> {
        crate::kv::kv_map(self.local_state@)
    }

    pub open spec fn wf(&self) -> bool {
        &&& crate::kv::kv_keys_unique(self.local_state@)
        &&& crate::kv::kv_keys_unique(self.metric_hierarchy@)
        &&& forall|i: int|
            0 <= i < self.local_state@.len() ==> (#[trigger] self.local_state@[i]).1.wf()
    }

    pub fn clone(&self) -> (r: Self)
        ensures
            r.app_id@ == self.app_id@,
            r.service_id@ == self.service_id@,
            state_view(r.local_state@) == state_view(self.local_state@),
            hierarchy_view(r.metric_hierarchy@) == hierarchy_view(self.metric_hierarchy@),
            r.app_keys is Some <==> self.app_keys is Some,
            r.app_keys matches Some(ks) ==> self.app_keys matches Some(os)
                && ks.deep_view() == os.deep_view(),
            r@ == self@,
    {
        let app_keys = match &self.app_keys {
            Some(ks) => {
                let mut out: Vec<AppKey> = Vec::new();
                let mut i: usize = 0;
                while i < ks.len()
                    invariant
                        i <= ks@.len(),
                        out@.len() == i,
                        forall|j: int| 0 <= j < i ==> out@[j]@ == ks@[j]@,
                    decreases ks@.len() - i,
                {
                    out.push(ks[i].clone());
                    i = i + 1;
                }
                proof {
                    assert(out.deep_view() =~= ks.deep_view());
                }
                Some(out)
            },
            None => None,
        };
        let mut local_state: Vec<(String, UsageReport)> = Vec::new();
        let mut i: usize = 0;
        while i < self.local_state.len()
            invariant
                i <= self.local_state@.len(),
                local_state@.len() == i,
                forall|j: int| 0 <= j < i ==> #[trigger] local_state@[j]
                    == (local_state@[j].0, self.local_state@[j].1)
                    && local_state@[j].0@ == self.local_state@[j].0@,
            decreases self.local_state@.len() - i,
        {
            let pair = &self.local_state[i];
            local_state.push((pair.0.clone(), pair.1));
            i = i + 1;
        }
        proof {
            assert(state_view(local_state@) =~= state_view(self.local_state@));
        }
        let mut metric_hierarchy: Hierarchy = Vec::new();
        let mut i: usize = 0;
        while i < self.metric_hierarchy.len()
            invariant
                i <= self.metric_hierarchy@.len(),
                metric_hierarchy@.len() == i,
                forall|j: int| 0 <= j < i ==> (#[trigger] metric_hierarchy@[j]).0@
                    == self.metric_hierarchy@[j].0@
                    && metric_hierarchy@[j].1.deep_view() == self.metric_hierarchy@[j].1.deep_view(),
            decreases self.metric_hierarchy@.len() - i,
        {
            let pair = &self.metric_hierarchy[i];
            let mut children: Vec<String> = Vec::new();
            let mut j: usize = 0;
            while j < pair.1.len()
                invariant
                    j <= pair.1@.len(),
                    children@.len() == j,
                    forall|k: int| 0 <= k < j ==> children@[k]@ == pair.1@[k]@,
                decreases pair.1@.len() - j,
            {
                children.push(pair.1[j].clone());
                j = j + 1;
            }
            proof {
                assert(children.deep_view() =~= pair.1.deep_view());
            }
            metric_hierarchy.push((pair.0.clone(), children));
            i = i + 1;
        }
        proof {
            assert(hierarchy_view(metric_hierarchy@) =~= hierarchy_view(self.metric_hierarchy@));
        }
        let r = Application {
            app_id: self.app_id.clone(),
            service_id: self.service_id.clone(),
            local_state,
            metric_hierarchy,
            app_keys,
        };
        proof {
            assert(r@ =~= self@);
        }
        r
    }
}

/// The mathematical value of a `ThreescaleData`.
#[verifier::ext_equal]
pub struct ThreescaleDataView {
    pub app_id: AppIdentifierView,
    pub service_id: Seq<char>,
    pub service_token: Seq<char>,
    pub metrics: Seq<(Seq<char>, u64)>,
    pub upstream: crate::upstream::UpstreamView,
}

impl ThreescaleDataView {
    pub open spec fn metrics_map(self) -> Map<Seq<char>, u64> {
        crate::kv::vkv_map(self.metrics)
    }
}

/// The payload one request contributes: who called, which service, and how
/// many hits per metric, plus where the upstream lives.
#[derive(Debug)]
pub struct ThreescaleData {
    pub app_id: AppIdentifier,
    pub service_id: ServiceId,
    pub service_token: ServiceToken,
    pub metrics: Metrics,
    pub upstream: crate::upstream::Upstream,
}

impl View for ThreescaleData {
    type V = ThreescaleDataView;

    open spec fn view(&self) -> ThreescaleDataView {
        ThreescaleDataView {
            app_id: self.app_id@,
            service_id: self.service_id@,
            service_token: self.service_token@,
            metrics: metrics_view(self.metrics@),
            upstream: self.upstream@,
        }
    }
}

impl ThreescaleData {
    pub open spec fn metrics_map(&self) -> Map<Seq<char>, u64> {
        crate::kv::kv_map(self.metrics@)
    }

    pub open spec fn wf(&self) -> bool {
        crate::kv::kv_keys_unique(self.metrics@)
    }

    pub fn clone(&self) -> (r: Self)
        ensures
            r.app_id@ == self.app_id@,
            r.service_id@ == self.service_id@,
            r.service_token@ == self.service_token@,
            metrics_view(r.metrics@) == metrics_view(self.metrics@),
            r.upstream@ == self.upstream@,
            r@ == self@,
    {
        let mut metrics: Metrics = Vec::new();
        let mut i: usize = 0;
        while i < self.metrics.len()
            invariant
                i <= self.metrics@.len(),
                metrics@.len() == i,
                forall|j: int| 0 <= j < i ==> (#[trigger] metrics@[j]).0@ == self.metrics@[j].0@
                    && metrics@[j].1 == self.metrics@[j].1,
            decreases self.metrics@.len() - i,
        {
            let pair = &self.metrics[i];
            metrics.push((pair.0.clone(), pair.1));
            i = i + 1;
        }
        proof {
            assert(metrics_view(metrics@) =~= metrics_view(self.metrics@));
        }
        let r = ThreescaleData {
            app_id: self.app_id.clone(),
            service_id: self.service_id.clone(),
            service_token: self.service_token.clone(),
            metrics,
            upstream: self.upstream.clone(),
        };
        proof {
            assert(r@ =~= self@);
        }
        r
    }
}

/// The mathematical value of a `Message`.
#[verifier::ext_equal]
pub struct MessageView {
    pub update_cache_from_singleton: bool,
    pub data: ThreescaleDataView,
    pub req_time: u64,
}

impl ThreescaleData {
    /// Decides the metrics-key-uniqueness half of well-formedness.
    pub fn metrics_unique(&self) -> (r: bool)
        ensures
            r == self.wf(),
    {
        crate::kv::keys_unique_check(&self.metrics)
    }

    /// The placeholder a context starts with before metadata is read.
    pub fn default() -> (r: Self)
        ensures
            r.app_id@ == (AppIdentifierView::UserKey { user_key: Seq::<char>::empty() }),
            r.service_id@ == Seq::<char>::empty(),
            r.service_token@ == Seq::<char>::empty(),
            r.metrics@.len() == 0,
            r.wf(),
    {
        proof {
            reveal_strlit("");
            reveal_strlit("https");
            reveal_strlit("su1.su1.3scale.net");
            reveal_strlit("/");
        }
        ThreescaleData {
            app_id: AppIdentifier::UserKey(UserKey::from("")),
            service_id: ServiceId::from(""),
            service_token: ServiceToken::from(""),
            metrics: Vec::new(),
            upstream: crate::upstream::Upstream {
                name: String::new(),
                scheme: String::from_str("https"),
                authority: String::from_str("su1.su1.3scale.net"),
                path: String::from_str("/"),
                query: None,
                timeout_ms: 1000,
            },
        }
    }
}

/// One record on the singleton queue: the request's payload, when it
/// happened, and whether the singleton must reconcile the cache itself.
#[derive(Debug)]
pub struct Message {
    pub update_cache_from_singleton: bool,
    pub data: ThreescaleData,
    pub req_time: u64,
}

impl View for Message {
    type V = MessageView;

    open spec fn view(&self) -> MessageView {
        MessageView {
            update_cache_from_singleton: self.update_cache_from_singleton,
            data: self.data@,
            req_time: self.req_time,
        }
    }
}

impl Message {
    pub fn new(update_flag: bool, request_data: &ThreescaleData, time: u64) -> (r: Message)
        ensures
            r@ == (MessageView {
                update_cache_from_singleton: update_flag,
                data: request_data@,
                req_time: time,
            }),
    {
        let r = Message {
            update_cache_from_singleton: update_flag,
            data: request_data.clone(),
            req_time: time,
        };
        proof {
            assert(r@ =~= (MessageView {
                update_cache_from_singleton: update_flag,
                data: request_data@,
                req_time: time,
            }));
        }
        r
    }
}

} // verus!
