//! A two-stage in-proxy rate-limiting cache for a remote Service Management
//! API.  The crate holds the verified core: the domain model of applications
//! and quota windows, the limit engine that rolls windows forward and checks
//! quota, a model of the host's shared key/value store with compare-and-swap
//! writes, the unique-callout coordinator built on that store, the request
//! filter's state machine, and the singleton aggregator with its delta store
//! and flush pipeline.

mod auth;
mod configuration;
mod deltas;
mod filter;
mod kv;
mod log;
mod prng;
mod proxy;
mod report;
mod response;
mod service;
mod stats;
mod store;
mod structs;
mod strutil;
mod tsc;
mod unique_callout;
mod upstream;
mod utils;

pub use auth::Auth;
pub use auth::auth;
pub use auth::auth_apps;
pub use auth::build_auth_request;
pub use report::Report;
pub use report::report;
pub use report::report_matches_bucket;
pub use strutil::first_idx;
pub use strutil::split_service_key;
pub use strutil::key_token;
pub use configuration::DeltaStoreConfig;
pub use configuration::FilterConfig;
pub use configuration::FlushMode;
pub use configuration::ServiceConfig;
pub use configuration::TestConfiguration;
pub use filter::AuthResponseError;
pub use filter::CacheFilter;
pub use filter::CacheHitError;
pub use filter::CacheHitOutcome;
pub use filter::FilterAction;
pub use filter::RequestDataError;
pub use filter::RequestHeaders;
pub use filter::WaitingContexts;
pub use filter::do_auth_call;
pub use filter::get_request_data;
pub use filter::in_request_failure;
pub use filter::json_usages;
pub use filter::report_entry;
pub use filter::report_ok;
pub use filter::reports_state;
pub use filter::get_request_data_ok;
pub use filter::message_queue_name;
pub use filter::parse_u64_dec;
pub use filter::request_process_failure;
pub use filter::spec_parse_u64;
pub use deltas::CacheDeltas;
pub use deltas::DeltaStore;
pub use deltas::DeltaStoreState;
pub use deltas::ServiceDeltas;
pub use deltas::bucket_view;
pub use deltas::bucket_wf;
pub use deltas::clone_metrics;
pub use deltas::deltas_view;
pub use deltas::lemma_merge_metrics;
pub use deltas::lemma_delta_store_additive;
pub use deltas::sat_fold;
pub use utils::AllocatedSize;
pub use utils::add_hierarchy_to_metrics;
pub use utils::apply_calls;
pub use utils::calls_all_authorized;
pub use utils::expand_metrics;
pub use utils::lemma_accumulate_in_window;
pub use utils::lemma_limit_check_frame;
pub use utils::lemma_limit_check_metric;
pub use utils::lemma_limit_check_stuck;
pub use utils::lemma_sum64_nonneg;
pub use utils::lemma_window_covers_call_time;
pub use utils::sum64;
pub use strutil::dec_digits;
pub use strutil::sat_add;
pub use strutil::sat_add64;
pub use strutil::u64_to_dec;
pub use deltas::lookup_delta;
pub use deltas::delta_update_rel;
pub use service::reconcile_key;
pub use service::reconcile_outcome;
pub use service::reconcile_state;
pub use service::reconcile_usable;
pub use filter::app_view_usable;
pub use filter::has_message_queue;
pub use filter::hierarchy_unique;
pub use filter::keys_complete;
pub use filter::reports_all_ok;
pub use filter::response_reports;
pub use deltas::merge_metrics;
pub use deltas::metric_at;
pub use kv::sfind;
pub use kv::lemma_sfind;
pub use kv::lemma_sfind_push;
pub use kv::lemma_sfind_update;
pub use kv::kv_find;
pub use kv::kv_has_key;
pub use kv::kv_keys_unique;
pub use kv::kv_map;
pub use kv::vkv_map;
pub use kv::kv_view;
pub use kv::lemma_kv_map_is_vkv_map;
pub use kv::lemma_kv_map_dom;
pub use kv::lemma_kv_map_index;
pub use kv::lemma_kv_map_push;
pub use kv::lemma_kv_map_update;
pub use kv::lemma_kv_view_map;
pub use kv::kv_set_at;
pub use log::LogStore;
pub use log::json_of_lines;
pub use prng::Prng;
pub use stats::ThreescaleStat;
pub use stats::ThreescaleStats;
pub use proxy::CacheError;
pub use proxy::cache_key_string;
pub use utils::UpdateMetricsError;
pub use utils::SpecLimitOutcome;
pub use utils::limit_check_and_update_application;
pub use utils::lemma_limit_check_wf;
pub use utils::lemma_roll_window;
pub use utils::roll_ok;
pub use utils::roll_window;
pub use utils::spec_limit_check;
pub use proxy::CacheKey;
pub use proxy::get_app_id_from_cache;
pub use proxy::get_application_from_cache;
pub use proxy::get_cache_pair_size;
pub use proxy::remove_application_from_cache;
pub use proxy::set_app_id_to_cache;
pub use proxy::set_application_to_cache;
pub use proxy::update_shared_memory_size;
pub use proxy::val_size;
pub use proxy::SHARED_MEMORY_COUNTER_KEY;
pub use proxy::SHARED_MEMORY_INITIAL_SIZE;
pub use service::FlushPlan;
pub use service::SingletonService;
pub use service::SingletonServiceError;
pub use filter::WakeOutcome;
pub use filter::on_queue_ready;
pub use response::AppKeysData;
pub use response::AuthResponseParse;
pub use response::AuthUsageData;
pub use response::AuthorizationStatusData;
pub use tsc::build_authorize_request;
pub use tsc::parse_authorization;
pub use tsc::build_plain_authorize_request;
pub use store::SharedStore;
pub use store::Slot;
pub use store::StoreStatus;
pub use store::StoreVal;
pub use store::StoreValView;
pub use store::opt_view;
pub use store::slot_view;
pub use strutil::str_eq;
pub use unique_callout::CalloutLockValue;
pub use unique_callout::SetCalloutLockStatus;
pub use unique_callout::UniqueCalloutError;
pub use unique_callout::acquire_step;
pub use unique_callout::callout_lock_key;
pub use unique_callout::deliver_actions;
pub use unique_callout::free_callout_lock;
pub use unique_callout::free_callout_lock_and_notify_waiters;
pub use unique_callout::lemma_deliver_len;
pub use unique_callout::lemma_deliver_exactly_one_each;
pub use unique_callout::lemma_exactly_one_winner;
pub use unique_callout::total_items;
pub use unique_callout::send_action_to_waiters;
pub use unique_callout::set_callout_lock;
pub use unique_callout::undeliverable;
pub use unique_callout::with_context;
pub use store::QueueSet;
pub use store::QueueVal;
pub use store::QueueValView;
pub use unique_callout::CalloutLockValueView;
pub use unique_callout::CalloutWaiter;
pub use unique_callout::WaiterAction;
pub use structs::AppId;
pub use structs::AppIdentifier;
pub use structs::AppIdentifierView;
pub use structs::AppKey;
pub use structs::Period;
pub use structs::PeriodWindow;
pub use structs::ServiceId;
pub use structs::ServiceToken;
pub use structs::UsageReport;
pub use structs::UserKey;
pub use structs::Application;
pub use structs::ApplicationView;
pub use structs::ThreescaleDataView;
pub use structs::MessageView;
pub use structs::ThreescaleData;
pub use structs::Message;
pub use structs::Metrics;
pub use structs::Hierarchy;
pub use structs::appid_split;
pub use structs::metrics_view;
pub use structs::state_view;
pub use structs::hierarchy_view;
pub use upstream::Builder;
pub use upstream::Upstream;
pub use upstream::UpstreamView;
pub use upstream::UrlParts;
pub use upstream::UrlPartsView;
pub use upstream::mount_path;
pub use upstream::parse_url;
pub use upstream::url_parse;
