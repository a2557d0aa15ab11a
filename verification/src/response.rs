use vstd::prelude::*;

use crate::structs::Period;

verus! {

/// One usage report from an authorize response, as plain values.
#[derive(Debug)]
pub struct AuthUsageData {
    pub metric: String,
    pub period: Period,
    pub period_start: i64,
    pub period_end: i64,
    pub max_value: u64,
    pub current_value: u64,
}

/// The app-keys listing from an authorize response.
#[derive(Debug)]
pub struct AppKeysData {
    pub app_id: Option<String>,
    pub service_id: Option<String>,
    pub keys: Vec<String>,
}

/// A parsed authorize status: whether the call was authorized, the denial
/// reason if any, and the state the upstream reported.
#[derive(Debug)]
pub struct AuthorizationStatusData {
    pub authorized: bool,
    pub reason: Option<String>,
    pub usage_reports: Option<Vec<AuthUsageData>>,
    pub hierarchy: Vec<(String, Vec<String>)>,
    pub app_keys: Option<AppKeysData>,
}

/// How an authorize response body reads: a status, an upstream error with
/// its code, or not a parseable response at all.
#[derive(Debug)]
pub enum AuthResponseParse {
    Status(AuthorizationStatusData),
    Error(String),
    ParseFail,
}

} // verus!
