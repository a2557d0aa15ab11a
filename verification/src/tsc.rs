use vstd::prelude::*;

use core::str::FromStr;
use crate::response::AuthResponseParse;
use crate::response::AuthorizationStatusData;

use crate::structs::AppIdentifier;
use threescalers::api_call::ApiCall;
use threescalers::api_call::Kind;
use threescalers::application::Application as TsApp;
use threescalers::credentials::Credentials;
use threescalers::extensions::Extension::Hierarchy;
use threescalers::extensions::List;
use threescalers::http::Request;
use threescalers::service::Service;
use threescalers::transaction::Transaction;
use threescalers::usage::Usage;

verus! {

#[verifier::external_type_specification]
#[verifier::external_body]
pub struct ExRequest(Request);

/// Relies on threescalers' `ApiCall` builder and `Request::from`: assembles
/// the upstream authorize request for one application, with the hierarchy
/// and list-app-keys extensions, and the given metric usage pairs.  `build`
/// fails only when no kind was set, and the kind is always set here.
#[verifier::external_body]
pub fn build_authorize_request(
    service_id: &str,
    service_token: &str,
    app_id: &AppIdentifier,
    usage_pairs: &Vec<(String, String)>,
) -> (r: Option<Request>)
    ensures
        r is Some,
{
    let svc = Service::new(service_id, Credentials::from_token(service_token));
    let app = match app_id {
        AppIdentifier::AppId(i, None) => TsApp::from_app_id(i.as_ref()),
        AppIdentifier::AppId(i, Some(k)) => TsApp::from_app_id_and_key(i.as_ref(), k.as_ref()),
        AppIdentifier::UserKey(u) => TsApp::from_user_key(u.as_ref()),
    };
    let usage = Usage::new(usage_pairs.as_slice());
    let txns = [Transaction::new(&app, None, Some(&usage), None)];
    let ext = List::new().push(Hierarchy).push_other("list_app_keys".into(), "1".into());
    Some(Request::from(&ApiCall::builder(&svc).transactions(&txns).extensions(&ext).kind(Kind::Authorize).build().ok()?))
}

/// Relies on threescalers' `ApiCall` builder and `Request::from`: assembles
/// the plain authorize request for one application, with the hierarchy
/// extension and no usage.  `build` fails only when no kind was set, and
/// the kind is always set here.
#[verifier::external_body]
pub fn build_plain_authorize_request(
    service_id: &str,
    service_token: &str,
    app_id: &AppIdentifier,
) -> (r: Option<Request>)
    ensures
        r is Some,
{
    let svc = Service::new(service_id, Credentials::from_token(service_token));
    let app = match app_id {
        AppIdentifier::AppId(i, None) => TsApp::from_app_id(i.as_ref()),
        AppIdentifier::AppId(i, Some(k)) => TsApp::from_app_id_and_key(i.as_ref(), k.as_ref()),
        AppIdentifier::UserKey(u) => TsApp::from_user_key(u.as_ref()),
    };
    let txns = [Transaction::new(&app, None, None, None)];
    let ext = List::new().push(Hierarchy);
    Some(Request::from(&ApiCall::builder(&svc).transactions(&txns).extensions(&ext).kind(Kind::Authorize).build().ok()?))
}

/// Relies on threescalers' `Authorization::from_str`: it reads an authorize
/// response body, or fails.  This version's response module predates the
/// authorized flag, the denial reason and the list-app-keys extension and
/// keeps its fields private, so a parsed status carries no identity or
/// reports here; the handler then takes its failure path, and hosts with a
/// fuller parser hand the handler richer values directly.
#[verifier::external_body]
pub fn parse_authorization(body: &str) -> (r: AuthResponseParse) {
    match threescalers::response::Authorization::from_str(body) {
        Ok(threescalers::response::Authorization::Ok(_status)) => AuthResponseParse::Status(
            AuthorizationStatusData {
                authorized: true,
                reason: None,
                usage_reports: None,
                hierarchy: Vec::new(),
                app_keys: None,
            },
        ),
        Ok(threescalers::response::Authorization::Denied(_denied)) => AuthResponseParse::Error("denied".to_string()),
        Err(_) => AuthResponseParse::ParseFail,
    }
}

} // verus!
