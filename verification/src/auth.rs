use vstd::prelude::*;

use crate::structs::AppIdentifier;
use crate::strutil::first_idx;
use crate::strutil::split_service_key;

verus! {

/// One pending authorize call: which service, under which token, for which
/// application.
#[derive(Debug)]
pub struct Auth {
    service_id: String,
    service_token: String,
    app_id: AppIdentifier,
}

impl Auth {
    pub closed spec fn service_view(&self) -> Seq<char> {
        self.service_id@
    }

    pub closed spec fn token_view(&self) -> Seq<char> {
        self.service_token@
    }

    pub closed spec fn app_view(&self) -> crate::structs::AppIdentifierView {
        self.app_id@
    }

    pub fn service_id(&self) -> (r: &str)
        ensures
            r@ == self.service_view(),
    {
        self.service_id.as_str()
    }

    pub fn service_token(&self) -> (r: &str)
        ensures
            r@ == self.token_view(),
    {
        self.service_token.as_str()
    }

    pub fn app_id(&self) -> (r: &AppIdentifier)
        ensures
            r@ == self.app_view(),
    {
        &self.app_id
    }
}

/// Wraps one application's authorize call.
pub fn auth(service_id: String, service_token: String, app_id: AppIdentifier) -> (r: Auth)
    ensures
        r.service_view() == service_id@,
        r.token_view() == service_token@,
        r.app_view() == app_id@,
{
    Auth { service_id, service_token, app_id }
}

/// One authorize call per application of a service, the service key split
/// back into its id and token.
pub fn auth_apps(service_key: String, app_keys: Vec<AppIdentifier>) -> (r: Vec<Auth>)
    ensures
        r@.len() == app_keys@.len(),
        forall|i: int|
            0 <= i < r@.len() ==> (#[trigger] r@[i]).service_view() == service_key@.subrange(
                0,
                first_idx(service_key@, '_'),
            ) && r@[i].token_view() == crate::strutil::key_token(service_key@) && r@[i].app_view()
                == app_keys@[i]@,
{
    let mut out: Vec<Auth> = Vec::new();
    let mut i: usize = 0;
    while i < app_keys.len()
        invariant
            i <= app_keys@.len(),
            out@.len() == i,
            forall|j: int|
                0 <= j < i ==> (#[trigger] out@[j]).service_view() == service_key@.subrange(
                    0,
                    first_idx(service_key@, '_'),
                ) && out@[j].token_view() == crate::strutil::key_token(service_key@)
                    && out@[j].app_view() == app_keys@[j]@,
        decreases app_keys@.len() - i,
    {
        let (sid, token) = split_service_key(service_key.as_str());
        out.push(auth(sid, token, app_keys[i].clone()));
        i = i + 1;
    }
    out
}

/// Builds the authorize request for one pending call.
pub fn build_auth_request(a: &Auth) -> (r: Option<threescalers::http::Request>) {
    crate::tsc::build_plain_authorize_request(a.service_id(), a.service_token(), a.app_id())
}

} // verus!
