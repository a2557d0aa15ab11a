use vstd::prelude::*;

use crate::deltas::ServiceDeltas;
use crate::structs::AppIdentifier;
use crate::strutil::dec_digits;
use crate::strutil::first_idx;
use crate::strutil::split_service_key;
use crate::strutil::u64_to_dec;

verus! {

/// One service's bulk report: the credentials recovered from its delta key
/// and, per application, each metric's accumulated hits written in decimal.
#[derive(Debug)]
pub struct Report {
    service_id: String,
    service_token: String,
    usages: Vec<(AppIdentifier, Vec<(String, String)>)>,
}

impl Report {
    pub closed spec fn service_view(&self) -> Seq<char> {
        self.service_id@
    }

    pub closed spec fn token_view(&self) -> Seq<char> {
        self.service_token@
    }

    pub closed spec fn usages_view(&self) -> Seq<(AppIdentifier, Vec<(String, String)>)> {
        self.usages@
    }

    pub fn service_id(&self) -> (r: &str)
        ensures
            r@ == self.service_view(),
    {
        self.service_id.as_str()
    }

    pub fn service_token(&self) -> (r: &str)
        ensures
            r@ == self.token_view(),
    {
        self.service_token.as_str()
    }

    pub fn usages(&self) -> (r: &Vec<(AppIdentifier, Vec<(String, String)>)>)
        ensures
            r@ == self.usages_view(),
    {
        &self.usages
    }
}

/// Whether a report carries exactly one service bucket's pending deltas:
/// the credentials recovered from the bucket's key, and per application
/// each accumulated metric with its hits in decimal, in store order.
pub open spec fn report_matches_bucket(
    r: &Report,
    key: Seq<char>,
    apps: Seq<(AppIdentifier, crate::structs::Metrics)>,
) -> bool {
    &&& r.service_view() == key.subrange(0, first_idx(key, '_'))
    &&& r.token_view() == crate::strutil::key_token(key)
    &&& r.usages_view().len() == apps.len()
    &&& forall|i: int|
        0 <= i < apps.len() ==> (#[trigger] r.usages_view()[i]).0@ == apps[i].0@ && {
            let pairs = r.usages_view()[i].1@;
            let ms = apps[i].1@;
            pairs.len() == ms.len() && forall|j: int|
                0 <= j < ms.len() ==> (#[trigger] pairs[j]).0@ == ms[j].0@ && pairs[j].1@
                    == dec_digits(ms[j].1 as int)
        }
}

/// Builds the report for one service's pending deltas: every application and
/// every accumulated metric, hits in decimal, in store order.
pub fn report(key: &str, apps: &ServiceDeltas) -> (r: Report)
    ensures
        report_matches_bucket(&r, key@, apps@),
{
    let (service_id, service_token) = split_service_key(key);
    let mut usages: Vec<(AppIdentifier, Vec<(String, String)>)> = Vec::new();
    let mut i: usize = 0;
    while i < apps.len()
        invariant
            i <= apps@.len(),
            usages@.len() == i,
            forall|x: int|
                0 <= x < i ==> (#[trigger] usages@[x]).0@ == apps@[x].0@ && {
                    let pairs = usages@[x].1@;
                    let ms = apps@[x].1@;
                    pairs.len() == ms.len() && forall|j: int|
                        0 <= j < ms.len() ==> (#[trigger] pairs[j]).0@ == ms[j].0@ && pairs[j].1@
                            == dec_digits(ms[j].1 as int)
                },
        decreases apps@.len() - i,
    {
        let bucket = &apps[i];
        let mut pairs: Vec<(String, String)> = Vec::new();
        let mut j: usize = 0;
        while j < bucket.1.len()
            invariant
                j <= bucket.1@.len(),
                pairs@.len() == j,
                forall|k: int|
                    0 <= k < j ==> (#[trigger] pairs@[k]).0@ == bucket.1@[k].0@ && pairs@[k].1@
                        == dec_digits(bucket.1@[k].1 as int),
            decreases bucket.1@.len() - j,
        {
            let m = &bucket.1[j];
            pairs.push((m.0.clone(), u64_to_dec(m.1)));
            j = j + 1;
        }
        usages.push((bucket.0.clone(), pairs));
        i = i + 1;
    }
    Report { service_id, service_token, usages }
}

} // verus!
