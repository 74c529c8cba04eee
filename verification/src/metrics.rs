//! Metrics: creation rules, archival and the metric's answer shape.
use vstd::prelude::*;
use crate::api_error::{
    api_error, error_is, ApiError, BAD_REQUEST, CONFLICT, INTERNAL_SERVER_ERROR, NOT_FOUND,
    UNPROCESSABLE_ENTITY,
};
use crate::records::{ArchiveRefusal, Charge, Metric, Plan};
use crate::text::str_eq;

verus! {

/// A new metric as requested.
pub struct CreateMetricReq {
    pub id: Option<String>,
    pub display: Option<String>,
    pub aggregation: Option<String>,
}

/// A metric as answered.
pub struct MetricResponse {
    pub id: String,
    pub display: String,
    pub aggregation: String,
    pub created_at: i64,
}

/// The validated fields of a new metric.
pub struct MetricDraft {
    pub id: String,
    pub display: String,
    pub aggregation: String,
}

/// How a metric's events are aggregated over a period.
pub open spec fn valid_aggregation(a: Seq<char>) -> bool {
    a == "sum"@ || a == "count"@ || a == "max"@ || a == "unique_count"@
}

pub open spec fn present(o: Option<String>) -> bool {
    o matches Some(s) && s@.len() > 0
}

/// Why a new metric is invalid: (code, message, param).
pub open spec fn metric_error(body: CreateMetricReq) -> Option<(Seq<char>, Seq<char>, Seq<char>)> {
    if !present(body.id) {
        Some(("missing_param"@, "id is required"@, "id"@))
    } else if !present(body.display) {
        Some(("missing_param"@, "display is required"@, "display"@))
    } else {
        match body.aggregation {
            None => Some(("missing_param"@, "aggregation is required"@, "aggregation"@)),
            Some(a) => if valid_aggregation(a@) {
                None
            } else {
                Some(
                    (
                        "invalid_param"@,
                        "aggregation must be one of: sum, count, max, unique_count"@,
                        "aggregation"@,
                    ),
                )
            },
        }
    }
}

fn present_text(o: &Option<String>) -> (r: Option<&String>)
    ensures
        match r {
            Some(s) => present(*o) && *s == o->0,
            None => !present(*o),
        },
{
    match o {
        Some(s) => if s.as_str().is_empty() {
            None
        } else {
            Some(s)
        },
        None => None,
    }
}

/// Validates a new metric: identifier and display name are required, and the
/// aggregation must be sum, count, max or unique_count (400).
pub fn validate_metric(body: &CreateMetricReq) -> (r: Result<MetricDraft, ApiError>)
    ensures
        match metric_error(*body) {
            Some((code, message, param)) => (r matches Err(e) && error_is(
                e,
                BAD_REQUEST,
                code,
                message,
                Some(param),
            )),
            None => (r matches Ok(d) && d.id == body.id->0 && d.display == body.display->0
                && d.aggregation == body.aggregation->0),
        },
{
    let id = match present_text(&body.id) {
        Some(s) => s.clone(),
        None => return Err(
            api_error(BAD_REQUEST, "missing_param", String::from_str("id is required"), Some("id")),
        ),
    };
    let display = match present_text(&body.display) {
        Some(s) => s.clone(),
        None => return Err(
            api_error(
                BAD_REQUEST,
                "missing_param",
                String::from_str("display is required"),
                Some("display"),
            ),
        ),
    };
    let aggregation = match &body.aggregation {
        Some(a) => {
            let t = a.as_str();
            if str_eq(t, "sum") || str_eq(t, "count") || str_eq(t, "max") || str_eq(t, "unique_count") {
                a.clone()
            } else {
                return Err(
                    api_error(
                        BAD_REQUEST,
                        "invalid_param",
                        String::from_str("aggregation must be one of: sum, count, max, unique_count"),
                        Some("aggregation"),
                    ),
                );
            }
        },
        None => return Err(
            api_error(
                BAD_REQUEST,
                "missing_param",
                String::from_str("aggregation is required"),
                Some("aggregation"),
            ),
        ),
    };
    Ok(MetricDraft { id, display, aggregation })
}

/// The answer when a metric with this identifier already exists (409).
pub fn metric_conflict(id: &str) -> (r: ApiError)
    ensures
        error_is(r, CONFLICT, "duplicate_id"@, "metric '"@ + id@ + "' already exists"@, Some("id"@)),
{
    api_error(
        CONFLICT,
        "duplicate_id",
        String::from_str("metric '").concat(id).concat("' already exists"),
        Some("id"),
    )
}

/// The answer when no active metric has this identifier (404).
pub fn metric_not_found(id: &str) -> (r: ApiError)
    ensures
        error_is(r, NOT_FOUND, "metric_not_found"@, "metric '"@ + id@ + "' not found"@, None),
{
    api_error(
        NOT_FOUND,
        "metric_not_found",
        String::from_str("metric '").concat(id).concat("' not found"),
        None,
    )
}

/// The answer when the store failed; the message names what failed (500).
pub fn internal_error(what: &str) -> (r: ApiError)
    ensures
        error_is(r, INTERNAL_SERVER_ERROR, "internal_error"@, what@, None),
{
    api_error(INTERNAL_SERVER_ERROR, "internal_error", String::from_str(what), None)
}

/// The stored metric: default tenant, active, created `now`.
pub fn new_metric(draft: MetricDraft, now: i64) -> (r: Metric)
    ensures
        r.id == draft.id,
        r.tenant_id@ == "default"@,
        r.display == draft.display,
        r.aggregation == draft.aggregation,
        r.status@ == "active"@,
        r.created_at == now,
{
    Metric {
        id: draft.id,
        tenant_id: String::from_str("default"),
        display: draft.display,
        aggregation: draft.aggregation,
        status: String::from_str("active"),
        created_at: now,
    }
}

/// A charge of an active plan meters the metric `id`: some charge names it and
/// belongs to a plan of `plans` whose status is `active`.
pub open spec fn metric_in_use(id: Seq<char>, plans: Seq<Plan>, charges: Seq<Charge>) -> bool {
    exists|k: int, l: int|
        0 <= k < charges.len() && 0 <= l < plans.len() && (#[trigger] charges[k]).metric@ == id
            && (#[trigger] plans[l]).id@ == charges[k].plan_id@ && plans[l].status@ == "active"@
}

/// Whether a charge of an active plan of `plans` meters the metric `id`.
pub fn metric_referenced(id: &str, plans: &Vec<Plan>, charges: &Vec<Charge>) -> (r: bool)
    ensures
        r == metric_in_use(id@, plans@, charges@),
{
    let mut k: usize = 0;
    while k < charges.len()
        invariant
            k <= charges.len(),
            forall|a: int, b: int|
                0 <= a < k && 0 <= b < plans.len() && (#[trigger] charges@[a]).metric@ == id@ ==> !(
                (#[trigger] plans@[b]).id@ == charges@[a].plan_id@ && plans@[b].status@ == "active"@),
        decreases charges.len() - k,
    {
        if str_eq(charges[k].metric.as_str(), id) {
            let mut l: usize = 0;
            while l < plans.len()
                invariant
                    k < charges.len(),
                    l <= plans.len(),
                    charges@[k as int].metric@ == id@,
                    forall|b: int|
                        0 <= b < l ==> !((#[trigger] plans@[b]).id@ == charges@[k as int].plan_id@
                            && plans@[b].status@ == "active"@),
                decreases plans.len() - l,
            {
                if str_eq(plans[l].id.as_str(), charges[k].plan_id.as_str()) && str_eq(
                    plans[l].status.as_str(),
                    "active",
                ) {
                    assert(metric_in_use(id@, plans@, charges@)) by {
                        assert(charges@[k as int].metric@ == id@ && plans@[l as int].id@
                            == charges@[k as int].plan_id@);
                    }
                    return true;
                }
                l = l + 1;
            }
        }
        k = k + 1;
    }
    false
}

/// The answer when a metric cannot be archived because an active plan still
/// charges for it (422 active_subscriptions).
pub fn metric_in_use_error(id: &str) -> (r: ApiError)
    ensures
        error_is(
            r,
            UNPROCESSABLE_ENTITY,
            "active_subscriptions"@,
            "metric '"@ + id@ + "' is used by an active plan"@,
            None,
        ),
{
    api_error(
        UNPROCESSABLE_ENTITY,
        "active_subscriptions",
        String::from_str("metric '").concat(id).concat("' is used by an active plan"),
        None,
    )
}

/// What archiving the active metric found (if any) decides, given whether an
/// active plan still charges for it: unknown is refused as not found, in use
/// as in use; otherwise the metric is stored again with status `archived`.
pub fn archive_metric(active: Option<Metric>, in_use: bool) -> (r: Result<Metric, ArchiveRefusal>)
    ensures
        match active {
            None => r == Err::<Metric, ArchiveRefusal>(ArchiveRefusal::NotFound),
            Some(m) => if in_use {
                r == Err::<Metric, ArchiveRefusal>(ArchiveRefusal::InUse)
            } else {
                r matches Ok(a) && a == Metric { status: a.status, ..m } && a.status@ == "archived"@
            },
        },
{
    match active {
        None => Err(ArchiveRefusal::NotFound),
        Some(mut m) => {
            if in_use {
                Err(ArchiveRefusal::InUse)
            } else {
                m.status = String::from_str("archived");
                Ok(m)
            }
        },
    }
}

impl<'a> From<&'a Metric> for MetricResponse {
    fn from(m: &'a Metric) -> (r: Self)
        ensures
            r.id == m.id,
            r.display == m.display,
            r.aggregation == m.aggregation,
            r.created_at == m.created_at,
    {
        MetricResponse {
            id: m.id.clone(),
            display: m.display.clone(),
            aggregation: m.aggregation.clone(),
            created_at: m.created_at,
        }
    }
}

impl<'a> vstd::std_specs::convert::FromSpecImpl<&'a Metric> for MetricResponse {
    open spec fn obeys_from_spec() -> bool {
        true
    }

    open spec fn from_spec(m: &'a Metric) -> Self {
        MetricResponse {
            id: m.id,
            display: m.display,
            aggregation: m.aggregation,
            created_at: m.created_at,
        }
    }
}

/// A metric is answered with its stored fields unchanged: identifier, display
/// name, aggregation and creation time (in microseconds).
pub proof fn lemma_metric_answer_keeps_fields(m: Metric)
    ensures
        <MetricResponse as vstd::std_specs::convert::FromSpec<&Metric>>::from_spec(&m).id == m.id,
        <MetricResponse as vstd::std_specs::convert::FromSpec<&Metric>>::from_spec(&m).display
            == m.display,
        <MetricResponse as vstd::std_specs::convert::FromSpec<&Metric>>::from_spec(&m).aggregation
            == m.aggregation,
        <MetricResponse as vstd::std_specs::convert::FromSpec<&Metric>>::from_spec(&m).created_at
            == m.created_at,
{
}

} // verus!
