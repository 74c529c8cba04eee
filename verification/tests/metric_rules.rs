use datem::api_error::{BAD_REQUEST, CONFLICT, INTERNAL_SERVER_ERROR, NOT_FOUND, UNPROCESSABLE_ENTITY};
use datem::metrics::{
    archive_metric, internal_error, metric_conflict, metric_in_use_error, metric_not_found, metric_referenced,
    new_metric, validate_metric, CreateMetricReq, MetricDraft, MetricResponse,
};
use datem::records::{ArchiveRefusal, Charge, Plan};

fn some(s: &str) -> Option<String> {
    Some(s.to_string())
}

fn body(id: Option<String>, display: Option<String>, aggregation: Option<String>) -> CreateMetricReq {
    CreateMetricReq { id, display, aggregation }
}

#[test]
fn every_aggregation_is_accepted() {
    for a in ["sum", "count", "max", "unique_count"] {
        let d = validate_metric(&body(some("llm_tokens"), some("LLM Tokens"), some(a))).ok().unwrap();
        assert_eq!((d.id.as_str(), d.display.as_str(), d.aggregation.as_str()), ("llm_tokens", "LLM Tokens", a));
    }
}

#[test]
fn metric_errors() {
    let e = validate_metric(&body(None, some("D"), some("sum"))).err().unwrap();
    assert_eq!((e.status, e.code.as_str(), e.message.as_str(), e.param.as_deref()), (BAD_REQUEST, "missing_param", "id is required", Some("id")));
    let e = validate_metric(&body(some("m"), some(""), some("sum"))).err().unwrap();
    assert_eq!((e.message.as_str(), e.param.as_deref()), ("display is required", Some("display")));
    let e = validate_metric(&body(some("m"), some("D"), None)).err().unwrap();
    assert_eq!((e.code.as_str(), e.message.as_str()), ("missing_param", "aggregation is required"));
    let e = validate_metric(&body(some("m"), some("D"), some("avg"))).err().unwrap();
    assert_eq!(
        (e.code.as_str(), e.message.as_str(), e.param.as_deref()),
        ("invalid_param", "aggregation must be one of: sum, count, max, unique_count", Some("aggregation"))
    );
    let e = validate_metric(&body(some("m"), some("D"), some("SUM"))).err().unwrap();
    assert_eq!(e.code, "invalid_param");
}

#[test]
fn stored_archived_and_answered() {
    let m = new_metric(
        MetricDraft { id: "llm_tokens".to_string(), display: "LLM Tokens".to_string(), aggregation: "sum".to_string() },
        77,
    );
    assert_eq!((m.status.as_str(), m.tenant_id.as_str(), m.created_at), ("active", "default", 77));
    let r = MetricResponse::from(&m);
    assert_eq!((r.id.as_str(), r.display.as_str(), r.aggregation.as_str(), r.created_at), ("llm_tokens", "LLM Tokens", "sum", 77));
    let a = archive_metric(Some(m.clone()), false).ok().unwrap();
    assert_eq!((a.status.as_str(), a.id.as_str(), a.aggregation.as_str(), a.created_at), ("archived", "llm_tokens", "sum", 77));
    assert_eq!(archive_metric(None, false).err(), Some(ArchiveRefusal::NotFound));
    assert_eq!(archive_metric(Some(m), true).err(), Some(ArchiveRefusal::InUse));
}

fn plan(id: &str, status: &str) -> Plan {
    Plan {
        id: id.to_string(),
        tenant_id: "default".to_string(),
        name: id.to_string(),
        status: status.to_string(),
        currency: "usd".to_string(),
        interval: "monthly".to_string(),
        created_at: 1,
    }
}

fn charge(plan_id: &str, metric: &str) -> Charge {
    Charge {
        id: "ch".to_string(),
        tenant_id: "default".to_string(),
        plan_id: plan_id.to_string(),
        metric: metric.to_string(),
        model: "per_unit".to_string(),
        unit_price: 1,
        flat_amount: 0,
        package_size: 0,
        display: String::new(),
    }
}

#[test]
fn a_metric_charged_by_an_active_plan_is_in_use() {
    let plans = vec![plan("old", "archived"), plan("pro", "active")];
    assert!(metric_referenced("tokens", &plans, &vec![charge("pro", "tokens")]));
    assert!(!metric_referenced("tokens", &plans, &vec![charge("old", "tokens")]));
    assert!(!metric_referenced("tokens", &plans, &vec![charge("pro", "calls")]));
    assert!(!metric_referenced("tokens", &plans, &Vec::new()));
    let e = metric_in_use_error("tokens");
    assert_eq!((e.status, e.code.as_str(), e.message.as_str()), (UNPROCESSABLE_ENTITY, "active_subscriptions", "metric 'tokens' is used by an active plan"));
}

#[test]
fn metric_answers() {
    let e = metric_conflict("m");
    assert_eq!((e.status, e.code.as_str(), e.message.as_str(), e.param.as_deref()), (CONFLICT, "duplicate_id", "metric 'm' already exists", Some("id")));
    let e = metric_not_found("m");
    assert_eq!((e.status, e.code.as_str(), e.message.as_str()), (NOT_FOUND, "metric_not_found", "metric 'm' not found"));
    let e = internal_error("scan failed");
    assert_eq!((e.status, e.code.as_str(), e.message.as_str(), e.param.is_none()), (INTERNAL_SERVER_ERROR, "internal_error", "scan failed", true));
}
