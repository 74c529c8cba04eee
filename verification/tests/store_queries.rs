use datem::billing::pending_run;
use datem::forwarding::{forward_request_header, forward_response_header, proxy_target};
use datem::ingest::{batch_item_failures, QueueRecord};
use datem::records::{Charge, Metric, Plan, Subscription};
use datem::store::{
    active_metric, charges_of_plan, metrics_with_status, plans_with_status, run_recorded,
    subscriptions_of_customer, subscriptions_with_status,
};

fn metric(id: &str, status: &str) -> Metric {
    Metric {
        id: id.to_string(),
        tenant_id: "default".to_string(),
        display: id.to_uppercase(),
        aggregation: "sum".to_string(),
        status: status.to_string(),
        created_at: 1,
    }
}

fn plan(id: &str, status: &str) -> Plan {
    Plan {
        id: id.to_string(),
        tenant_id: "default".to_string(),
        name: id.to_string(),
        status: status.to_string(),
        currency: "usd".to_string(),
        interval: "monthly".to_string(),
        created_at: 1,
    }
}

fn sub(id: &str, customer: &str, status: &str, start: i64) -> Subscription {
    Subscription {
        id: id.to_string(),
        tenant_id: "default".to_string(),
        customer_id: customer.to_string(),
        plan_id: "pro".to_string(),
        status: status.to_string(),
        current_period_start: start,
        current_period_end: start + 10,
        stripe_subscription_id: String::new(),
        created_at: 0,
        cancelled_at: 0,
    }
}

fn charge(id: &str, plan_id: &str) -> Charge {
    Charge {
        id: id.to_string(),
        tenant_id: "default".to_string(),
        plan_id: plan_id.to_string(),
        metric: "m".to_string(),
        model: "per_unit".to_string(),
        unit_price: 1,
        flat_amount: 0,
        package_size: 0,
        display: String::new(),
    }
}

fn record(id: Option<&str>, readable: bool) -> QueueRecord {
    QueueRecord { message_id: id.map(|s| s.to_string()), readable }
}

#[test]
fn filters_keep_scan_order() {
    let ms = vec![metric("a", "active"), metric("b", "archived"), metric("c", "active")];
    let ids: Vec<String> = metrics_with_status(&ms, "active").into_iter().map(|m| m.id).collect();
    assert_eq!(ids, vec!["a", "c"]);
    let ps = vec![plan("p1", "archived"), plan("p2", "active"), plan("p3", "archived")];
    let ids: Vec<String> = plans_with_status(&ps, "archived").into_iter().map(|p| p.id).collect();
    assert_eq!(ids, vec!["p1", "p3"]);
    let ss = vec![sub("s1", "c1", "active", 0), sub("s2", "c2", "cancelled", 0), sub("s3", "c1", "cancelled", 0)];
    let ids: Vec<String> = subscriptions_of_customer(&ss, "c1").into_iter().map(|s| s.id).collect();
    assert_eq!(ids, vec!["s1", "s3"]);
    let ids: Vec<String> = subscriptions_with_status(&ss, "active").into_iter().map(|s| s.id).collect();
    assert_eq!(ids, vec!["s1"]);
    let cs = vec![charge("x", "pro"), charge("y", "basic"), charge("z", "pro")];
    let ids: Vec<String> = charges_of_plan(&cs, "pro").into_iter().map(|c| c.id).collect();
    assert_eq!(ids, vec!["x", "z"]);
}

#[test]
fn only_active_metrics_are_found_and_archived_ones_stay_archived() {
    assert_eq!(active_metric(Some(metric("m", "active"))).map(|m| m.id), Some("m".to_string()));
    assert!(active_metric(Some(metric("m", "archived"))).is_none());
    assert!(active_metric(None).is_none());
    let archived = datem::metrics::archive_metric(active_metric(Some(metric("m", "active"))), false).ok().unwrap();
    assert!(active_metric(Some(archived)).is_none());
}

#[test]
fn billing_log_lookup() {
    let log = vec![pending_run(&sub("s1", "c", "active", 100), "r1".to_string(), 5)];
    assert!(run_recorded(&log, "s1", 100));
    assert!(!run_recorded(&log, "s1", 110));
    assert!(!run_recorded(&log, "s2", 100));
    assert!(!run_recorded(&Vec::new(), "s1", 100));
}

#[test]
fn queue_failures() {
    let records = vec![record(Some("m1"), true), record(Some("m2"), false), record(None, false), record(None, true)];
    assert_eq!(batch_item_failures(&records, false), vec!["m2".to_string(), String::new()]);
    assert_eq!(batch_item_failures(&records, true), vec!["m1".to_string(), "m2".to_string()]);
    assert!(batch_item_failures(&Vec::new(), true).is_empty());
}

#[test]
fn proxy_header_rules() {
    assert!(!forward_request_header("host"));
    assert!(!forward_request_header("content-length"));
    assert!(forward_request_header("authorization"));
    assert!(forward_request_header("content-type"));
    assert!(!forward_response_header("transfer-encoding"));
    assert!(!forward_response_header("connection"));
    assert!(forward_response_header("content-type"));
}

#[test]
fn cancelled_subscriptions_leave_the_billing_run() {
    let active = sub("s1", "c1", "active", 0);
    let cancelled = datem::subscriptions::cancel_subscription(sub("s2", "c1", "active", 0), None, 5).ok().unwrap();
    let due = subscriptions_with_status(&vec![active, cancelled], "active");
    let ids: Vec<String> = due.into_iter().map(|s| s.id).collect();
    assert_eq!(ids, vec!["s1"]);
}

#[test]
fn proxied_requests_keep_their_path_and_query() {
    assert_eq!(proxy_target("http://localhost:3000", Some("/metrics?limit=5")).unwrap(), "http://localhost:3000/metrics?limit=5");
    assert_eq!(proxy_target("http://api.example.com/base/", None).unwrap(), "http://api.example.com/");
    assert_eq!(proxy_target("http://api.example.com/base/", Some("/plans")).unwrap(), "http://api.example.com/plans");
    assert_eq!(proxy_target("not a url", Some("/plans")), None);
}
