use datem::billing::{
    aggregation, distinct_texts, events_in_window, Aggregation,
    billing_stripe_key, column_position, completed_run, invoice_line, invoice_total, items_to_invoice,
    open_invoice, pending_run, usage_for_metric, usage_query, BillingEngine, EngineAction, EngineEvent,
    LineItem, MetricUsage,
};
use datem::config::{Config, RunMode};
use datem::records::{Event, Subscription};

fn sub(id: &str, start: i64, end: i64) -> Subscription {
    Subscription {
        id: id.to_string(),
        tenant_id: "default".to_string(),
        customer_id: format!("cust_{id}"),
        plan_id: "pro".to_string(),
        status: "active".to_string(),
        current_period_start: start,
        current_period_end: end,
        stripe_subscription_id: String::new(),
        created_at: start,
        cancelled_at: 0,
    }
}

fn item(amount: i64) -> LineItem {
    LineItem {
        metric: "m".to_string(),
        description: "d".to_string(),
        quantity_bits: 2.5f64.to_bits(),
        amount_cents: amount,
        model: "per_unit".to_string(),
    }
}

fn config(stripe_key: Option<&str>) -> Config {
    Config {
        data_dir: "./data".to_string(),
        s3_bucket: None,
        s3_region: "us-east-1".to_string(),
        s3_endpoint: None,
        s3_prefix: "datem".to_string(),
        api_key: "k".to_string(),
        stripe_key: stripe_key.map(|s| s.to_string()),
        stripe_webhook_secret: None,
        port: 3000,
        run_mode: RunMode::LambdaBilling,
        billing_cron: "0 0 1 * *".to_string(),
    }
}

#[test]
fn engine_bills_only_ended_periods_not_yet_billed() {
    let now = 1_000;
    let subs = vec![sub("s0", 0, 900), sub("s1", 900, 2_000), sub("s2", 0, 1_000), sub("s3", 0, 10)];
    let mut e = BillingEngine::new(subs, now);
    assert_eq!(e.next(EngineEvent::Resume), EngineAction::CheckLog { index: 0 });
    assert_eq!(e.next(EngineEvent::LogChecked(Ok(false))), EngineAction::Bill { index: 0 });
    // s1's period has not ended: skipped without a check.
    assert_eq!(e.next(EngineEvent::BillFinished(Ok(()))), EngineAction::CheckLog { index: 2 });
    // s2 was billed before: skipped.
    assert_eq!(e.next(EngineEvent::LogChecked(Ok(true))), EngineAction::CheckLog { index: 3 });
    assert_eq!(e.next(EngineEvent::LogChecked(Ok(false))), EngineAction::Bill { index: 3 });
    assert_eq!(e.next(EngineEvent::BillFinished(Err("stripe down".to_string()))), EngineAction::Done);
    assert_eq!(e.summary.subscriptions_processed, 1);
    assert_eq!(e.summary.subscriptions_skipped, 2);
    assert_eq!(e.summary.errors, vec!["sub s3: stripe down".to_string()]);
}

#[test]
fn engine_records_log_errors_and_moves_on() {
    let mut e = BillingEngine::new(vec![sub("a", 0, 5), sub("b", 0, 5)], 5);
    assert_eq!(e.next(EngineEvent::Resume), EngineAction::CheckLog { index: 0 });
    assert_eq!(e.next(EngineEvent::LogChecked(Err("scan failed".to_string()))), EngineAction::CheckLog { index: 1 });
    assert_eq!(e.next(EngineEvent::LogChecked(Ok(false))), EngineAction::Bill { index: 1 });
    assert_eq!(e.next(EngineEvent::BillFinished(Ok(()))), EngineAction::Done);
    assert_eq!(e.summary.errors, vec!["sub a: check billing run: scan failed".to_string()]);
    assert_eq!(e.summary.subscriptions_processed, 1);
    assert_eq!(e.summary.subscriptions_skipped, 0);
}

#[test]
fn engine_with_nothing_due_is_done_at_once() {
    let mut e = BillingEngine::new(vec![sub("a", 0, 50), sub("b", 0, 60)], 10);
    assert_eq!(e.next(EngineEvent::Resume), EngineAction::Done);
    assert_eq!(e.summary.subscriptions_skipped, 2);
    let mut empty = BillingEngine::new(Vec::new(), 10);
    assert_eq!(empty.next(EngineEvent::Resume), EngineAction::Done);
}

#[test]
fn engine_ignores_reports_that_answer_nothing() {
    let mut e = BillingEngine::new(vec![sub("a", 0, 5)], 5);
    assert_eq!(e.next(EngineEvent::Resume), EngineAction::CheckLog { index: 0 });
    // A bill outcome while a log check is pending changes nothing.
    assert_eq!(e.next(EngineEvent::BillFinished(Ok(()))), EngineAction::CheckLog { index: 0 });
    assert_eq!(e.summary.subscriptions_processed, 0);
}

#[test]
fn a_second_run_over_the_same_period_bills_nothing() {
    let s = sub("s", 100, 200);
    let first = pending_run(&s, "run1".to_string(), 300);
    let log = vec![first];
    let mut e = BillingEngine::new(vec![s], 400);
    let mut billed = 0;
    let mut action = e.next(EngineEvent::Resume);
    loop {
        action = match action {
            EngineAction::CheckLog { index } => {
                let sub = &e.subscriptions[index];
                let found = log.iter().any(|r| r.subscription_id == sub.id && r.period_start == sub.current_period_start);
                e.next(EngineEvent::LogChecked(Ok(found)))
            }
            EngineAction::Bill { .. } => {
                billed += 1;
                e.next(EngineEvent::BillFinished(Ok(())))
            }
            EngineAction::Done => break,
        };
    }
    assert_eq!(billed, 0);
    assert_eq!(e.summary.subscriptions_skipped, 1);
}

#[test]
fn log_entries_carry_the_subscription_period() {
    let s = sub("s", 100, 200);
    let p = pending_run(&s, "r1".to_string(), 250);
    assert_eq!(p.id, "r1");
    assert_eq!(p.subscription_id, "s");
    assert_eq!(p.customer_id, "cust_s");
    assert_eq!(p.plan_id, "pro");
    assert_eq!((p.period_start, p.period_end), (100, 200));
    assert_eq!(p.status, "pending");
    assert_eq!(p.invoice_id, "");
    assert_eq!((p.created_at, p.completed_at), (250, 0));
    let c = completed_run(&s, "r2".to_string(), "inv".to_string(), 260);
    assert_eq!(c.status, "completed");
    assert_eq!(c.invoice_id, "inv");
    assert_eq!((c.created_at, c.completed_at), (260, 260));
    assert_eq!((c.period_start, c.period_end), (100, 200));
}

#[test]
fn invoice_and_lines_copy_their_sources() {
    let s = sub("s", 100, 200);
    let inv = open_invoice(&s, "i1".to_string(), "r1".to_string(), "in_1".to_string(), "usd".to_string(), 1234, 999);
    assert_eq!(inv.id, "i1");
    assert_eq!(inv.subscription_id, "s");
    assert_eq!(inv.billing_run_id, "r1");
    assert_eq!(inv.stripe_invoice_id, "in_1");
    assert_eq!(inv.status, "open");
    assert_eq!(inv.amount_cents, 1234);
    assert_eq!((inv.period_start, inv.period_end, inv.created_at), (100, 200, 999));
    let line = invoice_line("l1".to_string(), "default".to_string(), "i1".to_string(), &item(77));
    assert_eq!(line.invoice_id, "i1");
    assert_eq!(line.amount_cents, 77);
    assert_eq!(f64::from_bits(line.quantity_bits), 2.5);
    assert_eq!(line.model, "per_unit");
}

#[test]
fn invoice_total_sums_or_reports_overflow() {
    assert_eq!(invoice_total(&vec![item(100), item(250), item(-50)]), Some(300));
    assert_eq!(invoice_total(&Vec::new()), Some(0));
    assert_eq!(invoice_total(&vec![item(i64::MAX), item(1)]), None);
    assert_eq!(invoice_total(&vec![item(i64::MAX), item(1), item(-5)]), None);
    assert_eq!(invoice_total(&vec![item(i64::MIN), item(-1)]), None);
}

#[test]
fn only_nonzero_lines_go_to_stripe() {
    assert_eq!(items_to_invoice(&vec![item(0), item(5), item(0), item(-7)]), vec![1, 3]);
    assert!(items_to_invoice(&vec![item(0)]).is_empty());
}

#[test]
fn usage_is_the_first_aggregate_of_the_metric() {
    let usage = vec![
        MetricUsage { metric: "tokens".to_string(), quantity_bits: 12.0f64.to_bits() },
        MetricUsage { metric: "calls".to_string(), quantity_bits: 3.0f64.to_bits() },
        MetricUsage { metric: "tokens".to_string(), quantity_bits: 99.0f64.to_bits() },
    ];
    assert_eq!(f64::from_bits(usage_for_metric(&usage, "tokens")), 12.0);
    assert_eq!(f64::from_bits(usage_for_metric(&usage, "calls")), 3.0);
    assert_eq!(usage_for_metric(&usage, "storage"), 0.0f64.to_bits());
}

#[test]
fn usage_query_text() {
    assert_eq!(
        usage_query("cust_1", "llm_tokens", "sum", 1_700_000_000_000_000, 1_702_592_000_000_000).unwrap(),
        "SELECT SUM(quantity) AS total_quantity FROM events WHERE customer_id = 'cust_1' AND metric = 'llm_tokens' AND timestamp >= 1700000000000000 AND timestamp < 1702592000000000"
    );
    assert_eq!(
        usage_query("c", "peak", "max", -5, 0).unwrap(),
        "SELECT MAX(quantity) AS total_quantity FROM events WHERE customer_id = 'c' AND metric = 'peak' AND timestamp >= -5 AND timestamp < 0"
    );
    assert_eq!(
        usage_query("c", "deploys", "count", 0, 9).unwrap(),
        "SELECT COUNT(*) AS total_quantity FROM events WHERE customer_id = 'c' AND metric = 'deploys' AND timestamp >= 0 AND timestamp < 9"
    );
    assert_eq!(usage_query("c", "users", "unique_count", 0, 9), None);
    assert_eq!(
        usage_query("c", "m", "sum", i64::MIN, i64::MAX).unwrap(),
        format!("SELECT SUM(quantity) AS total_quantity FROM events WHERE customer_id = 'c' AND metric = 'm' AND timestamp >= {} AND timestamp < {}", i64::MIN, i64::MAX)
    );
    assert_eq!(usage_query("x' OR '1'='1", "m", "sum", 0, 1), None);
    assert_eq!(usage_query("c", "m' OR '1'='1", "sum", 0, 1), None);
}

#[test]
fn each_metric_names_its_aggregation() {
    assert_eq!(aggregation("sum"), Aggregation::Sum);
    assert_eq!(aggregation("count"), Aggregation::Count);
    assert_eq!(aggregation("max"), Aggregation::Max);
    assert_eq!(aggregation("unique_count"), Aggregation::UniqueCount);
    assert_eq!(aggregation("median"), Aggregation::Sum);
}

fn event(customer: &str, metric: &str, ts: i64, properties: &str) -> Event {
    Event {
        id: format!("e{ts}"),
        tenant_id: "default".to_string(),
        customer_id: customer.to_string(),
        metric: metric.to_string(),
        quantity_bits: 1.0f64.to_bits(),
        timestamp: ts,
        properties: properties.to_string(),
    }
}

#[test]
fn the_events_of_a_period_are_counted_and_their_keys_deduplicated() {
    let events = vec![
        event("c", "m", 10, "{\"key\":\"u1\"}"),
        event("c", "other", 11, "{}"),
        event("d", "m", 12, "{}"),
        event("c", "m", 20, "{\"key\":\"u2\"}"),
        event("c", "m", 5, "{}"),
        event("c", "m", 30, "{}"),
        event("c", "m", 29, "{\"key\":\"u1\"}"),
    ];
    assert_eq!(events_in_window(&events, "c", "m", 10, 30), vec![0, 3, 6]);
    assert_eq!(events_in_window(&events, "x", "m", 0, 100), Vec::<usize>::new());
    let keys = vec!["u2".to_string(), "u1".to_string(), "u2".to_string(), "u3".to_string()];
    assert_eq!(distinct_texts(&keys), vec!["u2".to_string(), "u1".to_string(), "u3".to_string()]);
    assert_eq!(distinct_texts(&Vec::new()).len(), 0);
}

#[test]
fn result_columns_are_found_by_name() {
    let cols = vec!["metric".to_string(), "total_quantity".to_string(), "metric".to_string()];
    assert_eq!(column_position(&cols, "metric"), Some(0));
    assert_eq!(column_position(&cols, "total_quantity"), Some(1));
    assert_eq!(column_position(&cols, "other"), None);
}

#[test]
fn billing_needs_a_stripe_key() {
    assert_eq!(billing_stripe_key(&config(Some("sk_live_1"))), Ok("sk_live_1"));
    assert_eq!(
        billing_stripe_key(&config(None)),
        Err("DATEM_STRIPE_KEY is required for billing".to_string())
    );
}
