use datem::billing::{LineItem, MetricUsage};
use datem::invoicing::{BillAction, BillEvent, BillStep, SubscriptionBilling};
use datem::records::{Charge, Customer, Plan, Subscription};

fn sub() -> Subscription {
    Subscription {
        id: "sub_1".to_string(),
        tenant_id: "default".to_string(),
        customer_id: "cust_1".to_string(),
        plan_id: "pro".to_string(),
        status: "active".to_string(),
        current_period_start: 100,
        current_period_end: 200,
        stripe_subscription_id: String::new(),
        created_at: 50,
        cancelled_at: 0,
    }
}

fn plan() -> Plan {
    Plan {
        id: "pro".to_string(),
        tenant_id: "default".to_string(),
        name: "Pro".to_string(),
        status: "active".to_string(),
        currency: "usd".to_string(),
        interval: "monthly".to_string(),
        created_at: 1,
    }
}

fn charge(id: &str, metric: &str) -> Charge {
    Charge {
        id: id.to_string(),
        tenant_id: "default".to_string(),
        plan_id: "pro".to_string(),
        metric: metric.to_string(),
        model: "per_unit".to_string(),
        unit_price: 2,
        flat_amount: 0,
        package_size: 0,
        display: String::new(),
    }
}

fn customer() -> Customer {
    Customer {
        id: "cust_1".to_string(),
        tenant_id: "default".to_string(),
        name: "Acme".to_string(),
        email: "a@acme.com".to_string(),
        stripe_customer_id: "cus_9".to_string(),
        metadata: "{}".to_string(),
        created_at: 1,
    }
}

fn item(metric: &str, amount: i64) -> LineItem {
    LineItem {
        metric: metric.to_string(),
        description: format!("{metric} usage"),
        quantity_bits: 3.0f64.to_bits(),
        amount_cents: amount,
        model: "per_unit".to_string(),
    }
}

fn finished_with(action: BillAction) -> Result<(), String> {
    match action {
        BillAction::Finished(outcome) => outcome,
        _ => panic!("expected the billing to be over"),
    }
}

/// Walks a billing up to the pricing of its first charge.
fn up_to_pricing(b: &mut SubscriptionBilling) {
    assert!(matches!(b.next(BillEvent::Start), BillAction::StoreRun(_)));
    assert!(matches!(b.next(BillEvent::Stored(Ok(()))), BillAction::LoadPlan(_)));
    assert!(matches!(b.next(BillEvent::PlanLoaded(Ok(Some(plan())))), BillAction::LoadCharges(_)));
    assert!(matches!(
        b.next(BillEvent::ChargesLoaded(Ok(vec![charge("c1", "tokens"), charge("c2", "calls")]))),
        BillAction::LoadUsage { .. }
    ));
    let usage = vec![MetricUsage { metric: "tokens".to_string(), quantity_bits: 3.0f64.to_bits() }];
    match b.next(BillEvent::UsageLoaded(Ok(usage))) {
        BillAction::PriceCharge { index, usage_bits } => {
            assert_eq!(index, 0);
            assert_eq!(f64::from_bits(usage_bits), 3.0);
        }
        _ => panic!("expected the first charge to be priced"),
    }
}

#[test]
fn a_period_is_logged_priced_invoiced_and_completed_in_order() {
    let mut b = SubscriptionBilling::new(sub(), 1_000);
    assert_eq!(b.step, BillStep::Begin);
    match b.next(BillEvent::Start) {
        BillAction::StoreRun(run) => {
            assert_eq!((run.status.as_str(), run.subscription_id.as_str(), run.period_start), ("pending", "sub_1", 100));
            assert_eq!(run.id, b.run_id);
            assert_eq!(run.id.len(), 26);
        }
        _ => panic!("expected the pending entry first"),
    }
    assert!(!b.pending_recorded);
    match b.next(BillEvent::Stored(Ok(()))) {
        BillAction::LoadPlan(p) => assert_eq!(p, "pro"),
        _ => panic!("expected the plan"),
    }
    assert!(b.pending_recorded);
    assert!(matches!(b.next(BillEvent::PlanLoaded(Ok(Some(plan())))), BillAction::LoadCharges(ref p) if p == "pro"));
    match b.next(BillEvent::ChargesLoaded(Ok(vec![charge("c1", "tokens"), charge("c2", "calls")]))) {
        BillAction::LoadUsage { customer_id, start, end } => {
            assert_eq!((customer_id.as_str(), start, end), ("cust_1", 100, 200))
        }
        _ => panic!("expected the usage"),
    }
    let usage = vec![MetricUsage { metric: "tokens".to_string(), quantity_bits: 3.0f64.to_bits() }];
    assert!(matches!(b.next(BillEvent::UsageLoaded(Ok(usage))), BillAction::PriceCharge { index: 0, .. }));
    match b.next(BillEvent::Priced(Ok(item("tokens", 6)))) {
        BillAction::PriceCharge { index, usage_bits } => {
            assert_eq!(index, 1);
            assert_eq!(usage_bits, 0.0f64.to_bits());
        }
        _ => panic!("expected the second charge"),
    }
    assert!(matches!(b.next(BillEvent::Priced(Ok(item("calls", 0)))), BillAction::LoadCustomer(ref c) if c == "cust_1"));
    assert_eq!(b.total, 6);
    match b.next(BillEvent::CustomerLoaded(Ok(Some(customer())))) {
        BillAction::PushItem { stripe_customer_id, amount_cents, currency, description, idempotency_key } => {
            assert_eq!((stripe_customer_id.as_str(), amount_cents, currency.as_str()), ("cus_9", 6, "usd"));
            assert_eq!(description, "tokens usage");
            assert_eq!(idempotency_key, format!("{}-cust_1-100-item-0", b.run_id));
        }
        _ => panic!("expected the non-zero item to be pushed"),
    }
    match b.next(BillEvent::Pushed(Ok(()))) {
        BillAction::Finalize { invoice_key, finalize_key, .. } => {
            assert_eq!(invoice_key, format!("{}-cust_1-100-invoice", b.run_id));
            assert_eq!(finalize_key, format!("{}-cust_1-100-finalize", b.run_id));
        }
        _ => panic!("expected the finalization"),
    }
    let invoice_id = match b.next(BillEvent::Finalized(Ok("in_1".to_string()))) {
        BillAction::StoreInvoice(inv) => {
            assert_eq!((inv.stripe_invoice_id.as_str(), inv.amount_cents, inv.status.as_str()), ("in_1", 6, "open"));
            assert_eq!(inv.billing_run_id, b.run_id);
            inv.id
        }
        _ => panic!("expected the invoice"),
    };
    for expected in ["tokens", "calls"] {
        match b.next(BillEvent::Stored(Ok(()))) {
            BillAction::StoreLine(line) => {
                assert_eq!(line.metric, expected);
                assert_eq!(line.invoice_id, invoice_id);
            }
            _ => panic!("expected an invoice line"),
        }
    }
    match b.next(BillEvent::Stored(Ok(()))) {
        BillAction::StoreRun(run) => {
            assert_eq!((run.status.as_str(), run.invoice_id.as_str(), run.completed_at), ("completed", invoice_id.as_str(), 1_000));
            assert_eq!(run.id, b.run_id);
        }
        _ => panic!("expected the completed entry"),
    }
    assert_eq!(finished_with(b.next(BillEvent::Stored(Ok(())))), Ok(()));
    assert_eq!(b.step, BillStep::Over);
}

#[test]
fn the_first_failure_ends_the_billing() {
    let mut b = SubscriptionBilling::new(sub(), 1_000);
    b.next(BillEvent::Start);
    assert_eq!(finished_with(b.next(BillEvent::Stored(Err("disk full".to_string())))), Err("disk full".to_string()));
    assert!(!b.pending_recorded);

    let mut b = SubscriptionBilling::new(sub(), 1_000);
    b.next(BillEvent::Start);
    b.next(BillEvent::Stored(Ok(())));
    assert_eq!(finished_with(b.next(BillEvent::PlanLoaded(Ok(None)))), Err("plan 'pro' not found".to_string()));

    let mut b = SubscriptionBilling::new(sub(), 1_000);
    up_to_pricing(&mut b);
    b.next(BillEvent::Priced(Ok(item("tokens", 6))));
    b.next(BillEvent::Priced(Ok(item("calls", 4))));
    assert_eq!(finished_with(b.next(BillEvent::CustomerLoaded(Ok(None)))), Err("customer 'cust_1' not found".to_string()));

    let mut b = SubscriptionBilling::new(sub(), 1_000);
    up_to_pricing(&mut b);
    b.next(BillEvent::Priced(Ok(item("tokens", 6))));
    b.next(BillEvent::Priced(Ok(item("calls", 4))));
    assert!(matches!(b.next(BillEvent::CustomerLoaded(Ok(Some(customer())))), BillAction::PushItem { amount_cents: 6, .. }));
    assert!(matches!(b.next(BillEvent::Pushed(Ok(()))), BillAction::PushItem { amount_cents: 4, .. }));
    assert_eq!(
        finished_with(b.next(BillEvent::Pushed(Err("card declined".to_string())))),
        Err("create invoice item for metric 'calls'".to_string())
    );
}

#[test]
fn overflowing_totals_and_stray_reports_end_the_billing() {
    let mut b = SubscriptionBilling::new(sub(), 1_000);
    up_to_pricing(&mut b);
    b.next(BillEvent::Priced(Ok(item("tokens", i64::MAX))));
    assert_eq!(finished_with(b.next(BillEvent::Priced(Ok(item("calls", 1))))), Err("invoice total overflows".to_string()));

    let mut b = SubscriptionBilling::new(sub(), 1_000);
    assert_eq!(finished_with(b.next(BillEvent::Stored(Ok(())))), Err("billing steps out of order".to_string()));

    let mut b = SubscriptionBilling::new(sub(), 1_000);
    b.next(BillEvent::Start);
    b.next(BillEvent::Stored(Ok(())));
    b.next(BillEvent::PlanLoaded(Ok(Some(plan()))));
    b.next(BillEvent::ChargesLoaded(Ok(Vec::new())));
    assert!(matches!(b.next(BillEvent::UsageLoaded(Ok(Vec::new()))), BillAction::LoadCustomer(_)));
    assert!(matches!(b.next(BillEvent::CustomerLoaded(Ok(Some(customer())))), BillAction::Finalize { .. }));
    assert_eq!(
        finished_with(b.next(BillEvent::Finalized(Err("503".to_string())))),
        Err("create and finalize invoice".to_string())
    );
}
