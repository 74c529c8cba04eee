use datem::api_error::{CONFLICT, NOT_FOUND, UNPROCESSABLE_ENTITY};
use datem::records::{Plan, Subscription};
use datem::subscriptions::{
    apply_plan_change, billing_period, billing_period_at, billing_period_from, cancel_subscription, check_plan_change,
    check_plan_for_subscription, missing_stripe_customer, new_subscription, stripe_interval,
    stripe_period_micros, subscription_conflict, subscription_not_found, subscription_source,
    subscription_view, unknown_customer, usable_stripe_key, validate_subscription, CreateSubscriptionReq,
    SubscriptionDraft, SubscriptionSource, UpdateSubscriptionReq, DAY_US,
};

fn plan(status: &str) -> Plan {
    Plan {
        id: "pro".to_string(),
        tenant_id: "default".to_string(),
        name: "Pro".to_string(),
        status: status.to_string(),
        currency: "usd".to_string(),
        interval: "monthly".to_string(),
        created_at: 1,
    }
}

fn active_sub() -> Subscription {
    new_subscription(
        SubscriptionDraft { id: "sub_1".to_string(), customer_id: "cust".to_string(), plan_id: "pro".to_string() },
        "sub_stripe".to_string(),
        100,
        200,
        50,
    )
}

fn some(s: &str) -> Option<String> {
    Some(s.to_string())
}

#[test]
fn identifiers_are_required() {
    let b = |id: Option<String>, c: Option<String>, p: Option<String>| CreateSubscriptionReq {
        id,
        customer_id: c,
        plan_id: p,
        stripe_subscription_id: None,
    };
    let d = validate_subscription(&b(some("s"), some("c"), some("p"))).ok().unwrap();
    assert_eq!((d.id.as_str(), d.customer_id.as_str(), d.plan_id.as_str()), ("s", "c", "p"));
    let e = validate_subscription(&b(None, some("c"), some("p"))).err().unwrap();
    assert_eq!((e.status, e.code.as_str(), e.message.as_str(), e.param.as_deref()), (UNPROCESSABLE_ENTITY, "missing_field", "id is required", Some("id")));
    let e = validate_subscription(&b(some("s"), some(""), some("p"))).err().unwrap();
    assert_eq!((e.message.as_str(), e.param.as_deref()), ("customer_id is required", Some("customer_id")));
    let e = validate_subscription(&b(some("s"), some("c"), None)).err().unwrap();
    assert_eq!((e.message.as_str(), e.param.as_deref()), ("plan_id is required", Some("plan_id")));
}

#[test]
fn new_subscriptions_need_an_active_plan() {
    assert!(check_plan_for_subscription("pro", Some(&plan("active"))).is_ok());
    let e = check_plan_for_subscription("pro", None).err().unwrap();
    assert_eq!((e.code.as_str(), e.message.as_str(), e.param.as_deref()), ("plan_not_found", "plan 'pro' not found", Some("plan_id")));
    let e = check_plan_for_subscription("pro", Some(&plan("archived"))).err().unwrap();
    assert_eq!(
        (e.status, e.code.as_str(), e.message.as_str()),
        (UNPROCESSABLE_ENTITY, "plan_archived", "plan 'pro' is archived; new subscriptions require an active plan")
    );
    let e = unknown_customer("cust_9");
    assert_eq!((e.code.as_str(), e.message.as_str(), e.param.as_deref()), ("customer_not_found", "customer 'cust_9' not found", Some("customer_id")));
    let e = subscription_conflict("s");
    assert_eq!((e.status, e.code.as_str(), e.message.as_str()), (CONFLICT, "duplicate_id", "subscription 's' already exists"));
    let e = subscription_not_found("s");
    assert_eq!((e.status, e.message.as_str(), e.param.is_none()), (NOT_FOUND, "subscription 's' not found", true));
    let e = missing_stripe_customer();
    assert_eq!((e.code.as_str(), e.param.as_deref()), ("no_stripe_customer", Some("customer_id")));
}

#[test]
fn stripe_is_used_only_with_a_real_key() {
    assert_eq!(usable_stripe_key(&some("sk_test_abc")), Some("sk_test_abc"));
    assert_eq!(usable_stripe_key(&some("sk_test_placeholder")), None);
    assert_eq!(usable_stripe_key(&None), None);
    assert!(matches!(
        subscription_source(&some("sub_x"), &some("sk_live")),
        SubscriptionSource::Given { ref stripe_subscription_id } if stripe_subscription_id == "sub_x"
    ));
    assert!(matches!(
        subscription_source(&some(""), &some("sk_live")),
        SubscriptionSource::Stripe { ref stripe_key } if stripe_key == "sk_live"
    ));
    assert!(matches!(subscription_source(&None, &some("placeholder")), SubscriptionSource::Local));
    assert!(matches!(subscription_source(&None, &None), SubscriptionSource::Local));
}

#[test]
fn periods() {
    assert_eq!(stripe_interval("annual"), "year");
    assert_eq!(stripe_interval("monthly"), "month");
    assert_eq!(stripe_interval("weekly"), "month");
    assert_eq!(stripe_period_micros(Some(1_718_918_400)), 1_718_918_400_000_000);
    assert_eq!(stripe_period_micros(None), 0);
    assert_eq!(billing_period_from("monthly", 1_000), (1_000, 1_000 + 30 * DAY_US));
    assert_eq!(billing_period_from("annual", 0), (0, 365 * DAY_US));
    assert_eq!(billing_period_at("monthly", 5), Some((5, 5 + 30 * DAY_US)));
    let late = i64::MAX - 100 * DAY_US;
    assert_eq!(billing_period_at("monthly", late), Some((late, late + 30 * DAY_US)));
    assert_eq!(billing_period_from("monthly", late), (late, late + 30 * DAY_US));
    assert_eq!(billing_period_at("annual", late), None);
    assert_eq!(billing_period_at("monthly", i64::MAX - 30 * DAY_US + 1), None);
    let (start, end) = billing_period("annual").unwrap();
    assert_eq!(end - start, 365 * 86_400_000_000);
    assert!(start > 1_600_000_000_000_000);
}

#[test]
fn stored_and_answered_subscription() {
    let s = active_sub();
    assert_eq!((s.status.as_str(), s.tenant_id.as_str(), s.cancelled_at, s.created_at), ("active", "default", 0, 50));
    let v = subscription_view(&s);
    assert_eq!((v.id.as_str(), v.current_period_start, v.current_period_end, v.cancelled_at), ("sub_1", 100, 200, None));
    let c = cancel_subscription(s, Some("immediately"), 150).ok().unwrap();
    assert_eq!(subscription_view(&c).cancelled_at, Some(150));
}

#[test]
fn plan_changes() {
    let s = active_sub();
    let change = |p: Option<&str>| UpdateSubscriptionReq { plan_id: p.map(|x| x.to_string()), effective: None };
    assert_eq!(check_plan_change(&s, &change(Some("scale"))).ok().unwrap(), "scale");
    let e = check_plan_change(&s, &change(None)).err().unwrap();
    assert_eq!((e.code.as_str(), e.message.as_str(), e.param.as_deref()), ("missing_field", "plan_id is required", Some("plan_id")));
    let cancelled = cancel_subscription(active_sub(), None, 0).ok().unwrap();
    let e = check_plan_change(&cancelled, &change(Some("scale"))).err().unwrap();
    assert_eq!((e.code.as_str(), e.message.as_str()), ("subscription_cancelled", "cannot update a cancelled subscription"));
    let moved = apply_plan_change(active_sub(), "scale".to_string(), Some(&plan("active"))).ok().unwrap();
    assert_eq!((moved.plan_id.as_str(), moved.id.as_str(), moved.current_period_end), ("scale", "sub_1", 200));
    let e = apply_plan_change(active_sub(), "scale".to_string(), None).err().unwrap();
    assert_eq!(e.message, "plan 'scale' not found");
    let e = apply_plan_change(active_sub(), "old".to_string(), Some(&plan("archived"))).err().unwrap();
    assert_eq!((e.code.as_str(), e.message.as_str()), ("plan_archived", "plan 'old' is archived"));
}

#[test]
fn cancellation_is_final() {
    let at_period_end = cancel_subscription(active_sub(), None, 120).ok().unwrap();
    assert_eq!((at_period_end.status.as_str(), at_period_end.cancelled_at), ("cancelled", 200));
    let other = cancel_subscription(active_sub(), Some("end_of_period"), 120).ok().unwrap();
    assert_eq!(other.cancelled_at, 200);
    let now = cancel_subscription(active_sub(), Some("immediately"), 120).ok().unwrap();
    assert_eq!((now.cancelled_at, now.current_period_end, now.plan_id.as_str()), (120, 200, "pro"));
    for again in [None, Some("immediately")] {
        let e = cancel_subscription(now_clone(&now), again, 130).err().unwrap();
        assert_eq!((e.status, e.code.as_str(), e.message.as_str()), (UNPROCESSABLE_ENTITY, "already_cancelled", "subscription is already cancelled"));
    }
}

fn now_clone(s: &Subscription) -> Subscription {
    s.clone()
}
