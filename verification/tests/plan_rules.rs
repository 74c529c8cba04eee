use datem::api_error::{BAD_REQUEST, CONFLICT, NOT_FOUND, UNPROCESSABLE_ENTITY};
use datem::plans::{
    archive_plan, build_charges, charge_view, new_plan, parse_charges, plan_conflict, plan_list_status, plan_not_archivable,
    plan_in_use_error, plan_not_found, plan_subscribed, plan_view, select_tiers, tiered_charges, validate_plan,
    ChargeView, CreateChargeReq, CreatePlanReq, CreateTierReq,
};
use datem::records::{ArchiveRefusal, Charge, Plan, Subscription, Tier};

fn charge(model: Option<&str>) -> CreateChargeReq {
    CreateChargeReq {
        metric: Some("llm_tokens".to_string()),
        model: model.map(|s| s.to_string()),
        unit_price: None,
        amount: None,
        flat_amount: None,
        package_size: None,
        package_price: None,
        display: None,
        tiers: Vec::new(),
    }
}

fn body(id: Option<&str>, name: Option<&str>, currency: Option<&str>, interval: Option<&str>) -> CreatePlanReq {
    CreatePlanReq {
        id: id.map(|s| s.to_string()),
        name: name.map(|s| s.to_string()),
        currency: currency.map(|s| s.to_string()),
        interval: interval.map(|s| s.to_string()),
        charges: vec![flat(500)],
    }
}

fn flat(amount: i64) -> CreateChargeReq {
    let mut c = charge(Some("flat"));
    c.metric = None;
    c.amount = Some(amount);
    c
}

fn is_ulid(s: &str) -> bool {
    s.len() == 26 && s.chars().all(|c| c.is_ascii_digit() || (c.is_ascii_uppercase() && !"ILOU".contains(c)))
}

fn plan(status: &str) -> Plan {
    Plan {
        id: "pro".to_string(),
        tenant_id: "default".to_string(),
        name: "Pro".to_string(),
        status: status.to_string(),
        currency: "usd".to_string(),
        interval: "monthly".to_string(),
        created_at: 7,
    }
}

fn stored_charge(id: &str, model: &str) -> Charge {
    Charge {
        id: id.to_string(),
        tenant_id: "default".to_string(),
        plan_id: "pro".to_string(),
        metric: "tokens".to_string(),
        model: model.to_string(),
        unit_price: 3,
        flat_amount: 100,
        package_size: 1000,
        display: String::new(),
    }
}

fn stored_tier(id: &str, charge_id: &str, up_to: i64, flat_fee: i64) -> Tier {
    Tier {
        id: id.to_string(),
        tenant_id: "default".to_string(),
        charge_id: charge_id.to_string(),
        up_to,
        unit_price: 2,
        flat_fee,
        position: 0,
    }
}

#[test]
fn plan_head_defaults_and_lower_cases_the_currency() {
    let d = validate_plan(&body(Some("pro"), Some("Pro"), None, None)).ok().unwrap();
    assert_eq!((d.id.as_str(), d.name.as_str(), d.currency.as_str(), d.interval.as_str()), ("pro", "Pro", "usd", "monthly"));
    let d = validate_plan(&body(Some("pro"), Some("Pro"), Some("EUR"), Some("annual"))).ok().unwrap();
    assert_eq!((d.currency.as_str(), d.interval.as_str()), ("eur", "annual"));
    let p = new_plan(d, 42);
    assert_eq!((p.status.as_str(), p.tenant_id.as_str(), p.created_at), ("active", "default", 42));
}

#[test]
fn plan_head_errors() {
    let e = validate_plan(&body(None, Some("Pro"), None, None)).err().unwrap();
    assert_eq!((e.status, e.code.as_str(), e.message.as_str(), e.param.as_deref()), (UNPROCESSABLE_ENTITY, "missing_field", "id is required", Some("id")));
    let e = validate_plan(&body(Some("pro"), Some(""), None, None)).err().unwrap();
    assert_eq!((e.message.as_str(), e.param.as_deref()), ("name is required", Some("name")));
    let e = validate_plan(&body(Some("pro"), Some("Pro"), None, Some("weekly"))).err().unwrap();
    assert_eq!((e.code.as_str(), e.message.as_str()), ("invalid_param", "interval must be monthly or annual"));
    let mut b = body(Some("pro"), Some("Pro"), None, None);
    b.charges.clear();
    let e = validate_plan(&b).err().unwrap();
    assert_eq!((e.code.as_str(), e.message.as_str(), e.param.as_deref()), ("missing_field", "at least one charge is required", Some("charges")));
}

#[test]
fn charges_of_every_model_are_stored() {
    let mut per_unit = charge(Some("per_unit"));
    per_unit.unit_price = Some(2);
    let mut tiered = charge(Some("tiered"));
    tiered.tiers = vec![
        CreateTierReq { up_to: Some(1_000_000), unit_price: 2, flat_fee: None },
        CreateTierReq { up_to: None, unit_price: 1, flat_fee: Some(500) },
    ];
    let mut package = charge(Some("package"));
    package.package_size = Some(1000);
    package.package_price = Some(150);
    let mut hybrid = charge(Some("hybrid"));
    hybrid.flat_amount = Some(2000);
    hybrid.unit_price = Some(3);
    let mut f = flat(999);
    f.display = Some("Platform fee".to_string());
    let (charges, tiers) = parse_charges("pro", &vec![f, per_unit, tiered, package, hybrid]).ok().unwrap();
    assert_eq!(charges.len(), 5);
    for c in &charges {
        assert!(is_ulid(&c.id), "{}", c.id);
        assert_eq!(c.plan_id, "pro");
        assert_eq!(c.tenant_id, "default");
    }
    let summary: Vec<(&str, &str, i64, i64, i64, &str)> = charges
        .iter()
        .map(|c| (c.model.as_str(), c.metric.as_str(), c.unit_price, c.flat_amount, c.package_size, c.display.as_str()))
        .collect();
    assert_eq!(
        summary,
        vec![
            ("flat", "", 0, 999, 0, "Platform fee"),
            ("per_unit", "llm_tokens", 2, 0, 0, ""),
            ("tiered", "llm_tokens", 0, 0, 0, ""),
            ("package", "llm_tokens", 150, 0, 1000, ""),
            ("hybrid", "llm_tokens", 3, 2000, 0, ""),
        ]
    );
    assert_eq!(tiers.len(), 2);
    assert!(tiers.iter().all(|t| t.charge_id == charges[2].id && is_ulid(&t.id)));
    assert_eq!((tiers[0].up_to, tiers[0].unit_price, tiers[0].flat_fee, tiers[0].position), (1_000_000, 2, 0, 0));
    assert_eq!((tiers[1].up_to, tiers[1].unit_price, tiers[1].flat_fee, tiers[1].position), (-1, 1, 500, 1));
    assert_ne!(charges[0].id, charges[1].id);
}

#[test]
fn the_first_invalid_charge_is_reported() {
    let msg = |reqs: Vec<CreateChargeReq>| {
        let e = parse_charges("p", &reqs).err().unwrap();
        assert_eq!((e.status, e.param.as_deref()), (UNPROCESSABLE_ENTITY, Some("charges")));
        (e.code, e.message)
    };
    assert_eq!(msg(vec![charge(None)]), ("missing_field".to_string(), "charges[0].model is required".to_string()));
    assert_eq!(
        msg(vec![flat(1), charge(Some("bogus")), charge(None)]),
        ("invalid_param".to_string(), "charges[1].model 'bogus' is invalid; must be flat, per_unit, tiered, package, or hybrid".to_string())
    );
    let mut f = flat(1);
    f.amount = None;
    assert_eq!(msg(vec![f]).1, "charges[0].amount is required for flat charges");
    let mut p = charge(Some("per_unit"));
    p.metric = None;
    assert_eq!(msg(vec![p]).1, "charges[0].metric is required for per_unit charges");
    assert_eq!(msg(vec![charge(Some("per_unit"))]).1, "charges[0].unit_price is required for per_unit charges");
    assert_eq!(msg(vec![flat(1), flat(2), charge(Some("tiered"))]).1, "charges[2].tiers must have at least one entry");
    assert_eq!(msg(vec![charge(Some("package"))]).1, "charges[0].package_size is required for package charges");
    let mut pk = charge(Some("package"));
    pk.package_size = Some(10);
    assert_eq!(msg(vec![pk]).1, "charges[0].package_price is required for package charges");
    assert_eq!(msg(vec![charge(Some("hybrid"))]).1, "charges[0].flat_amount is required for hybrid charges");
    let mut h = charge(Some("hybrid"));
    h.flat_amount = Some(1);
    assert_eq!(msg(vec![h]).1, "charges[0].unit_price is required for hybrid charges");
    let mut pkg = charge(Some("package"));
    pkg.metric = None;
    assert_eq!(msg(vec![pkg]).1, "charges[0].metric is required for package charges");
}

#[test]
fn listing_status_is_active_or_archived() {
    assert_eq!(plan_list_status(None).ok().unwrap(), "active");
    assert_eq!(plan_list_status(Some("archived")).ok().unwrap(), "archived");
    let e = plan_list_status(Some("deleted")).err().unwrap();
    assert_eq!((e.status, e.code.as_str(), e.message.as_str(), e.param.as_deref()), (BAD_REQUEST, "invalid_param", "status must be active or archived", Some("status")));
}

#[test]
fn archiving_happens_once() {
    let archived = archive_plan(Some(plan("active")), false).ok().unwrap();
    assert_eq!((archived.status.as_str(), archived.id.as_str(), archived.created_at), ("archived", "pro", 7));
    assert_eq!(archive_plan(Some(archived), false).err(), Some(ArchiveRefusal::NotFound));
    assert_eq!(archive_plan(None, false).err(), Some(ArchiveRefusal::NotFound));
}

#[test]
fn a_plan_with_active_subscriptions_is_not_archived() {
    assert_eq!(archive_plan(Some(plan("active")), true).err(), Some(ArchiveRefusal::InUse));
    let e = plan_in_use_error("pro");
    assert_eq!((e.status, e.code.as_str(), e.message.as_str()), (UNPROCESSABLE_ENTITY, "active_subscriptions", "plan 'pro' has active subscriptions"));
    let sub = |plan_id: &str, status: &str| Subscription {
        id: "s".to_string(),
        tenant_id: "default".to_string(),
        customer_id: "c".to_string(),
        plan_id: plan_id.to_string(),
        status: status.to_string(),
        current_period_start: 0,
        current_period_end: 1,
        stripe_subscription_id: String::new(),
        created_at: 0,
        cancelled_at: 0,
    };
    assert!(plan_subscribed("pro", &vec![sub("basic", "active"), sub("pro", "active")]));
    assert!(!plan_subscribed("pro", &vec![sub("pro", "cancelled"), sub("basic", "active")]));
    assert!(!plan_subscribed("pro", &Vec::new()));
}

#[test]
fn a_hybrid_charge_takes_its_documented_base_fee() {
    let mut h = charge(Some("hybrid"));
    h.flat_amount = Some(1000);
    h.unit_price = Some(2);
    let (cs, ts) = parse_charges("p1", &vec![h]).ok().unwrap();
    assert_eq!((cs[0].model.as_str(), cs[0].metric.as_str(), cs[0].flat_amount, cs[0].unit_price), ("hybrid", "llm_tokens", 1000, 2));
    assert!(ts.is_empty());
    let mut older = charge(Some("hybrid"));
    older.amount = Some(700);
    older.unit_price = Some(2);
    let (cs, _) = parse_charges("p1", &vec![older]).ok().unwrap();
    assert_eq!(cs[0].flat_amount, 700);
}

#[test]
fn plan_answers() {
    let e = plan_conflict("pro");
    assert_eq!((e.status, e.code.as_str(), e.message.as_str(), e.param.as_deref()), (CONFLICT, "duplicate_id", "plan 'pro' already exists", Some("id")));
    let e = plan_not_found("pro");
    assert_eq!((e.status, e.code.as_str(), e.message.as_str(), e.param.is_none()), (NOT_FOUND, "plan_not_found", "plan 'pro' not found", true));
    assert_eq!(plan_not_archivable("pro").message, "plan 'pro' not found or already archived");
}

#[test]
fn plan_view_groups_tiers_by_charge() {
    let charges = vec![stored_charge("c1", "tiered"), stored_charge("c2", "per_unit"), stored_charge("c3", "tiered")];
    let tiers = vec![
        stored_tier("t1", "c1", 100, 0),
        stored_tier("t2", "c3", -1, 50),
        stored_tier("t3", "c1", -1, 0),
    ];
    assert_eq!(tiered_charges(&charges), vec![0, 2]);
    assert_eq!(select_tiers(&tiers, "c1").iter().map(|t| t.id.clone()).collect::<Vec<_>>(), vec!["t1", "t3"]);
    let v = plan_view(&plan("active"), &charges, &tiers);
    assert_eq!((v.id.as_str(), v.status.as_str(), v.created_at, v.charges.len()), ("pro", "active", 7, 3));
    match &v.charges[0] {
        ChargeView::Tiered { id, metric, tiers } => {
            assert_eq!((id.as_str(), metric.as_str(), tiers.len()), ("c1", "tokens", 2));
            assert_eq!((tiers[0].up_to, tiers[0].flat_fee), (Some(100), None));
            assert_eq!((tiers[1].up_to, tiers[1].flat_fee), (None, None));
        }
        _ => panic!("expected a tiered charge"),
    }
    match &v.charges[2] {
        ChargeView::Tiered { tiers, .. } => {
            assert_eq!(tiers.len(), 1);
            assert_eq!((tiers[0].unit_price, tiers[0].up_to, tiers[0].flat_fee), (2, None, Some(50)));
        }
        _ => panic!("expected a tiered charge"),
    }
    assert!(matches!(&v.charges[1], ChargeView::PerUnit { unit_price: 3, .. }));
}

#[test]
fn charge_views_by_model() {
    let none: Vec<Tier> = Vec::new();
    let mut f = stored_charge("f", "flat");
    assert!(matches!(charge_view(&f, &none), ChargeView::Flat { amount: 100, display: None, .. }));
    f.display = "Base".to_string();
    match charge_view(&f, &none) {
        ChargeView::Flat { display, .. } => assert_eq!(display.as_deref(), Some("Base")),
        _ => panic!("expected a flat charge"),
    }
    assert!(matches!(charge_view(&stored_charge("p", "package"), &none), ChargeView::Package { package_size: 1000, package_price: 3, .. }));
    assert!(matches!(charge_view(&stored_charge("h", "hybrid"), &none), ChargeView::Hybrid { flat_amount: 100, unit_price: 3, .. }));
    match charge_view(&stored_charge("o", "credits"), &none) {
        ChargeView::Other { id, model } => assert_eq!((id.as_str(), model.as_str()), ("o", "credits")),
        _ => panic!("expected another model"),
    }
}

#[test]
fn charges_are_built_under_the_given_identifiers() {
    let mut tiered = charge(Some("tiered"));
    tiered.tiers = vec![
        CreateTierReq { up_to: Some(10), unit_price: 2, flat_fee: None },
        CreateTierReq { up_to: None, unit_price: 1, flat_fee: Some(5) },
    ];
    let mut per_unit = charge(Some("per_unit"));
    per_unit.unit_price = Some(4);
    per_unit.tiers = vec![CreateTierReq { up_to: None, unit_price: 9, flat_fee: None }];
    let ids = vec!["c0".to_string(), "c1".to_string()];
    let tier_ids = vec![vec!["t00".to_string(), "t01".to_string()], vec!["t10".to_string()]];
    let (cs, ts) = build_charges("pro", &vec![tiered, per_unit], &ids, &tier_ids).ok().unwrap();
    assert_eq!(cs.iter().map(|c| c.id.as_str()).collect::<Vec<_>>(), vec!["c0", "c1"]);
    assert_eq!(ts.iter().map(|t| (t.id.as_str(), t.charge_id.as_str(), t.position)).collect::<Vec<_>>(), vec![("t00", "c0", 0), ("t01", "c0", 1)]);
    let e = build_charges("pro", &vec![charge(None)], &vec!["c".to_string()], &vec![Vec::new()]).err().unwrap();
    assert_eq!(e.message, "charges[0].model is required");
}
