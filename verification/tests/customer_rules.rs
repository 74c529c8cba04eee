use datem::api_error::{CONFLICT, NOT_FOUND, UNPROCESSABLE_ENTITY};
use datem::customers::{
    customer_conflict, customer_not_found, new_customer, next_cursor, page_limit, portal_expiry, portal_key,
    portal_return_url, stripe_customer_source, update_customer, validate_customer, CreateCustomerReq,
    CustomerDraft, StripeCustomerSource, UpdateCustomerReq,
};

fn some(s: &str) -> Option<String> {
    Some(s.to_string())
}

fn req(id: Option<String>, name: Option<String>, email: Option<String>) -> CreateCustomerReq {
    CreateCustomerReq { id, name, email, stripe_customer_id: None, metadata: None }
}

fn acme(stripe: &str) -> datem::records::Customer {
    new_customer(
        CustomerDraft { id: "cust_abc123".to_string(), name: "Acme Corp".to_string(), email: "billing@acme.com".to_string() },
        stripe.to_string(),
        None,
        1_718_918_400,
    )
}

#[test]
fn new_customers_need_id_name_and_email() {
    let d = validate_customer(&req(some("c"), some("Acme"), some("a@b.c"))).ok().unwrap();
    assert_eq!((d.id.as_str(), d.name.as_str(), d.email.as_str()), ("c", "Acme", "a@b.c"));
    let e = validate_customer(&req(None, some("Acme"), some("a@b.c"))).err().unwrap();
    assert_eq!((e.status, e.code.as_str(), e.message.as_str(), e.param.as_deref()), (UNPROCESSABLE_ENTITY, "missing_field", "id is required", Some("id")));
    let e = validate_customer(&req(some("c"), some(""), some("a@b.c"))).err().unwrap();
    assert_eq!(e.message, "name is required");
    let e = validate_customer(&req(some("c"), some("Acme"), None)).err().unwrap();
    assert_eq!((e.message.as_str(), e.param.as_deref()), ("email is required", Some("email")));
}

#[test]
fn stripe_customer_is_linked_or_created() {
    assert!(matches!(stripe_customer_source(&some("cus_1"), &some("sk")), StripeCustomerSource::Given { ref stripe_customer_id } if stripe_customer_id == "cus_1"));
    assert!(matches!(stripe_customer_source(&None, &some("sk_live")), StripeCustomerSource::Create { ref stripe_key } if stripe_key == "sk_live"));
    assert!(matches!(stripe_customer_source(&some(""), &some("sk_placeholder")), StripeCustomerSource::NoStripe));
    assert!(matches!(stripe_customer_source(&None, &None), StripeCustomerSource::NoStripe));
}

#[test]
fn stored_customer() {
    let c = acme("cus_StripeXYZ789");
    assert_eq!((c.tenant_id.as_str(), c.metadata.as_str(), c.stripe_customer_id.as_str(), c.created_at), ("default", "{}", "cus_StripeXYZ789", 1_718_918_400));
    let with_meta = new_customer(
        CustomerDraft { id: "x".to_string(), name: "X".to_string(), email: "x@x".to_string() },
        String::new(),
        Some("{\"tier\":\"gold\"}".to_string()),
        0,
    );
    assert_eq!(with_meta.metadata, "{\"tier\":\"gold\"}");
}

#[test]
fn updates_replace_only_what_is_given() {
    let c = update_customer(acme("cus_1"), UpdateCustomerReq { name: some("Acme Inc"), email: some(""), metadata: None });
    assert_eq!((c.name.as_str(), c.email.as_str(), c.metadata.as_str()), ("Acme Inc", "billing@acme.com", "{}"));
    let c = update_customer(c, UpdateCustomerReq { name: None, email: some("ops@acme.com"), metadata: some("{\"a\":1}") });
    assert_eq!((c.name.as_str(), c.email.as_str(), c.metadata.as_str(), c.stripe_customer_id.as_str()), ("Acme Inc", "ops@acme.com", "{\"a\":1}", "cus_1"));
}

#[test]
fn listing_parameters() {
    assert_eq!(page_limit(None), 20);
    assert_eq!(page_limit(Some(0)), 1);
    assert_eq!(page_limit(Some(1)), 1);
    assert_eq!(page_limit(Some(50)), 50);
    assert_eq!(page_limit(Some(100)), 100);
    assert_eq!(page_limit(Some(101)), 100);
    assert_eq!(page_limit(Some(usize::MAX)), 100);
    let page = vec![acme(""), acme("")];
    assert_eq!(next_cursor(&page, true), Some("cust_abc123".to_string()));
    assert_eq!(next_cursor(&page, false), None);
    assert_eq!(next_cursor(&Vec::new(), true), None);
}

#[test]
fn portal_needs_a_stripe_customer_and_key() {
    let e = portal_key(&acme(""), &some("sk")).err().unwrap();
    assert_eq!((e.status, e.code.as_str()), (UNPROCESSABLE_ENTITY, "no_stripe_customer"));
    assert_eq!(e.message, "customer has no Stripe customer ID — create a subscription first");
    let e = portal_key(&acme("cus_1"), &None).err().unwrap();
    assert_eq!((e.code.as_str(), e.message.as_str()), ("stripe_not_configured", "DATEM_STRIPE_KEY is not set"));
    let e = portal_key(&acme("cus_1"), &some("sk_placeholder")).err().unwrap();
    assert_eq!(e.code, "stripe_not_configured");
    assert_eq!(portal_key(&acme("cus_1"), &some("sk_live_9")).ok().unwrap(), "sk_live_9");
    assert_eq!(portal_return_url(Some("https://app.example/billing")), "https://app.example/billing");
    assert_eq!(portal_return_url(None), "https://example.com");
    assert_eq!(portal_expiry(1_000), 300_001_000);
}

#[test]
fn customer_answers() {
    let e = customer_conflict("c1");
    assert_eq!((e.status, e.code.as_str(), e.message.as_str(), e.param.as_deref()), (CONFLICT, "duplicate_id", "customer 'c1' already exists", Some("id")));
    let e = customer_not_found("c1");
    assert_eq!((e.status, e.code.as_str(), e.message.as_str(), e.param.is_none()), (NOT_FOUND, "customer_not_found", "customer 'c1' not found", true));
}
