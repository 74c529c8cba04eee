//! Customers: creation and update rules, listing parameters, and the billing
//! portal preconditions.
use vstd::prelude::*;
use crate::api_error::{api_error, error_is, ApiError, CONFLICT, NOT_FOUND, UNPROCESSABLE_ENTITY};
use crate::records::Customer;
use crate::subscriptions::{usable_key, usable_stripe_key};

verus! {

/// A new customer as requested; `metadata` is the JSON text of the metadata object.
pub struct CreateCustomerReq {
    pub id: Option<String>,
    pub name: Option<String>,
    pub email: Option<String>,
    pub stripe_customer_id: Option<String>,
    pub metadata: Option<String>,
}

/// A customer update as requested; `metadata` is the JSON text of the new metadata.
pub struct UpdateCustomerReq {
    pub name: Option<String>,
    pub email: Option<String>,
    pub metadata: Option<String>,
}

/// The parameters of a customer listing.
pub struct ListQuery {
    pub limit: Option<usize>,
    pub after: Option<String>,
}

/// The validated fields of a new customer.
pub struct CustomerDraft {
    pub id: String,
    pub name: String,
    pub email: String,
}

/// Where a new customer's Stripe customer comes from.
pub enum StripeCustomerSource {
    /// The caller gave it.
    Given { stripe_customer_id: String },
    /// It is created in Stripe with this key, from the name and email.
    Create { stripe_key: String },
    /// No Stripe customer (development without a key).
    NoStripe,
}

pub open spec fn present(o: Option<String>) -> bool {
    o matches Some(s) && s@.len() > 0
}

fn present_text(o: &Option<String>) -> (r: Option<&String>)
    ensures
        match r {
            Some(s) => present(*o) && *s == o->0,
            None => !present(*o),
        },
{
    match o {
        Some(s) => if s.as_str().is_empty() {
            None
        } else {
            Some(s)
        },
        None => None,
    }
}

/// Why a new customer is invalid: (message, param).
pub open spec fn customer_error(body: CreateCustomerReq) -> Option<(Seq<char>, Seq<char>)> {
    if !present(body.id) {
        Some(("id is required"@, "id"@))
    } else if !present(body.name) {
        Some(("name is required"@, "name"@))
    } else if !present(body.email) {
        Some(("email is required"@, "email"@))
    } else {
        None
    }
}

/// Validates a new customer: identifier, name and email are required (422).
pub fn validate_customer(body: &CreateCustomerReq) -> (r: Result<CustomerDraft, ApiError>)
    ensures
        match customer_error(*body) {
            Some((message, param)) => (r matches Err(e) && error_is(
                e,
                UNPROCESSABLE_ENTITY,
                "missing_field"@,
                message,
                Some(param),
            )),
            None => (r matches Ok(d) && d.id == body.id->0 && d.name == body.name->0 && d.email
                == body.email->0),
        },
{
    let id = match present_text(&body.id) {
        Some(s) => s.clone(),
        None => return Err(
            api_error(UNPROCESSABLE_ENTITY, "missing_field", String::from_str("id is required"), Some("id")),
        ),
    };
    let name = match present_text(&body.name) {
        Some(s) => s.clone(),
        None => return Err(
            api_error(
                UNPROCESSABLE_ENTITY,
                "missing_field",
                String::from_str("name is required"),
                Some("name"),
            ),
        ),
    };
    let email = match present_text(&body.email) {
        Some(s) => s.clone(),
        None => return Err(
            api_error(
                UNPROCESSABLE_ENTITY,
                "missing_field",
                String::from_str("email is required"),
                Some("email"),
            ),
        ),
    };
    Ok(CustomerDraft { id, name, email })
}

/// The answer when a customer with this identifier already exists (409).
pub fn customer_conflict(id: &str) -> (r: ApiError)
    ensures
        error_is(r, CONFLICT, "duplicate_id"@, "customer '"@ + id@ + "' already exists"@, Some("id"@)),
{
    api_error(
        CONFLICT,
        "duplicate_id",
        String::from_str("customer '").concat(id).concat("' already exists"),
        Some("id"),
    )
}

/// The answer when no customer has this identifier (404).
pub fn customer_not_found(id: &str) -> (r: ApiError)
    ensures
        error_is(r, NOT_FOUND, "customer_not_found"@, "customer '"@ + id@ + "' not found"@, None),
{
    api_error(
        NOT_FOUND,
        "customer_not_found",
        String::from_str("customer '").concat(id).concat("' not found"),
        None,
    )
}

/// Where the Stripe customer comes from: the one given, else a new one when a
/// usable key is configured, else none.
pub fn stripe_customer_source(given: &Option<String>, stripe_key: &Option<String>) -> (r:
    StripeCustomerSource)
    ensures
        present(*given) ==> (r matches StripeCustomerSource::Given { stripe_customer_id }
            && stripe_customer_id == given->0),
        !present(*given) ==> match usable_key(
            match stripe_key {
                Some(s) => Some(s@),
                None => None,
            },
        ) {
            Some(k) => (r matches StripeCustomerSource::Create { stripe_key: sk } && sk@ == k),
            None => r is NoStripe,
        },
{
    match present_text(given) {
        Some(s) => StripeCustomerSource::Given { stripe_customer_id: s.clone() },
        None => match usable_stripe_key(stripe_key) {
            Some(k) => StripeCustomerSource::Create { stripe_key: String::from_str(k) },
            None => StripeCustomerSource::NoStripe,
        },
    }
}

/// The stored customer: default tenant, metadata `{}` when none was given.
pub fn new_customer(
    draft: CustomerDraft,
    stripe_customer_id: String,
    metadata: Option<String>,
    now: i64,
) -> (r: Customer)
    ensures
        r.id == draft.id,
        r.tenant_id@ == "default"@,
        r.name == draft.name,
        r.email == draft.email,
        r.stripe_customer_id == stripe_customer_id,
        r.metadata@ == (match metadata {
            Some(m) => m@,
            None => "{}"@,
        }),
        r.created_at == now,
{
    Customer {
        id: draft.id,
        tenant_id: String::from_str("default"),
        name: draft.name,
        email: draft.email,
        stripe_customer_id,
        metadata: match metadata {
            Some(m) => m,
            None => String::from_str("{}"),
        },
        created_at: now,
    }
}

/// Applies an update: a non-empty name or email replaces the old one, given
/// metadata replaces the old metadata; the Stripe customer never changes.
pub fn update_customer(c: Customer, body: UpdateCustomerReq) -> (r: Customer)
    ensures
        r.id == c.id,
        r.tenant_id == c.tenant_id,
        r.name == (if present(body.name) {
            body.name->0
        } else {
            c.name
        }),
        r.email == (if present(body.email) {
            body.email->0
        } else {
            c.email
        }),
        r.stripe_customer_id == c.stripe_customer_id,
        r.metadata == (match body.metadata {
            Some(m) => m,
            None => c.metadata,
        }),
        r.created_at == c.created_at,
{
    let mut c = c;
    match body.name {
        Some(n) => if !n.as_str().is_empty() {
            c.name = n;
        },
        None => {},
    }
    match body.email {
        Some(e) => if !e.as_str().is_empty() {
            c.email = e;
        },
        None => {},
    }
    match body.metadata {
        Some(m) => {
            c.metadata = m;
        },
        None => {},
    }
    c
}

/// The page size of a listing: 20 unless given, and between 1 and 100.
pub fn page_limit(limit: Option<usize>) -> (r: usize)
    ensures
        r == ({
            let l = match limit {
                Some(l) => l as int,
                None => 20,
            };
            if l > 100 {
                100
            } else if l < 1 {
                1
            } else {
                l
            }
        }),
        1 <= r <= 100,
{
    let l = match limit {
        Some(l) => l,
        None => 20,
    };
    if l > 100 {
        100
    } else if l < 1 {
        1
    } else {
        l
    }
}

/// The cursor of the next page: the last identifier of this page when more
/// customers follow.
pub fn next_cursor(page: &Vec<Customer>, has_more: bool) -> (r: Option<String>)
    ensures
        r == (if has_more && page.len() > 0 {
            Some(page@[page.len() - 1].id)
        } else {
            None::<String>
        }),
{
    if has_more && page.len() > 0 {
        Some(page[page.len() - 1].id.clone())
    } else {
        None
    }
}

/// Why a billing-portal session cannot be opened for the customer, or the
/// Stripe key to open it with: the customer needs a Stripe customer and a
/// usable Stripe key must be configured (422).
pub fn portal_key(customer: &Customer, stripe_key: &Option<String>) -> (r: Result<String, ApiError>)
    ensures
        customer.stripe_customer_id@.len() == 0 ==> (r matches Err(e) && error_is(
            e,
            UNPROCESSABLE_ENTITY,
            "no_stripe_customer"@,
            "customer has no Stripe customer ID — create a subscription first"@,
            None,
        )),
        customer.stripe_customer_id@.len() != 0 ==> match usable_key(
            match stripe_key {
                Some(s) => Some(s@),
                None => None,
            },
        ) {
            Some(k) => (r matches Ok(s) && s@ == k),
            None => (r matches Err(e) && error_is(
                e,
                UNPROCESSABLE_ENTITY,
                "stripe_not_configured"@,
                "DATEM_STRIPE_KEY is not set"@,
                None,
            )),
        },
{
    if customer.stripe_customer_id.as_str().is_empty() {
        return Err(
            api_error(
                UNPROCESSABLE_ENTITY,
                "no_stripe_customer",
                String::from_str("customer has no Stripe customer ID — create a subscription first"),
                None,
            ),
        );
    }
    match usable_stripe_key(stripe_key) {
        Some(k) => Ok(String::from_str(k)),
        None => Err(
            api_error(
                UNPROCESSABLE_ENTITY,
                "stripe_not_configured",
                String::from_str("DATEM_STRIPE_KEY is not set"),
                None,
            ),
        ),
    }
}

/// Where the customer returns from the portal: the given URL, else
/// `https://example.com`.
pub fn portal_return_url(given: Option<&str>) -> (r: String)
    ensures
        r@ == (match given {
            Some(u) => u@,
            None => "https://example.com"@,
        }),
{
    match given {
        Some(u) => String::from_str(u),
        None => String::from_str("https://example.com"),
    }
}

/// Portal sessions expire five minutes after `now` (µs).
pub fn portal_expiry(now: i64) -> (r: i64)
    requires
        now <= i64::MAX - 300_000_000,
    ensures
        r == now + 300_000_000,
{
    now + 300_000_000
}

} // verus!
