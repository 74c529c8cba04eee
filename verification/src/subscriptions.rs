//! Subscriptions: creation rules, billing periods, plan changes and
//! cancellation, and the subscription's answer shape.
use vstd::prelude::*;
use crate::api_error::{api_error, error_is, ApiError, CONFLICT, NOT_FOUND, UNPROCESSABLE_ENTITY};
use crate::clock::now_micros;
use crate::records::{Plan, Subscription};
use crate::text::{contains_text, has_part, str_eq};

verus! {

/// A new subscription as requested.
pub struct CreateSubscriptionReq {
    pub id: Option<String>,
    pub customer_id: Option<String>,
    pub plan_id: Option<String>,
    pub stripe_subscription_id: Option<String>,
}

/// A plan change as requested. `effective` is accepted and not acted on: the
/// subscription moves to the new plan at once, and its period is billed on
/// the plan it has when it is billed.
pub struct UpdateSubscriptionReq {
    pub plan_id: Option<String>,
    pub effective: Option<String>,
}

/// The validated identifiers of a new subscription.
pub struct SubscriptionDraft {
    pub id: String,
    pub customer_id: String,
    pub plan_id: String,
}

/// Where a new subscription's Stripe identifier and period come from.
pub enum SubscriptionSource {
    /// The caller gave the Stripe subscription; the period starts now.
    Given { stripe_subscription_id: String },
    /// A Stripe subscription is created with this key, which reports the period.
    Stripe { stripe_key: String },
    /// No Stripe: no identifier, and the period starts now.
    Local,
}

/// A subscription as answered; `cancelled_at` is null while not cancelled.
pub struct SubscriptionView {
    pub id: String,
    pub customer_id: String,
    pub plan_id: String,
    pub status: String,
    pub current_period_start: i64,
    pub current_period_end: i64,
    pub stripe_subscription_id: String,
    pub created_at: i64,
    pub cancelled_at: Option<i64>,
}

/// One day, in microseconds.
pub const DAY_US: i64 = 86_400_000_000;

pub open spec fn present(o: Option<String>) -> bool {
    o matches Some(s) && s@.len() > 0
}

fn present_text(o: &Option<String>) -> (r: Option<&String>)
    ensures
        match r {
            Some(s) => present(*o) && *s == o->0,
            None => !present(*o),
        },
{
    match o {
        Some(s) => if s.as_str().is_empty() {
            None
        } else {
            Some(s)
        },
        None => None,
    }
}

/// Why a new subscription's identifiers are invalid: (message, param).
pub open spec fn create_error(body: CreateSubscriptionReq) -> Option<(Seq<char>, Seq<char>)> {
    if !present(body.id) {
        Some(("id is required"@, "id"@))
    } else if !present(body.customer_id) {
        Some(("customer_id is required"@, "customer_id"@))
    } else if !present(body.plan_id) {
        Some(("plan_id is required"@, "plan_id"@))
    } else {
        None
    }
}

/// Validates the identifiers of a new subscription (all required, 422).
pub fn validate_subscription(body: &CreateSubscriptionReq) -> (r: Result<SubscriptionDraft, ApiError>)
    ensures
        match create_error(*body) {
            Some((message, param)) => (r matches Err(e) && error_is(
                e,
                UNPROCESSABLE_ENTITY,
                "missing_field"@,
                message,
                Some(param),
            )),
            None => (r matches Ok(d) && d.id == body.id->0 && d.customer_id == body.customer_id->0
                && d.plan_id == body.plan_id->0),
        },
{
    let id = match present_text(&body.id) {
        Some(s) => s.clone(),
        None => return Err(
            api_error(UNPROCESSABLE_ENTITY, "missing_field", String::from_str("id is required"), Some("id")),
        ),
    };
    let customer_id = match present_text(&body.customer_id) {
        Some(s) => s.clone(),
        None => return Err(
            api_error(
                UNPROCESSABLE_ENTITY,
                "missing_field",
                String::from_str("customer_id is required"),
                Some("customer_id"),
            ),
        ),
    };
    let plan_id = match present_text(&body.plan_id) {
        Some(s) => s.clone(),
        None => return Err(
            api_error(
                UNPROCESSABLE_ENTITY,
                "missing_field",
                String::from_str("plan_id is required"),
                Some("plan_id"),
            ),
        ),
    };
    Ok(SubscriptionDraft { id, customer_id, plan_id })
}

/// The answer when the customer of a new subscription does not exist (422
/// customer_not_found).
pub fn unknown_customer(customer_id: &str) -> (r: ApiError)
    ensures
        error_is(
            r,
            UNPROCESSABLE_ENTITY,
            "customer_not_found"@,
            "customer '"@ + customer_id@ + "' not found"@,
            Some("customer_id"@),
        ),
{
    api_error(
        UNPROCESSABLE_ENTITY,
        "customer_not_found",
        String::from_str("customer '").concat(customer_id).concat("' not found"),
        Some("customer_id"),
    )
}

/// New subscriptions need an existing, active plan: an unknown plan and an
/// archived plan are answered with 422.
pub fn check_plan_for_subscription(plan_id: &str, plan: Option<&Plan>) -> (r: Result<(), ApiError>)
    ensures
        match plan {
            None => (r matches Err(e) && error_is(
                e,
                UNPROCESSABLE_ENTITY,
                "plan_not_found"@,
                "plan '"@ + plan_id@ + "' not found"@,
                Some("plan_id"@),
            )),
            Some(p) => if p.status@ == "archived"@ {
                r matches Err(e) && error_is(
                    e,
                    UNPROCESSABLE_ENTITY,
                    "plan_archived"@,
                    "plan '"@ + plan_id@ + "' is archived; new subscriptions require an active plan"@,
                    Some("plan_id"@),
                )
            } else {
                r is Ok
            },
        },
{
    match plan {
        None => Err(
            api_error(
                UNPROCESSABLE_ENTITY,
                "plan_not_found",
                String::from_str("plan '").concat(plan_id).concat("' not found"),
                Some("plan_id"),
            ),
        ),
        Some(p) => if str_eq(p.status.as_str(), "archived") {
            Err(
                api_error(
                    UNPROCESSABLE_ENTITY,
                    "plan_archived",
                    String::from_str("plan '").concat(plan_id).concat(
                        "' is archived; new subscriptions require an active plan",
                    ),
                    Some("plan_id"),
                ),
            )
        } else {
            Ok(())
        },
    }
}

/// The answer when a subscription with this identifier already exists (409
/// duplicate_id).
pub fn subscription_conflict(id: &str) -> (r: ApiError)
    ensures
        error_is(
            r,
            CONFLICT,
            "duplicate_id"@,
            "subscription '"@ + id@ + "' already exists"@,
            Some("id"@),
        ),
{
    api_error(
        CONFLICT,
        "duplicate_id",
        String::from_str("subscription '").concat(id).concat("' already exists"),
        Some("id"),
    )
}

/// The answer when no subscription has this identifier (404).
pub fn subscription_not_found(id: &str) -> (r: ApiError)
    ensures
        error_is(r, NOT_FOUND, "not_found"@, "subscription '"@ + id@ + "' not found"@, None),
{
    api_error(
        NOT_FOUND,
        "not_found",
        String::from_str("subscription '").concat(id).concat("' not found"),
        None,
    )
}

/// A Stripe key is used only when it is set and is not a placeholder.
pub open spec fn usable_key(key: Option<Seq<char>>) -> Option<Seq<char>> {
    match key {
        Some(k) => if has_part(k, "placeholder"@) {
            None
        } else {
            Some(k)
        },
        None => None,
    }
}

/// The configured Stripe key, unless it is unset or a placeholder.
pub fn usable_stripe_key(key: &Option<String>) -> (r: Option<&str>)
    ensures
        match r {
            Some(k) => usable_key(
                match key {
                    Some(s) => Some(s@),
                    None => None,
                },
            ) == Some(k@),
            None => usable_key(
                match key {
                    Some(s) => Some(s@),
                    None => None,
                },
            ) is None,
        },
{
    match key {
        Some(k) => if contains_text(k.as_str(), "placeholder") {
            None
        } else {
            Some(k.as_str())
        },
        None => None,
    }
}

/// Where the Stripe identifier and period of a new subscription come from: the
/// identifier the caller gave, else Stripe when a usable key is configured,
/// else nothing.
pub fn subscription_source(given: &Option<String>, stripe_key: &Option<String>) -> (r:
    SubscriptionSource)
    ensures
        present(*given) ==> (r matches SubscriptionSource::Given { stripe_subscription_id }
            && stripe_subscription_id == given->0),
        !present(*given) ==> match usable_key(
            match stripe_key {
                Some(s) => Some(s@),
                None => None,
            },
        ) {
            Some(k) => (r matches SubscriptionSource::Stripe { stripe_key: sk } && sk@ == k),
            None => r is Local,
        },
{
    match present_text(given) {
        Some(s) => SubscriptionSource::Given { stripe_subscription_id: s.clone() },
        None => match usable_stripe_key(stripe_key) {
            Some(k) => SubscriptionSource::Stripe { stripe_key: String::from_str(k) },
            None => SubscriptionSource::Local,
        },
    }
}

/// The answer when Stripe is to be used but the customer has no Stripe
/// customer (422).
pub fn missing_stripe_customer() -> (r: ApiError)
    ensures
        error_is(
            r,
            UNPROCESSABLE_ENTITY,
            "no_stripe_customer"@,
            "customer has no Stripe customer ID — create the customer without a stripe_customer_id to auto-create one"@,
            Some("customer_id"@),
        ),
{
    api_error(
        UNPROCESSABLE_ENTITY,
        "no_stripe_customer",
        String::from_str(
            "customer has no Stripe customer ID — create the customer without a stripe_customer_id to auto-create one",
        ),
        Some("customer_id"),
    )
}

/// Stripe's recurring interval for a plan interval: `year` for annual plans,
/// `month` otherwise.
pub fn stripe_interval(interval: &str) -> (r: &'static str)
    ensures
        r@ == (if interval@ == "annual"@ {
            "year"@
        } else {
            "month"@
        }),
{
    if str_eq(interval, "annual") {
        "year"
    } else {
        "month"
    }
}

/// A Stripe period boundary (seconds; 0 when absent) in microseconds.
pub fn stripe_period_micros(seconds: Option<i64>) -> (r: i64)
    requires
        match seconds {
            Some(s) => -9_223_372_036_854 <= s <= 9_223_372_036_854,
            None => true,
        },
    ensures
        r == (match seconds {
            Some(s) => s,
            None => 0,
        }) * 1_000_000,
{
    match seconds {
        Some(s) => s * 1_000_000,
        None => 0,
    }
}

/// The length of a billing period: 365 days for annual plans, 30 days otherwise.
pub open spec fn period_length(interval: Seq<char>) -> int {
    if interval == "annual"@ {
        365 * DAY_US
    } else {
        30 * DAY_US
    }
}

/// The billing period starting at `now`.
pub fn billing_period_from(interval: &str, now: i64) -> (r: (i64, i64))
    requires
        now <= i64::MAX - period_length(interval@),
    ensures
        r.0 == now,
        r.1 == now + period_length(interval@),
{
    let duration: i64 = if str_eq(interval, "annual") {
        365 * DAY_US
    } else {
        30 * DAY_US
    };
    (now, now + duration)
}

/// The billing period starting at the clock reading `now`, for every reading:
/// `None` when the period's end does not fit an `i64`.
pub fn billing_period_at(interval: &str, now: i64) -> (r: Option<(i64, i64)>)
    ensures
        r == (if now <= i64::MAX - period_length(interval@) {
            Some((now, (now + period_length(interval@)) as i64))
        } else {
            None::<(i64, i64)>
        }),
{
    let duration: i64 = if str_eq(interval, "annual") {
        365 * DAY_US
    } else {
        30 * DAY_US
    };
    if now > i64::MAX - duration {
        None
    } else {
        Some(billing_period_from(interval, now))
    }
}

/// The billing period starting at the current time (see
/// [`billing_period_at`]), or `None` when the clock reads so late that the
/// period's end does not fit an `i64`.
pub fn billing_period(interval: &str) -> (r: Option<(i64, i64)>)
    ensures
        r matches Some((start, end)) ==> end == start + period_length(interval@),
{
    billing_period_at(interval, now_micros())
}

/// The stored subscription: default tenant, active, not cancelled.
pub fn new_subscription(
    draft: SubscriptionDraft,
    stripe_subscription_id: String,
    period_start: i64,
    period_end: i64,
    now: i64,
) -> (r: Subscription)
    ensures
        r.id == draft.id,
        r.tenant_id@ == "default"@,
        r.customer_id == draft.customer_id,
        r.plan_id == draft.plan_id,
        r.status@ == "active"@,
        r.current_period_start == period_start,
        r.current_period_end == period_end,
        r.stripe_subscription_id == stripe_subscription_id,
        r.created_at == now,
        r.cancelled_at == 0,
{
    Subscription {
        id: draft.id,
        tenant_id: String::from_str("default"),
        customer_id: draft.customer_id,
        plan_id: draft.plan_id,
        status: String::from_str("active"),
        current_period_start: period_start,
        current_period_end: period_end,
        stripe_subscription_id,
        created_at: now,
        cancelled_at: 0,
    }
}

/// A subscription as answered.
pub fn subscription_view(s: &Subscription) -> (r: SubscriptionView)
    ensures
        r.id == s.id,
        r.customer_id == s.customer_id,
        r.plan_id == s.plan_id,
        r.status == s.status,
        r.current_period_start == s.current_period_start,
        r.current_period_end == s.current_period_end,
        r.stripe_subscription_id == s.stripe_subscription_id,
        r.created_at == s.created_at,
        r.cancelled_at == (if s.cancelled_at == 0 {
            None
        } else {
            Some(s.cancelled_at)
        }),
{
    SubscriptionView {
        id: s.id.clone(),
        customer_id: s.customer_id.clone(),
        plan_id: s.plan_id.clone(),
        status: s.status.clone(),
        current_period_start: s.current_period_start,
        current_period_end: s.current_period_end,
        stripe_subscription_id: s.stripe_subscription_id.clone(),
        created_at: s.created_at,
        cancelled_at: if s.cancelled_at == 0 {
            None
        } else {
            Some(s.cancelled_at)
        },
    }
}

/// The new plan of a plan change, before the plan is looked up: a cancelled
/// subscription cannot change plan, and the plan is required (422).
pub fn check_plan_change(sub: &Subscription, body: &UpdateSubscriptionReq) -> (r: Result<
    String,
    ApiError,
>)
    ensures
        sub.status@ == "cancelled"@ ==> (r matches Err(e) && error_is(
            e,
            UNPROCESSABLE_ENTITY,
            "subscription_cancelled"@,
            "cannot update a cancelled subscription"@,
            None,
        )),
        sub.status@ != "cancelled"@ && !present(body.plan_id) ==> (r matches Err(e) && error_is(
            e,
            UNPROCESSABLE_ENTITY,
            "missing_field"@,
            "plan_id is required"@,
            Some("plan_id"@),
        )),
        sub.status@ != "cancelled"@ && present(body.plan_id) ==> r == Ok::<String, ApiError>(
            body.plan_id->0,
        ),
{
    if str_eq(sub.status.as_str(), "cancelled") {
        return Err(
            api_error(
                UNPROCESSABLE_ENTITY,
                "subscription_cancelled",
                String::from_str("cannot update a cancelled subscription"),
                None,
            ),
        );
    }
    match present_text(&body.plan_id) {
        Some(p) => Ok(p.clone()),
        None => Err(
            api_error(
                UNPROCESSABLE_ENTITY,
                "missing_field",
                String::from_str("plan_id is required"),
                Some("plan_id"),
            ),
        ),
    }
}

/// Applies a plan change once the new plan is looked up: it must exist and be
/// active (422); the subscription then moves to it, all else kept.
pub fn apply_plan_change(sub: Subscription, plan_id: String, plan: Option<&Plan>) -> (r: Result<
    Subscription,
    ApiError,
>)
    ensures
        match plan {
            None => (r matches Err(e) && error_is(
                e,
                UNPROCESSABLE_ENTITY,
                "plan_not_found"@,
                "plan '"@ + plan_id@ + "' not found"@,
                Some("plan_id"@),
            )),
            Some(p) => if p.status@ == "archived"@ {
                r matches Err(e) && error_is(
                    e,
                    UNPROCESSABLE_ENTITY,
                    "plan_archived"@,
                    "plan '"@ + plan_id@ + "' is archived"@,
                    Some("plan_id"@),
                )
            } else {
                r matches Ok(s) && s == Subscription { plan_id, ..sub }
            },
        },
{
    match plan {
        None => Err(
            api_error(
                UNPROCESSABLE_ENTITY,
                "plan_not_found",
                String::from_str("plan '").concat(plan_id.as_str()).concat("' not found"),
                Some("plan_id"),
            ),
        ),
        Some(p) => if str_eq(p.status.as_str(), "archived") {
            Err(
                api_error(
                    UNPROCESSABLE_ENTITY,
                    "plan_archived",
                    String::from_str("plan '").concat(plan_id.as_str()).concat("' is archived"),
                    Some("plan_id"),
                ),
            )
        } else {
            let mut s = sub;
            s.plan_id = plan_id;
            Ok(s)
        },
    }
}

/// What cancelling stores: a cancelled subscription cannot be cancelled again;
/// otherwise the subscription's status becomes `cancelled` at once, and its
/// `cancelled_at` is `now` when cancellation is asked for `immediately`, else
/// the end of its current period.
pub open spec fn cancel_result(sub: Subscription, effective: Option<Seq<char>>, now: i64, r: Result<
    Subscription,
    ApiError,
>) -> bool {
    if sub.status@ == "cancelled"@ {
        r matches Err(e) && error_is(
            e,
            UNPROCESSABLE_ENTITY,
            "already_cancelled"@,
            "subscription is already cancelled"@,
            None,
        )
    } else {
        r matches Ok(s) && s.status@ == "cancelled"@ && s.cancelled_at == (if effective == Some(
            "immediately"@,
        ) {
            now
        } else {
            sub.current_period_end
        }) && s.id == sub.id && s.tenant_id == sub.tenant_id && s.customer_id == sub.customer_id
            && s.plan_id == sub.plan_id && s.current_period_start == sub.current_period_start
            && s.current_period_end == sub.current_period_end && s.stripe_subscription_id
            == sub.stripe_subscription_id && s.created_at == sub.created_at
    }
}

/// Cancels a subscription (see [`cancel_result`]).
pub fn cancel_subscription(sub: Subscription, effective: Option<&str>, now: i64) -> (r: Result<
    Subscription,
    ApiError,
>)
    ensures
        cancel_result(
            sub,
            match effective {
                Some(e) => Some(e@),
                None => None,
            },
            now,
            r,
        ),
{
    if str_eq(sub.status.as_str(), "cancelled") {
        return Err(
            api_error(
                UNPROCESSABLE_ENTITY,
                "already_cancelled",
                String::from_str("subscription is already cancelled"),
                None,
            ),
        );
    }
    let immediately = match effective {
        Some(e) => str_eq(e, "immediately"),
        None => false,
    };
    let mut s = sub;
    s.cancelled_at = if immediately {
        now
    } else {
        s.current_period_end
    };
    s.status = String::from_str("cancelled");
    Ok(s)
}

/// Cancellation is final: a subscription that was cancelled cannot be
/// cancelled again, whatever is asked and whenever.
pub proof fn lemma_cancel_once(
    sub: Subscription,
    effective: Option<Seq<char>>,
    now: i64,
    cancelled: Subscription,
    again: Option<Seq<char>>,
    later: i64,
    r: Result<Subscription, ApiError>,
)
    requires
        cancel_result(sub, effective, now, Ok(cancelled)),
        cancel_result(cancelled, again, later, r),
    ensures
        r is Err,
        r matches Err(e) && e.code@ == "already_cancelled"@,
{
}

} // verus!
