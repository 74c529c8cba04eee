//! Billing one subscription's ended period, step by step: log the period as
//! pending, load the plan, its charges and the period's usage, price each
//! charge, push the non-zero line items to Stripe and finalize the invoice,
//! store the invoice and its lines, and log the period as completed. The store
//! and Stripe calls are made by the caller, which reports each outcome back as
//! a [`BillEvent`]; the first failure ends the billing with its message.
use vstd::prelude::*;
use crate::billing::{
    amount_sum, completed_run, invoice_line, invoice_total, is_completed_run, is_invoice_line,
    is_open_invoice, is_pending_run, items_to_invoice, open_invoice, pending_run, pushed_items,
    totals_fit, usage_for_metric, usage_of, LineItem, MetricUsage,
};
use crate::clock::{is_ulid_char, new_ulid};
use crate::records::{BillingRun, Charge, Customer, Invoice, InvoiceLineItem, Plan, Subscription};
use crate::text::{decimal, digits_of, i64_to_decimal, usize_to_decimal};

verus! {

/// Where the billing of a period stands.
#[derive(PartialEq, Eq, Structural, Clone, Copy, Debug)]
pub enum BillStep {
    /// Not started.
    Begin,
    /// Waiting for the pending log entry to be stored.
    RecordingPending,
    /// Waiting for the plan.
    LoadingPlan,
    /// Waiting for the plan's charges.
    LoadingCharges,
    /// Waiting for the period's usage.
    LoadingUsage,
    /// Waiting for the line item of the charge at `cursor`.
    Pricing,
    /// Waiting for the customer.
    LoadingCustomer,
    /// Waiting for Stripe to take the line item at `pushes[cursor]`.
    Pushing,
    /// Waiting for Stripe to create and finalize the invoice.
    Finalizing,
    /// Waiting for the invoice to be stored.
    StoringInvoice,
    /// Waiting for the line at `cursor` to be stored.
    StoringLines,
    /// Waiting for the completed log entry to be stored.
    RecordingCompleted,
    /// Finished, or failed.
    Over,
}

/// What the caller reports back.
pub enum BillEvent {
    /// Begin.
    Start,
    /// A log entry, the invoice or an invoice line was stored, or why not.
    Stored(Result<(), String>),
    /// The plan, if it exists.
    PlanLoaded(Result<Option<Plan>, String>),
    /// The plan's charges.
    ChargesLoaded(Result<Vec<Charge>, String>),
    /// The usage of each metric over the period.
    UsageLoaded(Result<Vec<MetricUsage>, String>),
    /// The priced line item of the requested charge.
    Priced(Result<LineItem, String>),
    /// The customer, if it exists.
    CustomerLoaded(Result<Option<Customer>, String>),
    /// Stripe took the invoice item, or why not.
    Pushed(Result<(), String>),
    /// The ID of the finalized Stripe invoice, or why there is none.
    Finalized(Result<String, String>),
}

/// What the caller does next.
pub enum BillAction {
    /// Store this billing-log entry.
    StoreRun(BillingRun),
    /// Load the plan with this ID.
    LoadPlan(String),
    /// Load the charges of the plan with this ID.
    LoadCharges(String),
    /// Load the customer's usage of each metric over [`start`, `end`).
    LoadUsage { customer_id: String, start: i64, end: i64 },
    /// Load the tiers of the charge at `index` and price it for the usage
    /// whose binary64 bit pattern is `usage_bits`.
    PriceCharge { index: usize, usage_bits: u64 },
    /// Load the customer with this ID.
    LoadCustomer(String),
    /// Create a Stripe invoice item, sent with this idempotency key.
    PushItem {
        stripe_customer_id: String,
        amount_cents: i64,
        currency: String,
        description: String,
        idempotency_key: String,
    },
    /// Create and finalize the Stripe invoice of the pushed items.
    /// The creation is sent with `invoice_key`, the finalization with
    /// `finalize_key`.
    Finalize { stripe_customer_id: String, currency: String, invoice_key: String, finalize_key: String },
    /// Store this invoice.
    StoreInvoice(Invoice),
    /// Store this invoice line.
    StoreLine(InvoiceLineItem),
    /// The billing of the period is over, with this outcome.
    Finished(Result<(), String>),
}

/// The billing of one subscription's current period.
pub struct SubscriptionBilling {
    pub sub: Subscription,
    pub now: i64,
    pub run_id: String,
    pub step: BillStep,
    pub pending_recorded: bool,
    pub currency: String,
    pub charges: Vec<Charge>,
    pub usage: Vec<MetricUsage>,
    pub items: Vec<LineItem>,
    pub total: i64,
    pub stripe_customer_id: String,
    pub pushes: Vec<usize>,
    pub cursor: usize,
    pub stripe_invoice_id: String,
    pub invoice_id: String,
}

/// A ULID in its text form.
pub open spec fn is_ulid(s: Seq<char>) -> bool {
    s.len() == 26 && forall|i: int| 0 <= i < 26 ==> is_ulid_char(#[trigger] s[i])
}

/// The positions, as integers, of a list of positions.
pub open spec fn positions(p: Seq<usize>) -> Seq<int> {
    p.map_values(|i: usize| i as int)
}

/// The billing ends with the error `msg`; `b` is the state it ends in.
pub open spec fn fails(b: SubscriptionBilling, b2: SubscriptionBilling, action: BillAction, msg: Seq<char>) -> bool {
    &&& b2 == (SubscriptionBilling { step: BillStep::Over, ..b })
    &&& action matches BillAction::Finished(Err(m)) && m@ == msg
}

/// The idempotency key a Stripe call of the billing is sent with: derived
/// from the billing run, the customer and the period, and naming the call, so
/// that Stripe takes a repeated call once.
pub open spec fn idempotency_key(b: SubscriptionBilling, call: Seq<char>) -> Seq<char> {
    b.run_id@ + "-"@ + b.sub.customer_id@ + "-"@ + decimal(b.sub.current_period_start as int) + "-"@
        + call
}

/// The call that creates the invoice item of the line item at position `i`.
pub open spec fn item_call(i: int) -> Seq<char> {
    "item-"@ + decimal(i)
}

proof fn lemma_digits_nonempty(n: nat)
    ensures
        digits_of(n).len() >= 1,
        n >= 10 ==> digits_of(n).len() >= 2,
    decreases n,
{
    if n >= 10 {
        lemma_digits_nonempty(n / 10);
    }
}

proof fn lemma_digit_char(x: nat)
    requires
        x < 10,
    ensures
        (((x + 48) as u32) as char) as int == x + 48,
{
}

proof fn lemma_digits_injective(a: nat, b: nat)
    requires
        digits_of(a) == digits_of(b),
    ensures
        a == b,
    decreases a,
{
    lemma_digits_nonempty(a);
    lemma_digits_nonempty(b);
    if a < 10 && b < 10 {
        assert(digits_of(a)[0] == digits_of(b)[0]);
        lemma_digit_char(a);
        lemma_digit_char(b);
        assert(digits_of(a)[0] == (((a + 48) as u32) as char));
        assert(a == b);
    } else if a >= 10 && b >= 10 {
        let da = digits_of(a);
        let db = digits_of(b);
        assert(da.last() == db.last());
        lemma_digit_char(a % 10);
        lemma_digit_char(b % 10);
        assert(da.drop_last() =~= digits_of(a / 10));
        assert(db.drop_last() =~= digits_of(b / 10));
        assert(da.last() == (((a % 10 + 48) as u32) as char));
        assert(db.last() == (((b % 10 + 48) as u32) as char));
        assert(a % 10 == b % 10);
        lemma_digits_injective(a / 10, b / 10);
        assert(a == 10 * (a / 10) + a % 10);
        assert(b == 10 * (b / 10) + b % 10);
    } else {
        assert(digits_of(a).len() != digits_of(b).len());
    }
}

proof fn lemma_suffix_differs(p: Seq<char>, c1: Seq<char>, c2: Seq<char>)
    requires
        c1 != c2,
    ensures
        p + c1 != p + c2,
{
    assert((p + c1).skip(p.len() as int) =~= c1);
    assert((p + c2).skip(p.len() as int) =~= c2);
}

/// The Stripe calls of one billing are sent with different idempotency keys:
/// one for each invoice item (by the position of its line), one for creating
/// the invoice and one for finalizing it. Each key is a function of the
/// billing run, the customer, the period and the call alone, so a repeated
/// call carries the key of the first.
pub proof fn lemma_idempotency_keys_differ(b: SubscriptionBilling, i: nat, j: nat)
    ensures
        i != j ==> idempotency_key(b, item_call(i as int)) != idempotency_key(b, item_call(j as int)),
        idempotency_key(b, item_call(i as int)) != idempotency_key(b, "invoice"@),
        idempotency_key(b, item_call(i as int)) != idempotency_key(b, "finalize"@),
        idempotency_key(b, "invoice"@) != idempotency_key(b, "finalize"@),
{
    reveal_strlit("item-");
    reveal_strlit("invoice");
    reveal_strlit("finalize");
    let p = b.run_id@ + "-"@ + b.sub.customer_id@ + "-"@ + decimal(b.sub.current_period_start as int) + "-"@;
    if i != j {
        if item_call(i as int) == item_call(j as int) {
            assert(item_call(i as int).skip(5) =~= digits_of(i));
            assert(item_call(j as int).skip(5) =~= digits_of(j));
            lemma_digits_injective(i, j);
        }
        lemma_suffix_differs(p, item_call(i as int), item_call(j as int));
    }
    assert(item_call(i as int)[1] != "invoice"@[1]);
    lemma_suffix_differs(p, item_call(i as int), "invoice"@);
    assert(item_call(i as int)[0] != "finalize"@[0]);
    lemma_suffix_differs(p, item_call(i as int), "finalize"@);
    assert("invoice"@[0] != "finalize"@[0]);
    lemma_suffix_differs(p, "invoice"@, "finalize"@);
}

/// The Stripe invoice item of the line item at `pushes[k]`.
pub open spec fn push_action(b: SubscriptionBilling, k: int, action: BillAction) -> bool {
    let item = b.items@[b.pushes@[k] as int];
    action matches BillAction::PushItem {
        stripe_customer_id,
        amount_cents,
        currency,
        description,
        idempotency_key: key,
    } && {
        &&& stripe_customer_id == b.stripe_customer_id
        &&& amount_cents == item.amount_cents
        &&& currency == b.currency
        &&& description == item.description
        &&& key@ == idempotency_key(b, item_call(b.pushes@[k] as int))
    }
}

/// The finalization of the Stripe invoice.
pub open spec fn finalize_action(b: SubscriptionBilling, action: BillAction) -> bool {
    action matches BillAction::Finalize { stripe_customer_id, currency, invoice_key, finalize_key }
        && stripe_customer_id == b.stripe_customer_id && currency == b.currency && invoice_key@
        == idempotency_key(b, "invoice"@) && finalize_key@ == idempotency_key(b, "finalize"@)
}

/// Storing the invoice line of the line item at `k`, under a fresh ID.
pub open spec fn line_action(b: SubscriptionBilling, k: int, action: BillAction) -> bool {
    action matches BillAction::StoreLine(l) && is_ulid(l.id@) && is_invoice_line(
        l,
        l.id,
        b.sub.tenant_id,
        b.invoice_id,
        b.items@[k],
    )
}

/// Storing the completed log entry under the pending entry's ID, so that the
/// pending run itself ends as completed (the log is keyed by ID).
pub open spec fn completed_action(b: SubscriptionBilling, action: BillAction) -> bool {
    action matches BillAction::StoreRun(r) && is_completed_run(r, b.sub, b.run_id, b.invoice_id, b.now)
}

/// The billing of a period logs one run: the entry stored when the billing
/// completes has the pending entry's ID and differs from it only in its status
/// (`completed`), its invoice and its completion time.
pub proof fn lemma_completed_run_ends_pending_run(
    b: SubscriptionBilling,
    pending: BillingRun,
    completed: BillingRun,
)
    requires
        is_pending_run(pending, b.sub, b.run_id, b.now),
        completed_action(b, BillAction::StoreRun(completed)),
    ensures
        completed.id == pending.id,
        completed == (BillingRun {
            status: completed.status,
            invoice_id: completed.invoice_id,
            completed_at: completed.completed_at,
            ..pending
        }),
        completed.status@ == "completed"@,
        completed.invoice_id == b.invoice_id,
        completed.completed_at == b.now,
{
}

/// How the billing answers a report, by step. A report that does not answer
/// the pending step ends the billing.
pub open spec fn bill_transition(
    b: SubscriptionBilling,
    event: BillEvent,
    b2: SubscriptionBilling,
    action: BillAction,
) -> bool {
    match (b.step, event) {
        (BillStep::Begin, BillEvent::Start) => {
            &&& b2 == (SubscriptionBilling { step: BillStep::RecordingPending, ..b })
            &&& action matches BillAction::StoreRun(r) && is_pending_run(r, b.sub, b.run_id, b.now)
        },
        (BillStep::RecordingPending, BillEvent::Stored(Ok(()))) => {
            &&& b2 == (SubscriptionBilling { step: BillStep::LoadingPlan, pending_recorded: true, ..b })
            &&& action == BillAction::LoadPlan(b.sub.plan_id)
        },
        (BillStep::LoadingPlan, BillEvent::PlanLoaded(Ok(Some(p)))) => {
            &&& b2 == (SubscriptionBilling { step: BillStep::LoadingCharges, currency: p.currency, ..b })
            &&& action == BillAction::LoadCharges(b.sub.plan_id)
        },
        (BillStep::LoadingPlan, BillEvent::PlanLoaded(Ok(None))) => fails(
            b,
            b2,
            action,
            "plan '"@ + b.sub.plan_id@ + "' not found"@,
        ),
        (BillStep::LoadingCharges, BillEvent::ChargesLoaded(Ok(cs))) => {
            &&& b2 == (SubscriptionBilling { step: BillStep::LoadingUsage, charges: cs, ..b })
            &&& action == (BillAction::LoadUsage {
                customer_id: b.sub.customer_id,
                start: b.sub.current_period_start,
                end: b.sub.current_period_end,
            })
        },
        (BillStep::LoadingUsage, BillEvent::UsageLoaded(Ok(u))) => {
            &&& b2.usage@ == u@
            &&& b2.items@.len() == 0
            &&& b2.cursor == 0
            &&& if b.charges@.len() == 0 {
                &&& b2 == (SubscriptionBilling {
                    step: BillStep::LoadingCustomer,
                    usage: b2.usage,
                    items: b2.items,
                    total: 0,
                    cursor: 0,
                    ..b
                })
                &&& action == BillAction::LoadCustomer(b.sub.customer_id)
            } else {
                &&& b2 == (SubscriptionBilling {
                    step: BillStep::Pricing,
                    usage: b2.usage,
                    items: b2.items,
                    cursor: 0,
                    ..b
                })
                &&& action == (BillAction::PriceCharge {
                    index: 0,
                    usage_bits: usage_of(u@, b.charges@[0].metric@),
                })
            }
        },
        (BillStep::Pricing, BillEvent::Priced(Ok(item))) => {
            let next = b.cursor + 1;
            &&& b2.items@ == b.items@.push(item)
            &&& if next < b.charges@.len() {
                &&& b2 == (SubscriptionBilling { items: b2.items, cursor: next as usize, ..b })
                &&& action == (BillAction::PriceCharge {
                    index: next as usize,
                    usage_bits: usage_of(b.usage@, b.charges@[next].metric@),
                })
            } else if totals_fit(b2.items@) {
                &&& b2 == (SubscriptionBilling {
                    step: BillStep::LoadingCustomer,
                    items: b2.items,
                    cursor: next as usize,
                    total: amount_sum(b2.items@, b2.items@.len() as int) as i64,
                    ..b
                })
                &&& action == BillAction::LoadCustomer(b.sub.customer_id)
            } else {
                fails(
                    SubscriptionBilling { items: b2.items, cursor: next as usize, ..b },
                    b2,
                    action,
                    "invoice total overflows"@,
                )
            }
        },
        (BillStep::LoadingCustomer, BillEvent::CustomerLoaded(Ok(Some(c)))) => {
            &&& positions(b2.pushes@) == pushed_items(b.items@)
            &&& if b2.pushes@.len() > 0 {
                &&& b2 == (SubscriptionBilling {
                    step: BillStep::Pushing,
                    stripe_customer_id: c.stripe_customer_id,
                    pushes: b2.pushes,
                    cursor: 0,
                    ..b
                })
                &&& push_action(b2, 0, action)
            } else {
                &&& b2 == (SubscriptionBilling {
                    step: BillStep::Finalizing,
                    stripe_customer_id: c.stripe_customer_id,
                    pushes: b2.pushes,
                    cursor: 0,
                    ..b
                })
                &&& finalize_action(b2, action)
            }
        },
        (BillStep::LoadingCustomer, BillEvent::CustomerLoaded(Ok(None))) => fails(
            b,
            b2,
            action,
            "customer '"@ + b.sub.customer_id@ + "' not found"@,
        ),
        (BillStep::Pushing, BillEvent::Pushed(Ok(()))) => {
            let next = b.cursor + 1;
            if next < b.pushes@.len() {
                &&& b2 == (SubscriptionBilling { cursor: next as usize, ..b })
                &&& push_action(b2, next, action)
            } else {
                &&& b2 == (SubscriptionBilling { step: BillStep::Finalizing, cursor: next as usize, ..b })
                &&& finalize_action(b2, action)
            }
        },
        (BillStep::Pushing, BillEvent::Pushed(Err(_))) => fails(
            b,
            b2,
            action,
            "create invoice item for metric '"@ + b.items@[b.pushes@[b.cursor as int] as int].metric@
                + "'"@,
        ),
        (BillStep::Finalizing, BillEvent::Finalized(Ok(sid))) => {
            &&& is_ulid(b2.invoice_id@)
            &&& b2 == (SubscriptionBilling {
                step: BillStep::StoringInvoice,
                stripe_invoice_id: sid,
                invoice_id: b2.invoice_id,
                ..b
            })
            &&& action matches BillAction::StoreInvoice(inv) && is_open_invoice(
                inv,
                b.sub,
                b2.invoice_id,
                b.run_id,
                sid,
                b.currency,
                b.total,
                b.now,
            )
        },
        (BillStep::Finalizing, BillEvent::Finalized(Err(_))) => fails(
            b,
            b2,
            action,
            "create and finalize invoice"@,
        ),
        (BillStep::StoringInvoice, BillEvent::Stored(Ok(()))) => {
            if b.items@.len() > 0 {
                &&& b2 == (SubscriptionBilling { step: BillStep::StoringLines, cursor: 0, ..b })
                &&& line_action(b2, 0, action)
            } else {
                &&& b2 == (SubscriptionBilling { step: BillStep::RecordingCompleted, ..b })
                &&& completed_action(b2, action)
            }
        },
        (BillStep::StoringLines, BillEvent::Stored(Ok(()))) => {
            let next = b.cursor + 1;
            if next < b.items@.len() {
                &&& b2 == (SubscriptionBilling { cursor: next as usize, ..b })
                &&& line_action(b2, next, action)
            } else {
                &&& b2 == (SubscriptionBilling {
                    step: BillStep::RecordingCompleted,
                    cursor: next as usize,
                    ..b
                })
                &&& completed_action(b2, action)
            }
        },
        (BillStep::RecordingCompleted, BillEvent::Stored(Ok(()))) => {
            &&& b2 == (SubscriptionBilling { step: BillStep::Over, ..b })
            &&& action == BillAction::Finished(Ok(()))
        },
        (BillStep::RecordingPending, BillEvent::Stored(Err(m)))
        | (BillStep::StoringInvoice, BillEvent::Stored(Err(m)))
        | (BillStep::StoringLines, BillEvent::Stored(Err(m)))
        | (BillStep::RecordingCompleted, BillEvent::Stored(Err(m)))
        | (BillStep::LoadingPlan, BillEvent::PlanLoaded(Err(m)))
        | (BillStep::LoadingCharges, BillEvent::ChargesLoaded(Err(m)))
        | (BillStep::LoadingUsage, BillEvent::UsageLoaded(Err(m)))
        | (BillStep::Pricing, BillEvent::Priced(Err(m)))
        | (BillStep::LoadingCustomer, BillEvent::CustomerLoaded(Err(m))) => fails(b, b2, action, m@),
        _ => fails(b, b2, action, "billing steps out of order"@),
    }
}

/// Loading the plan sets the billing's currency to the plan's.
pub proof fn lemma_plan_sets_currency(
    b: SubscriptionBilling,
    p: Plan,
    b2: SubscriptionBilling,
    action: BillAction,
)
    requires
        b.step == BillStep::LoadingPlan,
        bill_transition(b, BillEvent::PlanLoaded(Ok(Some(p))), b2, action),
    ensures
        b2.currency == p.currency,
        action == BillAction::LoadCharges(b.sub.plan_id),
{
}

/// No step but loading the plan changes the billing's currency.
pub proof fn lemma_currency_kept(
    b: SubscriptionBilling,
    event: BillEvent,
    b2: SubscriptionBilling,
    action: BillAction,
)
    requires
        b.step != BillStep::LoadingPlan,
        bill_transition(b, event, b2, action),
    ensures
        b2.currency == b.currency,
{
}

/// Finalizing stores the invoice in the billing's currency (the plan's), the
/// currency the Stripe invoice was created in, for the billing's total and
/// under the Stripe invoice's ID; the Stripe invoice is asked for in that
/// currency too.
pub proof fn lemma_invoice_in_billing_currency(
    b: SubscriptionBilling,
    sid: String,
    b2: SubscriptionBilling,
    action: BillAction,
    finalize: BillAction,
)
    requires
        b.step == BillStep::Finalizing,
        bill_transition(b, BillEvent::Finalized(Ok(sid)), b2, action),
        finalize_action(b, finalize),
    ensures
        action matches BillAction::StoreInvoice(inv) && inv.currency == b.currency
            && inv.stripe_invoice_id == sid && inv.amount_cents == b.total && inv.customer_id
            == b.sub.customer_id && inv.billing_run_id == b.run_id,
        finalize matches BillAction::Finalize { currency, .. } && currency == b.currency,
{
}

proof fn lemma_pushed_in_range(items: Seq<LineItem>)
    ensures
        forall|k: int|
            0 <= k < pushed_items(items).len() ==> 0 <= #[trigger] pushed_items(items)[k] < items.len(),
{
    let all = Seq::new(items.len(), |i: int| i);
    let pred = |i: int| items[i].amount_cents != 0;
    assert forall|k: int| 0 <= k < pushed_items(items).len() implies 0 <= #[trigger] pushed_items(
        items,
    )[k] < items.len() by {
        let x = all.filter(pred)[k];
        assert(all.filter(pred).contains(x));
        all.lemma_filter_contains_rev(pred, x);
        let j = choose|j: int| 0 <= j < all.len() && all[j] == x;
        assert(all[j] == j);
    }
}

impl SubscriptionBilling {
    /// What holds at every step: the pending log entry is stored before
    /// anything else happens, every charge is priced before the customer is
    /// loaded, the total is the sum of the line items, and the positions the
    /// current step works on are in range.
    pub open spec fn wf(&self) -> bool {
        let after_pricing = self.step == BillStep::LoadingCustomer || self.step == BillStep::Pushing
            || self.step == BillStep::Finalizing || self.step == BillStep::StoringInvoice || self.step
            == BillStep::StoringLines || self.step == BillStep::RecordingCompleted;
        &&& (self.step == BillStep::Begin || self.step == BillStep::RecordingPending) ==> !self.pending_recorded
        &&& !(self.step == BillStep::Begin || self.step == BillStep::RecordingPending || self.step
            == BillStep::Over) ==> self.pending_recorded
        &&& self.step == BillStep::Pricing ==> self.cursor < self.charges@.len() && self.items@.len()
            == self.cursor
        &&& after_pricing ==> {
            &&& self.items@.len() == self.charges@.len()
            &&& totals_fit(self.items@)
            &&& self.total == amount_sum(self.items@, self.items@.len() as int)
        }
        &&& (self.step == BillStep::Pushing || self.step == BillStep::Finalizing || self.step
            == BillStep::StoringInvoice || self.step == BillStep::StoringLines || self.step
            == BillStep::RecordingCompleted) ==> positions(self.pushes@) == pushed_items(self.items@)
        &&& !(self.step == BillStep::Pushing || self.step == BillStep::Finalizing || self.step
            == BillStep::StoringInvoice || self.step == BillStep::StoringLines || self.step
            == BillStep::RecordingCompleted || self.step == BillStep::Over) ==> self.pushes@.len() == 0
        &&& self.step == BillStep::Pushing ==> self.cursor < self.pushes@.len()
        &&& forall|k: int| 0 <= k < self.pushes@.len() ==> #[trigger] self.pushes@[k] < self.items@.len()
        &&& self.step == BillStep::StoringLines ==> self.cursor < self.items@.len()
        &&& is_ulid(self.run_id@)
    }

    /// The billing of `sub`'s current period at time `now` (µs), not started,
    /// with a fresh ID for its log entries.
    pub fn new(sub: Subscription, now: i64) -> (r: Self)
        ensures
            r.wf(),
            r.sub == sub,
            r.now == now,
            r.step == BillStep::Begin,
            !r.pending_recorded,
            r.charges@.len() == 0,
            r.usage@.len() == 0,
            r.items@.len() == 0,
            r.pushes@.len() == 0,
    {
        SubscriptionBilling {
            sub,
            now,
            run_id: new_ulid(),
            step: BillStep::Begin,
            pending_recorded: false,
            currency: String::new(),
            charges: Vec::new(),
            usage: Vec::new(),
            items: Vec::new(),
            total: 0,
            stripe_customer_id: String::new(),
            pushes: Vec::new(),
            cursor: 0,
            stripe_invoice_id: String::new(),
            invoice_id: String::new(),
        }
    }

    fn fail(&mut self, msg: String) -> (action: BillAction)
        ensures
            *final(self) == (SubscriptionBilling { step: BillStep::Over, ..*old(self) }),
            action matches BillAction::Finished(Err(m)) && m == msg,
    {
        self.step = BillStep::Over;
        BillAction::Finished(Err(msg))
    }

    fn push_item(&self, k: usize) -> (action: BillAction)
        requires
            k < self.pushes@.len(),
            self.pushes@[k as int] < self.items@.len(),
        ensures
            push_action(*self, k as int, action),
    {
        let item = &self.items[self.pushes[k]];
        let call = String::from_str("item-").concat(usize_to_decimal(self.pushes[k]).as_str());
        BillAction::PushItem {
            stripe_customer_id: self.stripe_customer_id.clone(),
            amount_cents: item.amount_cents,
            currency: self.currency.clone(),
            description: item.description.clone(),
            idempotency_key: self.key_for(call.as_str()),
        }
    }

    /// The idempotency key of the call `call` (see [`idempotency_key`]).
    fn key_for(&self, call: &str) -> (r: String)
        ensures
            r@ == idempotency_key(*self, call@),
    {
        let r = self.run_id.clone().concat("-").concat(self.sub.customer_id.as_str()).concat("-").concat(
            i64_to_decimal(self.sub.current_period_start).as_str(),
        ).concat("-").concat(call);
        proof {
            reveal_strlit("-");
        }
        assert(r@ =~= idempotency_key(*self, call@));
        r
    }

    fn finalize(&self) -> (action: BillAction)
        ensures
            finalize_action(*self, action),
    {
        BillAction::Finalize {
            stripe_customer_id: self.stripe_customer_id.clone(),
            currency: self.currency.clone(),
            invoice_key: self.key_for("invoice"),
            finalize_key: self.key_for("finalize"),
        }
    }

    fn store_line(&self, k: usize) -> (action: BillAction)
        requires
            k < self.items@.len(),
        ensures
            line_action(*self, k as int, action),
    {
        BillAction::StoreLine(
            invoice_line(new_ulid(), self.sub.tenant_id.clone(), self.invoice_id.clone(), &self.items[k]),
        )
    }

    fn complete(&self) -> (action: BillAction)
        ensures
            completed_action(*self, action),
    {
        BillAction::StoreRun(completed_run(&self.sub, self.run_id.clone(), self.invoice_id.clone(), self.now))
    }

    /// Takes in the caller's report and says what to do next (see
    /// [`bill_transition`]). Stripe is called only once the pending log entry
    /// is stored; the invoice's amount is the sum of the line items; the
    /// completed log entry is stored only after the invoice and all its lines.
    pub fn next(&mut self, event: BillEvent) -> (action: BillAction)
        requires
            old(self).wf(),
        ensures
            final(self).wf(),
            bill_transition(*old(self), event, *final(self), action),
            (action is PushItem || action is Finalize) ==> final(self).pending_recorded,
    {
        proof {
            lemma_pushed_in_range(self.items@);
        }
        match (self.step, event) {
            (BillStep::Begin, BillEvent::Start) => {
                self.step = BillStep::RecordingPending;
                BillAction::StoreRun(pending_run(&self.sub, self.run_id.clone(), self.now))
            },
            (BillStep::RecordingPending, BillEvent::Stored(Ok(()))) => {
                self.step = BillStep::LoadingPlan;
                self.pending_recorded = true;
                BillAction::LoadPlan(self.sub.plan_id.clone())
            },
            (BillStep::LoadingPlan, BillEvent::PlanLoaded(Ok(Some(p)))) => {
                self.step = BillStep::LoadingCharges;
                self.currency = p.currency;
                BillAction::LoadCharges(self.sub.plan_id.clone())
            },
            (BillStep::LoadingPlan, BillEvent::PlanLoaded(Ok(None))) => {
                let msg = String::from_str("plan '").concat(self.sub.plan_id.as_str()).concat(
                    "' not found",
                );
                self.fail(msg)
            },
            (BillStep::LoadingCharges, BillEvent::ChargesLoaded(Ok(cs))) => {
                self.step = BillStep::LoadingUsage;
                self.charges = cs;
                BillAction::LoadUsage {
                    customer_id: self.sub.customer_id.clone(),
                    start: self.sub.current_period_start,
                    end: self.sub.current_period_end,
                }
            },
            (BillStep::LoadingUsage, BillEvent::UsageLoaded(Ok(u))) => {
                self.usage = u;
                self.items = Vec::new();
                self.cursor = 0;
                if self.charges.len() == 0 {
                    self.step = BillStep::LoadingCustomer;
                    self.total = 0;
                    BillAction::LoadCustomer(self.sub.customer_id.clone())
                } else {
                    self.step = BillStep::Pricing;
                    let bits = usage_for_metric(&self.usage, self.charges[0].metric.as_str());
                    BillAction::PriceCharge { index: 0, usage_bits: bits }
                }
            },
            (BillStep::Pricing, BillEvent::Priced(Ok(item))) => {
                let n = self.charges.len();
                assert(self.cursor < n);
                self.items.push(item);
                let next = self.cursor + 1;
                self.cursor = next;
                if next < self.charges.len() {
                    let bits = usage_for_metric(&self.usage, self.charges[next].metric.as_str());
                    BillAction::PriceCharge { index: next, usage_bits: bits }
                } else {
                    match invoice_total(&self.items) {
                        Some(t) => {
                            self.step = BillStep::LoadingCustomer;
                            self.total = t;
                            BillAction::LoadCustomer(self.sub.customer_id.clone())
                        },
                        None => self.fail(String::from_str("invoice total overflows")),
                    }
                }
            },
            (BillStep::LoadingCustomer, BillEvent::CustomerLoaded(Ok(Some(c)))) => {
                self.stripe_customer_id = c.stripe_customer_id;
                self.pushes = items_to_invoice(&self.items);
                self.cursor = 0;
                proof {
                    assert forall|k: int| 0 <= k < self.pushes@.len() implies #[trigger] self.pushes@[k]
                        < self.items@.len() by {
                        assert(positions(self.pushes@)[k] == self.pushes@[k] as int);
                    }
                }
                if self.pushes.len() > 0 {
                    self.step = BillStep::Pushing;
                    self.push_item(0)
                } else {
                    self.step = BillStep::Finalizing;
                    self.finalize()
                }
            },
            (BillStep::LoadingCustomer, BillEvent::CustomerLoaded(Ok(None))) => {
                let msg = String::from_str("customer '").concat(self.sub.customer_id.as_str()).concat(
                    "' not found",
                );
                self.fail(msg)
            },
            (BillStep::Pushing, BillEvent::Pushed(Ok(()))) => {
                let n = self.pushes.len();
                assert(self.cursor < n);
                let next = self.cursor + 1;
                self.cursor = next;
                if next < self.pushes.len() {
                    self.push_item(next)
                } else {
                    self.step = BillStep::Finalizing;
                    self.finalize()
                }
            },
            (BillStep::Pushing, BillEvent::Pushed(Err(_))) => {
                let msg = String::from_str("create invoice item for metric '").concat(
                    self.items[self.pushes[self.cursor]].metric.as_str(),
                ).concat("'");
                self.fail(msg)
            },
            (BillStep::Finalizing, BillEvent::Finalized(Ok(sid))) => {
                self.invoice_id = new_ulid();
                self.stripe_invoice_id = sid;
                self.step = BillStep::StoringInvoice;
                BillAction::StoreInvoice(
                    open_invoice(
                        &self.sub,
                        self.invoice_id.clone(),
                        self.run_id.clone(),
                        self.stripe_invoice_id.clone(),
                        self.currency.clone(),
                        self.total,
                        self.now,
                    ),
                )
            },
            (BillStep::Finalizing, BillEvent::Finalized(Err(_))) => {
                self.fail(String::from_str("create and finalize invoice"))
            },
            (BillStep::StoringInvoice, BillEvent::Stored(Ok(()))) => {
                if self.items.len() > 0 {
                    self.step = BillStep::StoringLines;
                    self.cursor = 0;
                    self.store_line(0)
                } else {
                    self.step = BillStep::RecordingCompleted;
                    self.complete()
                }
            },
            (BillStep::StoringLines, BillEvent::Stored(Ok(()))) => {
                let n = self.items.len();
                assert(self.cursor < n);
                let next = self.cursor + 1;
                self.cursor = next;
                if next < self.items.len() {
                    self.store_line(next)
                } else {
                    self.step = BillStep::RecordingCompleted;
                    self.complete()
                }
            },
            (BillStep::RecordingCompleted, BillEvent::Stored(Ok(()))) => {
                self.step = BillStep::Over;
                BillAction::Finished(Ok(()))
            },
            (BillStep::RecordingPending, BillEvent::Stored(Err(m)))
            | (BillStep::StoringInvoice, BillEvent::Stored(Err(m)))
            | (BillStep::StoringLines, BillEvent::Stored(Err(m)))
            | (BillStep::RecordingCompleted, BillEvent::Stored(Err(m)))
            | (BillStep::LoadingPlan, BillEvent::PlanLoaded(Err(m)))
            | (BillStep::LoadingCharges, BillEvent::ChargesLoaded(Err(m)))
            | (BillStep::LoadingUsage, BillEvent::UsageLoaded(Err(m)))
            | (BillStep::Pricing, BillEvent::Priced(Err(m)))
            | (BillStep::LoadingCustomer, BillEvent::CustomerLoaded(Err(m))) => self.fail(m),
            _ => self.fail(String::from_str("billing steps out of order")),
        }
    }
}

/// The pending log entry comes first: the billing marks the period as logged
/// only when the store acknowledges the entry it was asked to store when the
/// billing began (`is_pending_run`, under the billing's run ID), and nothing
/// is sent to Stripe before that (see `SubscriptionBilling::next`).
pub proof fn lemma_pending_entry_comes_first(
    b: SubscriptionBilling,
    event: BillEvent,
    b2: SubscriptionBilling,
    action: BillAction,
)
    requires
        b.wf(),
        bill_transition(b, event, b2, action),
    ensures
        !b.pending_recorded && b2.pending_recorded ==> b.step == BillStep::RecordingPending && event
            == BillEvent::Stored(Ok(())),
        b.step == BillStep::Begin && event == BillEvent::Start ==> (action matches BillAction::StoreRun(
            r,
        ) && is_pending_run(r, b.sub, b.run_id, b.now)),
        (action is PushItem || action is Finalize) ==> b.pending_recorded,
{
    if !b.pending_recorded {
        assert(b.step == BillStep::Begin || b.step == BillStep::RecordingPending || b.step
            == BillStep::Over);
        if b.step == BillStep::RecordingPending {
            match event {
                BillEvent::Stored(Ok(u)) => {
                    assert(u == ());
                    assert(event == BillEvent::Stored(Ok(())));
                },
                BillEvent::Stored(Err(m)) => {
                    assert(b2.pending_recorded == b.pending_recorded);
                },
                _ => {
                    assert(b2.pending_recorded == b.pending_recorded);
                },
            }
        } else {
            assert(b2.pending_recorded == b.pending_recorded);
        }
    }
}

} // verus!
