//! The billing engine's decisions: which subscriptions are billed in a run, how
//! each outcome is accounted for, the records a billing writes, and the total
//! and Stripe line items of an invoice. The store and Stripe calls are made by
//! the caller, which hands each result back as an [`EngineEvent`].
use vstd::prelude::*;
use crate::records::{BillingRun, Event, Invoice, InvoiceLineItem, Subscription};
use crate::text::{contains_string, decimal, i64_to_decimal, str_eq, texts};
use crate::config::Config;

verus! {

/// Aggregated usage of one metric over a billing period.
pub struct MetricUsage {
    pub metric: String,
    pub quantity_bits: u64,
}

/// A priced line of an invoice.
pub struct LineItem {
    pub metric: String,
    pub description: String,
    pub quantity_bits: u64,
    pub amount_cents: i64,
    pub model: String,
}

/// What a billing run did.
pub struct BillingRunSummary {
    pub subscriptions_processed: usize,
    pub subscriptions_skipped: usize,
    pub errors: Vec<String>,
}

/// Where the engine stands on the current subscription.
#[derive(PartialEq, Eq, Structural, Clone, Copy, Debug)]
pub enum EnginePhase {
    /// Looking for the next subscription whose period has ended.
    Triage,
    /// Waiting for the billing log to say whether the period was billed.
    AwaitingLog,
    /// Waiting for the billing of the current subscription to finish.
    AwaitingBill,
}

/// What the caller reports back.
pub enum EngineEvent {
    /// Nothing new (used to start the run).
    Resume,
    /// Whether the billing log holds a run for the subscription and period,
    /// or why the log could not be read.
    LogChecked(Result<bool, String>),
    /// How billing the subscription ended.
    BillFinished(Result<(), String>),
}

/// What the caller does next.
#[derive(PartialEq, Eq, Structural, Clone, Copy, Debug)]
pub enum EngineAction {
    /// Ask the billing log whether subscription `index` was billed for its
    /// current period.
    CheckLog { index: usize },
    /// Bill subscription `index`.
    Bill { index: usize },
    /// The run is over.
    Done,
}

/// The billing engine over the active subscriptions of one run.
pub struct BillingEngine {
    pub subscriptions: Vec<Subscription>,
    pub now: i64,
    pub next_index: usize,
    pub phase: EnginePhase,
    pub summary: BillingRunSummary,
}

/// The engine's state as the specification sees it.
pub struct EngineView {
    pub next_index: int,
    pub phase: EnginePhase,
    pub processed: int,
    pub skipped: int,
    pub errors: Seq<Seq<char>>,
}

/// A subscription is billed once its current period has ended.
pub open spec fn is_due(sub: Subscription, now: i64) -> bool {
    sub.current_period_end <= now
}

/// The first subscription at or after `i` whose period has ended, or the
/// number of subscriptions when there is none.
pub open spec fn first_due(subs: Seq<Subscription>, now: i64, i: int) -> int
    decreases subs.len() - i,
{
    if i < 0 || i >= subs.len() {
        subs.len() as int
    } else if is_due(subs[i], now) {
        i
    } else {
        first_due(subs, now, i + 1)
    }
}

/// The error recorded when the billing log could not be read.
pub open spec fn log_error_text(sub_id: Seq<char>, err: Seq<char>) -> Seq<char> {
    "sub "@ + sub_id + ": check billing run: "@ + err
}

/// The error recorded when billing a subscription failed.
pub open spec fn bill_error_text(sub_id: Seq<char>, err: Seq<char>) -> Seq<char> {
    "sub "@ + sub_id + ": "@ + err
}

/// The state after the caller's report is taken in.
pub open spec fn take_event(subs: Seq<Subscription>, v: EngineView, event: EngineEvent) -> EngineView {
    let i = v.next_index;
    match (v.phase, event) {
        (EnginePhase::AwaitingLog, EngineEvent::LogChecked(Ok(true))) => EngineView {
            next_index: i + 1,
            phase: EnginePhase::Triage,
            skipped: v.skipped + 1,
            ..v
        },
        (EnginePhase::AwaitingLog, EngineEvent::LogChecked(Ok(false))) => EngineView {
            phase: EnginePhase::AwaitingBill,
            ..v
        },
        (EnginePhase::AwaitingLog, EngineEvent::LogChecked(Err(e))) => EngineView {
            next_index: i + 1,
            phase: EnginePhase::Triage,
            errors: v.errors.push(log_error_text(subs[i].id@, e@)),
            ..v
        },
        (EnginePhase::AwaitingBill, EngineEvent::BillFinished(Ok(()))) => EngineView {
            next_index: i + 1,
            phase: EnginePhase::Triage,
            processed: v.processed + 1,
            ..v
        },
        (EnginePhase::AwaitingBill, EngineEvent::BillFinished(Err(e))) => EngineView {
            next_index: i + 1,
            phase: EnginePhase::Triage,
            errors: v.errors.push(bill_error_text(subs[i].id@, e@)),
            ..v
        },
        _ => v,
    }
}

/// The state and action after a report: subscriptions whose period has not
/// ended are skipped; the next one that has is checked against the billing log.
/// A report that does not answer the pending action changes nothing.
pub open spec fn transition(subs: Seq<Subscription>, now: i64, v: EngineView, event: EngineEvent) -> (
    EngineView,
    EngineAction,
) {
    let v1 = take_event(subs, v, event);
    match v1.phase {
        EnginePhase::AwaitingLog => (v1, EngineAction::CheckLog { index: v1.next_index as usize }),
        EnginePhase::AwaitingBill => (v1, EngineAction::Bill { index: v1.next_index as usize }),
        EnginePhase::Triage => {
            let j = first_due(subs, now, v1.next_index);
            let skipped = v1.skipped + (j - v1.next_index);
            if j >= subs.len() {
                (EngineView { next_index: j, skipped, ..v1 }, EngineAction::Done)
            } else {
                (
                    EngineView { next_index: j, skipped, phase: EnginePhase::AwaitingLog, ..v1 },
                    EngineAction::CheckLog { index: j as usize },
                )
            }
        },
    }
}

/// The engine asks to bill a subscription only once the billing log said its
/// period is not billed: it starts waiting on a bill only by taking that answer
/// for the subscription it checked, and every bill request is for the
/// subscription it is waiting on, whose log check gave that answer.
pub proof fn lemma_bills_only_unlogged_periods(subs: Seq<Subscription>, now: i64, v: EngineView, event: EngineEvent)
    ensures
        ({
            let (v1, action) = transition(subs, now, v, event);
            &&& v1.phase == EnginePhase::AwaitingBill ==> v1.next_index == v.next_index && (v.phase
                == EnginePhase::AwaitingBill || (v.phase == EnginePhase::AwaitingLog && event
                == EngineEvent::LogChecked(Ok(false))))
            &&& action is Bill ==> v1.phase == EnginePhase::AwaitingBill && action
                == EngineAction::Bill { index: v.next_index as usize }
        }),
{
}

/// Every subscription whose current period has ended is asked about, however
/// long ago it ended: when the engine looks for the next subscription to bill
/// from position `i` on, and the first one at or after `i` whose period ended
/// (`current_period_end <= now`) is at `k`, it asks the billing log about `k`.
pub proof fn lemma_ended_periods_are_checked(
    subs: Seq<Subscription>,
    now: i64,
    v: EngineView,
    event: EngineEvent,
    k: int,
)
    requires
        take_event(subs, v, event).phase == EnginePhase::Triage,
        0 <= take_event(subs, v, event).next_index <= k < subs.len(),
        subs[k].current_period_end <= now,
        forall|j: int|
            take_event(subs, v, event).next_index <= j < k ==> now < (#[trigger] subs[j]).current_period_end,
    ensures
        transition(subs, now, v, event).1 == (EngineAction::CheckLog { index: k as usize }),
        transition(subs, now, v, event).0.next_index == k,
        transition(subs, now, v, event).0.phase == EnginePhase::AwaitingLog,
{
    let i = take_event(subs, v, event).next_index;
    lemma_first_due_bounds(subs, now, i);
    let f = first_due(subs, now, i);
    if f < k {
        assert(is_due(subs[f], now));
        assert(now < subs[f].current_period_end);
    }
    if f > k {
        assert(!is_due(subs[k], now));
    }
}

proof fn lemma_first_due_bounds(subs: Seq<Subscription>, now: i64, i: int)
    requires
        0 <= i <= subs.len(),
    ensures
        i <= first_due(subs, now, i) <= subs.len(),
        first_due(subs, now, i) < subs.len() ==> is_due(subs[first_due(subs, now, i)], now),
        forall|k: int| i <= k < first_due(subs, now, i) ==> !is_due(#[trigger] subs[k], now),
    decreases subs.len() - i,
{
    if i < subs.len() && !is_due(subs[i], now) {
        lemma_first_due_bounds(subs, now, i + 1);
    }
}

impl BillingRunSummary {
    /// Subscriptions accounted for: processed, skipped or failed.
    pub open spec fn accounted(&self) -> int {
        self.subscriptions_processed + self.subscriptions_skipped + self.errors.len()
    }
}

impl BillingEngine {
    pub open spec fn view(&self) -> EngineView {
        EngineView {
            next_index: self.next_index as int,
            phase: self.phase,
            processed: self.summary.subscriptions_processed as int,
            skipped: self.summary.subscriptions_skipped as int,
            errors: self.summary.errors@.map_values(|e: String| e@),
        }
    }

    /// Every subscription before the current one has been accounted for
    /// exactly once, and the current one is due while it is being handled.
    pub open spec fn wf(&self) -> bool {
        &&& self.next_index <= self.subscriptions.len()
        &&& self.summary.accounted() == self.next_index
        &&& self.phase != EnginePhase::Triage ==> self.next_index < self.subscriptions.len()
            && is_due(self.subscriptions@[self.next_index as int], self.now)
    }

    /// An engine for the given active subscriptions at time `now` (µs).
    pub fn new(subscriptions: Vec<Subscription>, now: i64) -> (r: Self)
        ensures
            r.wf(),
            r.subscriptions == subscriptions,
            r.now == now,
            r.next_index == 0,
            r.phase == EnginePhase::Triage,
            r.summary.subscriptions_processed == 0,
            r.summary.subscriptions_skipped == 0,
            r.summary.errors@.len() == 0,
    {
        BillingEngine {
            subscriptions,
            now,
            next_index: 0,
            phase: EnginePhase::Triage,
            summary: BillingRunSummary {
                subscriptions_processed: 0,
                subscriptions_skipped: 0,
                errors: Vec::new(),
            },
        }
    }

    /// Takes in the caller's report and says what to do next.
    pub fn next(&mut self, event: EngineEvent) -> (action: EngineAction)
        requires
            old(self).wf(),
        ensures
            final(self).wf(),
            final(self).subscriptions == old(self).subscriptions,
            final(self).now == old(self).now,
            (final(self).view(), action) == transition(
                old(self).subscriptions@,
                old(self).now,
                old(self).view(),
                event,
            ),
            action is Done ==> final(self).summary.accounted() == final(self).subscriptions.len(),
            action matches EngineAction::Bill { index } ==> {
                &&& (old(self).phase == EnginePhase::AwaitingLog && event == EngineEvent::LogChecked(
                    Ok(false),
                )) || old(self).phase == EnginePhase::AwaitingBill
                &&& index == old(self).next_index
                &&& is_due(old(self).subscriptions@[index as int], old(self).now)
            },
    {
        let ghost subs = self.subscriptions@;
        let ghost v0 = self.view();
        let i = self.next_index;
        match (self.phase, event) {
            (EnginePhase::AwaitingLog, EngineEvent::LogChecked(Ok(true))) => {
                self.next_index = i + 1;
                self.phase = EnginePhase::Triage;
                self.summary.subscriptions_skipped = self.summary.subscriptions_skipped + 1;
            },
            (EnginePhase::AwaitingLog, EngineEvent::LogChecked(Ok(false))) => {
                self.phase = EnginePhase::AwaitingBill;
            },
            (EnginePhase::AwaitingLog, EngineEvent::LogChecked(Err(e))) => {
                let msg = String::from_str("sub ").concat(self.subscriptions[i].id.as_str()).concat(
                    ": check billing run: ",
                ).concat(e.as_str());
                self.summary.errors.push(msg);
                self.next_index = i + 1;
                self.phase = EnginePhase::Triage;
            },
            (EnginePhase::AwaitingBill, EngineEvent::BillFinished(Ok(()))) => {
                self.next_index = i + 1;
                self.phase = EnginePhase::Triage;
                self.summary.subscriptions_processed = self.summary.subscriptions_processed + 1;
            },
            (EnginePhase::AwaitingBill, EngineEvent::BillFinished(Err(e))) => {
                let msg = String::from_str("sub ").concat(self.subscriptions[i].id.as_str()).concat(
                    ": ",
                ).concat(e.as_str());
                self.summary.errors.push(msg);
                self.next_index = i + 1;
                self.phase = EnginePhase::Triage;
            },
            _ => {},
        }
        proof {
            assert(self.view().errors =~= take_event(subs, v0, event).errors);
        }
        match self.phase {
            EnginePhase::AwaitingLog => EngineAction::CheckLog { index: self.next_index },
            EnginePhase::AwaitingBill => EngineAction::Bill { index: self.next_index },
            EnginePhase::Triage => {
                let ghost start = self.next_index as int;
                proof {
                    lemma_first_due_bounds(subs, self.now, start);
                }
                while self.next_index < self.subscriptions.len()
                    && self.subscriptions[self.next_index].current_period_end > self.now
                    invariant
                        self.subscriptions == old(self).subscriptions,
                        self.now == old(self).now,
                        self.subscriptions@ == subs,
                        start <= self.next_index <= self.subscriptions.len(),
                        self.next_index <= first_due(subs, self.now, start),
                        first_due(subs, self.now, start) <= subs.len(),
                        first_due(subs, self.now, start) < subs.len() ==> is_due(
                            subs[first_due(subs, self.now, start)],
                            self.now,
                        ),
                        forall|k: int|
                            start <= k < first_due(subs, self.now, start) ==> !is_due(
                                #[trigger] subs[k],
                                self.now,
                            ),
                        self.phase == EnginePhase::Triage,
                        self.summary.accounted() == self.next_index,
                        self.summary.subscriptions_skipped == take_event(subs, v0, event).skipped + (
                        self.next_index - start),
                        self.summary.subscriptions_processed == take_event(
                            subs,
                            v0,
                            event,
                        ).processed,
                        self.view().errors == take_event(subs, v0, event).errors,
                    decreases self.subscriptions.len() - self.next_index,
                {
                    self.summary.subscriptions_skipped = self.summary.subscriptions_skipped + 1;
                    self.next_index = self.next_index + 1;
                }
                if self.next_index >= self.subscriptions.len() {
                    EngineAction::Done
                } else {
                    self.phase = EnginePhase::AwaitingLog;
                    EngineAction::CheckLog { index: self.next_index }
                }
            },
        }
    }
}

/// A billing-log entry records a run for this subscription and period start.
pub open spec fn records_period(run: BillingRun, sub_id: Seq<char>, period_start: i64) -> bool {
    run.subscription_id@ == sub_id && run.period_start == period_start
}

/// The billing log holds a run for the subscription and period start.
pub open spec fn billed_for_period(log: Seq<BillingRun>, sub_id: Seq<char>, period_start: i64) -> bool {
    exists|i: int| 0 <= i < log.len() && records_period(#[trigger] log[i], sub_id, period_start)
}

/// The billing-log entry written when billing of `sub` starts, before Stripe
/// is called: status `pending`, no invoice, not completed.
pub open spec fn is_pending_run(r: BillingRun, sub: Subscription, run_id: String, now: i64) -> bool {
    &&& r.id == run_id
    &&& r.tenant_id == sub.tenant_id
    &&& r.customer_id == sub.customer_id
    &&& r.subscription_id == sub.id
    &&& r.plan_id == sub.plan_id
    &&& r.period_start == sub.current_period_start
    &&& r.period_end == sub.current_period_end
    &&& r.status@ == "pending"@
    &&& r.invoice_id@ == Seq::<char>::empty()
    &&& r.created_at == now
    &&& r.completed_at == 0
}

/// The pending billing-log entry of `sub` (see [`is_pending_run`]).
pub fn pending_run(sub: &Subscription, run_id: String, now: i64) -> (r: BillingRun)
    ensures
        is_pending_run(r, *sub, run_id, now),
{
    BillingRun {
        id: run_id,
        tenant_id: sub.tenant_id.clone(),
        customer_id: sub.customer_id.clone(),
        subscription_id: sub.id.clone(),
        plan_id: sub.plan_id.clone(),
        period_start: sub.current_period_start,
        period_end: sub.current_period_end,
        status: String::from_str("pending"),
        invoice_id: String::new(),
        created_at: now,
        completed_at: 0,
    }
}

/// The billing-log entry written once the invoice is stored: status
/// `completed`, completed at `now`.
pub open spec fn is_completed_run(r: BillingRun, sub: Subscription, id: String, invoice_id: String, now: i64) -> bool {
    &&& r.id == id
    &&& r.tenant_id == sub.tenant_id
    &&& r.customer_id == sub.customer_id
    &&& r.subscription_id == sub.id
    &&& r.plan_id == sub.plan_id
    &&& r.period_start == sub.current_period_start
    &&& r.period_end == sub.current_period_end
    &&& r.status@ == "completed"@
    &&& r.invoice_id == invoice_id
    &&& r.created_at == now
    &&& r.completed_at == now
}

/// The completed billing-log entry of `sub` (see [`is_completed_run`]).
pub fn completed_run(sub: &Subscription, id: String, invoice_id: String, now: i64) -> (r: BillingRun)
    ensures
        is_completed_run(r, *sub, id, invoice_id, now),
{
    BillingRun {
        id,
        tenant_id: sub.tenant_id.clone(),
        customer_id: sub.customer_id.clone(),
        subscription_id: sub.id.clone(),
        plan_id: sub.plan_id.clone(),
        period_start: sub.current_period_start,
        period_end: sub.current_period_end,
        status: String::from_str("completed"),
        invoice_id,
        created_at: now,
        completed_at: now,
    }
}

/// Once billing of a subscription has started, the log holds a run for its
/// period, so any later run checks the log, is told the period was billed,
/// skips the subscription and never bills it again.
pub proof fn lemma_billing_is_idempotent(
    log: Seq<BillingRun>,
    sub: Subscription,
    entry: BillingRun,
    subs: Seq<Subscription>,
    now: i64,
    v: EngineView,
)
    requires
        entry.subscription_id == sub.id,
        entry.period_start == sub.current_period_start,
        v.phase == EnginePhase::AwaitingLog,
        0 <= v.next_index < subs.len(),
        subs[v.next_index] == sub,
    ensures
        billed_for_period(log.push(entry), sub.id@, sub.current_period_start),
        ({
            let (v1, action) = transition(
                subs,
                now,
                v,
                EngineEvent::LogChecked(
                    Ok(billed_for_period(log.push(entry), sub.id@, sub.current_period_start)),
                ),
            );
            &&& !(action is Bill)
            &&& v1.skipped == v.skipped + 1 + (v1.next_index - (v.next_index + 1))
            &&& v1.next_index > v.next_index
        }),
{
    let l2 = log.push(entry);
    assert(records_period(l2[log.len() as int], sub.id@, sub.current_period_start));
    lemma_first_due_bounds(subs, now, v.next_index + 1);
}

/// The sum of the amounts of the first `n` line items.
pub open spec fn amount_sum(items: Seq<LineItem>, n: int) -> int
    decreases n,
{
    if n <= 0 {
        0
    } else {
        amount_sum(items, n - 1) + items[n - 1].amount_cents
    }
}

/// Every running total of the amounts fits an `i64`.
pub open spec fn totals_fit(items: Seq<LineItem>) -> bool {
    forall|n: int| 0 <= n <= items.len() ==> i64::MIN <= #[trigger] amount_sum(items, n) <= i64::MAX
}

/// The invoice total: the sum of the line items' amounts, or `None` when a
/// running total overflows `i64` (where summing in `i64` panics).
pub fn invoice_total(items: &Vec<LineItem>) -> (r: Option<i64>)
    ensures
        r == (if totals_fit(items@) {
            Some(amount_sum(items@, items@.len() as int) as i64)
        } else {
            None::<i64>
        }),
{
    let mut total: i64 = 0;
    let mut i: usize = 0;
    while i < items.len()
        invariant
            i <= items.len(),
            total == amount_sum(items@, i as int),
            forall|n: int| 0 <= n <= i ==> i64::MIN <= #[trigger] amount_sum(items@, n) <= i64::MAX,
        decreases items.len() - i,
    {
        match total.checked_add(items[i].amount_cents) {
            Some(t) => {
                total = t;
            },
            None => {
                assert(!(i64::MIN <= amount_sum(items@, i + 1) <= i64::MAX));
                return None;
            },
        }
        i = i + 1;
    }
    Some(total)
}

/// The positions of the line items that are sent to Stripe as invoice items:
/// those with a non-zero amount, in order.
pub open spec fn pushed_items(items: Seq<LineItem>) -> Seq<int> {
    Seq::new(items.len(), |i: int| i).filter(|i: int| items[i].amount_cents != 0)
}

/// The line items sent to Stripe as invoice items: those whose amount is not
/// zero, in order.
pub fn items_to_invoice(items: &Vec<LineItem>) -> (r: Vec<usize>)
    ensures
        r@.map_values(|i: usize| i as int) == pushed_items(items@),
{
    let ghost all = Seq::new(items@.len(), |i: int| i);
    let ghost pred = |i: int| items@[i].amount_cents != 0;
    let mut r: Vec<usize> = Vec::new();
    let mut i: usize = 0;
    while i < items.len()
        invariant
            i <= items.len(),
            all == Seq::new(items@.len(), |i: int| i),
            pred == (|i: int| items@[i].amount_cents != 0),
            r@.map_values(|i: usize| i as int) == all.take(i as int).filter(pred),
        decreases items.len() - i,
    {
        proof {
            reveal(Seq::filter);
            assert(all.take(i + 1).drop_last() =~= all.take(i as int));
            assert(all.take(i + 1).last() == i as int);
        }
        if items[i].amount_cents != 0 {
            let ghost before = r@;
            r.push(i);
            assert(r@.map_values(|i: usize| i as int) =~= before.map_values(|i: usize| i as int).push(
                i as int,
            ));
        }
        i = i + 1;
    }
    assert(all.take(items.len() as int) =~= all);
    r
}

/// The usage of `metric` over the period: the first aggregate for it, or zero
/// (the bit pattern of 0.0) when there is none.
pub open spec fn usage_of(usage: Seq<MetricUsage>, metric: Seq<char>) -> u64
    decreases usage.len(),
{
    if usage.len() == 0 {
        0
    } else if usage[0].metric@ == metric {
        usage[0].quantity_bits
    } else {
        usage_of(usage.drop_first(), metric)
    }
}

/// The usage of `metric` (see [`usage_of`]).
pub fn usage_for_metric(usage: &Vec<MetricUsage>, metric: &str) -> (r: u64)
    ensures
        r == usage_of(usage@, metric@),
{
    let mut i: usize = 0;
    assert(usage@.skip(0) =~= usage@);
    while i < usage.len()
        invariant
            i <= usage.len(),
            usage_of(usage@, metric@) == usage_of(usage@.skip(i as int), metric@),
        decreases usage.len() - i,
    {
        assert(usage@.skip(i as int)[0] == usage@[i as int]);
        if str_eq(usage[i].metric.as_str(), metric) {
            return usage[i].quantity_bits;
        }
        assert(usage@.skip(i as int).drop_first() =~= usage@.skip(i + 1));
        i = i + 1;
    }
    assert(usage@.skip(i as int).len() == 0);
    0
}

/// The Stripe key a billing run needs, or the error when none is configured.
pub fn billing_stripe_key(config: &Config) -> (r: Result<&str, String>)
    ensures
        match config.stripe_key {
            Some(k) => (r matches Ok(s) && s@ == k@),
            None => (r matches Err(e) && e@ == "DATEM_STRIPE_KEY is required for billing"@),
        },
{
    match &config.stripe_key {
        Some(k) => Ok(k.as_str()),
        None => Err(String::from_str("DATEM_STRIPE_KEY is required for billing")),
    }
}

/// How a metric's events are aggregated over a period: the sum of their
/// quantities, their number, the largest quantity, or the number of distinct
/// values of the `key` property.
#[derive(PartialEq, Eq, Structural, Clone, Copy, Debug)]
pub enum Aggregation {
    Sum,
    Count,
    Max,
    UniqueCount,
}

/// The aggregation a metric names (`sum`, `count`, `max`, `unique_count`);
/// metrics are created with one of these, and anything else sums.
pub open spec fn aggregation_of(name: Seq<char>) -> Aggregation {
    if name == "count"@ {
        Aggregation::Count
    } else if name == "max"@ {
        Aggregation::Max
    } else if name == "unique_count"@ {
        Aggregation::UniqueCount
    } else {
        Aggregation::Sum
    }
}

/// The aggregation a metric names (see [`aggregation_of`]).
pub fn aggregation(name: &str) -> (r: Aggregation)
    ensures
        r == aggregation_of(name@),
{
    if str_eq(name, "count") {
        Aggregation::Count
    } else if str_eq(name, "max") {
        Aggregation::Max
    } else if str_eq(name, "unique_count") {
        Aggregation::UniqueCount
    } else {
        Aggregation::Sum
    }
}

/// The SQL aggregate of an aggregation over the `events` table. The distinct
/// values of a property are not a column, so `unique_count` has none.
pub open spec fn aggregate_expr(a: Aggregation) -> Option<Seq<char>> {
    match a {
        Aggregation::Sum => Some("SUM(quantity)"@),
        Aggregation::Count => Some("COUNT(*)"@),
        Aggregation::Max => Some("MAX(quantity)"@),
        Aggregation::UniqueCount => None,
    }
}

/// The SQL that aggregates one metric's usage for a customer over
/// [`period_start`, `period_end`) as the metric's aggregation asks, in a
/// column `total_quantity`; `None` when the customer or metric identifier
/// holds a quote or the aggregation has no SQL aggregate.
pub fn usage_query(
    customer_id: &str,
    metric: &str,
    aggregation_name: &str,
    period_start: i64,
    period_end: i64,
) -> (r: Option<String>)
    ensures
        (customer_id@.contains('\'') || metric@.contains('\'') || aggregate_expr(
            aggregation_of(aggregation_name@),
        ) is None) ==> r is None,
        !(customer_id@.contains('\'') || metric@.contains('\'') || aggregate_expr(
            aggregation_of(aggregation_name@),
        ) is None) ==> (r matches Some(q) && q@ == "SELECT "@ + aggregate_expr(
            aggregation_of(aggregation_name@),
        )->0 + " AS total_quantity FROM events WHERE customer_id = '"@ + customer_id@
            + "' AND metric = '"@ + metric@ + "' AND timestamp >= "@ + decimal(period_start as int)
            + " AND timestamp < "@ + decimal(period_end as int)),
{
    if crate::text::contains_char(customer_id, '\'') || crate::text::contains_char(metric, '\'') {
        return None;
    }
    let expr = match aggregation(aggregation_name) {
        Aggregation::Sum => "SUM(quantity)",
        Aggregation::Count => "COUNT(*)",
        Aggregation::Max => "MAX(quantity)",
        Aggregation::UniqueCount => {
            return None;
        },
    };
    let start = i64_to_decimal(period_start);
    let end = i64_to_decimal(period_end);
    Some(
        String::from_str("SELECT ").concat(expr).concat(
            " AS total_quantity FROM events WHERE customer_id = '",
        ).concat(customer_id).concat("' AND metric = '").concat(metric).concat(
            "' AND timestamp >= ",
        ).concat(start.as_str()).concat(" AND timestamp < ").concat(end.as_str()),
    )
}

/// An event of `customer_id` for `metric` dated within [`start`, `end`).
pub open spec fn in_window(e: Event, customer_id: Seq<char>, metric: Seq<char>, start: i64, end: i64) -> bool {
    e.customer_id@ == customer_id && e.metric@ == metric && start <= e.timestamp && e.timestamp < end
}

/// The positions of the events that a metric's usage over a period is taken
/// from (see [`in_window`]), in order.
pub open spec fn window_positions(
    events: Seq<Event>,
    customer_id: Seq<char>,
    metric: Seq<char>,
    start: i64,
    end: i64,
) -> Seq<int> {
    Seq::new(events.len(), |i: int| i).filter(|i: int| in_window(events[i], customer_id, metric, start, end))
}

/// The positions of the events of `customer_id` for `metric` within
/// [`start`, `end`), in order; their number is the metric's `count`.
pub fn events_in_window(
    events: &Vec<Event>,
    customer_id: &str,
    metric: &str,
    start: i64,
    end: i64,
) -> (r: Vec<usize>)
    ensures
        r@.map_values(|i: usize| i as int) == window_positions(events@, customer_id@, metric@, start, end),
{
    let ghost all = Seq::new(events@.len(), |i: int| i);
    let ghost pred = |i: int| in_window(events@[i], customer_id@, metric@, start, end);
    let mut r: Vec<usize> = Vec::new();
    let mut i: usize = 0;
    while i < events.len()
        invariant
            i <= events.len(),
            all == Seq::new(events@.len(), |i: int| i),
            pred == (|i: int| in_window(events@[i], customer_id@, metric@, start, end)),
            r@.map_values(|i: usize| i as int) == all.take(i as int).filter(pred),
        decreases events.len() - i,
    {
        proof {
            reveal(Seq::filter);
            assert(all.take(i + 1).drop_last() =~= all.take(i as int));
            assert(all.take(i + 1).last() == i as int);
        }
        let e = &events[i];
        if str_eq(e.customer_id.as_str(), customer_id) && str_eq(e.metric.as_str(), metric)
            && start <= e.timestamp && e.timestamp < end {
            let ghost before = r@;
            r.push(i);
            assert(r@.map_values(|i: usize| i as int) =~= before.map_values(|i: usize| i as int).push(
                i as int,
            ));
        }
        i = i + 1;
    }
    assert(all.take(events.len() as int) =~= all);
    r
}

/// The first occurrence of each value of a list, in order.
pub open spec fn first_occurrences(s: Seq<Seq<char>>) -> Seq<Seq<char>>
    decreases s.len(),
{
    if s.len() == 0 {
        s
    } else {
        let rest = first_occurrences(s.drop_last());
        if rest.contains(s.last()) {
            rest
        } else {
            rest.push(s.last())
        }
    }
}

/// The values of a list without repeats: each value once, in order of first
/// occurrence. Its length is the number of distinct values (`unique_count`).
pub fn distinct_texts(values: &Vec<String>) -> (r: Vec<String>)
    ensures
        texts(r@) == first_occurrences(texts(values@)),
        forall|i: int, j: int| 0 <= i < j < r.len() ==> texts(r@)[i] != texts(r@)[j],
        forall|x: Seq<char>| texts(r@).contains(x) <==> texts(values@).contains(x),
{
    let mut r: Vec<String> = Vec::new();
    let mut i: usize = 0;
    while i < values.len()
        invariant
            i <= values.len(),
            forall|a: int, b: int| 0 <= a < b < r.len() ==> texts(r@)[a] != texts(r@)[b],
            forall|x: Seq<char>| texts(r@).contains(x) <==> texts(values@.take(i as int)).contains(x),
            texts(r@) == first_occurrences(texts(values@.take(i as int))),
        decreases values.len() - i,
    {
        let v = &values[i];
        let ghost before = texts(r@);
        let ghost cur = texts(values@.take(i as int));
        let ghost nxt = texts(values@.take(i + 1));
        proof {
            assert(nxt =~= cur.push(v@));
            assert(nxt.drop_last() =~= cur);
            assert(nxt.last() == v@);
        }
        if !contains_string(&r, v.as_str()) {
            r.push(v.clone());
            assert(texts(r@) =~= before.push(v@));
            assert forall|x: Seq<char>| texts(r@).contains(x) <==> nxt.contains(x) by {
                if texts(r@).contains(x) && x != v@ {
                    let j = choose|j: int| 0 <= j < texts(r@).len() && texts(r@)[j] == x;
                    assert(before[j] == x);
                    assert(before.contains(x));
                    assert(cur.contains(x));
                    let k = choose|k: int| 0 <= k < cur.len() && cur[k] == x;
                    assert(nxt[k] == x);
                }
                if nxt.contains(x) && x != v@ {
                    let j = choose|j: int| 0 <= j < nxt.len() && nxt[j] == x;
                    assert(cur[j] == x);
                    assert(before.contains(x));
                    let k = choose|k: int| 0 <= k < before.len() && before[k] == x;
                    assert(texts(r@)[k] == x);
                }
                if x == v@ {
                    assert(texts(r@)[texts(r@).len() - 1] == x);
                    assert(nxt[i as int] == x);
                }
            }
        } else {
            assert forall|x: Seq<char>| texts(r@).contains(x) <==> nxt.contains(x) by {
                if nxt.contains(x) && x != v@ {
                    let j = choose|j: int| 0 <= j < nxt.len() && nxt[j] == x;
                    assert(cur[j] == x);
                }
                if texts(r@).contains(x) {
                    let k = choose|k: int| 0 <= k < cur.len() && cur[k] == x;
                    assert(nxt[k] == x);
                }
                if x == v@ {
                    assert(nxt[i as int] == x);
                }
            }
        }
        i = i + 1;
    }
    assert(values@.take(values.len() as int) =~= values@);
    r
}

/// The position of the first column with the given name.
pub fn column_position(columns: &Vec<String>, name: &str) -> (r: Option<usize>)
    ensures
        match r {
            Some(i) => i < columns@.len() && columns@[i as int]@ == name@ && forall|j: int|
                0 <= j < i ==> columns@[j]@ != name@,
            None => forall|j: int| 0 <= j < columns@.len() ==> columns@[j]@ != name@,
        },
{
    let mut i: usize = 0;
    while i < columns.len()
        invariant
            i <= columns.len(),
            forall|j: int| 0 <= j < i ==> columns@[j]@ != name@,
        decreases columns.len() - i,
    {
        if str_eq(columns[i].as_str(), name) {
            return Some(i);
        }
        i = i + 1;
    }
    None
}

/// The invoice stored for a completed billing, status `open`.
pub open spec fn is_open_invoice(
    r: Invoice,
    sub: Subscription,
    id: String,
    billing_run_id: String,
    stripe_invoice_id: String,
    currency: String,
    amount_cents: i64,
    now: i64,
) -> bool {
    &&& r.id == id
    &&& r.tenant_id == sub.tenant_id
    &&& r.customer_id == sub.customer_id
    &&& r.subscription_id == sub.id
    &&& r.billing_run_id == billing_run_id
    &&& r.stripe_invoice_id == stripe_invoice_id
    &&& r.status@ == "open"@
    &&& r.currency == currency
    &&& r.amount_cents == amount_cents
    &&& r.period_start == sub.current_period_start
    &&& r.period_end == sub.current_period_end
    &&& r.created_at == now
}

/// The invoice stored for a billing is in the currency it is given (the
/// plan's), for the amount given, and belongs to the subscription's customer,
/// the subscription and its current period; it is open and refers to its
/// billing run and its Stripe invoice.
pub proof fn lemma_open_invoice_keeps_its_inputs(
    r: Invoice,
    sub: Subscription,
    id: String,
    billing_run_id: String,
    stripe_invoice_id: String,
    currency: String,
    amount_cents: i64,
    now: i64,
)
    requires
        is_open_invoice(r, sub, id, billing_run_id, stripe_invoice_id, currency, amount_cents, now),
    ensures
        r.currency == currency,
        r.amount_cents == amount_cents,
        r.customer_id == sub.customer_id,
        r.subscription_id == sub.id,
        r.period_start == sub.current_period_start,
        r.period_end == sub.current_period_end,
        r.status@ == "open"@,
        r.billing_run_id == billing_run_id,
        r.stripe_invoice_id == stripe_invoice_id,
        r.id == id,
        r.created_at == now,
{
}

/// The open invoice of a billing (see [`is_open_invoice`]).
pub fn open_invoice(
    sub: &Subscription,
    id: String,
    billing_run_id: String,
    stripe_invoice_id: String,
    currency: String,
    amount_cents: i64,
    now: i64,
) -> (r: Invoice)
    ensures
        is_open_invoice(r, *sub, id, billing_run_id, stripe_invoice_id, currency, amount_cents, now),
{
    Invoice {
        id,
        tenant_id: sub.tenant_id.clone(),
        customer_id: sub.customer_id.clone(),
        subscription_id: sub.id.clone(),
        billing_run_id,
        stripe_invoice_id,
        status: String::from_str("open"),
        currency,
        amount_cents,
        period_start: sub.current_period_start,
        period_end: sub.current_period_end,
        created_at: now,
    }
}

/// The stored line of an invoice for a priced line item.
pub open spec fn is_invoice_line(r: InvoiceLineItem, id: String, tenant_id: String, invoice_id: String, item: LineItem) -> bool {
    &&& r.id == id
    &&& r.tenant_id == tenant_id
    &&& r.invoice_id == invoice_id
    &&& r.metric == item.metric
    &&& r.description == item.description
    &&& r.quantity_bits == item.quantity_bits
    &&& r.amount_cents == item.amount_cents
    &&& r.model == item.model
}

/// The stored line of an invoice (see [`is_invoice_line`]).
pub fn invoice_line(id: String, tenant_id: String, invoice_id: String, item: &LineItem) -> (r: InvoiceLineItem)
    ensures
        is_invoice_line(r, id, tenant_id, invoice_id, *item),
{
    InvoiceLineItem {
        id,
        tenant_id,
        invoice_id,
        metric: item.metric.clone(),
        description: item.description.clone(),
        quantity_bits: item.quantity_bits,
        amount_cents: item.amount_cents,
        model: item.model.clone(),
    }
}

} // verus!
