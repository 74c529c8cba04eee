//! The rows of the service's tables. Every table is keyed by `id`.
//!
//! Quantities of usage are binary64 numbers in the service; the library never
//! computes with them and carries their IEEE-754 bit patterns (`quantity_bits`).
//! All monetary fields are integer minor currency units (cents).
use vstd::prelude::*;

verus! {

/// A billable unit of measurement. `aggregation` is one of sum, count, max,
/// unique_count; `status` is active or archived.
pub struct Metric {
    pub id: String,
    pub tenant_id: String,
    pub display: String,
    pub aggregation: String,
    pub status: String,
    pub created_at: i64,
}

/// A billable entity; `metadata` holds JSON text.
pub struct Customer {
    pub id: String,
    pub tenant_id: String,
    pub name: String,
    pub email: String,
    pub stripe_customer_id: String,
    pub metadata: String,
    pub created_at: i64,
}

/// A plan: a set of charges over a billing interval.
pub struct Plan {
    pub id: String,
    pub tenant_id: String,
    pub name: String,
    pub status: String,
    pub currency: String,
    pub interval: String,
    pub created_at: i64,
}

/// One charge of a plan. `metric` is empty for flat charges; `unit_price` and
/// `flat_amount` are 0 for models that do not use them.
pub struct Charge {
    pub id: String,
    pub tenant_id: String,
    pub plan_id: String,
    pub metric: String,
    pub model: String,
    pub unit_price: i64,
    pub flat_amount: i64,
    pub package_size: i64,
    pub display: String,
}

/// One tier of a tiered charge. An `up_to` of -1 means the tier is unbounded.
pub struct Tier {
    pub id: String,
    pub tenant_id: String,
    pub charge_id: String,
    pub up_to: i64,
    pub unit_price: i64,
    pub flat_fee: i64,
    pub position: i32,
}

/// A customer's subscription to a plan. `cancelled_at` is 0 while not cancelled.
pub struct Subscription {
    pub id: String,
    pub tenant_id: String,
    pub customer_id: String,
    pub plan_id: String,
    pub status: String,
    pub current_period_start: i64,
    pub current_period_end: i64,
    pub stripe_subscription_id: String,
    pub created_at: i64,
    pub cancelled_at: i64,
}

/// An entry of the billing log. `completed_at` is 0 while the run is pending or
/// failed; `invoice_id` is empty until the run completes.
pub struct BillingRun {
    pub id: String,
    pub tenant_id: String,
    pub customer_id: String,
    pub subscription_id: String,
    pub plan_id: String,
    pub period_start: i64,
    pub period_end: i64,
    pub status: String,
    pub invoice_id: String,
    pub created_at: i64,
    pub completed_at: i64,
}

/// An invoice produced by a billing run.
pub struct Invoice {
    pub id: String,
    pub tenant_id: String,
    pub customer_id: String,
    pub subscription_id: String,
    pub billing_run_id: String,
    pub stripe_invoice_id: String,
    pub status: String,
    pub currency: String,
    pub amount_cents: i64,
    pub period_start: i64,
    pub period_end: i64,
    pub created_at: i64,
}

/// One line of an invoice.
pub struct InvoiceLineItem {
    pub id: String,
    pub tenant_id: String,
    pub invoice_id: String,
    pub metric: String,
    pub description: String,
    pub quantity_bits: u64,
    pub amount_cents: i64,
    pub model: String,
}

/// A usage event; `properties` holds JSON text.
pub struct Event {
    pub id: String,
    pub tenant_id: String,
    pub customer_id: String,
    pub metric: String,
    pub quantity_bits: u64,
    pub timestamp: i64,
    pub properties: String,
}

impl Clone for Metric {
    fn clone(&self) -> (r: Self)
        ensures
            r == *self,
    {
        Metric {
            id: self.id.clone(),
            tenant_id: self.tenant_id.clone(),
            display: self.display.clone(),
            aggregation: self.aggregation.clone(),
            status: self.status.clone(),
            created_at: self.created_at,
        }
    }
}

impl Clone for Customer {
    fn clone(&self) -> (r: Self)
        ensures
            r == *self,
    {
        Customer {
            id: self.id.clone(),
            tenant_id: self.tenant_id.clone(),
            name: self.name.clone(),
            email: self.email.clone(),
            stripe_customer_id: self.stripe_customer_id.clone(),
            metadata: self.metadata.clone(),
            created_at: self.created_at,
        }
    }
}

impl Clone for Plan {
    fn clone(&self) -> (r: Self)
        ensures
            r == *self,
    {
        Plan {
            id: self.id.clone(),
            tenant_id: self.tenant_id.clone(),
            name: self.name.clone(),
            status: self.status.clone(),
            currency: self.currency.clone(),
            interval: self.interval.clone(),
            created_at: self.created_at,
        }
    }
}

impl Clone for Charge {
    fn clone(&self) -> (r: Self)
        ensures
            r == *self,
    {
        Charge {
            id: self.id.clone(),
            tenant_id: self.tenant_id.clone(),
            plan_id: self.plan_id.clone(),
            metric: self.metric.clone(),
            model: self.model.clone(),
            unit_price: self.unit_price,
            flat_amount: self.flat_amount,
            package_size: self.package_size,
            display: self.display.clone(),
        }
    }
}

impl Clone for Tier {
    fn clone(&self) -> (r: Self)
        ensures
            r == *self,
    {
        Tier {
            id: self.id.clone(),
            tenant_id: self.tenant_id.clone(),
            charge_id: self.charge_id.clone(),
            up_to: self.up_to,
            unit_price: self.unit_price,
            flat_fee: self.flat_fee,
            position: self.position,
        }
    }
}

impl Clone for Subscription {
    fn clone(&self) -> (r: Self)
        ensures
            r == *self,
    {
        Subscription {
            id: self.id.clone(),
            tenant_id: self.tenant_id.clone(),
            customer_id: self.customer_id.clone(),
            plan_id: self.plan_id.clone(),
            status: self.status.clone(),
            current_period_start: self.current_period_start,
            current_period_end: self.current_period_end,
            stripe_subscription_id: self.stripe_subscription_id.clone(),
            created_at: self.created_at,
            cancelled_at: self.cancelled_at,
        }
    }
}

impl Clone for Event {
    fn clone(&self) -> (r: Self)
        ensures
            r == *self,
    {
        Event {
            id: self.id.clone(),
            tenant_id: self.tenant_id.clone(),
            customer_id: self.customer_id.clone(),
            metric: self.metric.clone(),
            quantity_bits: self.quantity_bits,
            timestamp: self.timestamp,
            properties: self.properties.clone(),
        }
    }
}

impl Clone for BillingRun {
    fn clone(&self) -> (r: Self)
        ensures
            r == *self,
    {
        BillingRun {
            id: self.id.clone(),
            tenant_id: self.tenant_id.clone(),
            customer_id: self.customer_id.clone(),
            subscription_id: self.subscription_id.clone(),
            plan_id: self.plan_id.clone(),
            period_start: self.period_start,
            period_end: self.period_end,
            status: self.status.clone(),
            invoice_id: self.invoice_id.clone(),
            created_at: self.created_at,
            completed_at: self.completed_at,
        }
    }
}

impl Clone for Invoice {
    fn clone(&self) -> (r: Self)
        ensures
            r == *self,
    {
        Invoice {
            id: self.id.clone(),
            tenant_id: self.tenant_id.clone(),
            customer_id: self.customer_id.clone(),
            subscription_id: self.subscription_id.clone(),
            billing_run_id: self.billing_run_id.clone(),
            stripe_invoice_id: self.stripe_invoice_id.clone(),
            status: self.status.clone(),
            currency: self.currency.clone(),
            amount_cents: self.amount_cents,
            period_start: self.period_start,
            period_end: self.period_end,
            created_at: self.created_at,
        }
    }
}

impl Clone for InvoiceLineItem {
    fn clone(&self) -> (r: Self)
        ensures
            r == *self,
    {
        InvoiceLineItem {
            id: self.id.clone(),
            tenant_id: self.tenant_id.clone(),
            invoice_id: self.invoice_id.clone(),
            metric: self.metric.clone(),
            description: self.description.clone(),
            quantity_bits: self.quantity_bits,
            amount_cents: self.amount_cents,
            model: self.model.clone(),
        }
    }
}

/// Why an archival stores nothing: the record is unknown (or already
/// archived), or something active still uses it.
#[derive(Debug, Clone, Copy, PartialEq, Eq, Structural)]
pub enum ArchiveRefusal {
    NotFound,
    InUse,
}

} // verus!
