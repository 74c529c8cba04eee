//! Verified core of a usage-metering and billing service: request validation,
//! pricing plans, subscriptions, usage ingestion and the billing engine's decisions.
pub mod text;
pub mod records;
pub mod order;
pub mod store;
pub mod config;
pub mod clock;
pub mod billing;
pub mod invoicing;
pub mod api_error;
pub mod ingest;
pub mod plans;
pub mod subscriptions;
pub mod customers;
pub mod metrics;
pub mod query;
pub mod auth;
pub mod bench;
pub mod forwarding;
