# datem

A usage-metering and billing service: metrics, pricing plans, customers and
subscriptions over an HTTP API, usage events ingested over HTTP or an SQS queue,
and a billing engine that prices each ended period and invoices it through
Stripe.

- `src/` is the verified library (Verus): request validation and the API's
  error answers, the store's queries over scanned rows (customer pages, tier
  order, status filters, the billing log), plan and charge parsing, the
  subscription lifecycle, ingestion rules and the existence cache, the billing
  engine as a state machine, and the configuration. Its laws are public proof
  functions (`lemma_*`).
- `tests/` runs the library on concrete values.
- `app/` is the program around it: the axum server, the Lambda handlers, the
  tonbo tables and the database actor, Stripe calls, floating-point pricing,
  the load generator and the dashboard proxy.

What this build leaves out:

- The ad-hoc SQL endpoint (`POST /query`) runs on DataFusion, which this build
  does not link: the store answers every query with an error. Billing does not
  depend on it. It asks SQL for each charged metric's usage first and, when no
  answer comes, aggregates the stored events itself, each metric as it names
  (sum, count, max, or distinct `key` values). Sums and maxima of the binary64
  quantities are taken in `app/`.
- `futures` is a dependency of `app/` alone: it provides `StreamExt::next`,
  which walks tonbo's scan streams.
