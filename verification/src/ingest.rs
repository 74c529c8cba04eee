//! Usage-event ingestion: validation of single events, of batches and of SQS
//! records, the positive existence cache, and ingestion statistics.
use vstd::prelude::*;
use crate::api_error::{api_error, error_is, ApiError, SERVICE_UNAVAILABLE, UNPROCESSABLE_ENTITY};
use crate::records::Event;
use crate::text::{contains_string, decimal, i64_to_decimal, texts, usize_to_decimal};

verus! {

/// The most events one batch request may carry.
pub const MAX_BATCH: usize = 1000;

/// How far in the past an event may be dated: 24 hours, in microseconds.
pub const MAX_BACKDATE_US: i64 = 86_400_000_000;

/// How far in the future an event may be dated: 60 seconds, in microseconds.
pub const MAX_FUTURE_US: i64 = 60_000_000;

/// One event of an ingest request. `quantity_bits` is the bit pattern of the
/// binary64 quantity; `properties` is the JSON text of the properties object.
pub struct IngestOneReq {
    pub event_id: Option<String>,
    pub customer_id: Option<String>,
    pub metric: Option<String>,
    pub quantity_bits: Option<u64>,
    pub timestamp: Option<i64>,
    pub properties: Option<String>,
}

/// A batch ingest request.
pub struct IngestBatchReq {
    pub events: Option<Vec<IngestOneReq>>,
}

/// An event whose fields passed validation.
pub struct ValidatedEvent {
    pub event_id: String,
    pub customer_id: String,
    pub metric: String,
    pub quantity_bits: u64,
    pub timestamp: i64,
    pub properties: String,
}

impl Clone for ValidatedEvent {
    fn clone(&self) -> (r: Self)
        ensures
            r == *self,
    {
        ValidatedEvent {
            event_id: self.event_id.clone(),
            customer_id: self.customer_id.clone(),
            metric: self.metric.clone(),
            quantity_bits: self.quantity_bits,
            timestamp: self.timestamp,
            properties: self.properties.clone(),
        }
    }
}

/// Why one event of a batch was rejected.
pub struct EventError {
    pub event_id: String,
    pub error: String,
}

/// An SQS record's body, as sent to the ingest queue, in the shape of an HTTP
/// ingest request. `properties` is the JSON text of the properties value, when
/// the record carries one.
pub struct IngestRecord {
    pub event_id: Option<String>,
    pub customer_id: Option<String>,
    pub metric: Option<String>,
    pub quantity_bits: Option<u64>,
    pub timestamp: Option<i64>,
    pub properties: Option<String>,
}

/// The clock reading leaves room for the accepted window without overflow.
pub open spec fn clock_in_range(now: i64) -> bool {
    i64::MIN + MAX_BACKDATE_US <= now && now <= i64::MAX - MAX_FUTURE_US
}

pub open spec fn present(o: Option<String>) -> bool {
    o matches Some(s) && s@.len() > 0
}

/// Why the event's fields are invalid, or `None` when they are valid.
pub open spec fn field_error(req: IngestOneReq, now: i64) -> Option<Seq<char>> {
    if !present(req.event_id) {
        Some("event_id is required"@)
    } else if !present(req.customer_id) {
        Some("customer_id is required"@)
    } else if !present(req.metric) {
        Some("metric is required"@)
    } else if req.quantity_bits is None {
        Some("quantity is required"@)
    } else if req.timestamp is None {
        Some("timestamp is required"@)
    } else if req.timestamp->0 > now + MAX_FUTURE_US {
        Some("timestamp "@ + decimal(req.timestamp->0 as int) + " is more than 60 seconds in the future"@)
    } else if req.timestamp->0 < now - MAX_BACKDATE_US {
        Some("timestamp "@ + decimal(req.timestamp->0 as int) + " is more than 24 hours in the past"@)
    } else {
        None
    }
}

/// The properties text stored for an event: the one given, else `{}`.
pub open spec fn properties_or_empty(o: Option<String>) -> Seq<char> {
    match o {
        Some(p) => p@,
        None => "{}"@,
    }
}

/// The validated event carries the request's fields; absent properties are `{}`.
pub open spec fn validated_from(v: ValidatedEvent, req: IngestOneReq) -> bool {
    &&& v.event_id == req.event_id->0
    &&& v.customer_id == req.customer_id->0
    &&& v.metric == req.metric->0
    &&& v.quantity_bits == req.quantity_bits->0
    &&& v.timestamp == req.timestamp->0
    &&& v.properties@ == properties_or_empty(req.properties)
}

fn present_text(o: &Option<String>) -> (r: Option<&String>)
    ensures
        match r {
            Some(s) => present(*o) && *s == o->0,
            None => !present(*o),
        },
{
    match o {
        Some(s) => if s.as_str().is_empty() {
            None
        } else {
            Some(s)
        },
        None => None,
    }
}

/// Validates an event's fields against the clock reading `now_us` (µs): the
/// identifiers must be present and non-empty, quantity and timestamp present,
/// and the timestamp at most 60 seconds ahead and 24 hours behind.
pub fn validate_fields(req: &IngestOneReq, now_us: i64) -> (r: Result<ValidatedEvent, String>)
    requires
        clock_in_range(now_us),
    ensures
        match field_error(*req, now_us) {
            Some(m) => (r matches Err(e) && e@ == m),
            None => (r matches Ok(v) && validated_from(v, *req)),
        },
{
    let event_id = match present_text(&req.event_id) {
        Some(s) => s.clone(),
        None => return Err(String::from_str("event_id is required")),
    };
    let customer_id = match present_text(&req.customer_id) {
        Some(s) => s.clone(),
        None => return Err(String::from_str("customer_id is required")),
    };
    let metric = match present_text(&req.metric) {
        Some(s) => s.clone(),
        None => return Err(String::from_str("metric is required")),
    };
    let quantity_bits = match req.quantity_bits {
        Some(q) => q,
        None => return Err(String::from_str("quantity is required")),
    };
    let timestamp = match req.timestamp {
        Some(t) => t,
        None => return Err(String::from_str("timestamp is required")),
    };
    if timestamp > now_us + MAX_FUTURE_US {
        return Err(
            String::from_str("timestamp ").concat(i64_to_decimal(timestamp).as_str()).concat(
                " is more than 60 seconds in the future",
            ),
        );
    }
    if timestamp < now_us - MAX_BACKDATE_US {
        return Err(
            String::from_str("timestamp ").concat(i64_to_decimal(timestamp).as_str()).concat(
                " is more than 24 hours in the past",
            ),
        );
    }
    let properties = match &req.properties {
        Some(p) => p.clone(),
        None => String::from_str("{}"),
    };
    Ok(ValidatedEvent { event_id, customer_id, metric, quantity_bits, timestamp, properties })
}

/// Why an SQS record is invalid, or `None` when it is valid.
pub open spec fn record_error(r: IngestRecord, now: i64) -> Option<Seq<char>> {
    if !present(r.event_id) {
        Some("event_id is required"@)
    } else if !present(r.customer_id) {
        Some("customer_id is required"@)
    } else if !present(r.metric) {
        Some("metric is required"@)
    } else if r.quantity_bits is None {
        Some("quantity is required"@)
    } else if r.timestamp is None {
        Some("timestamp is required"@)
    } else if r.timestamp->0 > now + MAX_FUTURE_US {
        Some("timestamp is more than 60 seconds in the future"@)
    } else if r.timestamp->0 < now - MAX_BACKDATE_US {
        Some("timestamp is more than 24 hours in the past"@)
    } else {
        None
    }
}

/// Validates an SQS record with the same rules as the HTTP API and turns it
/// into an event of the default tenant.
pub fn validate(r: IngestRecord, now_us: i64) -> (res: Result<Event, String>)
    requires
        clock_in_range(now_us),
    ensures
        match record_error(r, now_us) {
            Some(m) => (res matches Err(e) && e@ == m),
            None => (res matches Ok(ev) && {
                &&& ev.id == r.event_id->0
                &&& ev.tenant_id@ == "default"@
                &&& ev.customer_id == r.customer_id->0
                &&& ev.metric == r.metric->0
                &&& ev.quantity_bits == r.quantity_bits->0
                &&& ev.timestamp == r.timestamp->0
                &&& ev.properties@ == properties_or_empty(r.properties)
            }),
        },
{
    let event_id = match present_text(&r.event_id) {
        Some(s) => s.clone(),
        None => return Err(String::from_str("event_id is required")),
    };
    let customer_id = match present_text(&r.customer_id) {
        Some(s) => s.clone(),
        None => return Err(String::from_str("customer_id is required")),
    };
    let metric = match present_text(&r.metric) {
        Some(s) => s.clone(),
        None => return Err(String::from_str("metric is required")),
    };
    let quantity_bits = match r.quantity_bits {
        Some(q) => q,
        None => return Err(String::from_str("quantity is required")),
    };
    let timestamp = match r.timestamp {
        Some(t) => t,
        None => return Err(String::from_str("timestamp is required")),
    };
    if timestamp > now_us + MAX_FUTURE_US {
        return Err(String::from_str("timestamp is more than 60 seconds in the future"));
    }
    if timestamp < now_us - MAX_BACKDATE_US {
        return Err(String::from_str("timestamp is more than 24 hours in the past"));
    }
    let properties = match r.properties {
        Some(p) => p,
        None => String::from_str("{}"),
    };
    Ok(
        Event {
            id: event_id,
            tenant_id: String::from_str("default"),
            customer_id,
            metric,
            quantity_bits,
            timestamp,
            properties,
        },
    )
}

/// The queue and the HTTP API accept the same events: a queue record is
/// refused exactly when the HTTP request carrying the same fields is, and when
/// both are accepted they store the same properties (`{}` when absent).
pub proof fn lemma_queue_and_api_agree(r: IngestRecord, req: IngestOneReq, now: i64)
    requires
        req.event_id == r.event_id,
        req.customer_id == r.customer_id,
        req.metric == r.metric,
        req.quantity_bits == r.quantity_bits,
        req.timestamp == r.timestamp,
        req.properties == r.properties,
    ensures
        (record_error(r, now) is None) <==> (field_error(req, now) is None),
        properties_or_empty(r.properties) == properties_or_empty(req.properties),
{
}

/// The event an accepted, validated event is stored as: the default tenant.
pub open spec fn event_from(e: Event, v: ValidatedEvent) -> bool {
    &&& e.id == v.event_id
    &&& e.tenant_id@ == "default"@
    &&& e.customer_id == v.customer_id
    &&& e.metric == v.metric
    &&& e.quantity_bits == v.quantity_bits
    &&& e.timestamp == v.timestamp
    &&& e.properties == v.properties
}

/// Turns a validated event into the event stored for it.
pub fn into_event(v: ValidatedEvent) -> (e: Event)
    ensures
        event_from(e, v),
{
    Event {
        id: v.event_id,
        tenant_id: String::from_str("default"),
        customer_id: v.customer_id,
        metric: v.metric,
        quantity_bits: v.quantity_bits,
        timestamp: v.timestamp,
        properties: v.properties,
    }
}

/// The answer to a single event whose fields are invalid (422 invalid_event).
pub fn invalid_event(message: String) -> (r: ApiError)
    ensures
        error_is(r, UNPROCESSABLE_ENTITY, "invalid_event"@, message@, None),
{
    api_error(UNPROCESSABLE_ENTITY, "invalid_event", message, None)
}

/// How a single validated event is answered once the store has said whether its
/// customer and its metric exist: an unknown customer, else an unknown metric,
/// is refused (422 customer_not_found, metric_not_found); otherwise the event
/// to queue.
pub fn accept_one(v: ValidatedEvent, customer_exists: bool, metric_exists: bool) -> (r: Result<
    Event,
    ApiError,
>)
    ensures
        !customer_exists ==> (r matches Err(e) && error_is(
            e,
            UNPROCESSABLE_ENTITY,
            "customer_not_found"@,
            "customer '"@ + v.customer_id@ + "' not found"@,
            Some("customer_id"@),
        )),
        customer_exists && !metric_exists ==> (r matches Err(e) && error_is(
            e,
            UNPROCESSABLE_ENTITY,
            "metric_not_found"@,
            "metric '"@ + v.metric@ + "' not found"@,
            Some("metric"@),
        )),
        customer_exists && metric_exists ==> (r matches Ok(ev) && event_from(ev, v)),
{
    if !customer_exists {
        return Err(
            api_error(
                UNPROCESSABLE_ENTITY,
                "customer_not_found",
                String::from_str("customer '").concat(v.customer_id.as_str()).concat("' not found"),
                Some("customer_id"),
            ),
        );
    }
    if !metric_exists {
        return Err(
            api_error(
                UNPROCESSABLE_ENTITY,
                "metric_not_found",
                String::from_str("metric '").concat(v.metric.as_str()).concat("' not found"),
                Some("metric"),
            ),
        );
    }
    Ok(into_event(v))
}

/// The answer when the ingest queue no longer takes events (503).
pub fn queue_unavailable() -> (r: ApiError)
    ensures
        error_is(r, SERVICE_UNAVAILABLE, "queue_unavailable"@, "ingest queue is not available"@, None),
{
    api_error(
        SERVICE_UNAVAILABLE,
        "queue_unavailable",
        String::from_str("ingest queue is not available"),
        None,
    )
}

/// The answer to a batch request that is missing, empty or too large, or
/// `None` when its size is acceptable.
pub open spec fn batch_size_error(events: Option<Seq<IngestOneReq>>) -> Option<(Seq<char>, Seq<char>)> {
    match events {
        None => Some(("missing_field"@, "events array is required and must not be empty"@)),
        Some(e) => if e.len() == 0 {
            Some(("missing_field"@, "events array is required and must not be empty"@))
        } else if e.len() > MAX_BATCH {
            Some(
                (
                    "batch_too_large"@,
                    "batch size "@ + decimal(e.len() as int) + " exceeds maximum of 1000"@,
                ),
            )
        } else {
            None
        },
    }
}

/// Checks that a batch carries between 1 and 1000 events.
pub fn check_batch(req: &IngestBatchReq) -> (r: Result<(), ApiError>)
    ensures
        match batch_size_error(
            match req.events {
                Some(e) => Some(e@),
                None => None,
            },
        ) {
            Some((code, message)) => (r matches Err(e) && error_is(
                e,
                UNPROCESSABLE_ENTITY,
                code,
                message,
                Some("events"@),
            )),
            None => r is Ok,
        },
{
    match &req.events {
        None => Err(
            api_error(
                UNPROCESSABLE_ENTITY,
                "missing_field",
                String::from_str("events array is required and must not be empty"),
                Some("events"),
            ),
        ),
        Some(events) => {
            if events.len() == 0 {
                Err(
                    api_error(
                        UNPROCESSABLE_ENTITY,
                        "missing_field",
                        String::from_str("events array is required and must not be empty"),
                        Some("events"),
                    ),
                )
            } else if events.len() > MAX_BATCH {
                Err(
                    api_error(
                        UNPROCESSABLE_ENTITY,
                        "batch_too_large",
                        String::from_str("batch size ").concat(
                            usize_to_decimal(events.len()).as_str(),
                        ).concat(" exceeds maximum of 1000"),
                        Some("events"),
                    ),
                )
            } else {
                Ok(())
            }
        },
    }
}

/// The events of a batch whose fields are valid, in order.
pub open spec fn valid_reqs(events: Seq<IngestOneReq>, now: i64) -> Seq<IngestOneReq> {
    events.filter(|r: IngestOneReq| field_error(r, now) is None)
}

/// The events of a batch whose fields are invalid, in order.
pub open spec fn invalid_reqs(events: Seq<IngestOneReq>, now: i64) -> Seq<IngestOneReq> {
    events.filter(|r: IngestOneReq| field_error(r, now) is Some)
}

/// The identifier reported for a rejected event: its own, or `<missing>`.
pub open spec fn reported_id(req: IngestOneReq) -> Seq<char> {
    match req.event_id {
        Some(s) => s@,
        None => "<missing>"@,
    }
}

/// Validates every event of a batch: the valid ones in order, and for the
/// invalid ones, in order, their identifier and the reason.
pub fn validate_batch(events: &Vec<IngestOneReq>, now_us: i64) -> (r: (
    Vec<ValidatedEvent>,
    Vec<EventError>,
))
    requires
        clock_in_range(now_us),
    ensures
        r.0.len() == valid_reqs(events@, now_us).len(),
        forall|k: int|
            0 <= k < r.0.len() ==> validated_from(
                #[trigger] r.0@[k],
                valid_reqs(events@, now_us)[k],
            ),
        r.1.len() == invalid_reqs(events@, now_us).len(),
        forall|k: int|
            0 <= k < r.1.len() ==> {
                &&& (#[trigger] r.1@[k]).event_id@ == reported_id(invalid_reqs(events@, now_us)[k])
                &&& r.1@[k].error@ == field_error(invalid_reqs(events@, now_us)[k], now_us)->0
            },
{
    let ghost ok = |r: IngestOneReq| field_error(r, now_us) is None;
    let ghost bad = |r: IngestOneReq| field_error(r, now_us) is Some;
    let mut validated: Vec<ValidatedEvent> = Vec::new();
    let mut errors: Vec<EventError> = Vec::new();
    let mut i: usize = 0;
    while i < events.len()
        invariant
            clock_in_range(now_us),
            i <= events.len(),
            ok == (|r: IngestOneReq| field_error(r, now_us) is None),
            bad == (|r: IngestOneReq| field_error(r, now_us) is Some),
            validated.len() == events@.take(i as int).filter(ok).len(),
            forall|k: int|
                0 <= k < validated.len() ==> validated_from(
                    #[trigger] validated@[k],
                    events@.take(i as int).filter(ok)[k],
                ),
            errors.len() == events@.take(i as int).filter(bad).len(),
            forall|k: int|
                0 <= k < errors.len() ==> {
                    &&& (#[trigger] errors@[k]).event_id@ == reported_id(
                        events@.take(i as int).filter(bad)[k],
                    )
                    &&& errors@[k].error@ == field_error(
                        events@.take(i as int).filter(bad)[k],
                        now_us,
                    )->0
                },
        decreases events.len() - i,
    {
        let ghost prev = events@.take(i as int);
        proof {
            reveal(Seq::filter);
            assert(events@.take(i + 1).drop_last() =~= prev);
            assert(events@.take(i + 1).last() == events@[i as int]);
        }
        let req = &events[i];
        match validate_fields(req, now_us) {
            Ok(v) => {
                validated.push(v);
                proof {
                    assert(events@.take(i + 1).filter(bad) == prev.filter(bad));
                    assert(events@.take(i + 1).filter(ok) == prev.filter(ok).push(*req));
                }
            },
            Err(msg) => {
                let event_id = match &req.event_id {
                    Some(s) => s.clone(),
                    None => String::from_str("<missing>"),
                };
                errors.push(EventError { event_id, error: msg });
                proof {
                    assert(events@.take(i + 1).filter(ok) == prev.filter(ok));
                    assert(events@.take(i + 1).filter(bad) == prev.filter(bad).push(*req));
                }
            },
        }
        i = i + 1;
    }
    assert(events@.take(events.len() as int) =~= events@);
    (validated, errors)
}

/// A validated event is accepted when both its customer and its metric exist.
pub open spec fn accepted(v: ValidatedEvent, customers: Seq<Seq<char>>, metrics: Seq<Seq<char>>) -> bool {
    customers.contains(v.customer_id@) && metrics.contains(v.metric@)
}

/// Why a validated event is rejected for an unknown customer or metric.
pub open spec fn existence_error(v: ValidatedEvent, customers: Seq<Seq<char>>) -> Seq<char> {
    if !customers.contains(v.customer_id@) {
        "customer '"@ + v.customer_id@ + "' not found"@
    } else {
        "metric '"@ + v.metric@ + "' not found"@
    }
}

/// Splits validated events by whether their customer and metric exist (are in
/// `customers` and `metrics`): the events to store, in order, and the errors
/// for the others, in order.
pub fn split_by_existence(
    validated: Vec<ValidatedEvent>,
    customers: &Vec<String>,
    metrics: &Vec<String>,
) -> (r: (Vec<Event>, Vec<EventError>))
    ensures
        ({
            let c = texts(customers@);
            let m = texts(metrics@);
            let acc = validated@.filter(|v: ValidatedEvent| accepted(v, c, m));
            let rej = validated@.filter(|v: ValidatedEvent| !accepted(v, c, m));
            &&& r.0.len() == acc.len()
            &&& forall|k: int| 0 <= k < r.0.len() ==> event_from(#[trigger] r.0@[k], acc[k])
            &&& r.1.len() == rej.len()
            &&& forall|k: int|
                0 <= k < r.1.len() ==> {
                    &&& (#[trigger] r.1@[k]).event_id == rej[k].event_id
                    &&& r.1@[k].error@ == existence_error(rej[k], c)
                }
        }),
{
    let ghost c = texts(customers@);
    let ghost m = texts(metrics@);
    let ghost acc = |v: ValidatedEvent| accepted(v, c, m);
    let ghost rej = |v: ValidatedEvent| !accepted(v, c, m);
    let ghost all = validated@;
    let mut to_ingest: Vec<Event> = Vec::new();
    let mut errors: Vec<EventError> = Vec::new();
    let mut i: usize = 0;
    while i < validated.len()
        invariant
            c == texts(customers@),
            m == texts(metrics@),
            acc == (|v: ValidatedEvent| accepted(v, c, m)),
            rej == (|v: ValidatedEvent| !accepted(v, c, m)),
            i <= all.len(),
            validated@ == all,
            to_ingest.len() == all.take(i as int).filter(acc).len(),
            forall|k: int|
                0 <= k < to_ingest.len() ==> event_from(
                    #[trigger] to_ingest@[k],
                    all.take(i as int).filter(acc)[k],
                ),
            errors.len() == all.take(i as int).filter(rej).len(),
            forall|k: int|
                0 <= k < errors.len() ==> {
                    &&& (#[trigger] errors@[k]).event_id == all.take(i as int).filter(rej)[k].event_id
                    &&& errors@[k].error@ == existence_error(all.take(i as int).filter(rej)[k], c)
                },
        decreases validated.len() - i,
    {
        let ghost prev = all.take(i as int);
        let v = validated[i].clone();
        proof {
            reveal(Seq::filter);
            assert(all.take(i + 1).drop_last() =~= prev);
            assert(v == all[i as int]);
            assert(all.take(i + 1).last() == v);
        }
        let cust_ok = contains_string(customers, v.customer_id.as_str());
        let metric_ok = contains_string(metrics, v.metric.as_str());
        if !cust_ok {
            let msg = String::from_str("customer '").concat(v.customer_id.as_str()).concat(
                "' not found",
            );
            errors.push(EventError { event_id: v.event_id, error: msg });
            proof {
                assert(all.take(i + 1).filter(acc) == prev.filter(acc));
                assert(all.take(i + 1).filter(rej) == prev.filter(rej).push(v));
            }
        } else if !metric_ok {
            let msg = String::from_str("metric '").concat(v.metric.as_str()).concat("' not found");
            errors.push(EventError { event_id: v.event_id, error: msg });
            proof {
                assert(all.take(i + 1).filter(acc) == prev.filter(acc));
                assert(all.take(i + 1).filter(rej) == prev.filter(rej).push(v));
            }
        } else {
            to_ingest.push(into_event(v));
            proof {
                assert(all.take(i + 1).filter(rej) == prev.filter(rej));
                assert(all.take(i + 1).filter(acc) == prev.filter(acc).push(v));
            }
        }
        i = i + 1;
    }
    assert(all.take(all.len() as int) =~= all);
    (to_ingest, errors)
}

/// The values of a list, without repeats, in order of first occurrence.
pub open spec fn no_repeats(s: Seq<Seq<char>>) -> bool {
    forall|i: int, j: int| 0 <= i < j < s.len() ==> s[i] != s[j]
}

/// The distinct customers of the validated events, each once.
pub fn distinct_customers(validated: &Vec<ValidatedEvent>) -> (r: Vec<String>)
    ensures
        no_repeats(texts(r@)),
        forall|x: Seq<char>|
            texts(r@).contains(x) <==> exists|k: int|
                0 <= k < validated.len() && (#[trigger] validated@[k]).customer_id@ == x,
{
    let mut r: Vec<String> = Vec::new();
    let mut i: usize = 0;
    while i < validated.len()
        invariant
            i <= validated.len(),
            no_repeats(texts(r@)),
            forall|x: Seq<char>|
                texts(r@).contains(x) <==> exists|k: int|
                    0 <= k < i && (#[trigger] validated@[k]).customer_id@ == x,
        decreases validated.len() - i,
    {
        let c = &validated[i].customer_id;
        let ghost before = texts(r@);
        if !contains_string(&r, c.as_str()) {
            r.push(c.clone());
            assert(texts(r@) =~= before.push(c@));
        }
        assert forall|x: Seq<char>|
            texts(r@).contains(x) <==> exists|k: int|
                0 <= k < i + 1 && (#[trigger] validated@[k]).customer_id@ == x by {
            if texts(r@).contains(x) && x != c@ {
                assert(before.contains(x)) by {
                    let j = choose|j: int| 0 <= j < texts(r@).len() && texts(r@)[j] == x;
                    assert(before[j] == x);
                }
            }
            if x == c@ {
                assert(validated@[i as int].customer_id@ == x);
                if before.contains(x) {
                    let j = choose|j: int| 0 <= j < before.len() && before[j] == x;
                    assert(texts(r@)[j] == x);
                } else {
                    assert(texts(r@)[texts(r@).len() - 1] == x);
                }
            }
            if (exists|k: int| 0 <= k < i && (#[trigger] validated@[k]).customer_id@ == x) {
                assert(before.contains(x));
                let j = choose|j: int| 0 <= j < before.len() && before[j] == x;
                assert(texts(r@)[j] == x);
            }
            if texts(r@).contains(x) && x != c@ {
                assert(before.contains(x));
                assert(exists|k: int| 0 <= k < i && (#[trigger] validated@[k]).customer_id@ == x);
            }
        }
        i = i + 1;
    }
    r
}

/// The distinct metrics of the validated events, each once.
pub fn distinct_metrics(validated: &Vec<ValidatedEvent>) -> (r: Vec<String>)
    ensures
        no_repeats(texts(r@)),
        forall|x: Seq<char>|
            texts(r@).contains(x) <==> exists|k: int|
                0 <= k < validated.len() && (#[trigger] validated@[k]).metric@ == x,
{
    let mut r: Vec<String> = Vec::new();
    let mut i: usize = 0;
    while i < validated.len()
        invariant
            i <= validated.len(),
            no_repeats(texts(r@)),
            forall|x: Seq<char>|
                texts(r@).contains(x) <==> exists|k: int|
                    0 <= k < i && (#[trigger] validated@[k]).metric@ == x,
        decreases validated.len() - i,
    {
        let c = &validated[i].metric;
        let ghost before = texts(r@);
        if !contains_string(&r, c.as_str()) {
            r.push(c.clone());
            assert(texts(r@) =~= before.push(c@));
        }
        assert forall|x: Seq<char>|
            texts(r@).contains(x) <==> exists|k: int|
                0 <= k < i + 1 && (#[trigger] validated@[k]).metric@ == x by {
            if texts(r@).contains(x) && x != c@ {
                assert(before.contains(x)) by {
                    let j = choose|j: int| 0 <= j < texts(r@).len() && texts(r@)[j] == x;
                    assert(before[j] == x);
                }
            }
            if x == c@ {
                assert(validated@[i as int].metric@ == x);
                if before.contains(x) {
                    let j = choose|j: int| 0 <= j < before.len() && before[j] == x;
                    assert(texts(r@)[j] == x);
                } else {
                    assert(texts(r@)[texts(r@).len() - 1] == x);
                }
            }
            if (exists|k: int| 0 <= k < i && (#[trigger] validated@[k]).metric@ == x) {
                assert(before.contains(x));
                let j = choose|j: int| 0 <= j < before.len() && before[j] == x;
                assert(texts(r@)[j] == x);
            }
            if texts(r@).contains(x) && x != c@ {
                assert(before.contains(x));
                assert(exists|k: int| 0 <= k < i && (#[trigger] validated@[k]).metric@ == x);
            }
        }
        i = i + 1;
    }
    r
}

/// The message of the error entry for an event the ingest queue refused.
pub open spec fn refused_message() -> Seq<char> {
    "ingest queue is not available"@
}

/// The identifiers of the queued events that the queue refused, in order.
pub open spec fn refused_ids(ids: Seq<String>, refused: Seq<bool>) -> Seq<Seq<char>>
    decreases ids.len(),
{
    if ids.len() == 0 {
        Seq::empty()
    } else {
        let rest = refused_ids(ids.drop_last(), refused);
        if refused[ids.len() - 1] {
            rest.push(ids.last()@)
        } else {
            rest
        }
    }
}

proof fn lemma_refused_ids_len(ids: Seq<String>, refused: Seq<bool>)
    ensures
        refused_ids(ids, refused).len() <= ids.len(),
    decreases ids.len(),
{
    if ids.len() > 0 {
        lemma_refused_ids_len(ids.drop_last(), refused);
    }
}

/// The answer to a batch request: how many events were accepted and rejected,
/// and one error entry per rejected event.
pub struct BatchAnswer {
    pub accepted: usize,
    pub rejected: usize,
    pub errors: Vec<EventError>,
}

/// How a batch request is answered once its events were offered to the queue.
/// `errors` holds the entries of the events rejected before the queue, in
/// order; `queued` the identifiers of the events offered to the queue and
/// `refused` which of them it refused. The refused events are rejected too,
/// each with an entry of its own after the earlier ones; the others are
/// accepted.
pub fn batch_counts(errors: Vec<EventError>, queued: &Vec<String>, refused: &Vec<bool>) -> (r: BatchAnswer)
    requires
        refused.len() == queued.len(),
        errors.len() + queued.len() <= usize::MAX,
    ensures
        ({
            let gone = refused_ids(queued@, refused@);
            &&& r.errors@.len() == errors@.len() + gone.len()
            &&& r.errors@.take(errors@.len() as int) == errors@
            &&& forall|j: int|
                0 <= j < gone.len() ==> {
                    &&& (#[trigger] r.errors@[errors@.len() + j]).event_id@ == gone[j]
                    &&& r.errors@[errors@.len() + j].error@ == refused_message()
                }
            &&& r.rejected == r.errors@.len()
            &&& r.accepted == queued@.len() - gone.len()
            &&& r.accepted + r.rejected == errors@.len() + queued@.len()
        }),
{
    let ghost before = errors@;
    let ghost all = queued@;
    let mut out = errors;
    let mut accepted: usize = 0;
    let mut i: usize = 0;
    while i < queued.len()
        invariant
            i <= queued.len(),
            refused.len() == queued.len(),
            all == queued@,
            before.len() + queued.len() <= usize::MAX,
            out@.len() == before.len() + refused_ids(all.take(i as int), refused@).len(),
            out@.take(before.len() as int) == before,
            forall|j: int|
                0 <= j < refused_ids(all.take(i as int), refused@).len() ==> {
                    &&& (#[trigger] out@[before.len() + j]).event_id@ == refused_ids(all.take(i as int), refused@)[j]
                    &&& out@[before.len() + j].error@ == refused_message()
                },
            accepted + refused_ids(all.take(i as int), refused@).len() == i,
        decreases queued.len() - i,
    {
        let ghost prev = refused_ids(all.take(i as int), refused@);
        proof {
            assert(all.take(i + 1).drop_last() =~= all.take(i as int));
            assert(all.take(i + 1).last() == all[i as int]);
        }
        if refused[i] {
            let ghost old_out = out@;
            out.push(EventError { event_id: queued[i].clone(), error: String::from_str("ingest queue is not available") });
            proof {
                assert(refused_ids(all.take(i + 1), refused@) == prev.push(all[i as int]@));
                assert(out@.take(before.len() as int) =~= old_out.take(before.len() as int));
                assert forall|j: int|
                    0 <= j < refused_ids(all.take(i + 1), refused@).len() implies {
                        &&& (#[trigger] out@[before.len() + j]).event_id@ == refused_ids(all.take(i + 1), refused@)[j]
                        &&& out@[before.len() + j].error@ == refused_message()
                    } by {
                    if j < prev.len() {
                        assert(out@[before.len() + j] == old_out[before.len() + j]);
                    }
                }
            }
        } else {
            accepted = accepted + 1;
            proof {
                assert(refused_ids(all.take(i + 1), refused@) == prev);
            }
        }
        i = i + 1;
    }
    proof {
        assert(all.take(all.len() as int) =~= all);
    }
    let rejected = out.len();
    BatchAnswer { accepted, rejected, errors: out }
}

proof fn lemma_filter_partition<T>(s: Seq<T>, p: spec_fn(T) -> bool, q: spec_fn(T) -> bool)
    requires
        forall|x: T| #[trigger] p(x) <==> !q(x),
    ensures
        s.filter(p).len() + s.filter(q).len() == s.len(),
    decreases s.len(),
{
    reveal(Seq::filter);
    if s.len() > 0 {
        lemma_filter_partition(s.drop_last(), p, q);
    }
}

/// Every event of a batch is counted once: the accepted events plus the
/// rejected ones (invalid fields, unknown customer or metric, refused by the
/// queue) number the events of the request.
pub proof fn lemma_batch_accounts_for_every_event(
    events: Seq<IngestOneReq>,
    now: i64,
    validated: Seq<ValidatedEvent>,
    customers: Seq<Seq<char>>,
    metrics: Seq<Seq<char>>,
    refused_by_queue: nat,
)
    requires
        validated.len() == valid_reqs(events, now).len(),
        refused_by_queue <= validated.filter(|v: ValidatedEvent| accepted(v, customers, metrics)).len(),
    ensures
        ({
            let queued = validated.filter(|v: ValidatedEvent| accepted(v, customers, metrics)).len();
            let rejected = invalid_reqs(events, now).len() + validated.filter(
                |v: ValidatedEvent| !accepted(v, customers, metrics),
            ).len() + refused_by_queue;
            (queued - refused_by_queue) + rejected == events.len()
        }),
{
    lemma_filter_partition(
        events,
        |r: IngestOneReq| field_error(r, now) is None,
        |r: IngestOneReq| field_error(r, now) is Some,
    );
    lemma_filter_partition(
        validated,
        |v: ValidatedEvent| accepted(v, customers, metrics),
        |v: ValidatedEvent| !accepted(v, customers, metrics),
    );
}

/// One record of a queue batch: its message identifier, if any, and whether
/// its body could be read as an event.
pub struct QueueRecord {
    pub message_id: Option<String>,
    pub readable: bool,
}

/// The message identifiers of the records a queue batch reports as failed, so
/// that the queue delivers them again. Records whose body could not be read are
/// retried, each under its identifier (empty when it has none); records that
/// failed validation are not, since a retry would fail the same way. When
/// storing the batch's events failed, every record with an identifier is retried.
pub open spec fn retried(records: Seq<QueueRecord>, store_failed: bool) -> Seq<Seq<char>>
    decreases records.len(),
{
    if records.len() == 0 {
        Seq::empty()
    } else {
        let rest = retried(records.drop_last(), store_failed);
        let last = records.last();
        if store_failed {
            match last.message_id {
                Some(m) => rest.push(m@),
                None => rest,
            }
        } else if !last.readable {
            rest.push(
                match last.message_id {
                    Some(m) => m@,
                    None => Seq::empty(),
                },
            )
        } else {
            rest
        }
    }
}

/// The failures a queue batch reports (see [`retried`]).
pub fn batch_item_failures(records: &Vec<QueueRecord>, store_failed: bool) -> (r: Vec<String>)
    ensures
        texts(r@) == retried(records@, store_failed),
{
    let mut r: Vec<String> = Vec::new();
    let mut i: usize = 0;
    while i < records.len()
        invariant
            i <= records.len(),
            texts(r@) == retried(records@.take(i as int), store_failed),
        decreases records.len() - i,
    {
        let ghost before = r@;
        proof {
            assert(records@.take(i + 1).drop_last() =~= records@.take(i as int));
            assert(records@.take(i + 1).last() == records@[i as int]);
        }
        let rec = &records[i];
        if store_failed {
            match &rec.message_id {
                Some(m) => {
                    r.push(m.clone());
                },
                None => {},
            }
        } else if !rec.readable {
            match &rec.message_id {
                Some(m) => {
                    r.push(m.clone());
                },
                None => {
                    r.push(String::new());
                },
            }
        }
        assert(texts(r@) =~= retried(records@.take(i + 1), store_failed));
        i = i + 1;
    }
    assert(records@.take(records.len() as int) =~= records@);
    r
}

/// Customers and metrics confirmed to exist. Entries are only ever added:
/// customers and metrics are archived, never deleted, so a cached entry never
/// goes stale.
pub struct ExistenceCache {
    pub customers: Vec<String>,
    pub metrics: Vec<String>,
}

impl ExistenceCache {
    /// An empty cache.
    pub fn new() -> (r: Self)
        ensures
            r.customers@.len() == 0,
            r.metrics@.len() == 0,
    {
        ExistenceCache { customers: Vec::new(), metrics: Vec::new() }
    }

    /// Whether the customer is known to exist.
    pub fn has_customer(&self, id: &str) -> (r: bool)
        ensures
            r == texts(self.customers@).contains(id@),
    {
        contains_string(&self.customers, id)
    }

    /// Whether the metric is known to exist.
    pub fn has_metric(&self, id: &str) -> (r: bool)
        ensures
            r == texts(self.metrics@).contains(id@),
    {
        contains_string(&self.metrics, id)
    }

    /// Records the store's answer for a customer: a customer that exists is
    /// remembered; nothing is forgotten.
    pub fn note_customer(&mut self, id: &str, exists: bool)
        ensures
            final(self).metrics == old(self).metrics,
            forall|x: Seq<char>|
                texts(final(self).customers@).contains(x) <==> (texts(old(self).customers@).contains(x)
                    || (exists && x == id@)),
    {
        if exists && !contains_string(&self.customers, id) {
            let ghost before = texts(self.customers@);
            self.customers.push(String::from_str(id));
            assert(texts(self.customers@) =~= before.push(id@));
            assert forall|x: Seq<char>|
                texts(self.customers@).contains(x) <==> (before.contains(x) || x == id@) by {
                if texts(self.customers@).contains(x) && x != id@ {
                    let j = choose|j: int| 0 <= j < texts(self.customers@).len() && texts(self.customers@)[j] == x;
                    assert(before[j] == x);
                }
                if before.contains(x) {
                    let j = choose|j: int| 0 <= j < before.len() && before[j] == x;
                    assert(texts(self.customers@)[j] == x);
                }
                if x == id@ {
                    assert(texts(self.customers@)[before.len() as int] == x);
                }
            }
        }
    }

    /// Takes the store's answer on whether a customer the cache does not hold
    /// exists, once the store was asked: the answer is passed on unchanged, and
    /// the cache then holds what it held before plus the customer exactly when
    /// the store said it exists (an error or `false` leaves it as it was).
    pub fn answer_customer(&mut self, id: &str, store_answer: Result<bool, String>) -> (r: Result<bool, String>)
        ensures
            r == store_answer,
            final(self).metrics == old(self).metrics,
            forall|x: Seq<char>|
                texts(final(self).customers@).contains(x) <==> (texts(old(self).customers@).contains(x)
                    || (store_answer == Ok::<bool, String>(true) && x == id@)),
    {
        match store_answer {
            Ok(exists) => {
                self.note_customer(id, exists);
                Ok(exists)
            },
            Err(e) => Err(e),
        }
    }

    /// Takes the store's answer on whether a metric the cache does not hold
    /// exists (see [`ExistenceCache::answer_customer`]).
    pub fn answer_metric(&mut self, id: &str, store_answer: Result<bool, String>) -> (r: Result<bool, String>)
        ensures
            r == store_answer,
            final(self).customers == old(self).customers,
            forall|x: Seq<char>|
                texts(final(self).metrics@).contains(x) <==> (texts(old(self).metrics@).contains(x)
                    || (store_answer == Ok::<bool, String>(true) && x == id@)),
    {
        match store_answer {
            Ok(exists) => {
                self.note_metric(id, exists);
                Ok(exists)
            },
            Err(e) => Err(e),
        }
    }

    /// Records the store's answer for a metric: a metric that exists is
    /// remembered; nothing is forgotten.
    pub fn note_metric(&mut self, id: &str, exists: bool)
        ensures
            final(self).customers == old(self).customers,
            forall|x: Seq<char>|
                texts(final(self).metrics@).contains(x) <==> (texts(old(self).metrics@).contains(x)
                    || (exists && x == id@)),
    {
        if exists && !contains_string(&self.metrics, id) {
            let ghost before = texts(self.metrics@);
            self.metrics.push(String::from_str(id));
            assert(texts(self.metrics@) =~= before.push(id@));
            assert forall|x: Seq<char>|
                texts(self.metrics@).contains(x) <==> (before.contains(x) || x == id@) by {
                if texts(self.metrics@).contains(x) && x != id@ {
                    let j = choose|j: int| 0 <= j < texts(self.metrics@).len() && texts(self.metrics@)[j] == x;
                    assert(before[j] == x);
                }
                if before.contains(x) {
                    let j = choose|j: int| 0 <= j < before.len() && before[j] == x;
                    assert(texts(self.metrics@)[j] == x);
                }
                if x == id@ {
                    assert(texts(self.metrics@)[before.len() as int] == x);
                }
            }
        }
    }
}

/// A cached existence never goes stale: once a customer is known to exist it
/// stays known through any later answers of the store.
pub proof fn lemma_cache_only_grows(before: Seq<Seq<char>>, after: Seq<Seq<char>>, id: Seq<char>, noted: Seq<char>, exists: bool)
    requires
        forall|x: Seq<char>| after.contains(x) <==> (before.contains(x) || (exists && x == noted)),
        before.contains(id),
    ensures
        after.contains(id),
{
}

/// Ingestion counters of the server.
pub struct IngestStats {
    pub total_events: u64,
    pub started_at: std::time::Instant,
}

#[verifier::external_type_specification]
#[verifier::external_body]
pub struct ExInstant(std::time::Instant);

/// The current instant of the monotonic clock, `std::time::Instant::now`.
/// Nothing is stated of it: it is the machine's time.
#[verifier::external_body]
fn instant_now() -> std::time::Instant {
    std::time::Instant::now()
}

impl IngestStats {
    /// No events yet, started now.
    pub fn new() -> (r: Self)
        ensures
            r.total_events == 0,
    {
        IngestStats { total_events: 0, started_at: instant_now() }
    }

    /// Counts `n` more stored events (the counter wraps around at 2^64).
    pub fn record_stored(&mut self, n: u64)
        ensures
            final(self).total_events == (old(self).total_events + n) % 0x1_0000_0000_0000_0000,
            final(self).started_at == old(self).started_at,
    {
        self.total_events = self.total_events.wrapping_add(n);
    }
}

} // verus!
