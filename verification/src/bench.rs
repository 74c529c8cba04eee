//! The load generator's workloads and the endpoints they exercise.
use vstd::prelude::*;

verus! {

/// A workload of the load generator.
#[derive(Clone, Copy, PartialEq, Eq, Structural, Debug)]
pub enum Workload {
    Health,
    Metrics,
    MetricsGetOne,
    IngestOne,
    IngestBatch,
    Query,
    Mixed,
}

/// An endpoint the load generator calls.
#[derive(Clone, Copy, PartialEq, Eq, Structural, Debug, Hash)]
pub enum Endpoint {
    Health,
    MetricsList,
    MetricsGetOne,
    IngestOne,
    IngestBatch,
    Query,
}

impl Endpoint {
    /// The endpoint's method and path.
    pub fn label(&self) -> (r: &'static str)
        ensures
            r@ == (match self {
                Endpoint::Health => "GET /health"@,
                Endpoint::MetricsList => "GET /metrics"@,
                Endpoint::MetricsGetOne => "GET /metrics/{id}"@,
                Endpoint::IngestOne => "POST /ingest"@,
                Endpoint::IngestBatch => "POST /ingest/batch"@,
                Endpoint::Query => "POST /query"@,
            }),
    {
        match self {
            Endpoint::Health => "GET /health",
            Endpoint::MetricsList => "GET /metrics",
            Endpoint::MetricsGetOne => "GET /metrics/{id}",
            Endpoint::IngestOne => "POST /ingest",
            Endpoint::IngestBatch => "POST /ingest/batch",
            Endpoint::Query => "POST /query",
        }
    }
}

/// The endpoints of a workload, each repeated by its weight; workers cycle
/// through the list. The mixed workload weighs listing 3, single metric 2,
/// query 2, single ingest 2 and batch ingest 1.
pub open spec fn workload_endpoints(w: Workload) -> Seq<Endpoint> {
    match w {
        Workload::Health => seq![Endpoint::Health],
        Workload::Metrics => seq![Endpoint::MetricsList],
        Workload::MetricsGetOne => seq![Endpoint::MetricsGetOne],
        Workload::IngestOne => seq![Endpoint::IngestOne],
        Workload::IngestBatch => seq![Endpoint::IngestBatch],
        Workload::Query => seq![Endpoint::Query],
        Workload::Mixed => seq![
            Endpoint::MetricsList,
            Endpoint::MetricsList,
            Endpoint::MetricsList,
            Endpoint::MetricsGetOne,
            Endpoint::MetricsGetOne,
            Endpoint::Query,
            Endpoint::Query,
            Endpoint::IngestOne,
            Endpoint::IngestOne,
            Endpoint::IngestBatch,
        ],
    }
}

/// The weighted endpoint list of a workload.
pub fn endpoints_for(workload: Workload) -> (r: Vec<Endpoint>)
    ensures
        r@ == workload_endpoints(workload),
{
    let mut v: Vec<Endpoint> = Vec::new();
    match workload {
        Workload::Health => v.push(Endpoint::Health),
        Workload::Metrics => v.push(Endpoint::MetricsList),
        Workload::MetricsGetOne => v.push(Endpoint::MetricsGetOne),
        Workload::IngestOne => v.push(Endpoint::IngestOne),
        Workload::IngestBatch => v.push(Endpoint::IngestBatch),
        Workload::Query => v.push(Endpoint::Query),
        Workload::Mixed => {
            v.push(Endpoint::MetricsList);
            v.push(Endpoint::MetricsList);
            v.push(Endpoint::MetricsList);
            v.push(Endpoint::MetricsGetOne);
            v.push(Endpoint::MetricsGetOne);
            v.push(Endpoint::Query);
            v.push(Endpoint::Query);
            v.push(Endpoint::IngestOne);
            v.push(Endpoint::IngestOne);
            v.push(Endpoint::IngestBatch);
        },
    }
    assert(v@ =~= workload_endpoints(workload));
    v
}

/// The first occurrences of `s`'s elements, in order.
pub open spec fn first_occurrences(s: Seq<Endpoint>) -> Seq<Endpoint>
    decreases s.len(),
{
    if s.len() == 0 {
        s
    } else {
        let r = first_occurrences(s.drop_last());
        if r.contains(s.last()) {
            r
        } else {
            r.push(s.last())
        }
    }
}

proof fn lemma_first_occurrences(s: Seq<Endpoint>)
    ensures
        first_occurrences(s).no_duplicates(),
        forall|e: Endpoint| first_occurrences(s).contains(e) <==> s.contains(e),
    decreases s.len(),
{
    if s.len() > 0 {
        let t = s.drop_last();
        lemma_first_occurrences(t);
        let r = first_occurrences(t);
        assert forall|e: Endpoint| first_occurrences(s).contains(e) <==> s.contains(e) by {
            if s.contains(e) && e != s.last() {
                let k = choose|k: int| 0 <= k < s.len() && s[k] == e;
                assert(t[k] == e);
            }
            if t.contains(e) {
                let k = choose|k: int| 0 <= k < t.len() && t[k] == e;
                assert(s[k] == e);
            }
            if e == s.last() {
                assert(s[s.len() - 1] == e);
            }
            if !r.contains(s.last()) && first_occurrences(s).contains(e) && e != s.last() {
                let k = choose|k: int| 0 <= k < r.len() + 1 && r.push(s.last())[k] == e;
                assert(r[k] == e);
            }
            if !r.contains(s.last()) && r.contains(e) {
                let k = choose|k: int| 0 <= k < r.len() && r[k] == e;
                assert(r.push(s.last())[k] == e);
            }
            if !r.contains(s.last()) && e == s.last() {
                assert(r.push(s.last())[r.len() as int] == e);
            }
        }
    }
}

/// The distinct endpoints of a list, in order of first occurrence.
pub fn dedup(endpoints: &[Endpoint]) -> (r: Vec<Endpoint>)
    ensures
        r@ == first_occurrences(endpoints@),
        r@.no_duplicates(),
        forall|e: Endpoint| r@.contains(e) <==> endpoints@.contains(e),
{
    let mut seen: Vec<Endpoint> = Vec::new();
    let mut i: usize = 0;
    while i < endpoints.len()
        invariant
            i <= endpoints.len(),
            seen@ == first_occurrences(endpoints@.take(i as int)),
        decreases endpoints.len() - i,
    {
        let e = endpoints[i];
        let mut found = false;
        let mut j: usize = 0;
        while j < seen.len()
            invariant
                j <= seen.len(),
                found == (exists|k: int| 0 <= k < j && seen@[k] == e),
            decreases seen.len() - j,
        {
            if seen[j] == e {
                found = true;
            }
            j = j + 1;
        }
        proof {
            assert(endpoints@.take(i + 1).drop_last() =~= endpoints@.take(i as int));
            assert(endpoints@.take(i + 1).last() == e);
        }
        if !found {
            seen.push(e);
        }
        i = i + 1;
    }
    assert(endpoints@.take(endpoints.len() as int) =~= endpoints@);
    proof {
        lemma_first_occurrences(endpoints@);
    }
    seen
}

} // verus!
