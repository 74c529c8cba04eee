//! What the store computes over the rows a table scan returns: the cursor
//! pagination of customers, the order of a charge's tiers, and the soft
//! archival of metrics and plans.
use vstd::prelude::*;
use crate::order::{
    insert_in_order, is_ordered, lemma_insert_at, lemma_sorted_multiset, lemma_sorted_ordered,
    sorted_stably, strict_weak_order,
};
use crate::billing::{billed_for_period, records_period};
use crate::records::{BillingRun, Charge, Customer, Metric, Plan, Subscription, Tier};
use crate::text::str_eq;
use crate::text::{chars_lt, chars_of, lemma_lex_lt_strict_total, lex_lt};

verus! {

broadcast use {vstd::seq_lib::group_to_multiset_ensures, vstd::multiset::group_multiset_axioms};

/// Customers order by identifier, in code-point order.
pub open spec fn by_id() -> spec_fn(Customer, Customer) -> bool {
    |a: Customer, b: Customer| lex_lt(a.id@, b.id@)
}

/// Tiers order by position.
pub open spec fn by_position() -> spec_fn(Tier, Tier) -> bool {
    |a: Tier, b: Tier| a.position < b.position
}

/// All customers, sorted by identifier (stable).
pub open spec fn customers_by_id(all: Seq<Customer>) -> Seq<Customer> {
    sorted_stably(all, by_id())
}

/// The customers whose identifier sorts strictly after the cursor, if any.
pub open spec fn after_cursor(s: Seq<Customer>, after: Option<Seq<char>>) -> Seq<Customer> {
    match after {
        None => s,
        Some(c) => s.filter(|x: Customer| lex_lt(c, x.id@)),
    }
}

/// One page of the customer listing: at most `limit` customers in identifier
/// order after the cursor, and whether more follow.
pub open spec fn customer_page(all: Seq<Customer>, limit: nat, after: Option<Seq<char>>) -> (
    Seq<Customer>,
    bool,
) {
    let rest = after_cursor(customers_by_id(all), after);
    if rest.len() > limit {
        (rest.take(limit as int), true)
    } else {
        (rest, false)
    }
}

pub open spec fn opt_view(o: Option<&str>) -> Option<Seq<char>> {
    match o {
        Some(s) => Some(s@),
        None => None,
    }
}

/// No two customers share an identifier.
pub open spec fn distinct_ids(s: Seq<Customer>) -> bool {
    forall|i: int, j: int| 0 <= i < s.len() && 0 <= j < s.len() && i != j ==> #[trigger] s[i].id@ != #[trigger] s[j].id@
}

proof fn lemma_by_id_order()
    ensures
        strict_weak_order(by_id()),
{
    assert forall|a: Customer| !#[trigger] (by_id())(a, a) by {
        lemma_lex_lt_strict_total(a.id@, a.id@, a.id@);
    }
    assert forall|a: Customer, b: Customer, c: Customer|
        #[trigger] (by_id())(a, b) && #[trigger] (by_id())(b, c) implies (by_id())(a, c) by {
        lemma_lex_lt_strict_total(a.id@, b.id@, c.id@);
    }
    assert forall|a: Customer, b: Customer, c: Customer|
        !(#[trigger] (by_id())(a, b)) && !(#[trigger] (by_id())(b, c)) implies !(by_id())(a, c) by {
        lemma_lex_lt_strict_total(c.id@, b.id@, a.id@);
        lemma_lex_lt_strict_total(a.id@, b.id@, c.id@);
        lemma_lex_lt_strict_total(b.id@, a.id@, c.id@);
        lemma_lex_lt_strict_total(a.id@, c.id@, b.id@);
    }
}

proof fn lemma_by_position_order()
    ensures
        strict_weak_order(by_position()),
{
}

/// The customers sorted by identifier; customers sharing an identifier keep
/// their relative order.
pub fn sort_customers_by_id(all: &Vec<Customer>) -> (r: Vec<Customer>)
    ensures
        r@ == customers_by_id(all@),
{
    let mut v: Vec<Customer> = Vec::new();
    let mut keys: Vec<Vec<char>> = Vec::new();
    let mut i: usize = 0;
    while i < all.len()
        invariant
            i <= all.len(),
            v.len() == keys.len(),
            forall|k: int| 0 <= k < keys.len() ==> (#[trigger] keys@[k])@ == v@[k].id@,
            v@ == customers_by_id(all@.take(i as int)),
        decreases all.len() - i,
    {
        let x = all[i].clone();
        let kx = chars_of(x.id.as_str());
        let mut j: usize = v.len();
        while j > 0 && chars_lt(&kx, &keys[j - 1])
            invariant
                j <= v.len(),
                v.len() == keys.len(),
                kx@ == x.id@,
                forall|k: int| 0 <= k < keys.len() ==> (#[trigger] keys@[k])@ == v@[k].id@,
                forall|k: int| j <= k < v.len() ==> (by_id())(x, #[trigger] v@[k]),
            decreases j,
        {
            j = j - 1;
        }
        proof {
            lemma_insert_at(v@, x, by_id(), j as int);
            assert(all@.take(i + 1).drop_last() =~= all@.take(i as int));
        }
        let ghost old_keys = keys@;
        let ghost old_v = v@;
        v.insert(j, x);
        keys.insert(j, kx);
        proof {
            assert forall|k: int| 0 <= k < keys.len() implies (#[trigger] keys@[k])@ == v@[k].id@ by {
                if k < j {
                    assert(keys@[k] == old_keys[k] && v@[k] == old_v[k]);
                } else if k > j {
                    assert(keys@[k] == old_keys[k - 1] && v@[k] == old_v[k - 1]);
                }
            }
        }
        i = i + 1;
    }
    assert(all@.take(all.len() as int) =~= all@);
    v
}

/// One page of the customer listing (the rows of a full scan of the customers
/// table): sorted by identifier, only identifiers after the cursor, at most
/// `limit` of them, and whether more remain.
pub fn list_customers_page(all: &Vec<Customer>, limit: usize, after: Option<&str>) -> (r: (
    Vec<Customer>,
    bool,
))
    ensures
        (r.0@, r.1) == customer_page(all@, limit as nat, opt_view(after)),
{
    let sorted = sort_customers_by_id(all);
    let mut rest: Vec<Customer>;
    match after {
        None => {
            rest = sorted;
        },
        Some(cursor) => {
            let kc = chars_of(cursor);
            let ghost pred = |x: Customer| lex_lt(cursor@, x.id@);
            rest = Vec::new();
            let mut i: usize = 0;
            while i < sorted.len()
                invariant
                    i <= sorted.len(),
                    kc@ == cursor@,
                    pred == (|x: Customer| lex_lt(cursor@, x.id@)),
                    rest@ == sorted@.take(i as int).filter(pred),
                decreases sorted.len() - i,
            {
                let c = sorted[i].clone();
                let kx = chars_of(c.id.as_str());
                let ghost prev = sorted@.take(i as int);
                proof {
                    reveal(Seq::filter);
                    assert(sorted@.take(i + 1).drop_last() =~= prev);
                    assert(sorted@.take(i + 1).last() == c);
                }
                if chars_lt(&kc, &kx) {
                    rest.push(c);
                    proof { reveal(Seq::filter); }
                    assert(sorted@.take(i + 1).filter(pred) == prev.filter(pred).push(c));
                } else {
                    proof { reveal(Seq::filter); }
                    assert(sorted@.take(i + 1).filter(pred) == prev.filter(pred));
                }
                i = i + 1;
            }
            assert(sorted@.take(sorted.len() as int) =~= sorted@);
        },
    }
    let has_more = rest.len() > limit;
    rest.truncate(limit);
    (rest, has_more)
}

/// The tiers of a charge in position order; tiers at the same position keep
/// their relative order.
pub fn order_tiers(tiers: &Vec<Tier>) -> (r: Vec<Tier>)
    ensures
        r@ == sorted_stably(tiers@, by_position()),
        is_ordered(r@, by_position()),
        r@.to_multiset() == tiers@.to_multiset(),
{
    let mut v: Vec<Tier> = Vec::new();
    let mut i: usize = 0;
    while i < tiers.len()
        invariant
            i <= tiers.len(),
            v@ == sorted_stably(tiers@.take(i as int), by_position()),
        decreases tiers.len() - i,
    {
        let x = tiers[i].clone();
        let mut j: usize = v.len();
        while j > 0 && x.position < v[j - 1].position
            invariant
                j <= v.len(),
                forall|k: int| j <= k < v.len() ==> (by_position())(x, #[trigger] v@[k]),
            decreases j,
        {
            j = j - 1;
        }
        proof {
            lemma_insert_at(v@, x, by_position(), j as int);
            assert(tiers@.take(i + 1).drop_last() =~= tiers@.take(i as int));
        }
        v.insert(j, x);
        i = i + 1;
    }
    assert(tiers@.take(tiers.len() as int) =~= tiers@);
    proof {
        lemma_by_position_order();
        lemma_sorted_ordered(tiers@, by_position());
        lemma_sorted_multiset(tiers@, by_position());
    }
    v
}

proof fn lemma_filter_suffix<T>(s: Seq<T>, p: spec_fn(T) -> bool, m: int)
    requires
        0 <= m <= s.len(),
        forall|k: int| 0 <= k < m ==> !p(#[trigger] s[k]),
        forall|k: int| m <= k < s.len() ==> p(#[trigger] s[k]),
    ensures
        s.filter(p) == s.skip(m),
    decreases s.len(),
{
    reveal(Seq::filter);
    if s.len() == 0 {
        assert(s.skip(m) =~= s);
    } else {
        let t = s.drop_last();
        if m < s.len() {
            assert(p(s[s.len() - 1]));
            assert forall|k: int| m <= k < t.len() implies p(#[trigger] t[k]) by {
                assert(t[k] == s[k]);
            }
            assert forall|k: int| 0 <= k < m implies !p(#[trigger] t[k]) by {
                assert(t[k] == s[k]);
            }
            lemma_filter_suffix(t, p, m);
            assert(s.filter(p) == t.filter(p).push(s.last()));
            assert(t.skip(m).push(s.last()) =~= s.skip(m));
        } else {
            assert(!p(s[s.len() - 1]));
            assert forall|k: int| 0 <= k < t.len() implies !p(#[trigger] t[k]) by {
                assert(t[k] == s[k]);
            }
            lemma_filter_suffix(t, p, t.len() as int);
            assert(s.filter(p) == t.filter(p));
            assert(t.skip(t.len() as int) =~= s.skip(m));
        }
    }
}

proof fn lemma_sorted_distinct(all: Seq<Customer>)
    requires
        distinct_ids(all),
    ensures
        distinct_ids(customers_by_id(all)),
{
    let s = customers_by_id(all);
    lemma_sorted_multiset(all, by_id());
    assert(all.no_duplicates()) by {
        assert forall|i: int, j: int| 0 <= i < all.len() && 0 <= j < all.len() && i != j implies all[i]
            != all[j] by {
            assert(all[i].id@ != all[j].id@);
        }
    }
    all.lemma_multiset_has_no_duplicates();
    s.lemma_multiset_has_no_duplicates_conv();
    assert forall|i: int, j: int| 0 <= i < s.len() && 0 <= j < s.len() && i != j implies #[trigger] s[i].id@
        != #[trigger] s[j].id@ by {
        if s[i].id@ == s[j].id@ {
            assert(s.to_multiset().count(s[i]) > 0);
            assert(s.to_multiset().count(s[j]) > 0);
            assert(all.contains(s[i]));
            assert(all.contains(s[j]));
            let p = choose|p: int| 0 <= p < all.len() && all[p] == s[i];
            let q = choose|q: int| 0 <= q < all.len() && all[q] == s[j];
            assert(p == q);
            assert(s[i] != s[j]);
        }
    }
}

/// The metrics with the given status, in scan order.
pub fn metrics_with_status(all: &Vec<Metric>, status: &str) -> (r: Vec<Metric>)
    ensures
        r@ == all@.filter(|m: Metric| m.status@ == status@),
{
    let ghost pred = |m: Metric| m.status@ == status@;
    let mut r: Vec<Metric> = Vec::new();
    let mut i: usize = 0;
    while i < all.len()
        invariant
            i <= all.len(),
            pred == (|m: Metric| m.status@ == status@),
            r@ == all@.take(i as int).filter(pred),
        decreases all.len() - i,
    {
        proof {
            reveal(Seq::filter);
            assert(all@.take(i + 1).drop_last() =~= all@.take(i as int));
        }
        let x = all[i].clone();
        if str_eq(x.status.as_str(), status) {
            r.push(x);
        }
        i = i + 1;
    }
    assert(all@.take(all.len() as int) =~= all@);
    r
}

/// The metric found under an identifier, provided it is active.
pub fn active_metric(found: Option<Metric>) -> (r: Option<Metric>)
    ensures
        r == (match found {
            Some(m) => if m.status@ == "active"@ {
                Some(m)
            } else {
                None
            },
            None => None,
        }),
{
    match found {
        Some(m) => if str_eq(m.status.as_str(), "active") {
            Some(m)
        } else {
            None
        },
        None => None,
    }
}

/// A metric is archived once: the metric that archiving stores (see
/// `metrics::archive_metric`) is not active, so `active_metric` no longer finds
/// it and a second archival of its identifier answers "not found".
pub proof fn lemma_metric_archived_once(m: Metric, archived: Metric)
    requires
        archived == (Metric { status: archived.status, ..m }),
        archived.status@ == "archived"@,
    ensures
        archived.status@ != "active"@,
        archived.id == m.id,
{
    reveal_strlit("archived");
    reveal_strlit("active");
    assert("archived"@.len() != "active"@.len());
}

/// The plans with the given status, in scan order.
pub fn plans_with_status(all: &Vec<Plan>, status: &str) -> (r: Vec<Plan>)
    ensures
        r@ == all@.filter(|p: Plan| p.status@ == status@),
{
    let ghost pred = |p: Plan| p.status@ == status@;
    let mut r: Vec<Plan> = Vec::new();
    let mut i: usize = 0;
    while i < all.len()
        invariant
            i <= all.len(),
            pred == (|p: Plan| p.status@ == status@),
            r@ == all@.take(i as int).filter(pred),
        decreases all.len() - i,
    {
        proof {
            reveal(Seq::filter);
            assert(all@.take(i + 1).drop_last() =~= all@.take(i as int));
        }
        let x = all[i].clone();
        if str_eq(x.status.as_str(), status) {
            r.push(x);
        }
        i = i + 1;
    }
    assert(all@.take(all.len() as int) =~= all@);
    r
}

/// The subscriptions with the given status, in scan order.
pub fn subscriptions_with_status(all: &Vec<Subscription>, status: &str) -> (r: Vec<Subscription>)
    ensures
        r@ == all@.filter(|s: Subscription| s.status@ == status@),
{
    let ghost pred = |s: Subscription| s.status@ == status@;
    let mut r: Vec<Subscription> = Vec::new();
    let mut i: usize = 0;
    while i < all.len()
        invariant
            i <= all.len(),
            pred == (|s: Subscription| s.status@ == status@),
            r@ == all@.take(i as int).filter(pred),
        decreases all.len() - i,
    {
        proof {
            reveal(Seq::filter);
            assert(all@.take(i + 1).drop_last() =~= all@.take(i as int));
        }
        let x = all[i].clone();
        if str_eq(x.status.as_str(), status) {
            r.push(x);
        }
        i = i + 1;
    }
    assert(all@.take(all.len() as int) =~= all@);
    r
}

/// A cancelled subscription is not billed again: a billing run takes the
/// subscriptions with status `active` (see `subscriptions_with_status`), and
/// cancellation stores status `cancelled` (see `subscriptions::cancel_result`).
pub proof fn lemma_cancelled_not_billed(all: Seq<Subscription>, s: Subscription)
    requires
        s.status@ == "cancelled"@,
    ensures
        !all.filter(|x: Subscription| x.status@ == "active"@).contains(s),
{
    reveal_strlit("cancelled");
    reveal_strlit("active");
    assert("cancelled"@.len() != "active"@.len());
    if all.filter(|x: Subscription| x.status@ == "active"@).contains(s) {
        let f = all.filter(|x: Subscription| x.status@ == "active"@);
        let k = choose|k: int| 0 <= k < f.len() && f[k] == s;
        all.lemma_filter_pred(|x: Subscription| x.status@ == "active"@, k);
    }
}

/// The subscriptions of a customer, in scan order.
pub fn subscriptions_of_customer(all: &Vec<Subscription>, customer_id: &str) -> (r: Vec<Subscription>)
    ensures
        r@ == all@.filter(|s: Subscription| s.customer_id@ == customer_id@),
{
    let ghost pred = |s: Subscription| s.customer_id@ == customer_id@;
    let mut r: Vec<Subscription> = Vec::new();
    let mut i: usize = 0;
    while i < all.len()
        invariant
            i <= all.len(),
            pred == (|s: Subscription| s.customer_id@ == customer_id@),
            r@ == all@.take(i as int).filter(pred),
        decreases all.len() - i,
    {
        proof {
            reveal(Seq::filter);
            assert(all@.take(i + 1).drop_last() =~= all@.take(i as int));
        }
        let x = all[i].clone();
        if str_eq(x.customer_id.as_str(), customer_id) {
            r.push(x);
        }
        i = i + 1;
    }
    assert(all@.take(all.len() as int) =~= all@);
    r
}

/// The charges of a plan, in scan order.
pub fn charges_of_plan(all: &Vec<Charge>, plan_id: &str) -> (r: Vec<Charge>)
    ensures
        r@ == all@.filter(|c: Charge| c.plan_id@ == plan_id@),
{
    let ghost pred = |c: Charge| c.plan_id@ == plan_id@;
    let mut r: Vec<Charge> = Vec::new();
    let mut i: usize = 0;
    while i < all.len()
        invariant
            i <= all.len(),
            pred == (|c: Charge| c.plan_id@ == plan_id@),
            r@ == all@.take(i as int).filter(pred),
        decreases all.len() - i,
    {
        proof {
            reveal(Seq::filter);
            assert(all@.take(i + 1).drop_last() =~= all@.take(i as int));
        }
        let x = all[i].clone();
        if str_eq(x.plan_id.as_str(), plan_id) {
            r.push(x);
        }
        i = i + 1;
    }
    assert(all@.take(all.len() as int) =~= all@);
    r
}

/// Whether the billing log holds a run (pending or completed) for the
/// subscription and period start.
pub fn run_recorded(log: &Vec<BillingRun>, subscription_id: &str, period_start: i64) -> (r: bool)
    ensures
        r == billed_for_period(log@, subscription_id@, period_start),
{
    let mut i: usize = 0;
    while i < log.len()
        invariant
            i <= log.len(),
            forall|k: int| 0 <= k < i ==> !records_period(#[trigger] log@[k], subscription_id@, period_start),
        decreases log.len() - i,
    {
        if log[i].period_start == period_start && str_eq(log[i].subscription_id.as_str(), subscription_id) {
            assert(records_period(log@[i as int], subscription_id@, period_start));
            return true;
        }
        i = i + 1;
    }
    false
}

/// Identifiers strictly increase along the sequence.
pub open spec fn ids_increasing(s: Seq<Customer>) -> bool {
    forall|i: int, j: int| 0 <= i < j < s.len() ==> lex_lt(#[trigger] s[i].id@, #[trigger] s[j].id@)
}

proof fn lemma_filter_keeps_increasing(s: Seq<Customer>, p: spec_fn(Customer) -> bool)
    requires
        ids_increasing(s),
    ensures
        ids_increasing(s.filter(p)),
    decreases s.len(),
{
    reveal(Seq::filter);
    if s.len() > 0 {
        let t = s.drop_last();
        assert(ids_increasing(t)) by {
            assert forall|i: int, j: int| 0 <= i < j < t.len() implies lex_lt(#[trigger] t[i].id@, #[trigger] t[j].id@) by {
                assert(t[i] == s[i] && t[j] == s[j]);
            }
        }
        lemma_filter_keeps_increasing(t, p);
        let ft = t.filter(p);
        if p(s.last()) {
            let f = ft.push(s.last());
            assert(s.filter(p) == f);
            assert forall|i: int, j: int| 0 <= i < j < f.len() implies lex_lt(#[trigger] f[i].id@, #[trigger] f[j].id@) by {
                if j < ft.len() {
                    assert(f[i] == ft[i] && f[j] == ft[j]);
                } else {
                    assert(f[i] == ft[i]);
                    assert(ft.contains(ft[i]));
                    t.lemma_filter_contains_rev(p, ft[i]);
                    let k = choose|k: int| 0 <= k < t.len() && t[k] == ft[i];
                    assert(s[k] == t[k]);
                    assert(f[j] == s[s.len() - 1]);
                }
            }
        } else {
            assert(s.filter(p) == ft);
        }
    }
}

proof fn lemma_filter_twice(s: Seq<Customer>, p: spec_fn(Customer) -> bool, q: spec_fn(Customer) -> bool)
    requires
        forall|x: Customer| #[trigger] q(x) ==> p(x),
    ensures
        s.filter(p).filter(q) == s.filter(q),
    decreases s.len(),
{
    reveal(Seq::filter);
    if s.len() > 0 {
        let t = s.drop_last();
        lemma_filter_twice(t, p, q);
        if p(s.last()) {
            assert(s.filter(p) == t.filter(p).push(s.last()));
            assert(s.filter(p).drop_last() =~= t.filter(p));
        } else {
            assert(s.filter(p) == t.filter(p));
        }
    }
}

/// Paging with the cursor set to the last identifier of a page continues the
/// listing exactly where that page ended: when identifiers are unique, the
/// customers after that cursor are the ones that followed the page in the
/// listing that the page was cut from, with none skipped and none repeated.
pub proof fn lemma_next_page_continues(all: Seq<Customer>, limit: nat, after: Option<Seq<char>>)
    requires
        distinct_ids(all),
        customer_page(all, limit, after).1,
        limit > 0,
    ensures
        ({
            let sorted = customers_by_id(all);
            let rest = after_cursor(sorted, after);
            let page = customer_page(all, limit, after).0;
            &&& page == rest.take(limit as int)
            &&& after_cursor(sorted, Some(page.last().id@)) == rest.skip(limit as int)
        }),
{
    let sorted = customers_by_id(all);
    let rest = after_cursor(sorted, after);
    let page = customer_page(all, limit, after).0;
    lemma_by_id_order();
    lemma_sorted_ordered(all, by_id());
    lemma_sorted_distinct(all);
    assert(ids_increasing(sorted)) by {
        assert forall|i: int, j: int| 0 <= i < j < sorted.len() implies lex_lt(#[trigger] sorted[i].id@, #[trigger] sorted[j].id@) by {
            assert(!(by_id())(sorted[j], sorted[i]));
            lemma_lex_lt_strict_total(sorted[i].id@, sorted[j].id@, sorted[i].id@);
        }
    }
    match after {
        None => {},
        Some(a) => {
            lemma_filter_keeps_increasing(sorted, |x: Customer| lex_lt(a, x.id@));
        },
    }
    let m = limit as int;
    let c = page.last().id@;
    assert(c == rest[m - 1].id@);
    let pc = |x: Customer| lex_lt(c, x.id@);
    assert forall|k: int| 0 <= k < m implies !pc(#[trigger] rest[k]) by {
        lemma_lex_lt_strict_total(c, rest[k].id@, c);
        if k < m - 1 {
            lemma_lex_lt_strict_total(rest[k].id@, c, rest[k].id@);
        }
    }
    assert forall|k: int| m <= k < rest.len() implies pc(#[trigger] rest[k]) by {
        assert(lex_lt(rest[m - 1].id@, rest[k].id@));
    }
    lemma_filter_suffix(rest, pc, m);
    match after {
        None => {},
        Some(a) => {
            let pa = |x: Customer| lex_lt(a, x.id@);
            sorted.lemma_filter_pred(pa, m - 1);
            assert(lex_lt(a, c));
            assert forall|x: Customer| #[trigger] pc(x) implies pa(x) by {
                lemma_lex_lt_strict_total(a, c, x.id@);
            }
            lemma_filter_twice(sorted, pa, pc);
        },
    }
}

/// What a client collects by listing customers from the cursor `after` and
/// then following each answer's cursor (the last identifier of a page that
/// says more follow), for at most `n` pages.
pub open spec fn paged_listing(all: Seq<Customer>, limit: nat, after: Option<Seq<char>>, n: nat) -> Seq<
    Customer,
>
    decreases n,
{
    if n == 0 {
        Seq::empty()
    } else {
        let page = customer_page(all, limit, after);
        if page.1 && page.0.len() > 0 {
            page.0 + paged_listing(all, limit, Some(page.0.last().id@), (n - 1) as nat)
        } else {
            page.0
        }
    }
}

proof fn lemma_paged_listing_from(all: Seq<Customer>, limit: nat, after: Option<Seq<char>>, n: nat)
    requires
        distinct_ids(all),
        limit > 0,
        n >= after_cursor(customers_by_id(all), after).len() + 1,
    ensures
        paged_listing(all, limit, after, n) == after_cursor(customers_by_id(all), after),
    decreases n,
{
    let rest = after_cursor(customers_by_id(all), after);
    let page = customer_page(all, limit, after);
    if page.1 {
        lemma_next_page_continues(all, limit, after);
        assert(page.0.len() == limit);
        let next = Some(page.0.last().id@);
        assert(after_cursor(customers_by_id(all), next) == rest.skip(limit as int));
        lemma_paged_listing_from(all, limit, next, (n - 1) as nat);
        assert(rest.take(limit as int) + rest.skip(limit as int) =~= rest);
    }
}

/// Paging through the customers from the start, following each answer's
/// cursor while more follow, lists every stored customer exactly once, in
/// identifier order, whatever the page size (identifiers being unique). No
/// more pages are needed than there are customers, plus one.
pub proof fn lemma_paging_lists_every_customer_once(all: Seq<Customer>, limit: nat)
    requires
        distinct_ids(all),
        limit > 0,
    ensures
        paged_listing(all, limit, None, all.len() + 1) == customers_by_id(all),
        customers_by_id(all).to_multiset() == all.to_multiset(),
        ids_increasing(customers_by_id(all)),
{
    lemma_sorted_multiset(all, by_id());
    lemma_paged_listing_from(all, limit, None, all.len() + 1);
    let sorted = customers_by_id(all);
    lemma_by_id_order();
    lemma_sorted_ordered(all, by_id());
    lemma_sorted_distinct(all);
    assert forall|i: int, j: int| 0 <= i < j < sorted.len() implies lex_lt(#[trigger] sorted[i].id@, #[trigger] sorted[j].id@) by {
        assert(!(by_id())(sorted[j], sorted[i]));
        lemma_lex_lt_strict_total(sorted[i].id@, sorted[j].id@, sorted[i].id@);
    }
}

} // verus!
