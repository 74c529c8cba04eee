//! Plans: validation of a new plan and of its charges and tiers, the plan's
//! answer shape, and archival.
use vstd::prelude::*;
use crate::api_error::{
    api_error, error_is, ApiError, BAD_REQUEST, CONFLICT, NOT_FOUND, UNPROCESSABLE_ENTITY,
};
use crate::clock::{is_ulid_char, new_ulid};
use crate::records::{ArchiveRefusal, Charge, Plan, Subscription, Tier};
use crate::text::{decimal, lowercase_text, str_eq, to_lowercase, usize_to_decimal};

verus! {

/// A new plan as requested.
pub struct CreatePlanReq {
    pub id: Option<String>,
    pub name: Option<String>,
    pub currency: Option<String>,
    pub interval: Option<String>,
    pub charges: Vec<CreateChargeReq>,
}

/// A charge of a new plan. Prices and amounts are integer cents: `amount` is
/// the fixed amount of a flat charge, `flat_amount` the base fee of a hybrid
/// charge.
pub struct CreateChargeReq {
    pub metric: Option<String>,
    pub model: Option<String>,
    pub unit_price: Option<i64>,
    pub amount: Option<i64>,
    pub flat_amount: Option<i64>,
    pub package_size: Option<i64>,
    pub package_price: Option<i64>,
    pub display: Option<String>,
    pub tiers: Vec<CreateTierReq>,
}

/// A tier of a new tiered charge. Prices are integer cents.
pub struct CreateTierReq {
    pub up_to: Option<i64>,
    pub unit_price: i64,
    pub flat_fee: Option<i64>,
}

/// The validated head of a new plan.
pub struct PlanDraft {
    pub id: String,
    pub name: String,
    pub currency: String,
    pub interval: String,
}

/// A tier as answered: `up_to` is null for an unbounded tier; a zero flat fee
/// is left out.
pub struct TierView {
    pub unit_price: i64,
    pub up_to: Option<i64>,
    pub flat_fee: Option<i64>,
}

/// A charge as answered, by model.
pub enum ChargeView {
    Flat { id: String, amount: i64, display: Option<String> },
    PerUnit { id: String, metric: String, unit_price: i64 },
    Tiered { id: String, metric: String, tiers: Vec<TierView> },
    Package { id: String, metric: String, package_size: i64, package_price: i64 },
    Hybrid { id: String, metric: String, flat_amount: i64, unit_price: i64 },
    Other { id: String, model: String },
}

/// A plan as answered, with its charges.
pub struct PlanView {
    pub id: String,
    pub name: String,
    pub status: String,
    pub currency: String,
    pub interval: String,
    pub charges: Vec<ChargeView>,
    pub created_at: i64,
}

/// The charge models a plan may use.
pub open spec fn known_model(m: Seq<char>) -> bool {
    m == "flat"@ || m == "per_unit"@ || m == "tiered"@ || m == "package"@ || m == "hybrid"@
}

/// The base fee of a hybrid charge: `flat_amount`, or else `amount`, which
/// earlier clients send for it.
pub open spec fn hybrid_base(req: CreateChargeReq) -> Option<i64> {
    match req.flat_amount {
        Some(v) => Some(v),
        None => req.amount,
    }
}

pub open spec fn charge_prefix(i: int) -> Seq<char> {
    "charges["@ + decimal(i)
}

/// Why charge `i` of a new plan is invalid, or `None` when it is valid.
pub open spec fn charge_error(i: int, req: CreateChargeReq) -> Option<Seq<char>> {
    match req.model {
        None => Some(charge_prefix(i) + "].model is required"@),
        Some(m) => {
            let m = m@;
            if !known_model(m) {
                Some(
                    charge_prefix(i) + "].model '"@ + m
                        + "' is invalid; must be flat, per_unit, tiered, package, or hybrid"@,
                )
            } else if m == "flat"@ {
                if req.amount is None {
                    Some(charge_prefix(i) + "].amount is required for flat charges"@)
                } else {
                    None
                }
            } else if req.metric is None {
                Some(charge_prefix(i) + "].metric is required for "@ + m + " charges"@)
            } else if m == "per_unit"@ {
                if req.unit_price is None {
                    Some(charge_prefix(i) + "].unit_price is required for per_unit charges"@)
                } else {
                    None
                }
            } else if m == "tiered"@ {
                if req.tiers.len() == 0 {
                    Some(charge_prefix(i) + "].tiers must have at least one entry"@)
                } else {
                    None
                }
            } else if m == "package"@ {
                if req.package_size is None {
                    Some(charge_prefix(i) + "].package_size is required for package charges"@)
                } else if req.package_price is None {
                    Some(charge_prefix(i) + "].package_price is required for package charges"@)
                } else {
                    None
                }
            } else {
                if hybrid_base(req) is None {
                    Some(charge_prefix(i) + "].flat_amount is required for hybrid charges"@)
                } else if req.unit_price is None {
                    Some(charge_prefix(i) + "].unit_price is required for hybrid charges"@)
                } else {
                    None
                }
            }
        },
    }
}

pub open spec fn opt_text(o: Option<String>) -> Seq<char> {
    match o {
        Some(s) => s@,
        None => Seq::empty(),
    }
}

pub open spec fn opt_int(o: Option<i64>, default: i64) -> i64 {
    match o {
        Some(v) => v,
        None => default,
    }
}

/// A ULID in its text form.
pub open spec fn ulid_text(s: Seq<char>) -> bool {
    s.len() == 26 && forall|k: int| 0 <= k < 26 ==> is_ulid_char(#[trigger] s[k])
}

/// The charge stored for a valid request of plan `plan_id`: a ULID for its
/// identifier, and the request's fields (see [`charge_fields`]).
pub open spec fn charge_from(c: Charge, plan_id: Seq<char>, req: CreateChargeReq) -> bool {
    ulid_text(c.id@) && charge_fields(c, plan_id, req)
}

/// The fields of the charge stored for a valid request of plan `plan_id`,
/// besides its identifier; fields a model does not use are empty or zero.
pub open spec fn charge_fields(c: Charge, plan_id: Seq<char>, req: CreateChargeReq) -> bool {
    let m = req.model->0@;
    &&& c.tenant_id@ == "default"@
    &&& c.plan_id@ == plan_id
    &&& c.model@ == m
    &&& c.metric@ == (if m == "flat"@ {
        Seq::empty()
    } else {
        opt_text(req.metric)
    })
    &&& c.unit_price == (if m == "per_unit"@ || m == "hybrid"@ {
        opt_int(req.unit_price, 0)
    } else if m == "package"@ {
        opt_int(req.package_price, 0)
    } else {
        0
    })
    &&& c.flat_amount == (if m == "flat"@ {
        opt_int(req.amount, 0)
    } else if m == "hybrid"@ {
        opt_int(hybrid_base(req), 0)
    } else {
        0
    })
    &&& c.package_size == (if m == "package"@ {
        opt_int(req.package_size, 0)
    } else {
        0
    })
    &&& c.display@ == (if m == "flat"@ {
        opt_text(req.display)
    } else {
        Seq::empty()
    })
}

/// The tier stored for tier `j` of a tiered charge: a ULID for its
/// identifier, and the request's fields (see [`tier_fields`]).
pub open spec fn tier_from(t: Tier, charge_id: Seq<char>, j: int, req: CreateTierReq) -> bool {
    ulid_text(t.id@) && tier_fields(t, charge_id, j, req)
}

/// The fields of the tier stored for tier `j` of a tiered charge, besides its
/// identifier: unbounded when `up_to` is absent (-1), no flat fee when absent,
/// positioned by its index.
pub open spec fn tier_fields(t: Tier, charge_id: Seq<char>, j: int, req: CreateTierReq) -> bool {
    &&& t.tenant_id@ == "default"@
    &&& t.charge_id@ == charge_id
    &&& t.up_to == opt_int(req.up_to, -1i64)
    &&& t.unit_price == req.unit_price
    &&& t.flat_fee == opt_int(req.flat_fee, 0)
    &&& t.position == j as i32
}

/// Tier `j` of a tiered charge is stored at position `j`, so tiers stored for
/// earlier tiers of the request sit at lower positions: sorting a charge's
/// tiers by position gives them back in request order.
pub proof fn lemma_tiers_keep_request_order(
    t1: Tier,
    t2: Tier,
    charge_id: Seq<char>,
    j1: int,
    j2: int,
    r1: CreateTierReq,
    r2: CreateTierReq,
)
    requires
        tier_fields(t1, charge_id, j1, r1),
        tier_fields(t2, charge_id, j2, r2),
        0 <= j1 <= i32::MAX,
        0 <= j2 <= i32::MAX,
    ensures
        t1.position == j1,
        t2.position == j2,
        j1 < j2 ==> t1.position < t2.position,
        t1.unit_price == r1.unit_price,
        t1.charge_id@ == charge_id,
{
}

/// The number of tiers the first `n` charges contribute (only tiered charges do).
pub open spec fn tier_offset(reqs: Seq<CreateChargeReq>, n: int) -> int
    decreases n,
{
    if n <= 0 {
        0
    } else {
        tier_offset(reqs, n - 1) + (if reqs[n - 1].model->0@ == "tiered"@ {
            reqs[n - 1].tiers.len() as int
        } else {
            0
        })
    }
}

/// The first invalid charge, if any.
pub open spec fn first_invalid(reqs: Seq<CreateChargeReq>, n: int) -> Option<int>
    decreases n,
{
    if n <= 0 {
        None
    } else {
        match first_invalid(reqs, n - 1) {
            Some(k) => Some(k),
            None => if charge_error(n - 1, reqs[n - 1]) is Some {
                Some(n - 1)
            } else {
                None
            },
        }
    }
}

proof fn lemma_tier_offset_mono(reqs: Seq<CreateChargeReq>, a: int, b: int)
    requires
        0 <= a <= b <= reqs.len(),
    ensures
        tier_offset(reqs, a) <= tier_offset(reqs, b),
    decreases b - a,
{
    if a < b {
        lemma_tier_offset_mono(reqs, a, b - 1);
    }
}

/// The names of the charge models are distinct.
pub proof fn lemma_models_distinct()
    ensures
        "flat"@ != "per_unit"@,
        "flat"@ != "tiered"@,
        "flat"@ != "package"@,
        "flat"@ != "hybrid"@,
        "per_unit"@ != "tiered"@,
        "per_unit"@ != "package"@,
        "per_unit"@ != "hybrid"@,
        "tiered"@ != "package"@,
        "tiered"@ != "hybrid"@,
        "package"@ != "hybrid"@,
{
    reveal_strlit("flat");
    reveal_strlit("per_unit");
    reveal_strlit("tiered");
    reveal_strlit("package");
    reveal_strlit("hybrid");
    assert("flat"@.len() == 4);
    assert("per_unit"@.len() == 8);
    assert("tiered"@.len() == 6);
    assert("package"@.len() == 7);
    assert("hybrid"@.len() == 6);
    assert("tiered"@[0] != "hybrid"@[0]);
}

proof fn lemma_first_invalid_stable(reqs: Seq<CreateChargeReq>, a: int, b: int)
    requires
        0 <= a <= b,
    ensures
        first_invalid(reqs, a) is Some ==> first_invalid(reqs, b) == first_invalid(reqs, a),
    decreases b - a,
{
    if a < b {
        lemma_first_invalid_stable(reqs, a, b - 1);
    }
}

fn model_is(model: &str, name: &str) -> (r: bool)
    ensures
        r == (model@ == name@),
{
    str_eq(model, name)
}

fn charge_message(i: usize, rest: &str) -> (r: String)
    ensures
        r@ == charge_prefix(i as int) + rest@,
{
    String::from_str("charges[").concat(usize_to_decimal(i).as_str()).concat(rest)
}

fn charge_failure(i: usize, rest: &str) -> (r: ApiError)
    ensures
        error_is(r, UNPROCESSABLE_ENTITY, "missing_field"@, charge_prefix(i as int) + rest@, Some("charges"@)),
{
    api_error(UNPROCESSABLE_ENTITY, "missing_field", charge_message(i, rest), Some("charges"))
}

/// Turns the charges of a new plan into stored charges and tiers, under the
/// given identifiers: charge `k` gets `charge_ids[k]`, tier `j` of a tiered
/// charge `k` gets `tier_ids[k][j]`; each gets the default tenant, and the
/// tiers of tiered charges follow in charge order, each with its position in
/// its charge. The first invalid charge is answered with 422.
pub fn build_charges(
    plan_id: &str,
    reqs: &Vec<CreateChargeReq>,
    charge_ids: &Vec<String>,
    tier_ids: &Vec<Vec<String>>,
) -> (r: Result<
    (Vec<Charge>, Vec<Tier>),
    ApiError,
>)
    requires
        charge_ids.len() == reqs.len(),
        tier_ids.len() == reqs.len(),
        forall|k: int| 0 <= k < reqs.len() ==> (#[trigger] tier_ids@[k]).len() == reqs@[k].tiers.len(),
    ensures
        match first_invalid(reqs@, reqs@.len() as int) {
            Some(k) => (r matches Err(e) && {
                let m = charge_error(k, reqs@[k])->0;
                ||| (reqs@[k].model is Some && !known_model(reqs@[k].model->0@) && error_is(
                    e,
                    UNPROCESSABLE_ENTITY,
                    "invalid_param"@,
                    m,
                    Some("charges"@),
                ))
                ||| ((reqs@[k].model is None || known_model(reqs@[k].model->0@)) && error_is(
                    e,
                    UNPROCESSABLE_ENTITY,
                    "missing_field"@,
                    m,
                    Some("charges"@),
                ))
            }),
            None => (r matches Ok((charges, tiers)) && {
                &&& charges.len() == reqs.len()
                &&& forall|k: int|
                    0 <= k < charges.len() ==> (#[trigger] charges@[k]).id == charge_ids@[k] && charge_fields(
                        charges@[k],
                        plan_id@,
                        reqs@[k],
                    )
                &&& tiers.len() == tier_offset(reqs@, reqs@.len() as int)
                &&& forall|k: int, j: int|
                    0 <= k < reqs.len() && reqs@[k].model->0@ == "tiered"@ && 0 <= j
                        < reqs@[k].tiers.len() ==> tier_fields(
                        #[trigger] tiers@[tier_offset(reqs@, k) + j],
                        charges@[k].id@,
                        j,
                        #[trigger] reqs@[k].tiers@[j],
                    )
                &&& forall|k: int, j: int|
                    0 <= k < reqs.len() && reqs@[k].model->0@ == "tiered"@ && 0 <= j
                        < reqs@[k].tiers.len() ==> (#[trigger] tiers@[tier_offset(reqs@, k) + j]).id
                        == (#[trigger] tier_ids@[k]@[j])
            }),
        },
{
    let mut charges: Vec<Charge> = Vec::new();
    let mut tiers: Vec<Tier> = Vec::new();
    let mut i: usize = 0;
    while i < reqs.len()
        invariant
            i <= reqs.len(),
            first_invalid(reqs@, i as int) is None,
            charges.len() == i,
            charge_ids.len() == reqs.len(),
            tier_ids.len() == reqs.len(),
            forall|k: int| 0 <= k < reqs.len() ==> (#[trigger] tier_ids@[k]).len() == reqs@[k].tiers.len(),
            forall|k: int|
                0 <= k < i ==> (#[trigger] charges@[k]).id == charge_ids@[k] && charge_fields(
                    charges@[k],
                    plan_id@,
                    reqs@[k],
                ),
            tiers.len() == tier_offset(reqs@, i as int),
            forall|k: int, j: int|
                0 <= k < i && reqs@[k].model->0@ == "tiered"@ && 0 <= j < reqs@[k].tiers.len()
                    ==> tier_fields(
                    #[trigger] tiers@[tier_offset(reqs@, k) + j],
                    charges@[k].id@,
                    j,
                    #[trigger] reqs@[k].tiers@[j],
                ),
            forall|k: int, j: int|
                0 <= k < i && reqs@[k].model->0@ == "tiered"@ && 0 <= j < reqs@[k].tiers.len()
                    ==> (#[trigger] tiers@[tier_offset(reqs@, k) + j]).id == (#[trigger] tier_ids@[k]@[j]),
        decreases reqs.len() - i,
    {
        let req = &reqs[i];
        proof {
            lemma_models_distinct();
            lemma_first_invalid_stable(reqs@, i as int + 1, reqs@.len() as int);
        }
        let model = match &req.model {
            Some(m) => m.as_str(),
            None => {
                return Err(charge_failure(i, "].model is required"));
            },
        };
        let is_flat = model_is(model, "flat");
        let is_per_unit = model_is(model, "per_unit");
        let is_tiered = model_is(model, "tiered");
        let is_package = model_is(model, "package");
        let is_hybrid = model_is(model, "hybrid");
        if !(is_flat || is_per_unit || is_tiered || is_package || is_hybrid) {
            let msg = charge_message(i, "].model '").concat(model).concat(
                "' is invalid; must be flat, per_unit, tiered, package, or hybrid",
            );
            return Err(api_error(UNPROCESSABLE_ENTITY, "invalid_param", msg, Some("charges")));
        }
        let mut metric = String::new();
        let mut unit_price: i64 = 0;
        let mut flat_amount: i64 = 0;
        let mut package_size: i64 = 0;
        let mut display = String::new();
        if is_flat {
            flat_amount = match req.amount {
                Some(a) => a,
                None => return Err(charge_failure(i, "].amount is required for flat charges")),
            };
            display = match &req.display {
                Some(d) => d.clone(),
                None => String::new(),
            };
        } else {
            metric = match &req.metric {
                Some(m) => m.clone(),
                None => {
                    let rest = String::from_str("].metric is required for ").concat(model).concat(
                        " charges",
                    );
                    assert(charge_prefix(i as int) + rest@ =~= charge_prefix(i as int)
                        + "].metric is required for "@ + model@ + " charges"@);
                    return Err(charge_failure(i, rest.as_str()));
                },
            };
            if is_per_unit {
                unit_price = match req.unit_price {
                    Some(p) => p,
                    None => return Err(
                        charge_failure(i, "].unit_price is required for per_unit charges"),
                    ),
                };
            } else if is_tiered {
                if req.tiers.len() == 0 {
                    return Err(charge_failure(i, "].tiers must have at least one entry"));
                }
            } else if is_package {
                package_size = match req.package_size {
                    Some(p) => p,
                    None => return Err(
                        charge_failure(i, "].package_size is required for package charges"),
                    ),
                };
                unit_price = match req.package_price {
                    Some(p) => p,
                    None => return Err(
                        charge_failure(i, "].package_price is required for package charges"),
                    ),
                };
            } else {
                flat_amount = match req.flat_amount {
                    Some(a) => a,
                    None => match req.amount {
                        Some(a) => a,
                        None => return Err(
                            charge_failure(i, "].flat_amount is required for hybrid charges"),
                        ),
                    },
                };
                unit_price = match req.unit_price {
                    Some(p) => p,
                    None => return Err(
                        charge_failure(i, "].unit_price is required for hybrid charges"),
                    ),
                };
            }
        }
        let charge_id = charge_ids[i].clone();
        let ghost old_tiers = tiers@;
        if is_tiered {
            let ghost base = tiers.len() as int;
            let mut j: usize = 0;
            while j < req.tiers.len()
                invariant
                    j <= req.tiers.len(),
                    *req == reqs@[i as int],
                    base == tier_offset(reqs@, i as int),
                    tiers.len() == base + j,
                    charge_id == charge_ids@[i as int],
                    charge_ids.len() == reqs.len(),
                    i < reqs.len(),
                    tier_ids.len() == reqs.len(),
                    tier_ids@[i as int].len() == req.tiers.len(),
                    forall|k: int| 0 <= k < base ==> tiers@[k] == old_tiers[k],
                    old_tiers.len() == base,
                    forall|q: int|
                        0 <= q < j ==> (#[trigger] tiers@[base + q]).id == tier_ids@[i as int]@[q]
                            && tier_fields(tiers@[base + q], charge_id@, q, req.tiers@[q]),
                decreases req.tiers.len() - j,
            {
                let t = &req.tiers[j];
                let tier = Tier {
                    id: tier_ids[i][j].clone(),
                    tenant_id: String::from_str("default"),
                    charge_id: charge_id.clone(),
                    up_to: match t.up_to {
                        Some(u) => u,
                        None => -1,
                    },
                    unit_price: t.unit_price,
                    flat_fee: match t.flat_fee {
                        Some(f) => f,
                        None => 0,
                    },
                    position: j as i32,
                };
                tiers.push(tier);
                j = j + 1;
            }
            assert forall|q: int| 0 <= q < req.tiers.len() implies (#[trigger] tiers@[tier_offset(
                reqs@,
                i as int,
            ) + q]).id == tier_ids@[i as int]@[q] && tier_fields(
                tiers@[tier_offset(reqs@, i as int) + q],
                charge_id@,
                q,
                req.tiers@[q],
            ) by {
                assert(tiers@[base + q].id == tier_ids@[i as int]@[q]);
            }
        }
        let charge = Charge {
            id: charge_id,
            tenant_id: String::from_str("default"),
            plan_id: String::from_str(plan_id),
            metric,
            model: String::from_str(model),
            unit_price,
            flat_amount,
            package_size,
            display,
        };
        let ghost old_charges = charges@;
        charges.push(charge);
        proof {
            let n = i as int;
            assert(charge_error(n, reqs@[n]) is None);
            assert(first_invalid(reqs@, n + 1) is None);
            assert(tier_offset(reqs@, n + 1) == tier_offset(reqs@, n) + (if reqs@[n].model->0@
                == "tiered"@ {
                reqs@[n].tiers.len() as int
            } else {
                0
            }));
            assert forall|k: int| 0 <= k < n + 1 implies (#[trigger] charges@[k]).id == charge_ids@[k]
                && charge_fields(charges@[k], plan_id@, reqs@[k]) by {
                if k < n {
                    assert(charges@[k] == old_charges[k]);
                } else {
                    lemma_models_distinct();
                }
            }
            assert forall|k: int, j: int|
                0 <= k < n + 1 && reqs@[k].model->0@ == "tiered"@ && 0 <= j
                    < reqs@[k].tiers.len() implies tier_fields(
                #[trigger] tiers@[tier_offset(reqs@, k) + j],
                charges@[k].id@,
                j,
                #[trigger] reqs@[k].tiers@[j],
            ) && tiers@[tier_offset(reqs@, k) + j].id == tier_ids@[k]@[j] by {
                if k < n {
                    assert(reqs@[k].model->0@ == "tiered"@);
                    assert(tier_offset(reqs@, k + 1) == tier_offset(reqs@, k) + (if reqs@[k].model->0@ == "tiered"@ {
                        reqs@[k].tiers.len() as int
                    } else {
                        0
                    }));
                    lemma_tier_offset_mono(reqs@, k + 1, n);
                    lemma_tier_offset_mono(reqs@, 0, k);
                    assert(tier_offset(reqs@, k) + j < old_tiers.len());
                    assert(tiers@[tier_offset(reqs@, k) + j] == old_tiers[tier_offset(reqs@, k) + j]);
                    assert(charges@[k] == old_charges[k]);
                    assert(tier_fields(old_tiers[tier_offset(reqs@, k) + j], old_charges[k].id@, j, reqs@[k].tiers@[j]));
                    assert(old_tiers[tier_offset(reqs@, k) + j].id == tier_ids@[k]@[j]);
                } else {
                    assert(k == n);
                    assert(tiers@[tier_offset(reqs@, n) + j].id == tier_ids@[n]@[j]);
                }
            }
            assert forall|k: int, j: int|
                0 <= k < n + 1 && reqs@[k].model->0@ == "tiered"@ && 0 <= j < reqs@[k].tiers.len()
                    implies (#[trigger] tiers@[tier_offset(reqs@, k) + j]).id == (#[trigger] tier_ids@[k]@[j]) by {
                assert(tier_fields(tiers@[tier_offset(reqs@, k) + j], charges@[k].id@, j, reqs@[k].tiers@[j]));
            }
        }
        i = i + 1;
    }
    Ok((charges, tiers))
}

/// Turns the charges of a new plan into stored charges and tiers. Each charge
/// gets a fresh ULID and the default tenant; the tiers of tiered charges follow
/// in charge order, each with a fresh ULID and its position in its charge. The
/// first invalid charge is answered with 422.
pub fn parse_charges(plan_id: &str, reqs: &Vec<CreateChargeReq>) -> (r: Result<
    (Vec<Charge>, Vec<Tier>),
    ApiError,
>)
    ensures
        match first_invalid(reqs@, reqs@.len() as int) {
            Some(k) => (r matches Err(e) && {
                let m = charge_error(k, reqs@[k])->0;
                ||| (reqs@[k].model is Some && !known_model(reqs@[k].model->0@) && error_is(
                    e,
                    UNPROCESSABLE_ENTITY,
                    "invalid_param"@,
                    m,
                    Some("charges"@),
                ))
                ||| ((reqs@[k].model is None || known_model(reqs@[k].model->0@)) && error_is(
                    e,
                    UNPROCESSABLE_ENTITY,
                    "missing_field"@,
                    m,
                    Some("charges"@),
                ))
            }),
            None => (r matches Ok((charges, tiers)) && {
                &&& charges.len() == reqs.len()
                &&& forall|k: int|
                    0 <= k < charges.len() ==> charge_from(#[trigger] charges@[k], plan_id@, reqs@[k])
                &&& tiers.len() == tier_offset(reqs@, reqs@.len() as int)
                &&& forall|k: int, j: int|
                    0 <= k < reqs.len() && reqs@[k].model->0@ == "tiered"@ && 0 <= j
                        < reqs@[k].tiers.len() ==> tier_from(
                        #[trigger] tiers@[tier_offset(reqs@, k) + j],
                        charges@[k].id@,
                        j,
                        #[trigger] reqs@[k].tiers@[j],
                    )
            }),
        },
{
    let mut charge_ids: Vec<String> = Vec::new();
    let mut tier_ids: Vec<Vec<String>> = Vec::new();
    let mut i: usize = 0;
    while i < reqs.len()
        invariant
            i <= reqs.len(),
            charge_ids.len() == i,
            tier_ids.len() == i,
            forall|k: int| 0 <= k < i ==> ulid_text((#[trigger] charge_ids@[k])@),
            forall|k: int| 0 <= k < i ==> (#[trigger] tier_ids@[k]).len() == reqs@[k].tiers.len(),
            forall|k: int, j: int|
                0 <= k < i && 0 <= j < tier_ids@[k].len() ==> ulid_text((#[trigger] tier_ids@[k]@[j])@),
        decreases reqs.len() - i,
    {
        charge_ids.push(new_ulid());
        let mut own: Vec<String> = Vec::new();
        let mut j: usize = 0;
        while j < reqs[i].tiers.len()
            invariant
                i < reqs.len(),
                j <= reqs@[i as int].tiers.len(),
                own.len() == j,
                forall|q: int| 0 <= q < j ==> ulid_text((#[trigger] own@[q])@),
            decreases reqs@[i as int].tiers.len() - j,
        {
            own.push(new_ulid());
            j = j + 1;
        }
        let ghost before = tier_ids@;
        tier_ids.push(own);
        assert forall|k: int, j: int|
            0 <= k < i + 1 && 0 <= j < tier_ids@[k].len() implies ulid_text((#[trigger] tier_ids@[k]@[j])@) by {
            if k < i {
                assert(tier_ids@[k] == before[k]);
            }
        }
        i = i + 1;
    }
    let r = build_charges(plan_id, reqs, &charge_ids, &tier_ids);
    proof {
        if first_invalid(reqs@, reqs@.len() as int) is None {
            let (charges, tiers) = r->Ok_0;
            assert forall|k: int, j: int|
                0 <= k < reqs.len() && reqs@[k].model->0@ == "tiered"@ && 0 <= j
                    < reqs@[k].tiers.len() implies tier_from(
                #[trigger] tiers@[tier_offset(reqs@, k) + j],
                charges@[k].id@,
                j,
                #[trigger] reqs@[k].tiers@[j],
            ) by {
                assert(tiers@[tier_offset(reqs@, k) + j].id == tier_ids@[k]@[j]);
                assert(tier_ids@[k].len() == reqs@[k].tiers.len());
            }
            assert forall|k: int| 0 <= k < charges.len() implies charge_from(#[trigger] charges@[k], plan_id@, reqs@[k]) by {
                assert(charges@[k].id == charge_ids@[k]);
            }
        }
    }
    r
}

pub open spec fn present(o: Option<String>) -> bool {
    o matches Some(s) && s@.len() > 0
}

pub open spec fn text_or(o: Option<String>, default: Seq<char>) -> Seq<char> {
    match o {
        Some(s) => s@,
        None => default,
    }
}

/// Why the head of a new plan is invalid, or `None` when it is valid:
/// (code, message, param).
pub open spec fn plan_error(body: CreatePlanReq) -> Option<(Seq<char>, Seq<char>, Seq<char>)> {
    if !present(body.id) {
        Some(("missing_field"@, "id is required"@, "id"@))
    } else if !present(body.name) {
        Some(("missing_field"@, "name is required"@, "name"@))
    } else if !(text_or(body.interval, "monthly"@) == "monthly"@ || text_or(body.interval, "monthly"@)
        == "annual"@) {
        Some(("invalid_param"@, "interval must be monthly or annual"@, "interval"@))
    } else if body.charges.len() == 0 {
        Some(("missing_field"@, "at least one charge is required"@, "charges"@))
    } else {
        None
    }
}

fn present_text(o: &Option<String>) -> (r: Option<&String>)
    ensures
        match r {
            Some(s) => present(*o) && *s == o->0,
            None => !present(*o),
        },
{
    match o {
        Some(s) => if s.as_str().is_empty() {
            None
        } else {
            Some(s)
        },
        None => None,
    }
}

/// Validates the head of a new plan: identifier and name are required, the
/// currency defaults to `usd` and is lower-cased, the interval defaults to
/// monthly and must be monthly or annual, and at least one charge is required.
pub fn validate_plan(body: &CreatePlanReq) -> (r: Result<PlanDraft, ApiError>)
    ensures
        match plan_error(*body) {
            Some((code, message, param)) => (r matches Err(e) && error_is(
                e,
                UNPROCESSABLE_ENTITY,
                code,
                message,
                Some(param),
            )),
            None => (r matches Ok(d) && {
                &&& d.id == body.id->0
                &&& d.name == body.name->0
                &&& d.currency@ == lowercase_text(text_or(body.currency, "usd"@))
                &&& d.interval@ == text_or(body.interval, "monthly"@)
            }),
        },
{
    let id = match present_text(&body.id) {
        Some(s) => s.clone(),
        None => return Err(
            api_error(UNPROCESSABLE_ENTITY, "missing_field", String::from_str("id is required"), Some("id")),
        ),
    };
    let name = match present_text(&body.name) {
        Some(s) => s.clone(),
        None => return Err(
            api_error(
                UNPROCESSABLE_ENTITY,
                "missing_field",
                String::from_str("name is required"),
                Some("name"),
            ),
        ),
    };
    let currency = match &body.currency {
        Some(c) => to_lowercase(c.as_str()),
        None => to_lowercase("usd"),
    };
    let interval = match &body.interval {
        Some(i) => i.clone(),
        None => String::from_str("monthly"),
    };
    if !(str_eq(interval.as_str(), "monthly") || str_eq(interval.as_str(), "annual")) {
        return Err(
            api_error(
                UNPROCESSABLE_ENTITY,
                "invalid_param",
                String::from_str("interval must be monthly or annual"),
                Some("interval"),
            ),
        );
    }
    if body.charges.len() == 0 {
        return Err(
            api_error(
                UNPROCESSABLE_ENTITY,
                "missing_field",
                String::from_str("at least one charge is required"),
                Some("charges"),
            ),
        );
    }
    Ok(PlanDraft { id, name, currency, interval })
}

/// The answer when a plan with this identifier already exists (409
/// duplicate_id).
pub fn plan_conflict(id: &str) -> (r: ApiError)
    ensures
        error_is(r, CONFLICT, "duplicate_id"@, "plan '"@ + id@ + "' already exists"@, Some("id"@)),
{
    api_error(
        CONFLICT,
        "duplicate_id",
        String::from_str("plan '").concat(id).concat("' already exists"),
        Some("id"),
    )
}

/// The answer when no plan has this identifier (404 plan_not_found).
pub fn plan_not_found(id: &str) -> (r: ApiError)
    ensures
        error_is(r, NOT_FOUND, "plan_not_found"@, "plan '"@ + id@ + "' not found"@, None),
{
    api_error(
        NOT_FOUND,
        "plan_not_found",
        String::from_str("plan '").concat(id).concat("' not found"),
        None,
    )
}

/// The answer when a plan cannot be archived: unknown or already archived (404
/// plan_not_found).
pub fn plan_not_archivable(id: &str) -> (r: ApiError)
    ensures
        error_is(
            r,
            NOT_FOUND,
            "plan_not_found"@,
            "plan '"@ + id@ + "' not found or already archived"@,
            None,
        ),
{
    api_error(
        NOT_FOUND,
        "plan_not_found",
        String::from_str("plan '").concat(id).concat("' not found or already archived"),
        None,
    )
}

/// The stored plan for a validated head: default tenant, active, created `now`.
pub fn new_plan(draft: PlanDraft, now: i64) -> (r: Plan)
    ensures
        r.id == draft.id,
        r.tenant_id@ == "default"@,
        r.name == draft.name,
        r.status@ == "active"@,
        r.currency == draft.currency,
        r.interval == draft.interval,
        r.created_at == now,
{
    Plan {
        id: draft.id,
        tenant_id: String::from_str("default"),
        name: draft.name,
        status: String::from_str("active"),
        currency: draft.currency,
        interval: draft.interval,
        created_at: now,
    }
}

/// The status a plan listing filters on: `active` unless given; only active or
/// archived are accepted (400 otherwise).
pub fn plan_list_status(status: Option<&str>) -> (r: Result<String, ApiError>)
    ensures
        ({
            let s = match status {
                Some(s) => s@,
                None => "active"@,
            };
            if s == "active"@ || s == "archived"@ {
                r matches Ok(v) && v@ == s
            } else {
                r matches Err(e) && error_is(
                    e,
                    BAD_REQUEST,
                    "invalid_param"@,
                    "status must be active or archived"@,
                    Some("status"@),
                )
            }
        }),
{
    let s = match status {
        Some(s) => String::from_str(s),
        None => String::from_str("active"),
    };
    if str_eq(s.as_str(), "active") || str_eq(s.as_str(), "archived") {
        Ok(s)
    } else {
        Err(
            api_error(
                BAD_REQUEST,
                "invalid_param",
                String::from_str("status must be active or archived"),
                Some("status"),
            ),
        )
    }
}

/// Some active subscription of `subs` is to the plan `id`.
pub open spec fn plan_in_use(id: Seq<char>, subs: Seq<Subscription>) -> bool {
    exists|k: int|
        0 <= k < subs.len() && (#[trigger] subs[k]).plan_id@ == id && subs[k].status@ == "active"@
}

/// Whether an active subscription of `subs` is to the plan `id`.
pub fn plan_subscribed(id: &str, subs: &Vec<Subscription>) -> (r: bool)
    ensures
        r == plan_in_use(id@, subs@),
{
    let mut k: usize = 0;
    while k < subs.len()
        invariant
            k <= subs.len(),
            forall|a: int|
                0 <= a < k ==> !((#[trigger] subs@[a]).plan_id@ == id@ && subs@[a].status@ == "active"@),
        decreases subs.len() - k,
    {
        if str_eq(subs[k].plan_id.as_str(), id) && str_eq(subs[k].status.as_str(), "active") {
            assert(subs@[k as int].plan_id@ == id@);
            return true;
        }
        k = k + 1;
    }
    false
}

/// The answer when a plan cannot be archived because customers are still
/// subscribed to it (422 active_subscriptions).
pub fn plan_in_use_error(id: &str) -> (r: ApiError)
    ensures
        error_is(
            r,
            UNPROCESSABLE_ENTITY,
            "active_subscriptions"@,
            "plan '"@ + id@ + "' has active subscriptions"@,
            None,
        ),
{
    api_error(
        UNPROCESSABLE_ENTITY,
        "active_subscriptions",
        String::from_str("plan '").concat(id).concat("' has active subscriptions"),
        None,
    )
}

/// What archiving decides: unknown or already archived plans are refused as
/// not found, plans with active subscriptions as in use; otherwise the plan is
/// stored again with status `archived` and its other fields kept.
pub open spec fn archive_result(existing: Option<Plan>, in_use: bool, r: Result<Plan, ArchiveRefusal>) -> bool {
    match existing {
        None => r == Err::<Plan, ArchiveRefusal>(ArchiveRefusal::NotFound),
        Some(p) => if p.status@ == "archived"@ {
            r == Err::<Plan, ArchiveRefusal>(ArchiveRefusal::NotFound)
        } else if in_use {
            r == Err::<Plan, ArchiveRefusal>(ArchiveRefusal::InUse)
        } else {
            r matches Ok(q) && q.status@ == "archived"@ && q.id == p.id && q.tenant_id
                == p.tenant_id && q.name == p.name && q.currency == p.currency && q.interval
                == p.interval && q.created_at == p.created_at
        },
    }
}

/// Archives the plan found (see [`archive_result`]), given whether customers
/// are still subscribed to it.
pub fn archive_plan(existing: Option<Plan>, in_use: bool) -> (r: Result<Plan, ArchiveRefusal>)
    ensures
        archive_result(existing, in_use, r),
{
    match existing {
        None => Err(ArchiveRefusal::NotFound),
        Some(mut p) => {
            if str_eq(p.status.as_str(), "archived") {
                Err(ArchiveRefusal::NotFound)
            } else if in_use {
                Err(ArchiveRefusal::InUse)
            } else {
                p.status = String::from_str("archived");
                Ok(p)
            }
        },
    }
}

/// Archiving is done once: archiving the plan that an archival stored is
/// refused as not found, whatever uses it.
pub proof fn lemma_archive_once(p: Plan, in_use: bool, q: Plan, again_in_use: bool, r: Result<Plan, ArchiveRefusal>)
    requires
        archive_result(Some(p), in_use, Ok(q)),
        archive_result(Some(q), again_in_use, r),
    ensures
        r == Err::<Plan, ArchiveRefusal>(ArchiveRefusal::NotFound),
{
}

/// The positions of the tiered charges, whose tiers are looked up.
pub fn tiered_charges(charges: &Vec<Charge>) -> (r: Vec<usize>)
    ensures
        forall|k: int| 0 <= k < r.len() ==> #[trigger] r@[k] < charges.len() && charges@[r@[k] as int].model@
            == "tiered"@,
        forall|k: int, l: int| 0 <= k < l < r.len() ==> r@[k] < r@[l],
        forall|c: int|
            0 <= c < charges.len() && (#[trigger] charges@[c]).model@ == "tiered"@ ==> r@.contains(
                c as usize,
            ),
{
    let mut r: Vec<usize> = Vec::new();
    let mut i: usize = 0;
    while i < charges.len()
        invariant
            i <= charges.len(),
            forall|k: int| 0 <= k < r.len() ==> #[trigger] r@[k] < i && charges@[r@[k] as int].model@
                == "tiered"@,
            forall|k: int, l: int| 0 <= k < l < r.len() ==> r@[k] < r@[l],
            forall|c: int|
                0 <= c < i && (#[trigger] charges@[c]).model@ == "tiered"@ ==> r@.contains(c as usize),
        decreases charges.len() - i,
    {
        let ghost old_r = r@;
        if str_eq(charges[i].model.as_str(), "tiered") {
            r.push(i);
            assert(r@[r.len() - 1] == i);
        }
        assert forall|c: int|
            0 <= c < i + 1 && (#[trigger] charges@[c]).model@ == "tiered"@ implies r@.contains(
                c as usize,
            ) by {
            if c < i {
                let j = choose|j: int| 0 <= j < old_r.len() && old_r[j] == c as usize;
                assert(r@[j] == old_r[j]);
            } else {
                assert(r@[r.len() - 1] == c as usize);
            }
        }
        i = i + 1;
    }
    r
}

/// A tier as answered.
pub open spec fn tier_view_of(v: TierView, t: Tier) -> bool {
    &&& v.unit_price == t.unit_price
    &&& v.up_to == (if t.up_to == -1 {
        None
    } else {
        Some(t.up_to)
    })
    &&& v.flat_fee == (if t.flat_fee != 0 {
        Some(t.flat_fee)
    } else {
        None
    })
}

/// The tiers belonging to a charge, in order.
pub open spec fn tiers_of(tiers: Seq<Tier>, charge_id: Seq<char>) -> Seq<Tier> {
    tiers.filter(|t: Tier| t.charge_id@ == charge_id)
}

/// A charge as answered, given the tiers belonging to it.
pub open spec fn charge_view_of(v: ChargeView, c: Charge, tiers: Seq<Tier>) -> bool {
    let m = c.model@;
    if m == "flat"@ {
        v matches ChargeView::Flat { id, amount, display } && id == c.id && amount == c.flat_amount
            && display == (if c.display@.len() == 0 {
            None
        } else {
            Some(c.display)
        })
    } else if m == "per_unit"@ {
        v matches ChargeView::PerUnit { id, metric, unit_price } && id == c.id && metric == c.metric
            && unit_price == c.unit_price
    } else if m == "tiered"@ {
        v matches ChargeView::Tiered { id, metric, tiers: vs } && id == c.id && metric == c.metric
            && vs.len() == tiers.len() && forall|k: int|
            0 <= k < vs.len() ==> tier_view_of(#[trigger] vs@[k], tiers[k])
    } else if m == "package"@ {
        v matches ChargeView::Package { id, metric, package_size, package_price } && id == c.id
            && metric == c.metric && package_size == c.package_size && package_price == c.unit_price
    } else if m == "hybrid"@ {
        v matches ChargeView::Hybrid { id, metric, flat_amount, unit_price } && id == c.id && metric
            == c.metric && flat_amount == c.flat_amount && unit_price == c.unit_price
    } else {
        v matches ChargeView::Other { id, model } && id == c.id && model == c.model
    }
}

fn tier_view(t: &Tier) -> (r: TierView)
    ensures
        tier_view_of(r, *t),
{
    TierView {
        unit_price: t.unit_price,
        up_to: if t.up_to == -1 {
            None
        } else {
            Some(t.up_to)
        },
        flat_fee: if t.flat_fee != 0 {
            Some(t.flat_fee)
        } else {
            None
        },
    }
}

/// A charge answers with what it was created from: the answer for a charge
/// stored from a valid request, with the tiers stored for it in order, gives
/// back the request's model and fields. An unbounded tier's `up_to` is
/// answered as null and a tier's zero or absent flat fee is left out, as a
/// request writes them; a hybrid base fee comes back as `flat_amount`.
pub proof fn lemma_charge_answer_gives_back_request(
    plan_id: Seq<char>,
    req: CreateChargeReq,
    c: Charge,
    ts: Seq<Tier>,
    v: ChargeView,
)
    requires
        req.model is Some,
        charge_error(0, req) is None,
        charge_from(c, plan_id, req),
        ts.len() == req.tiers.len(),
        forall|j: int| 0 <= j < ts.len() ==> tier_from(#[trigger] ts[j], c.id@, j, req.tiers@[j]),
        forall|j: int| 0 <= j < req.tiers.len() ==> (#[trigger] req.tiers@[j]).up_to != Some(-1i64),
        charge_view_of(v, c, ts),
    ensures
        req.model->0@ == "flat"@ ==> (v matches ChargeView::Flat { amount, display, .. } && amount
            == req.amount->0 && (display is None <==> opt_text(req.display).len() == 0) && (
        display matches Some(d) ==> d@ == opt_text(req.display))),
        req.model->0@ == "per_unit"@ ==> (v matches ChargeView::PerUnit { metric, unit_price, .. }
            && metric@ == req.metric->0@ && unit_price == req.unit_price->0),
        req.model->0@ == "tiered"@ ==> (v matches ChargeView::Tiered { metric, tiers, .. } && metric@
            == req.metric->0@ && tiers.len() == req.tiers.len() && forall|k: int|
            0 <= k < tiers.len() ==> {
                &&& (#[trigger] tiers@[k]).unit_price == req.tiers@[k].unit_price
                &&& tiers@[k].up_to == req.tiers@[k].up_to
                &&& tiers@[k].flat_fee == (if opt_int(req.tiers@[k].flat_fee, 0) != 0 {
                    Some(opt_int(req.tiers@[k].flat_fee, 0))
                } else {
                    None
                })
            }),
        req.model->0@ == "package"@ ==> (v matches ChargeView::Package {
            metric,
            package_size,
            package_price,
            ..
        } && metric@ == req.metric->0@ && package_size == req.package_size->0 && package_price
            == req.package_price->0),
        req.model->0@ == "hybrid"@ ==> (v matches ChargeView::Hybrid { metric, flat_amount, unit_price, .. }
            && metric@ == req.metric->0@ && flat_amount == hybrid_base(req)->0 && unit_price
            == req.unit_price->0),
{
    lemma_models_distinct();
    if req.model->0@ == "tiered"@ {
        assert(v matches ChargeView::Tiered { .. });
        let vs = v->tiers;
        assert forall|k: int| 0 <= k < vs.len() implies {
            &&& (#[trigger] vs@[k]).unit_price == req.tiers@[k].unit_price
            &&& vs@[k].up_to == req.tiers@[k].up_to
            &&& vs@[k].flat_fee == (if opt_int(req.tiers@[k].flat_fee, 0) != 0 {
                Some(opt_int(req.tiers@[k].flat_fee, 0))
            } else {
                None
            })
        } by {
            assert(tier_view_of(vs@[k], ts[k]));
            assert(tier_from(ts[k], c.id@, k, req.tiers@[k]));
            assert(req.tiers@[k].up_to != Some(-1i64));
        }
    }
}

/// The tiers whose charge is `charge_id`, in order.
pub fn select_tiers(tiers: &Vec<Tier>, charge_id: &str) -> (r: Vec<Tier>)
    ensures
        r@ == tiers_of(tiers@, charge_id@),
{
    let ghost pred = |t: Tier| t.charge_id@ == charge_id@;
    let mut r: Vec<Tier> = Vec::new();
    let mut i: usize = 0;
    while i < tiers.len()
        invariant
            i <= tiers.len(),
            pred == (|t: Tier| t.charge_id@ == charge_id@),
            r@ == tiers@.take(i as int).filter(pred),
        decreases tiers.len() - i,
    {
        proof {
            reveal(Seq::filter);
            assert(tiers@.take(i + 1).drop_last() =~= tiers@.take(i as int));
        }
        let t = tiers[i].clone();
        let ghost prev = tiers@.take(i as int);
        assert(tiers@.take(i + 1).last() == t);
        if str_eq(t.charge_id.as_str(), charge_id) {
            r.push(t);
            proof { reveal(Seq::filter); }
            assert(tiers@.take(i + 1).filter(pred) == prev.filter(pred).push(t));
        } else {
            proof { reveal(Seq::filter); }
            assert(tiers@.take(i + 1).filter(pred) == prev.filter(pred));
        }
        i = i + 1;
    }
    assert(tiers@.take(tiers.len() as int) =~= tiers@);
    r
}

/// A charge as answered, from the tiers belonging to it (used for tiered
/// charges only). A flat charge shows its display text only when it has one;
/// an unbounded tier shows no limit; a zero tier fee is left out.
pub fn charge_view(charge: &Charge, tiers: &Vec<Tier>) -> (r: ChargeView)
    ensures
        charge_view_of(r, *charge, tiers@),
{
    proof {
        lemma_models_distinct();
    }
    let m = charge.model.as_str();
    if str_eq(m, "flat") {
        ChargeView::Flat {
            id: charge.id.clone(),
            amount: charge.flat_amount,
            display: if charge.display.as_str().is_empty() {
                None
            } else {
                Some(charge.display.clone())
            },
        }
    } else if str_eq(m, "per_unit") {
        ChargeView::PerUnit {
            id: charge.id.clone(),
            metric: charge.metric.clone(),
            unit_price: charge.unit_price,
        }
    } else if str_eq(m, "tiered") {
        let mut vs: Vec<TierView> = Vec::new();
        let mut i: usize = 0;
        while i < tiers.len()
            invariant
                i <= tiers.len(),
                vs.len() == i,
                forall|k: int| 0 <= k < i ==> tier_view_of(#[trigger] vs@[k], tiers@[k]),
            decreases tiers.len() - i,
        {
            vs.push(tier_view(&tiers[i]));
            i = i + 1;
        }
        ChargeView::Tiered { id: charge.id.clone(), metric: charge.metric.clone(), tiers: vs }
    } else if str_eq(m, "package") {
        ChargeView::Package {
            id: charge.id.clone(),
            metric: charge.metric.clone(),
            package_size: charge.package_size,
            package_price: charge.unit_price,
        }
    } else if str_eq(m, "hybrid") {
        ChargeView::Hybrid {
            id: charge.id.clone(),
            metric: charge.metric.clone(),
            flat_amount: charge.flat_amount,
            unit_price: charge.unit_price,
        }
    } else {
        ChargeView::Other { id: charge.id.clone(), model: charge.model.clone() }
    }
}

/// A plan as answered: its fields and its charges in order, each with the
/// tiers (among `tiers`) that belong to it.
pub fn plan_view(plan: &Plan, charges: &Vec<Charge>, tiers: &Vec<Tier>) -> (r: PlanView)
    ensures
        r.id == plan.id,
        r.name == plan.name,
        r.status == plan.status,
        r.currency == plan.currency,
        r.interval == plan.interval,
        r.created_at == plan.created_at,
        r.charges.len() == charges.len(),
        forall|k: int|
            0 <= k < charges.len() ==> charge_view_of(
                #[trigger] r.charges@[k],
                charges@[k],
                tiers_of(tiers@, charges@[k].id@),
            ),
{
    let mut cs: Vec<ChargeView> = Vec::new();
    let mut i: usize = 0;
    while i < charges.len()
        invariant
            i <= charges.len(),
            cs.len() == i,
            forall|k: int|
                0 <= k < i ==> charge_view_of(
                    #[trigger] cs@[k],
                    charges@[k],
                    tiers_of(tiers@, charges@[k].id@),
                ),
        decreases charges.len() - i,
    {
        let own = select_tiers(tiers, charges[i].id.as_str());
        cs.push(charge_view(&charges[i], &own));
        i = i + 1;
    }
    PlanView {
        id: plan.id.clone(),
        name: plan.name.clone(),
        status: plan.status.clone(),
        currency: plan.currency.clone(),
        interval: plan.interval.clone(),
        charges: cs,
        created_at: plan.created_at,
    }
}

} // verus!
