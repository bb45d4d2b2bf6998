//! Monthly quotes in whole cents.
use crate::observation::TenantId;
use crate::usage;
use crate::usage::{UsageKind, UsageLedger};
use vstd::prelude::*;

verus! {

/// A subscription plan.
#[derive(Debug, Clone, Copy, PartialEq, Eq, Structural)]
pub enum SubscriptionPlan {
    Starter,
    Growth,
    Scale,
}

/// What a month would cost. It is not a bill.
#[derive(Debug, Clone, PartialEq, Eq)]
pub struct BillingQuote {
    pub plan: SubscriptionPlan,
    pub period: String,
    pub included_observations: u64,
    pub used_observations: u64,
    pub base_price_cents: u64,
    pub overage_cents: u64,
    pub total_cents: u64,
}

impl SubscriptionPlan {
    /// The number of observations that the plan includes.
    pub open spec fn included(self) -> u64 {
        match self {
            SubscriptionPlan::Starter => 100_000,
            SubscriptionPlan::Growth => 1_000_000,
            SubscriptionPlan::Scale => 10_000_000,
        }
    }

    /// The price of the plan in cents.
    pub open spec fn base_cents(self) -> u64 {
        match self {
            SubscriptionPlan::Starter => 1_900,
            SubscriptionPlan::Growth => 9_900,
            SubscriptionPlan::Scale => 49_900,
        }
    }

    /// The price in cents of a thousand observations above the included ones.
    pub open spec fn unit_cents(self) -> u64 {
        match self {
            SubscriptionPlan::Starter => 3,
            SubscriptionPlan::Growth => 2,
            SubscriptionPlan::Scale => 1,
        }
    }

    /// The number of thousands above the included observations; a begun thousand counts whole.
    pub open spec fn overage_units(self, used: int) -> int {
        if used > self.included() {
            (used - self.included() + 999) / 1_000
        } else {
            0
        }
    }

    /// The price in cents of what is above the included observations.
    pub open spec fn overage(self, used: int) -> int {
        self.overage_units(used) * self.unit_cents()
    }

    /// The price of the month in cents.
    pub open spec fn price(self, used: int) -> int {
        self.base_cents() + self.overage(used)
    }
}

/// The quote for a tenant and a period, from the observations in the ledger.
pub fn quote_monthly_usage(
    ledger: &UsageLedger,
    tenant_id: &TenantId,
    period: &str,
    plan: SubscriptionPlan,
) -> (r: BillingQuote)
    ensures
        ({
            let used = usage::amount(ledger@, (*tenant_id, period@, UsageKind::Observation));
            &&& r.plan == plan
            &&& r.period@ == period@
            &&& r.included_observations == plan.included()
            &&& r.used_observations == used
            &&& r.base_price_cents == plan.base_cents()
            &&& r.overage_cents == plan.overage(used as int)
            &&& r.total_cents == plan.price(used as int)
        }),
{
    let (included, base, unit): (u64, u64, u64) = match plan {
        SubscriptionPlan::Starter => (100_000, 1_900, 3),
        SubscriptionPlan::Growth => (1_000_000, 9_900, 2),
        SubscriptionPlan::Scale => (10_000_000, 49_900, 1),
    };
    let used: u64 = ledger.total(tenant_id, period, &UsageKind::Observation);
    let above: u64 = used.saturating_sub(included);
    let units: u64 = above / 1_000 + if above % 1_000 == 0 {
        0
    } else {
        1
    };
    assert(units == plan.overage_units(used as int));
    assert(units * unit <= units * 3) by (nonlinear_arith)
        requires
            0 <= unit <= 3,
    ;
    let overage_cents: u64 = units * unit;
    BillingQuote {
        plan,
        period: period.to_owned(),
        included_observations: included,
        used_observations: used,
        base_price_cents: base,
        overage_cents,
        total_cents: base + overage_cents,
    }
}

/// Within the included observations a month costs the price of the plan.
pub proof fn included_use_costs_the_base_price(plan: SubscriptionPlan, used: int)
    requires
        0 <= used <= plan.included(),
    ensures
        plan.price(used) == plan.base_cents(),
{
}

/// More observations never cost less.
pub proof fn price_is_monotone(plan: SubscriptionPlan, less: int, more: int)
    requires
        0 <= less <= more,
    ensures
        plan.price(less) <= plan.price(more),
{
    let a = plan.overage_units(less);
    let b = plan.overage_units(more);
    assert(0 <= a <= b);
    assert(a * plan.unit_cents() <= b * plan.unit_cents()) by (nonlinear_arith)
        requires
            a <= b,
            0 <= plan.unit_cents(),
    ;
}

/// A begun thousand is charged whole: one observation above the included ones costs one unit, and
/// so does each of the first thousand above.
pub proof fn begun_thousands_are_charged_whole(plan: SubscriptionPlan, above: int)
    requires
        1 <= above <= 1_000,
    ensures
        plan.price(plan.included() + above) == plan.base_cents() + plan.unit_cents(),
{
    assert(plan.overage_units(plan.included() + above) == 1);
}

/// Each further thousand above the included observations costs one more unit.
pub proof fn each_further_thousand_costs_one_unit(plan: SubscriptionPlan, above: int)
    requires
        above >= 1,
    ensures
        plan.price(plan.included() + above + 1_000) == plan.price(plan.included() + above)
            + plan.unit_cents(),
{
    let units = plan.overage_units(plan.included() + above);
    assert(plan.overage_units(plan.included() + above + 1_000) == units + 1);
    assert((units + 1) * plan.unit_cents() == units * plan.unit_cents() + plan.unit_cents())
        by (nonlinear_arith);
}

/// A quote names the terms of the plan, and charges the base price and one unit for every thousand
/// above the included observations that was begun: nothing up to the included ones, and `n` units
/// where more than `n - 1` thousand and no more than `n` thousand are above them.
pub proof fn a_quote_charges_begun_thousands(
    ledger: &UsageLedger,
    tenant_id: &TenantId,
    period: &str,
    plan: SubscriptionPlan,
    r: BillingQuote,
    n: int,
)
    requires
        call_ensures(quote_monthly_usage, (ledger, tenant_id, period, plan), r),
    ensures
        r.plan == plan,
        r.period@ == period@,
        plan == SubscriptionPlan::Starter ==> r.included_observations == 100_000
            && r.base_price_cents == 1_900,
        plan == SubscriptionPlan::Growth ==> r.included_observations == 1_000_000
            && r.base_price_cents == 9_900,
        plan == SubscriptionPlan::Scale ==> r.included_observations == 10_000_000
            && r.base_price_cents == 49_900,
        r.total_cents == r.base_price_cents + r.overage_cents,
        r.used_observations <= r.included_observations ==> r.overage_cents == 0,
        1 <= n && (n - 1) * 1_000 < r.used_observations - r.included_observations <= n * 1_000 ==> {
            &&& plan == SubscriptionPlan::Starter ==> r.overage_cents == 3 * n
            &&& plan == SubscriptionPlan::Growth ==> r.overage_cents == 2 * n
            &&& plan == SubscriptionPlan::Scale ==> r.overage_cents == n
        },
{
    if 1 <= n && (n - 1) * 1_000 < r.used_observations - r.included_observations <= n * 1_000 {
        let unit = plan.unit_cents();
        assert(plan.overage_units(r.used_observations as int) == n);
        assert(unit == 1 ==> n * unit == n) by (nonlinear_arith);
        assert(unit == 2 ==> n * unit == 2 * n) by (nonlinear_arith);
        assert(unit == 3 ==> n * unit == 3 * n) by (nonlinear_arith);
    }
}

/// A quote counts what the ledger has for the tenant and the period as observations, and nothing
/// else.
pub proof fn a_quote_counts_recorded_observations(
    ledger: &UsageLedger,
    tenant_id: &TenantId,
    period: &str,
    plan: SubscriptionPlan,
    r: BillingQuote,
    kind: &UsageKind,
    total: u64,
)
    requires
        call_ensures(quote_monthly_usage, (ledger, tenant_id, period, plan), r),
        *kind == UsageKind::Observation,
        call_ensures(UsageLedger::total, (ledger, tenant_id, period, kind), total),
    ensures
        r.used_observations == total,
{
}

} // verus!
