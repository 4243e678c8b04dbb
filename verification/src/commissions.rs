//! Broker commission plans.
use vstd::prelude::*;
use crate::decimal::{Decimal, DecimalView, pow10};

verus! {

/// How commission amounts are rounded to the currency's precision.
#[derive(Debug, Clone, Copy, PartialEq, Eq, Structural)]
pub enum RoundingMethod {
    Round,
    Truncate,
}

/// A commission that is charged on the cumulative trade volume of a day.
#[derive(Debug, Clone)]
pub struct CumulativeCommissionSpec {
    /// Pairs of (daily volume from which the tier applies, percent charged),
    /// a map from volumes to percents: the volumes strictly ascend.
    pub tiers: Vec<(Decimal, Decimal)>,
    pub minimum_daily: Option<Decimal>,
    pub minimum_monthly: Option<Decimal>,
    /// A percent charged on top of the tier's one (an exchange fee).
    pub percent_fee: Option<Decimal>,
    pub monthly_depositary: Option<Decimal>,
}

/// A commission plan of a broker.
#[derive(Debug, Clone)]
pub struct CommissionSpec {
    pub currency: String,
    pub cumulative: Option<CumulativeCommissionSpec>,
    pub rounding_method: RoundingMethod,
}

/// The tiers have no tier for a zero volume.
#[derive(Debug, Clone, Copy, PartialEq, Eq, Structural)]
pub struct InvalidTiers;

pub open spec fn tiers_view(tiers: Seq<(Decimal, Decimal)>) -> Seq<(DecimalView, DecimalView)> {
    tiers.map_values(|t: (Decimal, Decimal)| (t.0@, t.1@))
}

/// `a` is a smaller number than `b`.
pub open spec fn decimal_lt(a: DecimalView, b: DecimalView) -> bool {
    a.mantissa * pow10(b.scale as nat) < b.mantissa * pow10(a.scale as nat)
}

/// The volumes of the tiers strictly ascend, as the keys of a map do.
pub open spec fn volumes_ascend(tiers: Seq<(Decimal, Decimal)>) -> bool {
    forall|i: int, j: int| 0 <= i < j < tiers.len() ==> decimal_lt(tiers[i].0@, tiers[j].0@)
}

pub open spec fn has_zero_tier(tiers: Seq<(Decimal, Decimal)>) -> bool {
    exists|i: int| 0 <= i < tiers.len() && (#[trigger] tiers[i]).0@.mantissa == 0
}

pub open spec fn opt_view(d: Option<Decimal>) -> Option<DecimalView> {
    match d {
        Some(d) => Some(d@),
        None => None,
    }
}

/// Builds a `CumulativeCommissionSpec`.
pub struct CumulativeCommissionSpecBuilder {
    pub spec: CumulativeCommissionSpec,
}

impl CumulativeCommissionSpecBuilder {
    pub fn new() -> (r: CumulativeCommissionSpecBuilder)
        ensures
            r.spec.tiers@.len() == 0,
            r.spec.minimum_daily is None,
            r.spec.minimum_monthly is None,
            r.spec.percent_fee is None,
            r.spec.monthly_depositary is None,
    {
        CumulativeCommissionSpecBuilder {
            spec: CumulativeCommissionSpec {
                tiers: Vec::new(),
                minimum_daily: None,
                minimum_monthly: None,
                percent_fee: None,
                monthly_depositary: None,
            },
        }
    }

    /// Sets the tiers; one of them must start at a zero volume.
    pub fn tiers(self, tiers: Vec<(Decimal, Decimal)>) -> (r: Result<
        CumulativeCommissionSpecBuilder,
        InvalidTiers,
    >)
        requires
            volumes_ascend(tiers@),
        ensures
            r is Ok <==> has_zero_tier(tiers@),
            r matches Ok(b) ==> b.spec.tiers@ == tiers@ && b.spec.minimum_daily
                == self.spec.minimum_daily && b.spec.minimum_monthly == self.spec.minimum_monthly
                && b.spec.percent_fee == self.spec.percent_fee && b.spec.monthly_depositary
                == self.spec.monthly_depositary,
    {
        let mut i: usize = 0;
        let mut found = false;
        while i < tiers.len()
            invariant
                i <= tiers@.len(),
                found <==> exists|k: int| 0 <= k < i && (#[trigger] tiers@[k]).0@.mantissa == 0,
            decreases tiers@.len() - i,
        {
            if tiers[i].0.is_zero() {
                found = true;
            }
            i = i + 1;
        }
        if !found {
            return Err(InvalidTiers);
        }
        let mut builder = self;
        builder.spec.tiers = tiers;
        Ok(builder)
    }

    pub fn minimum_daily(self, amount: Decimal) -> (r: CumulativeCommissionSpecBuilder)
        ensures
            r.spec.minimum_daily == Some(amount),
            r.spec.tiers@ == self.spec.tiers@,
            r.spec.minimum_monthly == self.spec.minimum_monthly,
            r.spec.percent_fee == self.spec.percent_fee,
            r.spec.monthly_depositary == self.spec.monthly_depositary,
    {
        let mut builder = self;
        builder.spec.minimum_daily = Some(amount);
        builder
    }

    pub fn minimum_monthly(self, amount: Decimal) -> (r: CumulativeCommissionSpecBuilder)
        ensures
            r.spec.minimum_monthly == Some(amount),
            r.spec.tiers@ == self.spec.tiers@,
            r.spec.minimum_daily == self.spec.minimum_daily,
            r.spec.percent_fee == self.spec.percent_fee,
            r.spec.monthly_depositary == self.spec.monthly_depositary,
    {
        let mut builder = self;
        builder.spec.minimum_monthly = Some(amount);
        builder
    }

    pub fn percent_fee(self, percent: Decimal) -> (r: CumulativeCommissionSpecBuilder)
        ensures
            r.spec.percent_fee == Some(percent),
            r.spec.tiers@ == self.spec.tiers@,
            r.spec.minimum_daily == self.spec.minimum_daily,
            r.spec.minimum_monthly == self.spec.minimum_monthly,
            r.spec.monthly_depositary == self.spec.monthly_depositary,
    {
        let mut builder = self;
        builder.spec.percent_fee = Some(percent);
        builder
    }

    pub fn monthly_depositary(self, amount: Decimal) -> (r: CumulativeCommissionSpecBuilder)
        ensures
            r.spec.monthly_depositary == Some(amount),
            r.spec.tiers@ == self.spec.tiers@,
            r.spec.minimum_daily == self.spec.minimum_daily,
            r.spec.minimum_monthly == self.spec.minimum_monthly,
            r.spec.percent_fee == self.spec.percent_fee,
    {
        let mut builder = self;
        builder.spec.monthly_depositary = Some(amount);
        builder
    }

    pub fn build(self) -> (r: CumulativeCommissionSpec)
        ensures
            r == self.spec,
    {
        self.spec
    }
}

/// Builds a `CommissionSpec`.
pub struct CommissionSpecBuilder {
    pub spec: CommissionSpec,
}

impl CommissionSpecBuilder {
    /// A plan charging in `currency`, with no commissions yet, that rounds
    /// commissions to the nearest value.
    pub fn new(currency: &str) -> (r: CommissionSpecBuilder)
        ensures
            r.spec.currency@ == currency@,
            r.spec.cumulative is None,
            r.spec.rounding_method == RoundingMethod::Round,
    {
        CommissionSpecBuilder {
            spec: CommissionSpec {
                currency: String::from_str(currency),
                cumulative: None,
                rounding_method: RoundingMethod::Round,
            },
        }
    }

    pub fn cumulative(self, spec: CumulativeCommissionSpec) -> (r: CommissionSpecBuilder)
        ensures
            r.spec.cumulative == Some(spec),
            r.spec.currency@ == self.spec.currency@,
            r.spec.rounding_method == self.spec.rounding_method,
    {
        let mut builder = self;
        builder.spec.cumulative = Some(spec);
        builder
    }

    pub fn rounding_method(self, method: RoundingMethod) -> (r: CommissionSpecBuilder)
        ensures
            r.spec.rounding_method == method,
            r.spec.currency@ == self.spec.currency@,
            r.spec.cumulative == self.spec.cumulative,
    {
        let mut builder = self;
        builder.spec.rounding_method = method;
        builder
    }

    pub fn build(self) -> (r: CommissionSpec)
        ensures
            r == self.spec,
    {
        self.spec
    }
}

} // verus!
