//! Commission plans of the BCS broker.
use vstd::prelude::*;
use crate::commissions::{
    CommissionSpec,
    CommissionSpecBuilder,
    CumulativeCommissionSpecBuilder,
    RoundingMethod,
    decimal_lt,
    opt_view,
    tiers_view,
};
use crate::decimal::{Decimal, DecimalView, pow10};

verus! {

pub open spec fn dv(mantissa: int, scale: int) -> DecimalView {
    DecimalView { mantissa, scale }
}

/// The "Professional" plan: a percent of the daily trade volume that falls
/// as the volume grows, with daily and monthly minimums, an exchange fee and
/// a monthly depositary fee, in roubles, truncated.
pub open spec fn professional_plan(spec: CommissionSpec) -> bool {
    &&& spec.currency@ == "RUB"@
    &&& spec.rounding_method == RoundingMethod::Truncate
    &&& spec.cumulative matches Some(c) && {
        &&& tiers_view(c.tiers@) == seq![
            (dv(0, 0), dv(531, 4)),
            (dv(100000, 0), dv(413, 4)),
            (dv(300000, 0), dv(354, 4)),
            (dv(1000000, 0), dv(295, 4)),
            (dv(5000000, 0), dv(236, 4)),
            (dv(15000000, 0), dv(177, 4)),
        ]
        &&& opt_view(c.minimum_daily) == Some(dv(354, 1))
        &&& opt_view(c.minimum_monthly) == Some(dv(177, 0))
        &&& opt_view(c.percent_fee) == Some(dv(1, 2))
        &&& opt_view(c.monthly_depositary) == Some(dv(177, 0))
    }
}

pub fn professional() -> (r: CommissionSpec)
    ensures
        professional_plan(r),
{
    let mut tiers: Vec<(Decimal, Decimal)> = Vec::new();
    tiers.push((Decimal::new(0, 0), Decimal::new(531, 4)));
    tiers.push((Decimal::new(100_000, 0), Decimal::new(413, 4)));
    tiers.push((Decimal::new(300_000, 0), Decimal::new(354, 4)));
    tiers.push((Decimal::new(1_000_000, 0), Decimal::new(295, 4)));
    tiers.push((Decimal::new(5_000_000, 0), Decimal::new(236, 4)));
    tiers.push((Decimal::new(15_000_000, 0), Decimal::new(177, 4)));
    let ghost tiers_seq = tiers@;
    assert(tiers_seq[0].0@.mantissa == 0);
    proof {
        assert(pow10(0) == 1);
        let volumes = seq![0int, 100000, 300000, 1000000, 5000000, 15000000];
        assert(volumes[0] == 0 && volumes[1] == 100000 && volumes[2] == 300000 && volumes[3]
            == 1000000 && volumes[4] == 5000000 && volumes[5] == 15000000);
        assert forall|k: int| 0 <= k < 6 implies (#[trigger] tiers_seq[k]).0@ == dv(volumes[k], 0) by {}
        assert forall|i: int, j: int| 0 <= i < j < tiers_seq.len() implies decimal_lt(
            tiers_seq[i].0@,
            tiers_seq[j].0@,
        ) by {
            assert(tiers_seq[i].0@ == dv(volumes[i], 0));
            assert(tiers_seq[j].0@ == dv(volumes[j], 0));
            assert(volumes[i] < volumes[j]);
            assert(pow10(0) == 1);
            assert(volumes[i] * pow10(0) < volumes[j] * pow10(0));
        }
    }
    let cumulative = CumulativeCommissionSpecBuilder::new().tiers(tiers).unwrap();
    let cumulative = cumulative.minimum_daily(Decimal::new(354, 1)).minimum_monthly(
        Decimal::new(177, 0),
    ).percent_fee(Decimal::new(1, 2))  // Exchange fee
    .monthly_depositary(Decimal::new(177, 0)).build();
    let spec = CommissionSpecBuilder::new("RUB").cumulative(cumulative).rounding_method(
        RoundingMethod::Truncate,
    ).build();
    assert(tiers_view(spec.cumulative.unwrap().tiers@) =~= seq![
        (dv(0, 0), dv(531, 4)),
        (dv(100000, 0), dv(413, 4)),
        (dv(300000, 0), dv(354, 4)),
        (dv(1000000, 0), dv(295, 4)),
        (dv(5000000, 0), dv(236, 4)),
        (dv(15000000, 0), dv(177, 4)),
    ]);
    spec
}

} // verus!
