use investments::bcs::professional;
use investments::commissions::{CumulativeCommissionSpecBuilder, InvalidTiers, RoundingMethod};
use investments::decimal::Decimal;

fn text(d: &Decimal) -> String {
    d.to_text()
}

#[test]
fn professional_plan() {
    let spec = professional();
    assert_eq!(spec.currency, "RUB");
    assert_eq!(spec.rounding_method, RoundingMethod::Truncate);
    let c = spec.cumulative.unwrap();
    let tiers: Vec<(String, String)> = c.tiers.iter().map(|(a, b)| (text(a), text(b))).collect();
    assert_eq!(tiers, vec![
        ("0".to_string(), "0.0531".to_string()),
        ("100000".to_string(), "0.0413".to_string()),
        ("300000".to_string(), "0.0354".to_string()),
        ("1000000".to_string(), "0.0295".to_string()),
        ("5000000".to_string(), "0.0236".to_string()),
        ("15000000".to_string(), "0.0177".to_string()),
    ]);
    assert_eq!(text(&c.minimum_daily.unwrap()), "35.4");
    assert_eq!(text(&c.minimum_monthly.unwrap()), "177");
    assert_eq!(text(&c.percent_fee.unwrap()), "0.01");
    assert_eq!(text(&c.monthly_depositary.unwrap()), "177");
}

#[test]
fn tiers_need_a_zero_volume_tier() {
    let r = CumulativeCommissionSpecBuilder::new().tiers(vec![(Decimal::new(1, 0), Decimal::new(5, 2))]);
    assert_eq!(r.err(), Some(InvalidTiers));
    let r = CumulativeCommissionSpecBuilder::new().tiers(vec![(Decimal::new(0, 2), Decimal::new(5, 2))]);
    assert!(r.is_ok());
}
