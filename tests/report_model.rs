use region_chart::report::{eq_ignoring_ascii_case, DailyReport, Decimal, Statistic};

fn sample() -> DailyReport {
    DailyReport {
        province_state: "Ohio".to_string(),
        confirmed: 120,
        deaths: Some(7),
        recovered: None,
        people_tested: Some(900),
        hospitalization_rate: Decimal { mantissa: 1250, scale: 2 },
    }
}

#[test]
fn get_prop_ignores_case() {
    let r = sample();
    assert_eq!(r.get_prop("CONFIRMED"), r.get_prop("confirmed"));
    assert_eq!(r.get_prop("Confirmed"), Some(Decimal { mantissa: 120, scale: 0 }));
    assert_eq!(r.get_prop("People_Tested"), Some(Decimal::whole(900)));
    assert_eq!(r.get_prop("HOSPITALIZATION_RATE"), Some(Decimal { mantissa: 1250, scale: 2 }));
}

#[test]
fn get_prop_unknown_field_is_absent() {
    let r = sample();
    assert_eq!(r.get_prop("unknown_field"), None);
    assert_eq!(r.get_prop(""), None);
    assert_eq!(r.get_prop("confirmed "), None);
}

#[test]
fn get_prop_absent_figure_is_absent_not_zero() {
    let r = sample();
    assert_eq!(r.get_prop("recovered"), None);
    assert_eq!(r.get_prop("deaths"), Some(Decimal::whole(7)));
}

#[test]
fn placeholder_is_all_zero() {
    let p = DailyReport::placeholder();
    assert_eq!(p.province_state, "");
    assert_eq!(p.confirmed, 0);
    assert_eq!(p.deaths, Some(0));
    assert_eq!(p.recovered, Some(0));
    assert_eq!(p.people_tested, Some(0));
    assert_eq!(p.hospitalization_rate, Decimal::zero());
    let d = DailyReport::default();
    assert_eq!(d.province_state, "");
    assert_eq!(d.get_prop("deaths"), Some(Decimal::whole(0)));
}

#[test]
fn statistic_names() {
    assert_eq!(Statistic::from_name("PeOpLe_TeStEd"), Some(Statistic::PeopleTested));
    assert_eq!(Statistic::from_name("recovered"), Some(Statistic::Recovered));
    assert_eq!(Statistic::from_name("death"), None);
    assert_eq!(Statistic::HospitalizationRate.upper_name(), "HOSPITALIZATION_RATE");
    assert!(eq_ignoring_ascii_case("DeAtHs", "deaths"));
    assert!(!eq_ignoring_ascii_case("deaths", "deaths_"));
}

#[test]
fn decimal_floor() {
    assert_eq!(Decimal { mantissa: 1250, scale: 2 }.floor(), 12);
    assert_eq!(Decimal { mantissa: 5, scale: 1 }.floor(), 0);
    assert_eq!(Decimal { mantissa: 42, scale: 0 }.floor(), 42);
    assert_eq!(Decimal { mantissa: u64::MAX, scale: 25 }.floor(), 0);
}
