use region_chart::config::parse_configuration;
use region_chart::report::{DailyReport, Decimal, Statistic};
use region_chart::series::{
    chart_of, chart_title, collect_reports, plot_points, prepare_chart, sort_reports, y_upper_bound,
};

fn report(confirmed: u64, rate_tenths: u64) -> DailyReport {
    DailyReport {
        province_state: "Ohio".to_string(),
        confirmed,
        deaths: None,
        recovered: Some(confirmed / 2),
        people_tested: None,
        hospitalization_rate: Decimal { mantissa: rate_tenths, scale: 1 },
    }
}

fn day_file(confirmed: u64, rate: &str) -> Vec<u8> {
    format!(
        "Province_State,Confirmed,Deaths,Recovered,People_Tested,Hospitalization_Rate\nAlabama,1,1,1,1,9.0\nOhio,{},0,0,0,{}\n",
        confirmed, rate
    )
    .into_bytes()
}

fn keys(v: &[DailyReport]) -> Vec<u64> {
    v.iter().map(|r| r.confirmed).collect()
}

#[test]
fn three_days_of_hospitalization_rate() {
    let config = parse_configuration(
        "state = \"Ohio\"\nstatistic = \"hospitalization_rate\"\ndatapath = \"d\"\n",
    )
    .unwrap();
    let files = vec![day_file(10, "1.0"), day_file(5, "2.0"), day_file(20, "3.0")];
    let chart = prepare_chart(&config, &files);
    assert_eq!(keys(&chart.reports), vec![5, 10, 20]);
    assert_eq!(
        chart.points,
        vec![
            (0, Decimal { mantissa: 20, scale: 1 }),
            (1, Decimal { mantissa: 10, scale: 1 }),
            (2, Decimal { mantissa: 30, scale: 1 }),
        ]
    );
    assert_eq!(chart.y_max, 4);
}

#[test]
fn one_file_without_the_region() {
    let config = parse_configuration("state = \"Utah\"\nstatistic = \"deaths\"\ndatapath = \"d\"\n").unwrap();
    let files = vec![day_file(10, "1.0")];
    let chart = prepare_chart(&config, &files);
    assert_eq!(chart.reports.len(), 1);
    assert_eq!(chart.reports[0].confirmed, 0);
    assert_eq!(chart.reports[0].province_state, "");
    assert_eq!(chart.reports[0].deaths, Some(0));
    assert_eq!(chart.y_max, 1);
    assert_eq!(chart.points, vec![(0, Decimal::whole(0))]);
}

#[test]
fn no_files_give_an_empty_chart() {
    let chart = chart_of(Vec::new(), Statistic::Confirmed);
    assert!(chart.reports.is_empty());
    assert!(chart.points.is_empty());
    assert_eq!(chart.y_max, 1);
}

#[test]
fn sort_ascending_by_confirmed() {
    let sorted = sort_reports(vec![report(7, 1), report(3, 2), report(9, 3), report(3, 4), report(0, 5)]);
    assert_eq!(keys(&sorted), vec![0, 3, 3, 7, 9]);
}

#[test]
fn sort_ignores_input_order() {
    let a = sort_reports(vec![report(10, 1), report(5, 2), report(20, 3)]);
    let b = sort_reports(vec![report(20, 3), report(10, 1), report(5, 2)]);
    let c = sort_reports(vec![report(5, 2), report(20, 3), report(10, 1)]);
    assert_eq!(keys(&a), keys(&b));
    assert_eq!(keys(&a), keys(&c));
    assert_eq!(a[0].hospitalization_rate, b[0].hospitalization_rate);
}

#[test]
fn absent_values_plot_as_zero() {
    let reports = vec![report(4, 1), report(6, 2)];
    let points = plot_points(&reports, Statistic::Deaths);
    assert_eq!(points, vec![(0, Decimal::whole(0)), (1, Decimal::whole(0))]);
    assert_eq!(y_upper_bound(&reports, Statistic::Deaths), 1);
    assert_eq!(y_upper_bound(&reports, Statistic::Recovered), 4);
}

#[test]
fn upper_bound_uses_integer_part() {
    let reports = vec![report(1, 39), report(2, 12)];
    assert_eq!(y_upper_bound(&reports, Statistic::HospitalizationRate), 4);
    let huge = vec![report(u64::MAX, 0)];
    assert_eq!(y_upper_bound(&huge, Statistic::Confirmed), u64::MAX as u128 + 1);
}

#[test]
fn reports_follow_file_order() {
    let files = vec![day_file(10, "1.0"), Vec::new(), day_file(5, "2.5")];
    let reports = collect_reports(&files, "Ohio");
    assert_eq!(keys(&reports), vec![10, 0, 5]);
    assert_eq!(reports[2].hospitalization_rate, Decimal { mantissa: 25, scale: 1 });
}

#[test]
fn title_names_region_and_statistic() {
    let config = parse_configuration("state = \"Ohio\"\nstatistic = \"people_Tested\"\ndatapath = \"d\"\n").unwrap();
    assert_eq!(chart_title(&config), "Ohio: PEOPLE_TESTED vs DAYS ELAPSED");
}
