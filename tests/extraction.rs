use region_chart::report::Decimal;
use region_chart::table::{decode_report, extract_report, report_from_table};

const HEADER: &str = "Province_State,Country_Region,Confirmed,Deaths,Recovered,People_Tested,Hospitalization_Rate\n";

fn table(rows: &[&str]) -> Vec<u8> {
    let mut text = HEADER.to_string();
    for r in rows {
        text.push_str(r);
        text.push('\n');
    }
    text.into_bytes()
}

#[test]
fn matching_row_is_returned() {
    let data = table(&["Alabama,US,100,3,40,1000,12.5", "Ohio,US,250,9,,5000,7.25", "Texas,US,900,1,2,3,4"]);
    let r = extract_report(&data, "Ohio");
    assert_eq!(r.province_state, "Ohio");
    assert_eq!(r.confirmed, 250);
    assert_eq!(r.deaths, Some(9));
    assert_eq!(r.recovered, None);
    assert_eq!(r.people_tested, Some(5000));
    assert_eq!(r.hospitalization_rate, Decimal { mantissa: 725, scale: 2 });
}

#[test]
fn first_match_wins() {
    let data = table(&["Ohio,US,1,1,1,1,1.0", "Ohio,US,2,2,2,2,2.0"]);
    let r = extract_report(&data, "Ohio");
    assert_eq!(r.confirmed, 1);
    assert_eq!(r.hospitalization_rate, Decimal { mantissa: 10, scale: 1 });
}

#[test]
fn no_match_gives_placeholder() {
    let data = table(&["Alabama,US,100,3,40,1000,12.5"]);
    let r = extract_report(&data, "Ohio");
    assert_eq!(r.province_state, "");
    assert_eq!(r.confirmed, 0);
    assert_eq!(r.deaths, Some(0));
    assert_eq!(r.recovered, Some(0));
    assert_eq!(r.people_tested, Some(0));
    assert_eq!(r.hospitalization_rate, Decimal::zero());
}

#[test]
fn region_match_is_exact() {
    let data = table(&["ohio,US,5,1,1,1,1.0", "Ohio ,US,6,1,1,1,1.0"]);
    let r = extract_report(&data, "Ohio");
    assert_eq!(r.confirmed, 0);
    assert_eq!(r.province_state, "");
}

#[test]
fn unreadable_rows_are_skipped() {
    let data = table(&[
        "Ohio,US,,1,1,1,1.0",
        "Ohio,US,10,x,1,1,1.0",
        "Ohio,US,11,1,1,1,",
        "Ohio,US,12,1,1",
        "Ohio,US,13,1,1,1,2.5",
    ]);
    let r = extract_report(&data, "Ohio");
    assert_eq!(r.confirmed, 13);
    assert_eq!(r.hospitalization_rate, Decimal { mantissa: 25, scale: 1 });
}

#[test]
fn quoted_fields_and_hex_counts() {
    let data = "Province_State,Confirmed,Deaths,Recovered,People_Tested,Hospitalization_Rate\n\"Ohio\",0x10,\"3\",,,\"1.5\"\n"
        .as_bytes()
        .to_vec();
    let r = extract_report(&data, "Ohio");
    assert_eq!(r.confirmed, 16);
    assert_eq!(r.deaths, Some(3));
    assert_eq!(r.recovered, None);
    assert_eq!(r.hospitalization_rate, Decimal { mantissa: 15, scale: 1 });
}

#[test]
fn missing_optional_column_is_absent() {
    let data = "Province_State,Confirmed,Hospitalization_Rate\nOhio,8,0.5\n".as_bytes().to_vec();
    let r = extract_report(&data, "Ohio");
    assert_eq!(r.confirmed, 8);
    assert_eq!(r.deaths, None);
    assert_eq!(r.recovered, None);
    assert_eq!(r.people_tested, None);
}

#[test]
fn missing_required_column_gives_placeholder() {
    let data = "Province_State,Deaths,Hospitalization_Rate\nOhio,8,0.5\n".as_bytes().to_vec();
    let r = extract_report(&data, "Ohio");
    assert_eq!(r.province_state, "");
    assert_eq!(r.deaths, Some(0));
}

#[test]
fn repeated_header_gives_placeholder() {
    let data = "Province_State,Confirmed,Confirmed,Hospitalization_Rate\nOhio,8,9,0.5\n".as_bytes().to_vec();
    let r = extract_report(&data, "Ohio");
    assert_eq!(r.province_state, "");
    assert_eq!(r.confirmed, 0);
}

#[test]
fn empty_file_gives_placeholder() {
    let r = extract_report(&[], "Ohio");
    assert_eq!(r.province_state, "");
    assert_eq!(r.confirmed, 0);
}

#[test]
fn table_without_headers_reads_by_position() {
    let row = vec![
        "Ohio".to_string(),
        "4".to_string(),
        "".to_string(),
        "2".to_string(),
        "3".to_string(),
        "0.75".to_string(),
    ];
    let r = decode_report(&None, &row).unwrap();
    assert_eq!(r.confirmed, 4);
    assert_eq!(r.deaths, None);
    assert_eq!(r.recovered, Some(2));
    assert_eq!(r.hospitalization_rate, Decimal { mantissa: 75, scale: 2 });
    assert!(decode_report(&None, &row[..5].to_vec()).is_none());
    let rows = vec![None, Some(row)];
    let found = report_from_table(&None, &rows, "Ohio");
    assert_eq!(found.people_tested, Some(3));
}
