use crate::number::{count_of, parse_count, parse_rate, rate_of};
use crate::report::{DailyReport, ReportView};
use vstd::prelude::*;

verus! {

/// What `csv::Reader`, with its default settings, reads from `data`: the
/// header record, if it was read as text, and each later record, `None`
/// where csv rejected it.
pub uninterp spec fn csv_table_of(data: Seq<u8>) -> (Option<Seq<Seq<char>>>, Seq<Option<Seq<Seq<char>>>>);

pub open spec fn fields_view(v: Vec<String>) -> Seq<Seq<char>> {
    v@.map_values(|f: String| f@)
}

pub open spec fn row_view(r: Option<Vec<String>>) -> Option<Seq<Seq<char>>> {
    match r {
        Some(v) => Some(fields_view(v)),
        None => None,
    }
}

pub open spec fn rows_view(v: Vec<Option<Vec<String>>>) -> Seq<Option<Seq<Seq<char>>>> {
    v@.map_values(|r: Option<Vec<String>>| row_view(r))
}

/// Relies on csv::Reader::from_reader, StringRecord and Reader::records:
/// the headers and records that csv reads from `data`.
#[verifier::external_body]
fn read_csv(data: &[u8]) -> (r: (Option<Vec<String>>, Vec<Option<Vec<String>>>))
    ensures
        (row_view(r.0), rows_view(r.1)) == csv_table_of(data@),
{
    let mut rdr = csv::Reader::from_reader(data);
    let headers = rdr.headers().ok().map(|h| h.iter().map(String::from).collect());
    let rows = rdr.records().map(|rec| rec.ok().map(|rec| rec.iter().map(String::from).collect())).collect();
    (headers, rows)
}

/// The column header of report field `k`, in the order of the fields.
pub open spec fn field_name(k: nat) -> Seq<char> {
    if k == 0 {
        "Province_State"@
    } else if k == 1 {
        "Confirmed"@
    } else if k == 2 {
        "Deaths"@
    } else if k == 3 {
        "Recovered"@
    } else if k == 4 {
        "People_Tested"@
    } else {
        "Hospitalization_Rate"@
    }
}

fn field_name_of(k: usize) -> (r: &'static str)
    ensures
        r@ == field_name(k as nat),
{
    if k == 0 {
        "Province_State"
    } else if k == 1 {
        "Confirmed"
    } else if k == 2 {
        "Deaths"
    } else if k == 3 {
        "Recovered"
    } else if k == 4 {
        "People_Tested"
    } else {
        "Hospitalization_Rate"
    }
}

/// Where a name stands among the headers.
pub enum Lookup {
    Absent,
    Once(usize),
    Repeated,
}

pub open spec fn header_lookup(h: Seq<Seq<char>>, name: Seq<char>) -> Lookup
    decreases h.len(),
{
    if h.len() == 0 {
        Lookup::Absent
    } else {
        match header_lookup(h.drop_last(), name) {
            Lookup::Absent => if h.last() == name {
                Lookup::Once((h.len() - 1) as usize)
            } else {
                Lookup::Absent
            },
            Lookup::Once(i) => if h.last() == name {
                Lookup::Repeated
            } else {
                Lookup::Once(i)
            },
            Lookup::Repeated => Lookup::Repeated,
        }
    }
}

/// The text of one field of a row.
pub enum FieldText {
    Missing,
    Text(Seq<char>),
    Bad,
}

/// The text of field `k` in `row`: found by header name where the table has
/// headers (a repeated header spoils the row), by position where it has none.
pub open spec fn field_text(headers: Option<Seq<Seq<char>>>, row: Seq<Seq<char>>, k: nat) -> FieldText {
    match headers {
        None => if k < row.len() {
            FieldText::Text(row[k as int])
        } else {
            FieldText::Bad
        },
        Some(h) => if row.len() < h.len() {
            FieldText::Bad
        } else {
            match header_lookup(h, field_name(k)) {
                Lookup::Absent => FieldText::Missing,
                Lookup::Once(i) => FieldText::Text(row[i as int]),
                Lookup::Repeated => FieldText::Bad,
            }
        },
    }
}

/// An optional count: absent when the column is missing or the field empty.
pub open spec fn optional_count(f: FieldText) -> Option<Option<u64>> {
    match f {
        FieldText::Missing => Some(None),
        FieldText::Text(t) => if t.len() == 0 {
            Some(None)
        } else {
            match count_of(t) {
                Some(v) => Some(Some(v)),
                None => None,
            }
        },
        FieldText::Bad => None,
    }
}

/// The report that `row` holds; `None` where a field is missing or does not read.
pub open spec fn decode_row(headers: Option<Seq<Seq<char>>>, row: Seq<Seq<char>>) -> Option<ReportView> {
    match (
        field_text(headers, row, 0),
        field_text(headers, row, 1),
        optional_count(field_text(headers, row, 2)),
        optional_count(field_text(headers, row, 3)),
        optional_count(field_text(headers, row, 4)),
        field_text(headers, row, 5),
    ) {
        (FieldText::Text(region), FieldText::Text(c), Some(deaths), Some(recovered), Some(tested), FieldText::Text(rate)) => {
            match (count_of(c), rate_of(rate)) {
                (Some(confirmed), Some(hospitalization_rate)) => Some(ReportView {
                    region,
                    confirmed,
                    deaths,
                    recovered,
                    people_tested: tested,
                    hospitalization_rate,
                }),
                _ => None,
            }
        },
        _ => None,
    }
}

/// The first row that reads as a report of region `state`.
pub open spec fn first_match(
    headers: Option<Seq<Seq<char>>>,
    rows: Seq<Option<Seq<Seq<char>>>>,
    state: Seq<char>,
) -> Option<ReportView>
    decreases rows.len(),
{
    if rows.len() == 0 {
        None
    } else {
        let rest = first_match(headers, rows.drop_first(), state);
        match rows[0] {
            Some(row) => match decode_row(headers, row) {
                Some(r) => if r.region == state {
                    Some(r)
                } else {
                    rest
                },
                None => rest,
            },
            None => rest,
        }
    }
}

fn same_text(a: &str, b: &str) -> (r: bool)
    ensures
        r == (a@ == b@),
{
    let n = a.unicode_len();
    if n != b.unicode_len() {
        return false;
    }
    let mut i: usize = 0;
    while i < n
        invariant
            n == a@.len(),
            n == b@.len(),
            i <= n,
            forall|j: int| 0 <= j < i ==> a@[j] == b@[j],
        decreases n - i,
    {
        if a.get_char(i) != b.get_char(i) {
            return false;
        }
        i = i + 1;
    }
    assert(a@ =~= b@);
    true
}

fn find_header(h: &Vec<String>, name: &str) -> (r: Lookup)
    ensures
        r == header_lookup(fields_view(*h), name@),
        r matches Lookup::Once(i) ==> i < h@.len(),
{
    let ghost hv = fields_view(*h);
    let mut acc = Lookup::Absent;
    let mut i: usize = 0;
    assert(hv.take(0) =~= Seq::<Seq<char>>::empty());
    while i < h.len()
        invariant
            hv == fields_view(*h),
            i <= h@.len(),
            acc == header_lookup(hv.take(i as int), name@),
            acc matches Lookup::Once(j) ==> j < i,
        decreases h@.len() - i,
    {
        assert(hv.take(i + 1).drop_last() =~= hv.take(i as int));
        let hit = same_text(h[i].as_str(), name);
        acc = match acc {
            Lookup::Absent => if hit {
                Lookup::Once(i)
            } else {
                Lookup::Absent
            },
            Lookup::Once(j) => if hit {
                Lookup::Repeated
            } else {
                Lookup::Once(j)
            },
            Lookup::Repeated => Lookup::Repeated,
        };
        i = i + 1;
    }
    assert(hv.take(i as int) =~= hv);
    acc
}

/// Where the text of a field stands in a row.
enum Slot {
    Missing,
    At(usize),
    Bad,
}

fn locate_field(headers: &Option<Vec<String>>, row: &Vec<String>, k: usize) -> (r: Slot)
    ensures
        match r {
            Slot::Missing => field_text(row_view(*headers), fields_view(*row), k as nat) == FieldText::Missing,
            Slot::At(i) => i < row@.len() && field_text(row_view(*headers), fields_view(*row), k as nat)
                == FieldText::Text(row@[i as int]@),
            Slot::Bad => field_text(row_view(*headers), fields_view(*row), k as nat) == FieldText::Bad,
        },
{
    match headers {
        None => if k < row.len() {
            Slot::At(k)
        } else {
            Slot::Bad
        },
        Some(h) => if row.len() < h.len() {
            Slot::Bad
        } else {
            match find_header(h, field_name_of(k)) {
                Lookup::Absent => Slot::Missing,
                Lookup::Once(i) => Slot::At(i),
                Lookup::Repeated => Slot::Bad,
            }
        },
    }
}

fn read_optional_count(headers: &Option<Vec<String>>, row: &Vec<String>, k: usize) -> (r: Option<Option<u64>>)
    ensures
        r == optional_count(field_text(row_view(*headers), fields_view(*row), k as nat)),
{
    match locate_field(headers, row, k) {
        Slot::Missing => Some(None),
        Slot::At(i) => {
            let t = row[i].as_str();
            if t.unicode_len() == 0 {
                Some(None)
            } else {
                match parse_count(t) {
                    Some(v) => Some(Some(v)),
                    None => None,
                }
            }
        },
        Slot::Bad => None,
    }
}

/// Reads `row` as a report, fields found as `decode_row` says.
pub fn decode_report(headers: &Option<Vec<String>>, row: &Vec<String>) -> (r: Option<DailyReport>)
    ensures
        match r {
            Some(d) => decode_row(row_view(*headers), fields_view(*row)) == Some(d@),
            None => decode_row(row_view(*headers), fields_view(*row)).is_none(),
        },
{
    let region = match locate_field(headers, row, 0) {
        Slot::At(i) => row[i].clone(),
        _ => return None,
    };
    let confirmed = match locate_field(headers, row, 1) {
        Slot::At(i) => match parse_count(row[i].as_str()) {
            Some(v) => v,
            None => return None,
        },
        _ => return None,
    };
    let deaths = match read_optional_count(headers, row, 2) {
        Some(v) => v,
        None => return None,
    };
    let recovered = match read_optional_count(headers, row, 3) {
        Some(v) => v,
        None => return None,
    };
    let people_tested = match read_optional_count(headers, row, 4) {
        Some(v) => v,
        None => return None,
    };
    let hospitalization_rate = match locate_field(headers, row, 5) {
        Slot::At(i) => match parse_rate(row[i].as_str()) {
            Some(v) => v,
            None => return None,
        },
        _ => return None,
    };
    Some(DailyReport { province_state: region, confirmed, deaths, recovered, people_tested, hospitalization_rate })
}

/// The report of region `state` in a table: the first row that reads as a
/// report whose region is `state`; the placeholder where there is none.
pub fn report_from_table(headers: &Option<Vec<String>>, rows: &Vec<Option<Vec<String>>>, state: &str) -> (r: DailyReport)
    ensures
        match first_match(row_view(*headers), rows_view(*rows), state@) {
            Some(v) => r@ == v,
            None => r.is_placeholder(),
        },
{
    let ghost hv = row_view(*headers);
    let ghost rv = rows_view(*rows);
    let mut i: usize = 0;
    assert(rv.skip(0) =~= rv);
    while i < rows.len()
        invariant
            hv == row_view(*headers),
            rv == rows_view(*rows),
            i <= rows@.len(),
            first_match(hv, rv, state@) == first_match(hv, rv.skip(i as int), state@),
        decreases rows@.len() - i,
    {
        assert(rv.skip(i as int).drop_first() =~= rv.skip(i + 1));
        assert(rv.skip(i as int)[0] == row_view(rows@[i as int]));
        match &rows[i] {
            Some(row) => match decode_report(headers, row) {
                Some(d) => {
                    if same_text(d.province_state.as_str(), state) {
                        return d;
                    }
                },
                None => {},
            },
            None => {},
        }
        i = i + 1;
    }
    assert(rv.skip(i as int).len() == 0);
    DailyReport::placeholder()
}

/// The report of region `state` in the table `data`, read by csv.
pub fn extract_report(data: &[u8], state: &str) -> (r: DailyReport)
    ensures
        match first_match(csv_table_of(data@).0, csv_table_of(data@).1, state@) {
            Some(v) => r@ == v,
            None => r.is_placeholder(),
        },
{
    let (headers, rows) = read_csv(data);
    report_from_table(&headers, &rows, state)
}

} // verus!
