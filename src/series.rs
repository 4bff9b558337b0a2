use crate::config::Config;
use crate::report::{DailyReport, Decimal, Statistic};
use crate::table::{csv_table_of, extract_report, first_match};
use vstd::prelude::*;
use vstd::relations::{sorted_by, total_ordering};
use vstd::seq_lib::lemma_sorted_unique;

verus! {

broadcast use {vstd::seq_lib::group_to_multiset_ensures, vstd::multiset::group_multiset_axioms};

/// The confirmed counts of `s`, in order.
pub open spec fn confirmed_keys(s: Seq<DailyReport>) -> Seq<u64> {
    s.map_values(|r: DailyReport| r.confirmed)
}

/// `s` is ordered by ascending confirmed count.
pub open spec fn sorted_by_confirmed(s: Seq<DailyReport>) -> bool {
    forall|i: int, j: int| 0 <= i < j < s.len() ==> s[i].confirmed <= s[j].confirmed
}

/// Orders reports by ascending confirmed count.
pub fn sort_reports(reports: Vec<DailyReport>) -> (r: Vec<DailyReport>)
    ensures
        sorted_by_confirmed(r@),
        r@.to_multiset() == reports@.to_multiset(),
        confirmed_keys(r@).to_multiset() == confirmed_keys(reports@).to_multiset(),
{
    let ghost orig = reports@;
    let mut input = reports;
    let mut out: Vec<DailyReport> = Vec::new();
    while input.len() > 0
        invariant
            sorted_by_confirmed(out@),
            input@.to_multiset().add(out@.to_multiset()) == orig.to_multiset(),
            confirmed_keys(input@).to_multiset().add(confirmed_keys(out@).to_multiset())
                == confirmed_keys(orig).to_multiset(),
        decreases input@.len(),
    {
        let ghost before = input@;
        let item = match input.pop() {
            Some(x) => x,
            None => {
                return out;
            },
        };
        assert(before =~= input@.push(item));
        assert(confirmed_keys(before) =~= confirmed_keys(input@).push(item.confirmed));
        let key = item.confirmed;
        let mut pos: usize = 0;
        while pos < out.len() && out[pos].confirmed < key
            invariant
                pos <= out@.len(),
                forall|j: int| 0 <= j < pos ==> out@[j].confirmed < key,
            decreases out@.len() - pos,
        {
            pos = pos + 1;
        }
        let ghost prev = out@;
        out.insert(pos, item);
        assert(confirmed_keys(out@) =~= confirmed_keys(prev).insert(pos as int, key));
        assert forall|i: int, j: int| 0 <= i < j < out@.len() implies out@[i].confirmed <= out@[j].confirmed by {
            if j < pos {
            } else if j == pos {
            } else if i < pos {
                assert(prev[j - 1].confirmed >= prev[pos as int].confirmed);
            } else if i == pos {
                assert(prev[j - 1].confirmed >= prev[pos as int].confirmed);
            } else {
                assert(prev[i - 1].confirmed <= prev[j - 1].confirmed);
            }
        }
        assert(input@.to_multiset().add(out@.to_multiset()) =~= orig.to_multiset());
        assert(confirmed_keys(input@).to_multiset().add(confirmed_keys(out@).to_multiset())
            =~= confirmed_keys(orig).to_multiset());
    }
    assert(input@ =~= Seq::<DailyReport>::empty());
    assert(confirmed_keys(input@) =~= Seq::<u64>::empty());
    assert(out@.to_multiset() =~= orig.to_multiset());
    assert(confirmed_keys(out@).to_multiset() =~= confirmed_keys(orig).to_multiset());
    out
}

/// Sorting does not depend on the order in which the reports came: two
/// collections with the same confirmed counts, in any order, sort to the
/// same sequence of counts.
pub proof fn lemma_sort_ignores_input_order(a: Seq<DailyReport>, b: Seq<DailyReport>, sa: Seq<DailyReport>, sb: Seq<DailyReport>)
    requires
        confirmed_keys(a).to_multiset() == confirmed_keys(b).to_multiset(),
        sorted_by_confirmed(sa),
        confirmed_keys(sa).to_multiset() == confirmed_keys(a).to_multiset(),
        sorted_by_confirmed(sb),
        confirmed_keys(sb).to_multiset() == confirmed_keys(b).to_multiset(),
    ensures
        confirmed_keys(sa) == confirmed_keys(sb),
{
    let leq = |x: u64, y: u64| x <= y;
    assert(total_ordering(leq));
    assert(sorted_by(confirmed_keys(sa), leq));
    assert(sorted_by(confirmed_keys(sb), leq));
    lemma_sorted_unique(confirmed_keys(sa), confirmed_keys(sb), leq);
}

/// The value plotted for report `r`: its statistic, zero where absent.
pub open spec fn plotted_value(r: DailyReport, stat: Statistic) -> Decimal {
    match r.value_spec(stat) {
        Some(d) => d,
        None => Decimal::whole_spec(0),
    }
}

/// The largest integer part of the plotted values of `s`; zero for no reports.
pub open spec fn peak(s: Seq<DailyReport>, stat: Statistic) -> nat
    decreases s.len(),
{
    if s.len() == 0 {
        0
    } else {
        let f = plotted_value(s.last(), stat).floor_spec();
        let p = peak(s.drop_last(), stat);
        if f > p {
            f
        } else {
            p
        }
    }
}

/// The top of the value axis: one above the largest integer part of the
/// plotted values.
pub open spec fn upper_bound_spec(s: Seq<DailyReport>, stat: Statistic) -> nat {
    peak(s, stat) + 1
}

fn plotted_value_of(r: &DailyReport, stat: Statistic) -> (d: Decimal)
    ensures
        d == plotted_value(*r, stat),
{
    match r.value(stat) {
        Some(d) => d,
        None => Decimal::zero(),
    }
}

proof fn lemma_peak_fits(s: Seq<DailyReport>, stat: Statistic)
    ensures
        peak(s, stat) <= u64::MAX,
    decreases s.len(),
{
    if s.len() > 0 {
        lemma_peak_fits(s.drop_last(), stat);
        let d = plotted_value(s.last(), stat);
        crate::report::lemma_pow10_positive(d.scale as nat);
        assert(d.mantissa as nat / crate::report::pow10(d.scale as nat) <= d.mantissa as nat) by {
            vstd::arithmetic::div_mod::lemma_div_is_ordered_by_denominator(
                d.mantissa as int,
                1,
                crate::report::pow10(d.scale as nat) as int,
            );
        }
    }
}

/// The top of the value axis for `reports` plotted by `stat`.
pub fn y_upper_bound(reports: &Vec<DailyReport>, stat: Statistic) -> (r: u128)
    ensures
        r == upper_bound_spec(reports@, stat),
{
    let mut top: u64 = 0;
    let mut i: usize = 0;
    assert(reports@.take(0) =~= Seq::<DailyReport>::empty());
    while i < reports.len()
        invariant
            i <= reports@.len(),
            top == peak(reports@.take(i as int), stat),
        decreases reports@.len() - i,
    {
        assert(reports@.take(i + 1).drop_last() =~= reports@.take(i as int));
        let f = plotted_value_of(&reports[i], stat).floor();
        if f > top {
            top = f;
        }
        i = i + 1;
    }
    assert(reports@.take(i as int) =~= reports@);
    top as u128 + 1
}

/// The points of the chart: the position of each report and its plotted value.
pub fn plot_points(reports: &Vec<DailyReport>, stat: Statistic) -> (r: Vec<(usize, Decimal)>)
    ensures
        r@.len() == reports@.len(),
        forall|i: int| 0 <= i < r@.len() ==> #[trigger] r@[i] == (i as usize, plotted_value(reports@[i], stat)),
{
    let mut points: Vec<(usize, Decimal)> = Vec::new();
    let mut i: usize = 0;
    while i < reports.len()
        invariant
            i <= reports@.len(),
            points@.len() == i,
            forall|j: int| 0 <= j < i ==> #[trigger] points@[j] == (j as usize, plotted_value(reports@[j], stat)),
        decreases reports@.len() - i,
    {
        points.push((i, plotted_value_of(&reports[i], stat)));
        i = i + 1;
    }
    points
}

/// `r` is what the table `data` gives for region `state`.
pub open spec fn extracted_from(r: DailyReport, data: Seq<u8>, state: Seq<char>) -> bool {
    match first_match(csv_table_of(data).0, csv_table_of(data).1, state) {
        Some(v) => r@ == v,
        None => r.is_placeholder(),
    }
}

/// One report per data file, in the order of the files.
pub fn collect_reports(files: &Vec<Vec<u8>>, state: &str) -> (r: Vec<DailyReport>)
    ensures
        r@.len() == files@.len(),
        forall|i: int| 0 <= i < r@.len() ==> extracted_from(#[trigger] r@[i], files@[i]@, state@),
{
    let mut reports: Vec<DailyReport> = Vec::new();
    let mut i: usize = 0;
    while i < files.len()
        invariant
            i <= files@.len(),
            reports@.len() == i,
            forall|j: int| 0 <= j < i ==> extracted_from(#[trigger] reports@[j], files@[j]@, state@),
        decreases files@.len() - i,
    {
        reports.push(extract_report(files[i].as_slice(), state));
        i = i + 1;
    }
    reports
}

/// What a chart shows: the reports in plotting order, the top of the
/// value axis and the points of the line.
pub struct Chart {
    pub reports: Vec<DailyReport>,
    pub y_max: u128,
    pub points: Vec<(usize, Decimal)>,
}

impl Chart {
    /// The chart shows `reports`, sorted, with the statistic `stat`.
    pub open spec fn shows(&self, reports: Seq<DailyReport>, stat: Statistic) -> bool {
        &&& sorted_by_confirmed(self.reports@)
        &&& self.reports@.to_multiset() == reports.to_multiset()
        &&& confirmed_keys(self.reports@).to_multiset() == confirmed_keys(reports).to_multiset()
        &&& self.y_max == upper_bound_spec(self.reports@, stat)
        &&& self.points@.len() == self.reports@.len()
        &&& forall|i: int|
            0 <= i < self.points@.len() ==> #[trigger] self.points@[i] == (
                i as usize,
                plotted_value(self.reports@[i], stat),
            )
    }
}

/// Sorts the reports and lays out the chart of statistic `stat`.
pub fn chart_of(reports: Vec<DailyReport>, stat: Statistic) -> (r: Chart)
    ensures
        r.shows(reports@, stat),
{
    let sorted = sort_reports(reports);
    let y_max = y_upper_bound(&sorted, stat);
    let points = plot_points(&sorted, stat);
    Chart { reports: sorted, y_max, points }
}

/// The chart that the settings ask for, over the daily report files `files`.
pub fn prepare_chart(config: &Config, files: &Vec<Vec<u8>>) -> (r: Chart)
    requires
        config.wf(),
    ensures
        exists|ex: Seq<DailyReport>|
            {
                &&& ex.len() == files@.len()
                &&& forall|i: int| 0 <= i < ex.len() ==> extracted_from(#[trigger] ex[i], files@[i]@, config.state@)
                &&& r.shows(ex, Statistic::from_name_spec(config.statistic@).unwrap())
            },
{
    let reports = collect_reports(files, config.state.as_str());
    let ghost ex = reports@;
    let r = chart_of(reports, config.stat());
    assert(r.shows(ex, Statistic::from_name_spec(config.statistic@).unwrap()));
    r
}

/// The caption of the chart: the region and the statistic in capitals.
pub fn chart_title(config: &Config) -> (r: String)
    requires
        config.wf(),
    ensures
        r@ == config.state@ + ": "@ + Statistic::from_name_spec(config.statistic@).unwrap().upper_name_spec()
            + " vs DAYS ELAPSED"@,
{
    let mut t = config.state.clone();
    t.append(": ");
    t.append(config.stat().upper_name());
    t.append(" vs DAYS ELAPSED");
    t
}

} // verus!
