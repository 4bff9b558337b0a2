use vstd::prelude::*;

verus! {

/// `10^k`.
pub open spec fn pow10(k: nat) -> nat
    decreases k,
{
    if k == 0 {
        1
    } else {
        10 * pow10((k - 1) as nat)
    }
}

/// A non-negative decimal number `mantissa / 10^scale`.
#[derive(Clone, Copy, Debug, PartialEq, Eq, Structural)]
pub struct Decimal {
    pub mantissa: u64,
    pub scale: u32,
}

impl Decimal {
    /// The whole number `n`.
    pub open spec fn whole_spec(n: u64) -> Decimal {
        Decimal { mantissa: n, scale: 0 }
    }

    /// The largest integer not above the value.
    pub open spec fn floor_spec(self) -> nat {
        self.mantissa as nat / pow10(self.scale as nat)
    }

    pub fn whole(n: u64) -> (r: Decimal)
        ensures
            r == Decimal::whole_spec(n),
            r.floor_spec() == n,
    {
        let r = Decimal { mantissa: n, scale: 0 };
        assert(pow10(0) == 1);
        assert(n as nat / 1 == n as nat) by (nonlinear_arith);
        r
    }

    pub fn zero() -> (r: Decimal)
        ensures
            r == Decimal::whole_spec(0),
            r.floor_spec() == 0,
    {
        Decimal::whole(0)
    }

    /// The integer part of the value.
    pub fn floor(&self) -> (r: u64)
        ensures
            r == self.floor_spec(),
    {
        let mut m: u64 = self.mantissa;
        let mut i: u32 = 0;
        assert(pow10(0) == 1);
        while i < self.scale
            invariant
                i <= self.scale,
                m == self.mantissa as nat / pow10(i as nat),
            decreases self.scale - i,
        {
            proof {
                assert(pow10(i as nat) > 0) by {
                    lemma_pow10_positive(i as nat);
                }
                vstd::arithmetic::div_mod::lemma_div_denominator(
                    self.mantissa as int,
                    pow10(i as nat) as int,
                    10,
                );
                assert(pow10((i + 1) as nat) == pow10(i as nat) * 10);
            }
            m = m / 10;
            i = i + 1;
        }
        m
    }
}

pub proof fn lemma_pow10_positive(k: nat)
    ensures
        pow10(k) > 0,
    decreases k,
{
    if k > 0 {
        lemma_pow10_positive((k - 1) as nat);
    }
}

/// The character code after ASCII lower-casing.
pub open spec fn lower_code(c: char) -> u32 {
    if 'A' <= c && c <= 'Z' {
        (c as u32 + 32) as u32
    } else {
        c as u32
    }
}

/// `a` and `b` are equal once each is ASCII lower-cased.
pub open spec fn same_ignoring_ascii_case(a: Seq<char>, b: Seq<char>) -> bool {
    &&& a.len() == b.len()
    &&& forall|i: int| 0 <= i < a.len() ==> lower_code(#[trigger] a[i]) == lower_code(b[i])
}

fn lower_code_of(c: char) -> (r: u32)
    ensures
        r == lower_code(c),
{
    if 'A' <= c && c <= 'Z' {
        c as u32 + 32
    } else {
        c as u32
    }
}

pub fn eq_ignoring_ascii_case(a: &str, b: &str) -> (r: bool)
    ensures
        r == same_ignoring_ascii_case(a@, b@),
{
    let n = a.unicode_len();
    if n != b.unicode_len() {
        return false;
    }
    let mut i: usize = 0;
    while i < n
        invariant
            n == a@.len(),
            n == b@.len(),
            i <= n,
            forall|j: int| 0 <= j < i ==> lower_code(#[trigger] a@[j]) == lower_code(b@[j]),
        decreases n - i,
    {
        if lower_code_of(a.get_char(i)) != lower_code_of(b.get_char(i)) {
            return false;
        }
        i = i + 1;
    }
    true
}

/// The statistics that a chart can plot.
#[derive(Clone, Copy, Debug, PartialEq, Eq, Structural)]
pub enum Statistic {
    Confirmed,
    Deaths,
    Recovered,
    PeopleTested,
    HospitalizationRate,
}

impl Statistic {
    /// The statistic that `name` denotes, ignoring ASCII case.
    pub open spec fn from_name_spec(name: Seq<char>) -> Option<Statistic> {
        if same_ignoring_ascii_case(name, "confirmed"@) {
            Some(Statistic::Confirmed)
        } else if same_ignoring_ascii_case(name, "deaths"@) {
            Some(Statistic::Deaths)
        } else if same_ignoring_ascii_case(name, "recovered"@) {
            Some(Statistic::Recovered)
        } else if same_ignoring_ascii_case(name, "people_tested"@) {
            Some(Statistic::PeopleTested)
        } else if same_ignoring_ascii_case(name, "hospitalization_rate"@) {
            Some(Statistic::HospitalizationRate)
        } else {
            None
        }
    }

    /// The statistic's name in capitals.
    pub open spec fn upper_name_spec(self) -> Seq<char> {
        match self {
            Statistic::Confirmed => "CONFIRMED"@,
            Statistic::Deaths => "DEATHS"@,
            Statistic::Recovered => "RECOVERED"@,
            Statistic::PeopleTested => "PEOPLE_TESTED"@,
            Statistic::HospitalizationRate => "HOSPITALIZATION_RATE"@,
        }
    }

    pub fn upper_name(&self) -> (r: &'static str)
        ensures
            r@ == self.upper_name_spec(),
    {
        match self {
            Statistic::Confirmed => "CONFIRMED",
            Statistic::Deaths => "DEATHS",
            Statistic::Recovered => "RECOVERED",
            Statistic::PeopleTested => "PEOPLE_TESTED",
            Statistic::HospitalizationRate => "HOSPITALIZATION_RATE",
        }
    }

    pub fn from_name(name: &str) -> (r: Option<Statistic>)
        ensures
            r == Statistic::from_name_spec(name@),
    {
        if eq_ignoring_ascii_case(name, "confirmed") {
            Some(Statistic::Confirmed)
        } else if eq_ignoring_ascii_case(name, "deaths") {
            Some(Statistic::Deaths)
        } else if eq_ignoring_ascii_case(name, "recovered") {
            Some(Statistic::Recovered)
        } else if eq_ignoring_ascii_case(name, "people_tested") {
            Some(Statistic::PeopleTested)
        } else if eq_ignoring_ascii_case(name, "hospitalization_rate") {
            Some(Statistic::HospitalizationRate)
        } else {
            None
        }
    }
}

/// One row of a daily report table: the figures of one region on one day.
#[derive(Debug)]
pub struct DailyReport {
    pub province_state: String,
    pub confirmed: u64,
    pub deaths: Option<u64>,
    pub recovered: Option<u64>,
    pub people_tested: Option<u64>,
    pub hospitalization_rate: Decimal,
}

/// A count as a number, keeping an absent count absent.
pub open spec fn count_value(c: Option<u64>) -> Option<Decimal> {
    match c {
        Some(n) => Some(Decimal::whole_spec(n)),
        None => None,
    }
}

fn count_value_of(c: Option<u64>) -> (r: Option<Decimal>)
    ensures
        r == count_value(c),
{
    match c {
        Some(n) => Some(Decimal::whole(n)),
        None => None,
    }
}

impl DailyReport {
    /// The stand-in for a table without a row for the region: no region
    /// name and every figure zero.
    pub open spec fn is_placeholder(&self) -> bool {
        &&& self.province_state@ == Seq::<char>::empty()
        &&& self.confirmed == 0
        &&& self.deaths == Some(0u64)
        &&& self.recovered == Some(0u64)
        &&& self.people_tested == Some(0u64)
        &&& self.hospitalization_rate == Decimal::whole_spec(0)
    }

    pub fn placeholder() -> (r: DailyReport)
        ensures
            r.is_placeholder(),
    {
        DailyReport {
            province_state: String::new(),
            confirmed: 0,
            deaths: Some(0),
            recovered: Some(0),
            people_tested: Some(0),
            hospitalization_rate: Decimal::zero(),
        }
    }

    /// The value of statistic `s` in this report; `None` where it was not recorded.
    pub open spec fn value_spec(&self, s: Statistic) -> Option<Decimal> {
        match s {
            Statistic::Confirmed => Some(Decimal::whole_spec(self.confirmed)),
            Statistic::Deaths => count_value(self.deaths),
            Statistic::Recovered => count_value(self.recovered),
            Statistic::PeopleTested => count_value(self.people_tested),
            Statistic::HospitalizationRate => Some(self.hospitalization_rate),
        }
    }

    pub fn value(&self, s: Statistic) -> (r: Option<Decimal>)
        ensures
            r == self.value_spec(s),
    {
        match s {
            Statistic::Confirmed => Some(Decimal::whole(self.confirmed)),
            Statistic::Deaths => count_value_of(self.deaths),
            Statistic::Recovered => count_value_of(self.recovered),
            Statistic::PeopleTested => count_value_of(self.people_tested),
            Statistic::HospitalizationRate => Some(self.hospitalization_rate),
        }
    }

    /// The field named `name` (ASCII case ignored); `None` for an unknown
    /// name and for a figure that was not recorded.
    pub open spec fn prop_spec(&self, name: Seq<char>) -> Option<Decimal> {
        match Statistic::from_name_spec(name) {
            Some(s) => self.value_spec(s),
            None => None,
        }
    }

    pub fn get_prop(&self, name: &str) -> (r: Option<Decimal>)
        ensures
            r == self.prop_spec(name@),
            Statistic::from_name_spec(name@).is_none() ==> r.is_none(),
    {
        match Statistic::from_name(name) {
            Some(s) => self.value(s),
            None => None,
        }
    }
}

/// Field lookup ignores ASCII case: two names that differ only in the case
/// of their letters give the same value, and a name that denotes no field
/// gives no value.
pub proof fn lemma_get_prop_ignores_case(r: DailyReport, a: Seq<char>, b: Seq<char>)
    requires
        same_ignoring_ascii_case(a, b),
    ensures
        r.prop_spec(a) == r.prop_spec(b),
        Statistic::from_name_spec(a) == Statistic::from_name_spec(b),
{
    assert forall|t: Seq<char>| same_ignoring_ascii_case(a, t) == same_ignoring_ascii_case(b, t) by {
        if same_ignoring_ascii_case(a, t) {
            assert forall|i: int| 0 <= i < b.len() implies lower_code(#[trigger] b[i]) == lower_code(t[i]) by {
                assert(lower_code(a[i]) == lower_code(b[i]));
            }
        }
        if same_ignoring_ascii_case(b, t) {
            assert forall|i: int| 0 <= i < a.len() implies lower_code(#[trigger] a[i]) == lower_code(t[i]) by {
                assert(lower_code(a[i]) == lower_code(b[i]));
            }
        }
    }
}

impl Default for DailyReport {
    /// The placeholder report.
    fn default() -> (r: DailyReport)
        ensures
            r.is_placeholder(),
    {
        DailyReport::placeholder()
    }
}

/// What a `DailyReport` holds, as mathematical values.
pub struct ReportView {
    pub region: Seq<char>,
    pub confirmed: u64,
    pub deaths: Option<u64>,
    pub recovered: Option<u64>,
    pub people_tested: Option<u64>,
    pub hospitalization_rate: Decimal,
}

impl View for DailyReport {
    type V = ReportView;

    open spec fn view(&self) -> ReportView {
        ReportView {
            region: self.province_state@,
            confirmed: self.confirmed,
            deaths: self.deaths,
            recovered: self.recovered,
            people_tested: self.people_tested,
            hospitalization_rate: self.hospitalization_rate,
        }
    }
}

} // verus!
