use crate::report::Statistic;
use vstd::prelude::*;

verus! {

/// Why a run stops.
#[derive(Clone, Copy, Debug, PartialEq, Eq, Structural)]
pub enum AppError {
    /// The settings file cannot be opened.
    ConfigurationNotFound,
    /// The settings do not read, or a data file cannot be opened.
    InvalidConfiguration,
    /// The data directory cannot be listed.
    InvalidDatapath,
}

/// The top-level entries of a TOML document, each key with its value where
/// that value is a string; `None` where the text is no TOML document.
pub uninterp spec fn toml_entries_of(text: Seq<char>) -> Option<Seq<(Seq<char>, Option<Seq<char>>)>>;

pub open spec fn opt_text_view(v: Option<String>) -> Option<Seq<char>> {
    match v {
        Some(s) => Some(s@),
        None => None,
    }
}

pub open spec fn entries_view(v: Vec<(String, Option<String>)>) -> Seq<(Seq<char>, Option<Seq<char>>)> {
    v@.map_values(|e: (String, Option<String>)| (e.0@, opt_text_view(e.1)))
}

/// Relies on toml::from_str (into toml::Table) and toml::Value::as_str: the
/// entries of the document `text`.
#[verifier::external_body]
fn read_toml(text: &str) -> (r: Option<Vec<(String, Option<String>)>>)
    ensures
        match r {
            Some(v) => toml_entries_of(text@) == Some(entries_view(v)),
            None => toml_entries_of(text@).is_none(),
        },
{
    toml::from_str::<toml::Table>(text).ok().map(
        |t| t.into_iter().map(|(k, v)| (k, v.as_str().map(String::from))).collect(),
    )
}

/// The value of the first entry with key `key`.
pub open spec fn entry_lookup(entries: Seq<(Seq<char>, Option<Seq<char>>)>, key: Seq<char>) -> Option<
    Option<Seq<char>>,
>
    decreases entries.len(),
{
    if entries.len() == 0 {
        None
    } else if entries[0].0 == key {
        Some(entries[0].1)
    } else {
        entry_lookup(entries.drop_first(), key)
    }
}

/// The string value of setting `key`; `None` where it is missing or no string.
pub open spec fn string_setting(entries: Seq<(Seq<char>, Option<Seq<char>>)>, key: Seq<char>) -> Option<Seq<char>> {
    match entry_lookup(entries, key) {
        Some(Some(v)) => Some(v),
        _ => None,
    }
}

/// The settings of a run.
#[derive(Debug)]
pub struct Config {
    /// The region whose rows are plotted.
    pub state: String,
    /// The statistic plotted, by name.
    pub statistic: String,
    /// The directory of daily report files.
    pub datapath: String,
}

pub struct ConfigView {
    pub state: Seq<char>,
    pub statistic: Seq<char>,
    pub datapath: Seq<char>,
}

impl View for Config {
    type V = ConfigView;

    open spec fn view(&self) -> ConfigView {
        ConfigView { state: self.state@, statistic: self.statistic@, datapath: self.datapath@ }
    }
}

impl Config {
    /// The statistic names one of the known fields.
    pub open spec fn wf(&self) -> bool {
        Statistic::from_name_spec(self.statistic@).is_some()
    }

    /// The statistic that the settings name.
    pub fn stat(&self) -> (r: Statistic)
        requires
            self.wf(),
        ensures
            Statistic::from_name_spec(self.statistic@) == Some(r),
    {
        match Statistic::from_name(self.statistic.as_str()) {
            Some(s) => s,
            None => Statistic::Confirmed,
        }
    }
}

/// The settings that `entries` give: three string settings `state`,
/// `statistic` and `datapath`, the statistic naming a known field.
pub open spec fn config_of_entries(entries: Seq<(Seq<char>, Option<Seq<char>>)>) -> Result<ConfigView, AppError> {
    match (
        string_setting(entries, "state"@),
        string_setting(entries, "statistic"@),
        string_setting(entries, "datapath"@),
    ) {
        (Some(state), Some(statistic), Some(datapath)) => if Statistic::from_name_spec(statistic).is_some() {
            Ok(ConfigView { state, statistic, datapath })
        } else {
            Err(AppError::InvalidConfiguration)
        },
        _ => Err(AppError::InvalidConfiguration),
    }
}

/// The settings that the text of a settings file gives.
pub open spec fn config_of_text(text: Seq<char>) -> Result<ConfigView, AppError> {
    match toml_entries_of(text) {
        Some(entries) => config_of_entries(entries),
        None => Err(AppError::InvalidConfiguration),
    }
}

pub open spec fn config_result_view(r: Result<Config, AppError>) -> Result<ConfigView, AppError> {
    match r {
        Ok(c) => Ok(c@),
        Err(e) => Err(e),
    }
}

fn find_setting(entries: &Vec<(String, Option<String>)>, key: &str) -> (r: Option<String>)
    ensures
        opt_text_view(r) == string_setting(entries_view(*entries), key@),
{
    let ghost ev = entries_view(*entries);
    let mut i: usize = 0;
    assert(ev.skip(0) =~= ev);
    while i < entries.len()
        invariant
            ev == entries_view(*entries),
            i <= entries@.len(),
            entry_lookup(ev, key@) == entry_lookup(ev.skip(i as int), key@),
        decreases entries@.len() - i,
    {
        assert(ev.skip(i as int).drop_first() =~= ev.skip(i + 1));
        let (k, v) = &entries[i];
        if k.eq(&key.to_owned()) {
            return v.clone();
        }
        i = i + 1;
    }
    None
}

/// Validates the entries of a settings document.
pub fn config_from_entries(entries: &Vec<(String, Option<String>)>) -> (r: Result<Config, AppError>)
    ensures
        config_result_view(r) == config_of_entries(entries_view(*entries)),
        r matches Ok(c) ==> c.wf(),
{
    let state = find_setting(entries, "state");
    let statistic = find_setting(entries, "statistic");
    let datapath = find_setting(entries, "datapath");
    match (state, statistic, datapath) {
        (Some(state), Some(statistic), Some(datapath)) => {
            if Statistic::from_name(statistic.as_str()).is_some() {
                Ok(Config { state, statistic, datapath })
            } else {
                Err(AppError::InvalidConfiguration)
            }
        },
        _ => Err(AppError::InvalidConfiguration),
    }
}

/// Reads the text of a settings file.
pub fn parse_configuration(text: &str) -> (r: Result<Config, AppError>)
    ensures
        config_result_view(r) == config_of_text(text@),
        r matches Ok(c) ==> c.wf(),
{
    match read_toml(text) {
        Some(entries) => config_from_entries(&entries),
        None => Err(AppError::InvalidConfiguration),
    }
}

/// Settings that lack `state`, `statistic` or `datapath` are invalid.
pub proof fn lemma_missing_key_is_invalid(entries: Seq<(Seq<char>, Option<Seq<char>>)>)
    requires
        entry_lookup(entries, "state"@).is_none() || entry_lookup(entries, "statistic"@).is_none()
            || entry_lookup(entries, "datapath"@).is_none(),
    ensures
        config_of_entries(entries) == Err::<ConfigView, AppError>(AppError::InvalidConfiguration),
{
}

} // verus!
