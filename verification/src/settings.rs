//! Application settings stored in JSON beside the database: where the file is, what a missing
//! field reads as, whether an automatic refresh is due, and how a file written before the market
//! sources were chosen is brought up to date. Reading and writing the file is the host's.

use vstd::prelude::*;
use crate::paths::{ends_in_name, joined_path, parent_path, renamed_path, with_file_name};
use crate::error::UiError;
use crate::scope::{DataScope, ScopeKind};
use crate::text::{owned, same_text};

verus! {

/// Bumped when a stored file has to be read differently than it was written.
///
/// 1: sources are chosen, never defaulted. A file written before this carries the old
/// catalogue's defaults in its silence, so `migrate` writes them down before they change meaning.
pub const SETTINGS_VERSION: u32 = 1;

/// The settings file, beside the database.
pub const FILE: &'static str = "settings.json";

pub fn path_for(db_path: &str) -> (p: String)
    ensures
        p@ == renamed_path(db_path@, FILE@),
        ends_in_name(db_path@) ==> parent_path(db_path@) is Some && p@ == joined_path(
            parent_path(db_path@)->0,
            FILE@,
        ),
{
    with_file_name(db_path, FILE)
}

/// The UI language a file without one reads as: the system's.
pub fn system_language() -> (s: String)
    ensures
        s@ == "system"@,
{
    owned("system")
}

/// The AI provider a file without one reads as.
pub fn ai_provider_default() -> (s: String)
    ensures
        s@ == "openai"@,
{
    owned("openai")
}

/// On by default: an assistant that cannot look anything up is the surprising one, and the
/// panel is off entirely until the user turns it on and saves a key.
pub fn ai_web_search_default() -> (b: bool)
    ensures
        b,
{
    true
}

/// The instant an RFC 3339 text names, as `chrono` reads it: seconds since the Unix epoch and
/// the nanoseconds past that second.
pub uninterp spec fn rfc3339_instant(text: Seq<char>) -> Option<(int, int)>;

/// `DateTime::parse_from_rfc3339(text)`, read out as `timestamp()` and
/// `timestamp_subsec_nanos()`. The nanoseconds exceed 999,999,999 only inside a leap second, and
/// never reach two seconds' worth.
#[verifier::external_body]
fn parse_instant(text: &str) -> (r: Option<(i64, u32)>)
    ensures
        match r {
            Some((s, n)) => rfc3339_instant(text@) == Some((s as int, n as int)) && n < 2_000_000_000,
            None => rfc3339_instant(text@) is None,
        },
{
    chrono::DateTime::parse_from_rfc3339(text).ok().map(|t| (t.timestamp(), t.timestamp_subsec_nanos()))
}

/// The most hours an interval may be: `chrono::Duration::hours` panics beyond it.
pub open spec fn max_interval_hours() -> int {
    2_562_047_788_015
}

/// The nanoseconds from one instant to a later one (negative when it is earlier).
pub open spec fn nanos_between(then: (int, int), now: (int, int)) -> int {
    (now.0 - then.0) * 1_000_000_000 + (now.1 - then.1)
}

/// What decides when the quotes refresh by themselves.
pub struct RefreshSchedule {
    /// Refresh quotes and FX rates on startup.
    pub auto_refresh_on_start: bool,
    /// Minimum interval between automatic refreshes.
    pub refresh_min_interval_hours: i64,
    /// Last completed refresh time in RFC 3339.
    pub last_refresh: Option<String>,
}

/// Whether an automatic refresh is due at `now`: never when they are off; always when none has
/// run or the time of the last one cannot be read; otherwise once the interval has passed.
pub open spec fn is_due(s: RefreshSchedule, now: (int, int)) -> bool {
    if !s.auto_refresh_on_start {
        false
    } else {
        match s.last_refresh {
            None => true,
            Some(last) => match rfc3339_instant(last@) {
                None => true,
                Some(then) => nanos_between(then, now) >= s.refresh_min_interval_hours
                    * 3600_000_000_000,
            },
        }
    }
}

/// Whether working out if a refresh is due reads the time of the last one: refreshes are on and
/// a readable time was recorded. Only then is the interval measured.
pub open spec fn reads_last_refresh(s: RefreshSchedule) -> bool {
    &&& s.auto_refresh_on_start
    &&& match s.last_refresh {
        Some(last) => rfc3339_instant(last@) is Some,
        None => false,
    }
}

/// Whether an interval of this many hours is one `chrono::Duration::hours` can make.
pub open spec fn interval_in_range(hours: i64) -> bool {
    -max_interval_hours() <= hours <= max_interval_hours()
}

impl RefreshSchedule {
    /// Whether an automatic refresh is due at `now`, given as the Unix timestamp and nanoseconds
    /// of the current time. The interval is measured only once a time has been read, and only
    /// then must it lie within what `chrono` can count in hours.
    pub fn due(&self, now_secs: i64, now_nanos: u32) -> (d: bool)
        requires
            reads_last_refresh(*self) ==> interval_in_range(self.refresh_min_interval_hours),
            now_nanos < 2_000_000_000,
        ensures
            d == is_due(*self, (now_secs as int, now_nanos as int)),
    {
        if !self.auto_refresh_on_start {
            return false;
        }
        let last = match &self.last_refresh {
            Some(l) => l,
            None => return true,
        };
        match parse_instant(last.as_str()) {
            None => true,
            Some((secs, nanos)) => {
                let elapsed: i128 = (now_secs as i128 - secs as i128) * 1_000_000_000 + (now_nanos as i128
                    - nanos as i128);
                let interval: i128 = self.refresh_min_interval_hours as i128 * 3600_000_000_000;
                elapsed >= interval
            },
        }
    }

    /// Whether an automatic refresh is due at `now`, or `None` where the answer would take an
    /// interval longer than `chrono` can count in hours (where the host's `Duration::hours`
    /// panics).
    pub fn checked_due(&self, now_secs: i64, now_nanos: u32) -> (d: Option<bool>)
        requires
            now_nanos < 2_000_000_000,
        ensures
            d is None <==> reads_last_refresh(*self) && !interval_in_range(self.refresh_min_interval_hours),
            d matches Some(b) ==> b == is_due(*self, (now_secs as int, now_nanos as int)),
    {
        let hours = self.refresh_min_interval_hours;
        let in_range = -2_562_047_788_015i64 <= hours && hours <= 2_562_047_788_015i64;
        if self.auto_refresh_on_start && !in_range {
            if let Some(last) = &self.last_refresh {
                if parse_instant(last.as_str()).is_some() {
                    return None;
                }
            }
        }
        Some(self.due(now_secs, now_nanos))
    }
}

/// What a profile's settings file holds, as far as the library reads it. The user's own periods,
/// the thinking effort, the self-hosted AI server and the described quote sources are the
/// portfolio core's types and stay with the host.
pub struct AppSettings {
    /// Which build's reading of the file applies; `0` is anything written before it existed.
    pub version: u32,
    /// Refresh quotes and FX rates on startup.
    pub auto_refresh_on_start: bool,
    /// Minimum interval between automatic refreshes.
    pub refresh_min_interval_hours: i64,
    /// Last completed refresh time in RFC 3339.
    pub last_refresh: Option<String>,
    /// Selected data scope.
    pub scope: DataScope,
    /// UI language: "system", or a locale tag the frontend ships.
    pub language: String,
    /// Shipped presets the user removed from the period strip.
    pub hidden_presets: Vec<String>,
    /// The frontend's own state, as the JSON text it saved; `None` until it has saved any.
    pub ui: Option<String>,
    /// Whether the AI panel is offered at all.
    pub ai_enabled: bool,
    /// Selected AI provider id.
    pub ai_provider: String,
    /// The model last picked per provider (`provider, model id`), each provider once.
    pub ai_models: Vec<(String, String)>,
    /// Model ids typed in per provider, each provider once.
    pub ai_extra_models: Vec<(String, Vec<String>)>,
    /// Whether the provider may search the web on the user's behalf.
    pub ai_web_search: bool,
    /// Whether the panel shows the model's summary of its own reasoning.
    pub ai_reasoning: bool,
    /// Market-data sources switched on or off (`source id, on`), each id once.
    pub market_sources: Vec<(String, bool)>,
    /// Whether the owner has answered the question of where data comes from.
    pub sources_configured: bool,
}

impl Default for AppSettings {
    /// A new profile's settings: nothing chosen, nothing fetched yet. Refreshes run on start at
    /// most every six hours, the language follows the system, the AI panel is off (with web
    /// search allowed once it is on, reasoning summaries not), and every market source stays off
    /// until the owner has chosen.
    fn default() -> (s: AppSettings)
        ensures
            s.version == SETTINGS_VERSION,
            s.auto_refresh_on_start,
            s.refresh_min_interval_hours == 6,
            s.last_refresh is None,
            s.scope.kind == ScopeKind::Portfolio,
            s.scope.id is None,
            s.language@ == "system"@,
            s.hidden_presets@.len() == 0,
            s.ui is None,
            !s.ai_enabled,
            s.ai_provider@ == "openai"@,
            s.ai_models@.len() == 0,
            s.ai_extra_models@.len() == 0,
            s.ai_web_search,
            !s.ai_reasoning,
            s.market_sources@.len() == 0,
            !s.sources_configured,
    {
        AppSettings {
            version: SETTINGS_VERSION,
            auto_refresh_on_start: true,
            refresh_min_interval_hours: 6,
            last_refresh: None,
            scope: DataScope::portfolio(),
            language: system_language(),
            hidden_presets: Vec::new(),
            ui: None,
            ai_enabled: false,
            ai_provider: ai_provider_default(),
            ai_models: Vec::new(),
            ai_extra_models: Vec::new(),
            ai_web_search: ai_web_search_default(),
            ai_reasoning: false,
            market_sources: Vec::new(),
            sources_configured: false,
        }
    }
}

/// The part of the settings that decides when quotes refresh by themselves.
pub open spec fn schedule_of(s: AppSettings) -> RefreshSchedule {
    RefreshSchedule {
        auto_refresh_on_start: s.auto_refresh_on_start,
        refresh_min_interval_hours: s.refresh_min_interval_hours,
        last_refresh: s.last_refresh,
    }
}

impl AppSettings {
    /// Whether an automatic refresh is due at `now` (Unix timestamp and nanoseconds), by these
    /// settings.
    pub fn due(&self, now_secs: i64, now_nanos: u32) -> (d: bool)
        requires
            reads_last_refresh(schedule_of(*self)) ==> interval_in_range(self.refresh_min_interval_hours),
            now_nanos < 2_000_000_000,
        ensures
            d == is_due(schedule_of(*self), (now_secs as int, now_nanos as int)),
    {
        self.schedule().due(now_secs, now_nanos)
    }

    /// Whether an automatic refresh is due at `now`, or `None` where the answer would take an
    /// interval longer than `chrono` can count in hours.
    pub fn checked_due(&self, now_secs: i64, now_nanos: u32) -> (d: Option<bool>)
        requires
            now_nanos < 2_000_000_000,
        ensures
            d is None <==> reads_last_refresh(schedule_of(*self)) && !interval_in_range(
                self.refresh_min_interval_hours,
            ),
            d matches Some(b) ==> b == is_due(schedule_of(*self), (now_secs as int, now_nanos as int)),
    {
        self.schedule().checked_due(now_secs, now_nanos)
    }

    /// The part that decides when quotes refresh by themselves.
    pub fn schedule(&self) -> (r: RefreshSchedule)
        ensures
            r.auto_refresh_on_start == self.auto_refresh_on_start,
            r.refresh_min_interval_hours == self.refresh_min_interval_hours,
            match self.last_refresh {
                Some(l) => r.last_refresh matches Some(m) && m@ == l@,
                None => r.last_refresh is None,
            },
    {
        let last_refresh = match &self.last_refresh {
            Some(l) => Some(owned(l.as_str())),
            None => None,
        };
        RefreshSchedule {
            auto_refresh_on_start: self.auto_refresh_on_start,
            refresh_min_interval_hours: self.refresh_min_interval_hours,
            last_refresh,
        }
    }
}

/// A market-data source as the catalogue lists it.
pub struct CatalogSource {
    pub id: String,
    pub on_by_default: bool,
}

/// The part of the settings that says where market data may come from.
pub struct SourceChoices {
    /// Which build's reading of the file applies; `0` is anything written before it existed.
    pub version: u32,
    /// Sources switched on or off (`source id -> on`). Where an id comes twice the later entry
    /// counts, as a map read from the file keeps the last.
    pub market_sources: Vec<(String, bool)>,
    /// Whether the owner has answered the question of where data comes from.
    pub sources_configured: bool,
}

impl SourceChoices {
    /// A profile nobody has set up: the question of where data comes from is unanswered, so
    /// every source is off whatever the catalogue would default to.
    pub fn fresh() -> (c: SourceChoices)
        ensures
            c.version == SETTINGS_VERSION,
            c.market_sources@.len() == 0,
            !c.sources_configured,
    {
        SourceChoices { version: SETTINGS_VERSION, market_sources: Vec::new(), sources_configured: false }
    }
}

/// The switches as a map from source id to whether it is on.
pub open spec fn switch_map(v: Seq<(String, bool)>) -> Map<Seq<char>, bool>
    decreases v.len(),
{
    if v.len() == 0 {
        Map::empty()
    } else {
        switch_map(v.drop_last()).insert(v.last().0@, v.last().1)
    }
}

/// No source is switched twice.
pub open spec fn ids_once(v: Seq<(String, bool)>) -> bool {
    forall|i: int, j: int|
        0 <= i < v.len() && 0 <= j < v.len() && i != j ==> (#[trigger] v[i]).0@ != (#[trigger] v[j]).0@
}

/// Whether a source was on before the sources were chosen: on by default, or one of those the
/// old build fetched from without asking.
pub open spec fn was_on(s: CatalogSource, on_before: Seq<&str>) -> bool {
    s.on_by_default || exists|i: int| 0 <= i < on_before.len() && (#[trigger] on_before[i])@ == s.id@
}

/// The switches once every catalogue source without one has been given the state it had.
pub open spec fn filled(m: Map<Seq<char>, bool>, catalog: Seq<CatalogSource>, on_before: Seq<&str>) -> Map<
    Seq<char>,
    bool,
>
    decreases catalog.len(),
{
    if catalog.len() == 0 {
        m
    } else {
        let before = filled(m, catalog.drop_last(), on_before);
        let s = catalog.last();
        if before.contains_key(s.id@) {
            before
        } else {
            before.insert(s.id@, was_on(s, on_before))
        }
    }
}

/// Whether a source has a switch: exactly when the map holds its id.
proof fn lemma_switch_map_keys(v: Seq<(String, bool)>, k: Seq<char>)
    ensures
        switch_map(v).contains_key(k) <==> exists|i: int| 0 <= i < v.len() && (#[trigger] v[i]).0@ == k,
    decreases v.len(),
{
    if v.len() > 0 {
        lemma_switch_map_keys(v.drop_last(), k);
        if switch_map(v).contains_key(k) && v.last().0@ != k {
            let i = choose|i: int| 0 <= i < v.len() - 1 && (#[trigger] v.drop_last()[i]).0@ == k;
            assert(v[i] == v.drop_last()[i]);
        }
        if exists|i: int| 0 <= i < v.len() && (#[trigger] v[i]).0@ == k {
            let i = choose|i: int| 0 <= i < v.len() && (#[trigger] v[i]).0@ == k;
            if i < v.len() - 1 {
                assert(v.drop_last()[i] == v[i]);
            }
        }
    }
}

/// Whether the id is among these.
fn listed(ids: &[&str], id: &str) -> (r: bool)
    ensures
        r == exists|i: int| 0 <= i < ids@.len() && (#[trigger] ids@[i])@ == id@,
{
    let mut i: usize = 0;
    while i < ids.len()
        invariant
            i <= ids@.len(),
            forall|j: int| 0 <= j < i ==> (#[trigger] ids@[j])@ != id@,
        decreases ids.len() - i,
    {
        if same_text(ids[i], id) {
            return true;
        }
        i = i + 1;
    }
    false
}

/// Whether this source already has a switch.
fn switched(v: &Vec<(String, bool)>, id: &str) -> (r: bool)
    ensures
        r == exists|i: int| 0 <= i < v@.len() && (#[trigger] v@[i]).0@ == id@,
{
    let mut i: usize = 0;
    while i < v.len()
        invariant
            i <= v@.len(),
            forall|j: int| 0 <= j < i ==> (#[trigger] v@[j]).0@ != id@,
        decreases v.len() - i,
    {
        if same_text(v[i].0.as_str(), id) {
            return true;
        }
        i = i + 1;
    }
    false
}

/// Brings a stored file up to `SETTINGS_VERSION`.
///
/// Version 0 is a file whose silence meant the old catalogue's defaults. Those defaults change
/// with this build, so the state it had is written down and the owner is counted as having
/// chosen it: somebody whose quotes arrive today must not find them stopped by an update. A
/// switch the owner made themselves is left as it was. `on_before` names the sources that were
/// on before the sources were chosen without anybody saying so.
pub fn migrate(choices: &mut SourceChoices, catalog: &[CatalogSource], on_before: &[&str])
    ensures
        old(choices).version >= SETTINGS_VERSION ==> *final(choices) == *old(choices),
        old(choices).version < SETTINGS_VERSION ==> {
            &&& final(choices).version == SETTINGS_VERSION
            &&& final(choices).sources_configured
            &&& switch_map(final(choices).market_sources@) == filled(
                switch_map(old(choices).market_sources@),
                catalog@,
                on_before@,
            )
        },
        ids_once(old(choices).market_sources@) ==> ids_once(final(choices).market_sources@),
{
    if choices.version >= SETTINGS_VERSION {
        return;
    }
    let ghost start = switch_map(choices.market_sources@);
    let ghost was_once = ids_once(choices.market_sources@);
    let mut i: usize = 0;
    while i < catalog.len()
        invariant
            i <= catalog@.len(),
            was_once == ids_once(old(choices).market_sources@),
            was_once ==> ids_once(choices.market_sources@),
            switch_map(choices.market_sources@) == filled(start, catalog@.subrange(0, i as int), on_before@),
            choices.version < SETTINGS_VERSION,
        decreases catalog.len() - i,
    {
        let source = &catalog[i];
        proof {
            assert(catalog@.subrange(0, i + 1).drop_last() =~= catalog@.subrange(0, i as int));
            lemma_switch_map_keys(choices.market_sources@, source.id@);
        }
        if !switched(&choices.market_sources, source.id.as_str()) {
            let on = source.on_by_default || listed(on_before, source.id.as_str());
            let ghost before = choices.market_sources@;
            choices.market_sources.push((owned(source.id.as_str()), on));
            proof {
                assert(choices.market_sources@.drop_last() =~= before);
                let v = choices.market_sources@;
                if was_once {
                    assert forall|a: int, b: int|
                        0 <= a < v.len() && 0 <= b < v.len() && a != b implies (#[trigger] v[a]).0@
                        != (#[trigger] v[b]).0@ by {
                        if a < v.len() - 1 {
                            assert(v[a] == before[a]);
                        }
                        if b < v.len() - 1 {
                            assert(v[b] == before[b]);
                        }
                    }
                }
            }
        }
        i = i + 1;
    }
    assert(catalog@.subrange(0, catalog@.len() as int) =~= catalog@);
    choices.sources_configured = true;
    choices.version = SETTINGS_VERSION;
}

/// Filling in silence never changes a recorded switch, and leaves every catalogue source with
/// one.
pub proof fn law_recorded_switches_survive(m: Map<Seq<char>, bool>, catalog: Seq<CatalogSource>, on_before: Seq<&str>)
    ensures
        forall|k: Seq<char>| #[trigger] m.contains_key(k) ==> filled(m, catalog, on_before).contains_key(k)
            && filled(m, catalog, on_before)[k] == m[k],
        forall|i: int|
            0 <= i < catalog.len() ==> filled(m, catalog, on_before).contains_key((#[trigger] catalog[i]).id@),
    decreases catalog.len(),
{
    if catalog.len() > 0 {
        law_recorded_switches_survive(m, catalog.drop_last(), on_before);
        assert forall|i: int|
            0 <= i < catalog.len() implies filled(m, catalog, on_before).contains_key((#[trigger] catalog[i]).id@) by {
            if i < catalog.len() - 1 {
                assert(catalog.drop_last()[i] == catalog[i]);
            }
        }
    }
}

/// A source without a recorded switch keeps the state it had before the sources were chosen.
pub proof fn law_silence_keeps_what_it_had(
    m: Map<Seq<char>, bool>,
    catalog: Seq<CatalogSource>,
    on_before: Seq<&str>,
    i: int,
)
    requires
        0 <= i < catalog.len(),
        !m.contains_key(catalog[i].id@),
        forall|j: int| 0 <= j < i ==> (#[trigger] catalog[j]).id@ != catalog[i].id@,
    ensures
        filled(m, catalog, on_before)[catalog[i].id@] == was_on(catalog[i], on_before),
    decreases catalog.len(),
{
    law_recorded_switches_survive(m, catalog.drop_last(), on_before);
    if i < catalog.len() - 1 {
        assert(catalog.drop_last()[i] == catalog[i]);
        assert forall|j: int| 0 <= j < i implies (#[trigger] catalog.drop_last()[j]).id@ != catalog[i].id@ by {
            assert(catalog.drop_last()[j] == catalog[j]);
        }
        law_silence_keeps_what_it_had(m, catalog.drop_last(), on_before, i);
    } else {
        assert(!filled(m, catalog.drop_last(), on_before).contains_key(catalog[i].id@)) by {
            if filled(m, catalog.drop_last(), on_before).contains_key(catalog[i].id@) {
                lemma_filled_keys(m, catalog.drop_last(), on_before, catalog[i].id@);
                let j = choose|j: int| 0 <= j < catalog.len() - 1 && (#[trigger] catalog.drop_last()[j]).id@
                    == catalog[i].id@;
                assert(catalog.drop_last()[j] == catalog[j]);
            }
        }
    }
}

/// A key the filled map holds was recorded already or belongs to a catalogue source.
proof fn lemma_filled_keys(m: Map<Seq<char>, bool>, catalog: Seq<CatalogSource>, on_before: Seq<&str>, k: Seq<char>)
    requires
        filled(m, catalog, on_before).contains_key(k),
        !m.contains_key(k),
    ensures
        exists|j: int| 0 <= j < catalog.len() && (#[trigger] catalog[j]).id@ == k,
    decreases catalog.len(),
{
    if catalog.len() > 0 && catalog.last().id@ != k {
        lemma_filled_keys(m, catalog.drop_last(), on_before, k);
        let j = choose|j: int| 0 <= j < catalog.len() - 1 && (#[trigger] catalog.drop_last()[j]).id@ == k;
        assert(catalog.drop_last()[j] == catalog[j]);
    } else if catalog.len() > 0 {
        assert(catalog[catalog.len() - 1].id@ == k);
    }
}


pub open spec fn unknown_source_message(source: Seq<char>) -> Seq<char> {
    "unknown source "@ + source
}

/// Whether a source is on when nobody switched it: the catalogue's default, and on for a
/// source the user described (its id carries `custom_prefix`). `None` for a source nobody
/// knows.
pub open spec fn default_of(catalog: Seq<CatalogSource>, custom_prefix: Seq<char>, source: Seq<char>) -> Option<bool> {
    let k = crate::scope::first_pos(catalog.map_values(|c: CatalogSource| c.id@), source);
    if k >= 0 {
        Some(catalog[k].on_by_default)
    } else if crate::text::starts_with(source, custom_prefix) {
        Some(true)
    } else {
        None
    }
}

/// The vault account a market-data source's key is kept under, apart from the AI providers'.
pub fn source_account(source: &str) -> (a: String)
    ensures
        a@ == "market:"@ + source@,
{
    crate::text::concat("market:", source)
}

/// The entry stands among the first `k` switches.
pub open spec fn came_from(before: Seq<(String, bool)>, k: int, x: (String, bool)) -> bool {
    exists|m: int| 0 <= m < k && #[trigger] before[m] == x
}

/// Switches a source on or off; a switch back to the default is forgotten rather than stored.
pub fn market_source_switch(
    choices: &mut SourceChoices,
    catalog: &[CatalogSource],
    custom_prefix: &str,
    source: &str,
    on: bool,
) -> (r: Result<(), UiError>)
    ensures
        ids_once(old(choices).market_sources@) ==> ids_once(final(choices).market_sources@),
        final(choices).version == old(choices).version,
        final(choices).sources_configured == old(choices).sources_configured,
        match default_of(catalog@, custom_prefix@, source@) {
            None => r is Err && r->Err_0 is Invalid && r->Err_0.message_of() == unknown_source_message(source@)
                && *final(choices) == *old(choices),
            Some(default) => r is Ok && switch_map(final(choices).market_sources@) == if on == default {
                switch_map(old(choices).market_sources@).remove(source@)
            } else {
                switch_map(old(choices).market_sources@).insert(source@, on)
            },
        },
{
    let ghost keys = catalog@.map_values(|c: CatalogSource| c.id@);
    let mut ids: Vec<&str> = Vec::new();
    let mut i: usize = 0;
    while i < catalog.len()
        invariant
            i <= catalog@.len(),
            ids@.len() == i,
            forall|j: int| 0 <= j < i ==> (#[trigger] ids@[j])@ == catalog@[j].id@,
        decreases catalog.len() - i,
    {
        ids.push(catalog[i].id.as_str());
        i = i + 1;
    }
    assert(ids@.map_values(|s: &str| s@) =~= keys);
    proof {
        crate::scope::lemma_first_pos_bounds(keys, source@);
    }
    let default = match crate::scope::position_of(&ids, source) {
        Some(k) => catalog[k].on_by_default,
        None => if crate::text::has_prefix(source, custom_prefix) {
            true
        } else {
            return Err(UiError::invalid(crate::text::concat("unknown source ", source)));
        },
    };
    let ghost before = choices.market_sources@;
    proof {
        lemma_switch_map_keys(before, source@);
    }
    let mut kept: Vec<(String, bool)> = Vec::new();
    let mut k: usize = 0;
    while k < choices.market_sources.len()
        invariant
            before == choices.market_sources@,
            k <= before.len(),
            ids_once(before) ==> ids_once(kept@),
            forall|j: int| 0 <= j < kept@.len() ==> (#[trigger] kept@[j]).0@ != source@,
            forall|j: int| 0 <= j < kept@.len() ==> came_from(before, k as int, #[trigger] kept@[j]),
            switch_map(kept@) == switch_map(before.subrange(0, k as int)).remove(source@),
        decreases choices.market_sources.len() - k,
    {
        let entry = &choices.market_sources[k];
        let ghost pre = kept@;
        proof {
            assert(before.subrange(0, k + 1).drop_last() =~= before.subrange(0, k as int));
        }
        if !same_text(entry.0.as_str(), source) {
            kept.push((entry.0.clone(), entry.1));
            proof {
                assert(kept@.drop_last() =~= pre);
                if ids_once(before) {
                    assert forall|a: int, b: int|
                        0 <= a < kept@.len() && 0 <= b < kept@.len() && a != b implies (#[trigger] kept@[a]).0@
                        != (#[trigger] kept@[b]).0@ by {
                        if a < pre.len() && b < pre.len() {
                            assert(kept@[a] == pre[a] && kept@[b] == pre[b]);
                        } else if a < pre.len() {
                            assert(came_from(before, k as int, pre[a]));
                            let m = choose|m: int| 0 <= m < k && #[trigger] before[m] == pre[a];
                            assert(before[m].0@ != before[k as int].0@);
                        } else {
                            assert(came_from(before, k as int, pre[b]));
                            let m = choose|m: int| 0 <= m < k && #[trigger] before[m] == pre[b];
                            assert(before[m].0@ != before[k as int].0@);
                        }
                    }
                }
                assert forall|j: int| 0 <= j < kept@.len() implies came_from(before, k + 1, #[trigger] kept@[j]) by {
                    if j < pre.len() {
                        assert(came_from(before, k as int, pre[j]));
                        let m = choose|m: int| 0 <= m < k && #[trigger] before[m] == pre[j];
                        assert(before[m] == kept@[j]);
                    } else {
                        assert(before[k as int] == kept@[j]);
                    }
                }
                assert(switch_map(kept@) =~= switch_map(before.subrange(0, k + 1)).remove(source@));
            }
        } else {
            proof {
                assert(switch_map(kept@) =~= switch_map(before.subrange(0, k + 1)).remove(source@));
            }
        }
        k = k + 1;
    }
    assert(before.subrange(0, before.len() as int) =~= before);
    if on != default {
        let ghost pre = kept@;
        kept.push((crate::text::owned(source), on));
        proof {
            assert(kept@.drop_last() =~= pre);
            if ids_once(before) {
                assert forall|a: int, b: int|
                    0 <= a < kept@.len() && 0 <= b < kept@.len() && a != b implies (#[trigger] kept@[a]).0@
                    != (#[trigger] kept@[b]).0@ by {
                    if a < pre.len() && b < pre.len() {
                        assert(kept@[a] == pre[a] && kept@[b] == pre[b]);
                    }
                }
            }
            assert(switch_map(kept@) =~= switch_map(before).insert(source@, on));
        }
    }
    choices.market_sources = kept;
    Ok(())
}

} // verus!
