//! What the frontend receives besides errors: plain records the host fills in and hands over.

use vstd::prelude::*;
use crate::reader::ReaderWarning;

verus! {

/// One AI provider as the picker needs it: what it is, and whether a key is saved for it. The
/// key itself never crosses to the frontend.
#[derive(Debug)]
pub struct ProviderOption {
    pub id: String,
    pub connected: bool,
    /// What to call it. Empty for a built-in (a brand name the frontend already knows), the
    /// user's own words for the custom one.
    pub label: String,
}

/// What the alert simulator does to one rule.
#[derive(Debug, Clone, Copy, PartialEq, Eq, Structural)]
pub enum DevAlertStep {
    /// Writes today's close one percent past the level, on the side the price is not on; a date
    /// rule is moved to today.
    Cross,
    /// Deletes the simulated quotes of the rule's instrument, so the price returns to the real
    /// one.
    Reset,
}

/// A file the import wizard loaded.
#[derive(Debug)]
pub struct LoadedFile {
    pub name: String,
    pub size: usize,
    /// `<plugin id>/<reader id>` when a plugin's reader turned this file into something the
    /// wizard can read; absent for every file a shipped reader handled.
    pub reader: Option<String>,
}

/// The file the wizard is working on. `content` is what every preview and the commit read, and
/// for a file a plugin claimed it is what the reader produced, not what was on disk.
#[derive(Debug)]
pub struct ImportFile {
    pub info: LoadedFile,
    pub content: Vec<u8>,
    pub warnings: Vec<ReaderWarning>,
}

/// What the app knows about the portfolio's price index: codes only, the region's name is
/// written where the language is known.
#[derive(Debug)]
pub struct InflationStatus {
    /// The region the portfolio reports against; `None` when real returns are switched off.
    pub region: Option<String>,
    /// Which source answered it, `None` before the first fetch.
    pub source: Option<String>,
    /// The last month a level is stored for, as its first day.
    pub published_through: Option<String>,
    /// Every region this build can fetch, for the picker.
    pub regions: Vec<&'static str>,
}

/// One market-data source as the settings list shows it.
#[derive(Debug)]
pub struct MarketSourceRow {
    pub id: &'static str,
    /// `quotes | search | listings | fx_rates | price_index`.
    pub capabilities: Vec<&'static str>,
    /// `none | optional | required`.
    pub key: &'static str,
    pub has_key: bool,
    pub on_by_default: bool,
    /// Switched on by the user or by default, whether or not a missing key keeps it out.
    pub wanted: bool,
    /// Actually asked: wanted and not missing a required key.
    pub active: bool,
}

/// Which data changed, so the frontend can drop what it cached about it.
#[derive(Debug, Clone, Copy)]
pub struct DataChanged {
    pub scope: &'static str,
}

} // verus!
