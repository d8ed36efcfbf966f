//! The decisions of the background refresh of quotes, rates and the price index: where each
//! subject's window starts, which subjects a fetch of what is missing still owes, and what the
//! status shown to other screens becomes as the run starts, progresses and ends. Asking the
//! sources and writing the database is the host's loop around these.

use vstd::prelude::*;
use crate::dates::{Date, DateRange, in_calendar};
use crate::text::uppercased;
use crate::text::{push_text, owned};

verus! {

/// How much a refresh asks for.
#[derive(Debug, Clone, Copy, PartialEq, Eq, Structural)]
pub enum RefreshMode {
    /// Refresh the recent tail, including a three-day correction window.
    CatchUp,
    /// Refresh up to five years of history.
    Full,
    /// Fetch only what nothing was fetched for yet: a new instrument, a new currency.
    Missing,
}

/// Five years, in the days a refresh reaches back by default.
pub open spec fn five_years() -> int {
    1825
}

pub open spec fn max_day(a: int, b: int) -> int {
    if a >= b { a } else { b }
}

/// The refresh start date, keeping a three-day correction window behind the last stored day.
pub open spec fn since_day(mode: RefreshMode, known: Option<int>, today: int) -> int {
    let full = today - five_years();
    match known {
        Some(last) if mode != RefreshMode::Full => max_day(last - 3, full),
        _ => full,
    }
}

/// What `since` needs of its dates: every day it computes lies inside the calendar.
pub open spec fn since_computable(mode: RefreshMode, known: Option<Date>, today: Date) -> bool {
    &&& in_calendar(today@ - five_years())
    &&& (mode != RefreshMode::Full && known is Some) ==> in_calendar(known->0@ - 3)
}

pub open spec fn day_of(d: Option<Date>) -> Option<int> {
    match d {
        Some(x) => Some(x@),
        None => None,
    }
}

/// Where a subject's refresh begins: the mode's own window, widened back to the first operation
/// when what is stored does not reach it.
pub open spec fn start_day(
    mode: RefreshMode,
    known: Option<int>,
    today: int,
    stored_from: Option<int>,
    needed_from: Option<int>,
) -> int {
    let start = since_day(mode, known, today);
    match needed_from {
        Some(need) if need < start && (match stored_from {
            None => true,
            Some(from) => need < from,
        }) => need,
        _ => start,
    }
}

/// Select the refresh start date, retaining a three-day correction window.
pub fn since(mode: RefreshMode, known: Option<Date>, today: Date) -> (d: Date)
    requires
        since_computable(mode, known, today),
    ensures
        d@ == since_day(mode, day_of(known), today@),
{
    let full = today.minus_days(1825);
    match (mode, known) {
        (RefreshMode::Full, _) | (_, None) => full,
        (_, Some(last)) => {
            let back = last.minus_days(3);
            if back.is_before(&full) {
                full
            } else {
                back
            }
        },
    }
}

/// Where a subject's refresh begins. The mode's own window is widened back to the first
/// operation when what is stored does not reach it — a catch-up asks from where the series
/// already ends, so a gap older than the series is one no later refresh would ever close.
pub fn start_from(
    mode: RefreshMode,
    known: Option<Date>,
    today: Date,
    stored_from: Option<Date>,
    needed_from: Option<Date>,
) -> (d: Date)
    requires
        since_computable(mode, known, today),
    ensures
        d@ == start_day(mode, day_of(known), today@, day_of(stored_from), day_of(needed_from)),
{
    let start = since(mode, known, today);
    match needed_from {
        Some(need) => {
            let reaches = match stored_from {
                None => true,
                Some(from) => need.is_before(&from),
            };
            if need.is_before(&start) && reaches {
                need
            } else {
                start
            }
        },
        None => start,
    }
}

/// A subject's window is only ever widened back from the mode's own, never narrowed, and it
/// reaches back to the first operation whenever what is stored does not.
pub proof fn law_window_only_widens(
    mode: RefreshMode,
    known: Option<int>,
    today: int,
    stored_from: Option<int>,
    needed_from: Option<int>,
)
    ensures
        start_day(mode, known, today, stored_from, needed_from) <= since_day(mode, known, today),
        forall|need: int|
            needed_from == Some(need) && need < since_day(mode, known, today) && (match stored_from {
                None => true,
                Some(from) => need < from,
            }) ==> #[trigger] start_day(mode, known, today, stored_from, Some(need)) == need,
{
}

/// Whether a stored series is too short for how long the instrument has been held: a holding
/// of at least 90 days whose series covers under a quarter of it, or none of it.
pub open spec fn is_sparse(held_from: Option<int>, span: Option<(int, int)>, today: int) -> bool {
    match held_from {
        None => false,
        Some(held) => {
            let wanted = today - held;
            wanted >= 90 && match span {
                None => true,
                Some((from, to)) => (to - from) * 4 < wanted,
            }
        },
    }
}

pub open spec fn span_of(span: Option<DateRange>) -> Option<(int, int)> {
    match span {
        Some(r) => Some((r.from@, r.to@)),
        None => None,
    }
}

/// Whether a stored series is too short for how long the instrument has been held — the shape
/// a ticker from the wrong venue leaves behind: the source answers, but with today's price
/// alone. A holding younger than 90 days says nothing yet, and an instrument listed part-way
/// through the window is not sparse — only a series covering under a quarter of it is.
pub fn sparse_history(held_from: Option<Date>, span: Option<DateRange>, today: Date) -> (r: bool)
    ensures
        r == is_sparse(day_of(held_from), span_of(span), today@),
{
    let held = match held_from {
        None => return false,
        Some(held) => held,
    };
    let wanted = today.days_since(&held);
    if wanted < 90 {
        return false;
    }
    match span {
        None => true,
        Some(span) => {
            let covered = span.to.days_since(&span.from);
            covered * 4 < wanted
        },
    }
}

/// The start of the window already requested for a security: the later of the two coverages
/// (quotes and events ride on one request), `None` when either is absent.
pub fn asked_from(quotes_from: Option<Date>, events_from: Option<Date>) -> (r: Option<Date>)
    ensures
        day_of(r) == match (day_of(quotes_from), day_of(events_from)) {
            (Some(q), Some(e)) => Some(max_day(q, e)),
            _ => None::<int>,
        },
{
    match (quotes_from, events_from) {
        (Some(q), Some(e)) => if q.is_before(&e) {
            Some(e)
        } else {
            Some(q)
        },
        _ => None,
    }
}

/// Whether a fetch of what is missing still owes this security something: nothing was asked
/// for it yet, the holding starts before the window asked, or what came back is sparse.
pub open spec fn security_owed(
    held: Option<int>,
    asked: Option<int>,
    span: Option<(int, int)>,
    today: int,
) -> bool {
    match asked {
        None => true,
        Some(from) => (match held {
            Some(first) => first < from,
            None => false,
        }) || is_sparse(held, span, today),
    }
}

pub fn security_needs_fetch(
    held: Option<Date>,
    asked: Option<Date>,
    span: Option<DateRange>,
    today: Date,
) -> (r: bool)
    ensures
        r == security_owed(day_of(held), day_of(asked), span_of(span), today@),
{
    match asked {
        None => true,
        Some(from) => {
            let earlier = match held {
                Some(first) => first.is_before(&from),
                None => false,
            };
            earlier || sparse_history(held, span, today)
        },
    }
}

/// A fetch of what is missing owes a security a fetch whenever nothing was asked for it yet, and
/// whenever its first operation lies before the start of the window already asked, however much
/// of a series is stored: the older history has never been asked for. Only a security whose
/// window reaches its first operation may be skipped, and then only when its series is not
/// sparse.
pub proof fn law_an_older_holding_is_owed_a_fetch(held: Option<int>, asked: Option<int>, span: Option<(int, int)>, today: int)
    ensures
        asked is None ==> security_owed(held, asked, span, today),
        (held matches Some(h) && asked matches Some(a) && h < a) ==> security_owed(held, asked, span, today),
        !security_owed(held, asked, span, today) ==> asked is Some && !is_sparse(held, span, today) && match held {
            Some(h) => h >= asked->0,
            None => true,
        },
{
}

/// Whether a fetch of what is missing still owes this currency pair something: nothing is
/// stored for it, or the ledger needs rates from before the first one stored.
pub fn pair_needs_fetch(stored_from: Option<Date>, needed_from: Option<Date>) -> (r: bool)
    ensures
        r == match day_of(stored_from) {
            None => true,
            Some(from) => match day_of(needed_from) {
                Some(first) => first < from,
                None => false,
            },
        },
{
    match stored_from {
        None => true,
        Some(from) => match needed_from {
            Some(first) => first.is_before(&from),
            None => false,
        },
    }
}

/// Whether the price index is asked this run: always on a full refresh, otherwise only while
/// the stored series does not yet hold last month's level (`current`).
pub fn index_due(mode: RefreshMode, published_through: Option<Date>, current: Date) -> (r: bool)
    ensures
        r == !(mode != RefreshMode::Full && match day_of(published_through) {
            Some(month) => month >= current@,
            None => false,
        }),
{
    let current_enough = match published_through {
        Some(month) => !month.is_before(&current),
        None => false,
    };
    !(mode != RefreshMode::Full && current_enough)
}


/// What a fetch of what is missing does about an instrument whose series came back sparse: a
/// file names a ticker, not a venue, so a first fetch can land on one its source does not quote.
#[derive(Debug)]
pub enum Relisting {
    /// Nothing changes.
    Keep,
    /// The directory answered and no venue it knows has prices for the instrument: it becomes a
    /// manual-price instrument, so a refresh stops asking for it.
    Retire,
    /// It moves to the venue found, under this ticker.
    MoveTo(String),
}

/// Whether the directory is asked for a better venue: only for an instrument priced from a
/// source by a usable ticker whose series is sparse. The venue behind a series the user chose
/// by hand is never overwritten without being asked.
pub fn looks_for_venue(has_source: bool, quotable: bool, sparse: bool) -> (r: bool)
    ensures
        r == (has_source && quotable && sparse),
{
    has_source && quotable && sparse
}

/// What the directory's answer means. `lookup` is `Err` when the directory was not reached (the
/// network, not an answer: nothing changes), `Ok(None)` when it answered and had nothing, and
/// `Ok(Some(symbol))` with the ticker of the venue it found, when the listing names one. An
/// instrument is retired only when its source returned nothing at all (`has_series` false): a
/// thin series still has prices, and dropping its source would stop the few that arrive. A
/// venue under the same ticker, letter case aside, is no move.
pub fn relisting(lookup: Result<Option<Option<String>>, ()>, has_series: bool, current: &str) -> (r: Relisting)
    ensures
        match lookup {
            Err(()) => r is Keep,
            Ok(None) => if has_series { r is Keep } else { r is Retire },
            Ok(Some(None)) => r is Keep,
            Ok(Some(Some(symbol))) => if uppercased(symbol@) == uppercased(current@) {
                r is Keep
            } else {
                r matches Relisting::MoveTo(s) && s@ == uppercased(symbol@)
            },
        },
{
    match lookup {
        Err(()) => Relisting::Keep,
        Ok(None) => if has_series {
            Relisting::Keep
        } else {
            Relisting::Retire
        },
        Ok(Some(None)) => Relisting::Keep,
        Ok(Some(Some(symbol))) => {
            let upper = crate::text::to_uppercase(symbol.as_str());
            let now = crate::text::to_uppercase(current);
            if crate::text::same_text(upper.as_str(), now.as_str()) {
                Relisting::Keep
            } else {
                Relisting::MoveTo(upper)
            }
        },
    }
}

/// How a currency pair is named in progress and failures: `<currency>/<base>`.
pub fn pair_label(currency: &str, base: &str) -> (s: String)
    ensures
        s@ == currency@ + seq!['/'] + base@,
{
    let mut s = owned(currency);
    s.push('/');
    s.append(base);
    s
}

/// Why a refresh step failed. A code, not a sentence: the UI writes the headline.
#[derive(Debug, Clone, Copy, PartialEq, Eq, Structural)]
pub enum FailureCode {
    /// The database could not be opened.
    Database,
    /// The security list could not be read.
    Securities,
    /// The currency list could not be read.
    Currencies,
    /// One security's quotes did not arrive.
    Quote,
    /// One currency pair's rates did not arrive.
    Rate,
    /// The consumer-price index of the portfolio's region did not arrive.
    Index,
    /// Securities whose ticker field holds an ISIN; a provider cannot answer for them.
    Unidentified,
    /// The refresh thread panicked.
    Internal,
}

/// What went wrong underneath, so the UI can say what to fix rather than repeat the detail.
#[derive(Debug, Clone, Copy, PartialEq, Eq, Structural)]
pub enum FailureCause {
    /// No connection, a timeout, throttling or a server error: trying later is the fix.
    Unreachable,
    /// The provider refused the request (4xx): usually a symbol it does not know.
    Rejected,
    /// The provider refused the key (401/403): a missing, wrong or expired key.
    Unauthorized,
    /// The provider answered without usable prices: a wrong, delisted or unsupported ticker.
    NoData,
    /// The local database failed.
    Storage,
    Other,
}

#[derive(Debug)]
pub struct Failure {
    pub code: FailureCode,
    pub cause: FailureCause,
    /// What the failure is about: a symbol, a currency pair, a comma-separated list.
    pub subject: String,
    /// English detail from the underlying error; the UI shows it under its own headline.
    pub detail: String,
    /// The source that was asked and failed, when one was.
    pub source: Option<String>,
}

impl Failure {
    /// The same failure, a second time.
    pub fn copy(&self) -> (f: Failure)
        ensures
            f == *self,
    {
        let source = match &self.source {
            Some(s) => Some(s.clone()),
            None => None,
        };
        Failure {
            code: self.code,
            cause: self.cause,
            subject: self.subject.clone(),
            detail: self.detail.clone(),
            source,
        }
    }
}

/// The same failures, a second time.
pub fn copy_failures(failures: &Vec<Failure>) -> (v: Vec<Failure>)
    ensures
        v@ == failures@,
{
    let mut v: Vec<Failure> = Vec::new();
    let mut i: usize = 0;
    while i < failures.len()
        invariant
            i <= failures.len(),
            v@ == failures@.subrange(0, i as int),
        decreases failures.len() - i,
    {
        v.push(failures[i].copy());
        i = i + 1;
        assert(v@ =~= failures@.subrange(0, i as int));
    }
    assert(v@ =~= failures@);
    v
}

/// Texts joined with `sep` between them.
pub open spec fn joined_with(parts: Seq<Seq<char>>, sep: Seq<char>) -> Seq<char>
    decreases parts.len(),
{
    if parts.len() == 0 {
        Seq::empty()
    } else if parts.len() == 1 {
        parts[0]
    } else {
        joined_with(parts.drop_last(), sep) + sep + parts.last()
    }
}

pub open spec fn texts(v: Seq<String>) -> Seq<Seq<char>> {
    v.map_values(|s: String| s@)
}

/// `parts` joined with `sep` between them.
pub fn join(parts: &Vec<String>, sep: &str) -> (s: String)
    ensures
        s@ == joined_with(texts(parts@), sep@),
{
    let ghost all = texts(parts@);
    let mut s = String::new();
    let mut i: usize = 0;
    while i < parts.len()
        invariant
            all == texts(parts@),
            i <= parts.len(),
            s@ == joined_with(all.subrange(0, i as int), sep@),
        decreases parts.len() - i,
    {
        if i > 0 {
            push_text(&mut s, sep);
        }
        push_text(&mut s, parts[i].as_str());
        proof {
            let prefix = all.subrange(0, i + 1);
            assert(prefix.drop_last() =~= all.subrange(0, i as int));
            assert(prefix.last() == parts@[i as int]@);
            if i == 0 {
                assert(all.subrange(0, 0) =~= Seq::<Seq<char>>::empty());
                assert(s@ =~= prefix[0]);
            }
        }
        i = i + 1;
    }
    assert(all.subrange(0, parts.len() as int) =~= all);
    s
}

/// The failure reported for instruments whose ticker field holds an ISIN: one entry naming
/// them all.
pub fn unidentified(symbols: &Vec<String>) -> (f: Failure)
    ensures
        f.code == FailureCode::Unidentified,
        f.cause == FailureCause::Other,
        f.subject@ == joined_with(texts(symbols@), ", "@),
        f.source is None,
{
    Failure {
        code: FailureCode::Unidentified,
        cause: FailureCause::Other,
        subject: join(symbols, ", "),
        detail: owned("the ticker field holds an ISIN, not a provider symbol"),
        source: None,
    }
}

/// What a run produced, handed to the step that ends it.
#[derive(Debug)]
pub struct Outcome {
    pub fetched: usize,
    pub failed: Vec<Failure>,
    pub cancelled: bool,
    /// Instruments this run moved to another venue by itself.
    pub relisted: usize,
}

/// The outcome of a run that could not get started: one failure, nothing fetched.
pub fn fatal(code: FailureCode, cause: FailureCause, detail: String) -> (o: Outcome)
    ensures
        o.fetched == 0,
        o.relisted == 0,
        !o.cancelled,
        o.failed@.len() == 1,
        o.failed@[0] == (Failure { code, cause, subject: o.failed@[0].subject, detail, source: None }),
        o.failed@[0].subject@ == Seq::<char>::empty(),
{
    let mut failed: Vec<Failure> = Vec::new();
    failed.push(Failure { code, cause, subject: String::new(), detail, source: None });
    Outcome { fetched: 0, failed, cancelled: false, relisted: 0 }
}

/// The outcome of a run whose thread panicked.
pub fn panicked() -> (o: Outcome)
    ensures
        o.fetched == 0,
        o.relisted == 0,
        !o.cancelled,
        o.failed@.len() == 1,
        o.failed@[0].code == FailureCode::Internal,
        o.failed@[0].cause == FailureCause::Other,
{
    fatal(FailureCode::Internal, FailureCause::Other, owned("the refresh thread panicked"))
}

/// One step of a run, as the progress channel carries it.
#[derive(Debug)]
pub enum Progress {
    Started { total: usize },
    Item { label: String, done: usize, total: usize, fetched: usize },
    Finished { fetched: usize, failed: Vec<Failure>, cancelled: bool },
}

/// A run as it goes: what it fetched and moved, what failed, how many of its items are done.
/// The host walks the instruments and pairs, does the fetching and reports the progress; the
/// counting and what each step reports are decided here.
pub struct Run {
    pub fetched: usize,
    pub failed: Vec<Failure>,
    pub relisted: usize,
    pub done: usize,
    pub total: usize,
    /// Only what is missing is fetched: nothing is reported when there is nothing to do.
    pub missing: bool,
}

/// What a fetch of one item came to: how many values were saved, or why it failed.
pub enum Fetch {
    Saved(usize),
    Failed(Failure),
}

impl Run {
    /// A run starting out. The instruments nobody can look up by their ticker are one failure
    /// naming them all, except in a fetch of what is missing, which leaves them be.
    pub fn new(missing: bool, unidentified_symbols: &Vec<String>) -> (r: Run)
        ensures
            r.fetched == 0,
            r.relisted == 0,
            r.done == 0,
            r.total == 0,
            r.missing == missing,
            if !missing && unidentified_symbols@.len() > 0 {
                &&& r.failed@.len() == 1
                &&& r.failed@[0].code == FailureCode::Unidentified
                &&& r.failed@[0].cause == FailureCause::Other
                &&& r.failed@[0].subject@ == joined_with(texts(unidentified_symbols@), ", "@)
                &&& r.failed@[0].source is None
            } else {
                r.failed@.len() == 0
            },
    {
        let mut failed: Vec<Failure> = Vec::new();
        if !missing && unidentified_symbols.len() > 0 {
            failed.push(unidentified(unidentified_symbols));
        }
        Run { fetched: 0, failed, relisted: 0, done: 0, total: 0, missing }
    }

    /// The run knows how many items it walks. A fetch of what is missing with nothing to fetch
    /// ends here, reporting nothing (`None`); otherwise it announces the total.
    pub fn start(&mut self, total: usize) -> (p: Option<Progress>)
        ensures
            final(self).total == total,
            final(self).fetched == old(self).fetched,
            final(self).failed@ == old(self).failed@,
            final(self).relisted == old(self).relisted,
            final(self).done == old(self).done,
            final(self).missing == old(self).missing,
            old(self).missing && total == 0 ==> p is None,
            !(old(self).missing && total == 0) ==> p == Some(Progress::Started { total }),
    {
        self.total = total;
        if self.missing && total == 0 {
            None
        } else {
            Some(Progress::Started { total })
        }
    }

    /// One item is done: what it saved counts, or its failure is kept, in order; a move to another
    /// venue (`relisted`, with what it saved there) counts too. The item is reported with the
    /// run's totals so far.
    pub fn item(&mut self, label: String, fetch: Fetch, relisted: Option<usize>) -> (p: Progress)
        requires
            old(self).done < usize::MAX,
            old(self).relisted < usize::MAX,
            old(self).fetched + (match fetch {
                Fetch::Saved(n) => n as int,
                Fetch::Failed(_) => 0,
            }) + (match relisted {
                Some(n) => n as int,
                None => 0,
            }) <= usize::MAX,
        ensures
            final(self).fetched == old(self).fetched + (match fetch {
                Fetch::Saved(n) => n as int,
                Fetch::Failed(_) => 0,
            }) + (match relisted {
                Some(n) => n as int,
                None => 0,
            }),
            final(self).failed@ == (match fetch {
                Fetch::Saved(_) => old(self).failed@,
                Fetch::Failed(f) => old(self).failed@.push(f),
            }),
            final(self).relisted == old(self).relisted + (if relisted is Some { 1int } else { 0 }),
            final(self).done == old(self).done + 1,
            final(self).total == old(self).total,
            final(self).missing == old(self).missing,
            p == (Progress::Item {
                label,
                done: final(self).done,
                total: final(self).total,
                fetched: final(self).fetched,
            }),
    {
        match fetch {
            Fetch::Saved(n) => {
                self.fetched = self.fetched + n;
            },
            Fetch::Failed(f) => {
                self.failed.push(f);
            },
        }
        if let Some(n) = relisted {
            self.fetched = self.fetched + n;
            self.relisted = self.relisted + 1;
        }
        self.done = self.done + 1;
        Progress::Item { label, done: self.done, total: self.total, fetched: self.fetched }
    }

    /// The price index was looked at: what it saved counts, and a failure is kept.
    pub fn index(&mut self, saved: usize, failure: Option<Failure>)
        requires
            old(self).fetched + saved <= usize::MAX,
        ensures
            final(self).fetched == old(self).fetched + saved,
            final(self).failed@ == (match failure {
                Some(f) => old(self).failed@.push(f),
                None => old(self).failed@,
            }),
            final(self).relisted == old(self).relisted,
            final(self).done == old(self).done,
            final(self).total == old(self).total,
            final(self).missing == old(self).missing,
    {
        self.fetched = self.fetched + saved;
        if let Some(f) = failure {
            self.failed.push(f);
        }
    }

    /// What the run came to, cancelled or not.
    pub fn outcome(self, cancelled: bool) -> (o: Outcome)
        ensures
            o.fetched == self.fetched,
            o.failed@ == self.failed@,
            o.relisted == self.relisted,
            o.cancelled == cancelled,
    {
        Outcome { fetched: self.fetched, failed: self.failed, cancelled, relisted: self.relisted }
    }
}

/// Snapshot for screens opened while a refresh is running.
#[derive(Debug)]
pub struct RefreshStatus {
    pub running: bool,
    pub label: Option<String>,
    pub done: usize,
    pub total: usize,
    pub fetched: usize,
    /// Last refresh completion time in RFC 3339.
    pub last_finished: Option<String>,
    pub failures: Vec<Failure>,
    /// Whether the last refresh was cancelled.
    pub cancelled: bool,
    /// A missing-data fetch asked for while this refresh ran; it starts when this one ends.
    pub queued: bool,
}

impl RefreshStatus {
    /// Nothing has run yet.
    pub fn new() -> (s: RefreshStatus)
        ensures
            !s.running,
            s.label is None,
            s.done == 0,
            s.total == 0,
            s.fetched == 0,
            s.last_finished is None,
            s.failures@.len() == 0,
            !s.cancelled,
            !s.queued,
    {
        RefreshStatus {
            running: false,
            label: None,
            done: 0,
            total: 0,
            fetched: 0,
            last_finished: None,
            failures: Vec::new(),
            cancelled: false,
            queued: false,
        }
    }

    /// Marks a refresh as started, unless one already runs; `false` when it does, and then
    /// nothing changes.
    pub fn begin(&mut self) -> (started: bool)
        ensures
            started == !old(self).running,
            started ==> *final(self) == (RefreshStatus {
                running: true,
                cancelled: false,
                ..*old(self)
            }),
            !started ==> *final(self) == *old(self),
    {
        if self.running {
            return false;
        }
        self.running = true;
        self.cancelled = false;
        true
    }

    /// A fetch of what is missing, asked for while a refresh runs, waits for it: `true` when it
    /// was queued here, `false` when nothing runs and it may start at once.
    pub fn queue_missing(&mut self) -> (queued: bool)
        ensures
            queued == old(self).running,
            queued ==> *final(self) == (RefreshStatus { queued: true, ..*old(self) }),
            !queued ==> *final(self) == *old(self),
    {
        if self.running {
            self.queued = true;
            true
        } else {
            false
        }
    }

    /// What a progress report changes in the snapshot.
    pub fn apply(&mut self, progress: &Progress)
        ensures
            match *progress {
                Progress::Started { total } => *final(self) == (RefreshStatus {
                    total,
                    done: 0,
                    fetched: 0,
                    ..*old(self)
                }),
                Progress::Item { label, done, total, fetched } => final(self).label matches Some(l)
                    && l@ == label@ && *final(self) == (RefreshStatus {
                    label: final(self).label,
                    done,
                    total,
                    fetched,
                    ..*old(self)
                }),
                Progress::Finished { .. } => *final(self) == *old(self),
            },
    {
        match progress {
            Progress::Started { total } => {
                self.total = *total;
                self.done = 0;
                self.fetched = 0;
            },
            Progress::Item { label, done, total, fetched } => {
                self.label = Some(label.clone());
                self.done = *done;
                self.total = *total;
                self.fetched = *fetched;
            },
            Progress::Finished { .. } => {},
        }
    }

    /// Ends a run. Fetching what was missing is not a refresh of the portfolio: the time of the
    /// last refresh and its failures stay what the last real refresh left, unless this fetch
    /// failed itself. Returns whether a fetch of what is missing was queued meanwhile, and the
    /// progress event that announces the end.
    pub fn finish(&mut self, outcome: Outcome, partial: bool, now: String) -> (r: (bool, Progress))
        ensures
            r.0 == old(self).queued,
            !final(self).running,
            final(self).label is None,
            final(self).done == 0,
            final(self).total == 0,
            final(self).fetched == outcome.fetched,
            final(self).last_finished == (if partial { old(self).last_finished } else { Some(now) }),
            final(self).failures@ == (if partial && outcome.failed@.len() == 0 {
                old(self).failures@
            } else {
                outcome.failed@
            }),
            final(self).cancelled == outcome.cancelled,
            !final(self).queued,
            r.1 == (Progress::Finished {
                fetched: outcome.fetched,
                failed: outcome.failed,
                cancelled: outcome.cancelled,
            }),
    {
        let queued = self.queued;
        let Outcome { fetched, failed, cancelled, relisted: _ } = outcome;
        self.running = false;
        self.label = None;
        self.done = 0;
        self.total = 0;
        self.fetched = fetched;
        if !partial {
            self.last_finished = Some(now);
        }
        if !(partial && failed.len() == 0) {
            self.failures = copy_failures(&failed);
        }
        self.cancelled = cancelled;
        self.queued = false;
        (queued, Progress::Finished { fetched, failed, cancelled })
    }
}

/// Whether the end of a run is written down as the profile's last refresh: a completed, full
/// refresh of the profile that is still open. A refresh outlives a profile switch, and its time
/// belongs to the profile it ran for.
pub fn records_refresh_time(cancelled: bool, partial: bool, same_profile: bool) -> (r: bool)
    ensures
        r == (!cancelled && !partial && same_profile),
{
    !cancelled && !partial && same_profile
}

/// Whether the end of a run tells the screens that quotes changed: always after a refresh,
/// after a fetch of what was missing only when it fetched something.
pub fn announces_quotes(partial: bool, fetched: usize) -> (r: bool)
    ensures
        r == (!partial || fetched > 0),
{
    !partial || fetched > 0
}

} // verus!
