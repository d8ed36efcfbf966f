//! The period axis: the seven shipped presets plus whatever the user added. What a period may be
//! called, which periods the strip offers, and what removing one does to the stored axis is
//! decided here; resolving a period to dates is the portfolio core's.

use vstd::prelude::*;
use crate::dates::Date;
use crate::error::UiError;
use crate::text::{chars_of, owned, same_text, trim, trimmed};

verus! {

/// Every shipped preset's id, in the order the strip shows them. The id is stored UI state, so a
/// preset is added, never renamed.
pub open spec fn builtin_ids() -> Seq<Seq<char>> {
    seq![
        "ONE_MONTH"@,
        "THREE_MONTHS"@,
        "YTD"@,
        "ONE_YEAR"@,
        "THREE_YEARS"@,
        "FIVE_YEARS"@,
        "SINCE_INCEPTION"@,
    ]
}

pub fn builtin_presets() -> (v: Vec<&'static str>)
    ensures
        v@.map_values(|s: &str| s@) == builtin_ids(),
{
    let v = vec![
        "ONE_MONTH",
        "THREE_MONTHS",
        "YTD",
        "ONE_YEAR",
        "THREE_YEARS",
        "FIVE_YEARS",
        "SINCE_INCEPTION",
    ];
    assert(v@.map_values(|s: &str| s@) =~= builtin_ids());
    v
}

/// The texts' characters.
pub open spec fn texts(v: Seq<String>) -> Seq<Seq<char>> {
    v.map_values(|s: String| s@)
}

/// How many of `ids` are neither `id` nor one of `hidden`.
pub open spec fn count_left(ids: Seq<Seq<char>>, hidden: Seq<Seq<char>>, id: Seq<char>) -> nat
    decreases ids.len(),
{
    if ids.len() == 0 {
        0
    } else {
        count_left(ids.drop_last(), hidden, id) + if ids.last() != id && !hidden.contains(ids.last()) {
            1nat
        } else {
            0nat
        }
    }
}

/// How many of `ids` are not `id`.
pub open spec fn count_other(ids: Seq<Seq<char>>, id: Seq<char>) -> nat {
    count_left(ids, Seq::empty(), id)
}

/// How many periods the strip would still offer once `id` is gone: the shipped presets not
/// hidden, and the user's own.
pub open spec fn remaining_spec(hidden: Seq<Seq<char>>, own: Seq<Seq<char>>, id: Seq<char>) -> nat {
    count_left(builtin_ids(), hidden, id) + count_other(own, id)
}

/// How many of `ids` are not among `hidden`.
pub open spec fn count_shown(ids: Seq<Seq<char>>, hidden: Seq<Seq<char>>) -> nat
    decreases ids.len(),
{
    if ids.len() == 0 {
        0
    } else {
        count_shown(ids.drop_last(), hidden) + if !hidden.contains(ids.last()) {
            1nat
        } else {
            0nat
        }
    }
}

/// How many periods the strip offers.
pub open spec fn offered(hidden: Seq<Seq<char>>, own: Seq<Seq<char>>) -> nat {
    count_shown(builtin_ids(), hidden) + own.len()
}

fn contains_text(v: &Vec<String>, id: &str) -> (r: bool)
    ensures
        r == texts(v@).contains(id@),
{
    let mut i: usize = 0;
    while i < v.len()
        invariant
            i <= v@.len(),
            forall|j: int| 0 <= j < i ==> (#[trigger] v@[j])@ != id@,
        decreases v.len() - i,
    {
        if same_text(v[i].as_str(), id) {
            assert(texts(v@)[i as int] == id@);
            return true;
        }
        i = i + 1;
    }
    proof {
        if texts(v@).contains(id@) {
            let j = choose|j: int| 0 <= j < texts(v@).len() && texts(v@)[j] == id@;
            assert(v@[j]@ == id@);
        }
    }
    false
}

/// How many periods the strip would still offer once `id` is gone. Counted on the stored axis
/// rather than on resolved ranges: what a given history can answer changes with the data, and
/// an empty portfolio would otherwise let the user delete everything.
pub fn remaining_after(hidden: &Vec<String>, own: &Vec<String>, id: &str) -> (n: usize)
    requires
        own@.len() <= usize::MAX - 7,
    ensures
        n == remaining_spec(texts(hidden@), texts(own@), id@),
{
    let presets = builtin_presets();
    let ghost b = presets@.map_values(|s: &str| s@);
    let mut n: usize = 0;
    let mut i: usize = 0;
    while i < presets.len()
        invariant
            b == presets@.map_values(|s: &str| s@),
            b == builtin_ids(),
            i <= presets@.len(),
            n == count_left(b.subrange(0, i as int), texts(hidden@), id@),
            n <= i,
        decreases presets.len() - i,
    {
        proof {
            assert(b.subrange(0, i + 1).drop_last() =~= b.subrange(0, i as int));
        }
        if !same_text(presets[i], id) && !contains_text(hidden, presets[i]) {
            n = n + 1;
        }
        i = i + 1;
    }
    assert(b.subrange(0, presets@.len() as int) =~= b);
    let mut k: usize = 0;
    let ghost base = n as nat;
    let ghost o = texts(own@);
    while k < own.len()
        invariant
            o == texts(own@),
            k <= own@.len(),
            own@.len() <= usize::MAX - 7,
            base <= 7,
            n == base + count_other(o.subrange(0, k as int), id@),
            n <= base + k,
        decreases own.len() - k,
    {
        proof {
            assert(o.subrange(0, k + 1).drop_last() =~= o.subrange(0, k as int));
            assert(!Seq::<Seq<char>>::empty().contains(o[k as int]));
        }
        if !same_text(own[k].as_str(), id) {
            n = n + 1;
        }
        k = k + 1;
    }
    assert(o.subrange(0, own@.len() as int) =~= o);
    n
}

/// What removing a period does to the stored axis: the user's own periods with that id go for
/// good; a shipped preset is only written down as hidden, so it can be brought back.
pub struct PeriodDeletion {
    /// Every period of the user's own with the id leaves the axis.
    pub drop_own: bool,
    /// The id joins the hidden presets.
    pub hide_preset: bool,
}

pub open spec fn empty_strip_message() -> Seq<char> {
    "the period strip cannot be left empty"@
}

/// The hidden presets and the user's own period ids once the deletion is done.
pub open spec fn hidden_after(hidden: Seq<Seq<char>>, id: Seq<char>, d: PeriodDeletion) -> Seq<Seq<char>> {
    if d.hide_preset { hidden.push(id) } else { hidden }
}

pub open spec fn own_after(own: Seq<Seq<char>>, id: Seq<char>) -> Seq<Seq<char>> {
    own.filter(|o: Seq<char>| o != id)
}

/// A period the user added to the axis. Its window is the portfolio core's to resolve, so the
/// library carries it through as it is.
pub struct UserPeriod<S> {
    pub id: String,
    pub name: String,
    pub spec: S,
}

/// What the period editor edits: the user's own periods and the shipped presets they hid.
pub struct PeriodSettings<S> {
    pub periods: Vec<UserPeriod<S>>,
    pub hidden_presets: Vec<String>,
}

/// The periods' ids, in order.
pub open spec fn period_ids<S>(ps: Seq<UserPeriod<S>>) -> Seq<Seq<char>> {
    ps.map_values(|p: UserPeriod<S>| p.id@)
}

/// Whether a period goes by another id than this one.
pub open spec fn other_id<S>(p: UserPeriod<S>, id: Seq<char>) -> bool {
    p.id@ != id
}

/// The user's periods that do not carry this id, in their order.
pub open spec fn periods_without<S>(ps: Seq<UserPeriod<S>>, id: Seq<char>) -> Seq<UserPeriod<S>> {
    ps.filter(|p: UserPeriod<S>| other_id(p, id))
}

/// Removes what the user sees under this id: every period of the user's own with that id goes
/// for good; a shipped preset is only written down as hidden (once), so it can be brought back.
/// Every screen picks its window off the strip, so the last period is not removable, and then
/// nothing changes.
pub fn period_delete<S>(settings: &mut PeriodSettings<S>, id: &str) -> (r: Result<PeriodDeletion, UiError>)
    requires
        old(settings).periods@.len() <= usize::MAX - 7,
    ensures
        r is Ok <==> remaining_spec(texts(old(settings).hidden_presets@), period_ids(old(settings).periods@), id@) > 0,
        r matches Err(e) ==> {
            &&& e is Invalid
            &&& e.message_of() == empty_strip_message()
            &&& final(settings).periods@ == old(settings).periods@
            &&& final(settings).hidden_presets@ == old(settings).hidden_presets@
        },
        r matches Ok(d) ==> {
            let own = period_ids(old(settings).periods@);
            let hidden = texts(old(settings).hidden_presets@);
            &&& d.drop_own == own.contains(id@)
            &&& d.hide_preset == (!own.contains(id@) && builtin_ids().contains(id@) && !hidden.contains(id@))
            &&& final(settings).periods@ == periods_without(old(settings).periods@, id@)
            &&& period_ids(final(settings).periods@) == own_after(own, id@)
            &&& texts(final(settings).hidden_presets@) == hidden_after(hidden, id@, d)
            &&& offered(texts(final(settings).hidden_presets@), period_ids(final(settings).periods@)) > 0
        },
{
    let ghost start = old(settings).periods@;
    let mut ids: Vec<String> = Vec::new();
    let mut i: usize = 0;
    while i < settings.periods.len()
        invariant
            settings.periods@ == start,
            i <= start.len(),
            texts(ids@) == period_ids(start.subrange(0, i as int)),
        decreases start.len() - i,
    {
        let ghost before = ids@;
        ids.push(owned(settings.periods[i].id.as_str()));
        assert(texts(before).len() == i);
        assert(ids@ == before.push(ids@.last()));
        assert(ids@.last()@ == start[i as int].id@);
        assert forall|j: int| 0 <= j < i implies #[trigger] texts(ids@)[j] == period_ids(
            start.subrange(0, i + 1),
        )[j] by {
            assert(texts(before)[j] == period_ids(start.subrange(0, i as int))[j]);
            assert(texts(before)[j] == before[j]@);
            assert(texts(ids@)[j] == ids@[j]@);
            assert(ids@[j] == before[j]);
        }
        i = i + 1;
        assert(texts(ids@) =~= period_ids(start.subrange(0, i as int)));
    }
    assert(start.subrange(0, start.len() as int) =~= start);
    let d = match deletion(&settings.hidden_presets, &ids, id) {
        Ok(d) => d,
        Err(e) => return Err(e),
    };
    let mut rest: Vec<UserPeriod<S>> = Vec::new();
    std::mem::swap(&mut rest, &mut settings.periods);
    let ghost n = start.len();
    while rest.len() > 0
        invariant
            rest@ == start.subrange(n - rest@.len(), n as int),
            rest@.len() <= n,
            n == start.len(),
            settings.periods@ == periods_without(start.subrange(0, n - rest@.len()), id@),
            settings.hidden_presets@ == old(settings).hidden_presets@,
        decreases rest@.len(),
    {
        let ghost k = n - rest@.len();
        let p = rest.remove(0);
        assert(start.subrange(0, k + 1).drop_last() =~= start.subrange(0, k));
        assert(start[k] == p);
        proof {
            reveal_with_fuel(Seq::filter, 2);
        }
        if !same_text(p.id.as_str(), id) {
            settings.periods.push(p);
        }
        assert(rest@ =~= start.subrange(n - rest@.len(), n as int));
    }
    assert(start.subrange(0, n as int) =~= start);
    if d.hide_preset {
        settings.hidden_presets.push(owned(id));
    }
    proof {
        lemma_ids_without(start, id@);
        assert(texts(settings.hidden_presets@) =~= hidden_after(texts(old(settings).hidden_presets@), id@, d));
    }
    Ok(d)
}

/// Leaving out the periods with an id leaves out exactly that id among their ids.
proof fn lemma_ids_without<S>(ps: Seq<UserPeriod<S>>, id: Seq<char>)
    ensures
        period_ids(periods_without(ps, id)) == own_after(period_ids(ps), id),
    decreases ps.len(),
{
    reveal_with_fuel(Seq::filter, 2);
    if ps.len() == 0 {
        assert(periods_without(ps, id) =~= Seq::<UserPeriod<S>>::empty());
        assert(period_ids(ps) =~= Seq::<Seq<char>>::empty());
        assert(own_after(period_ids(ps), id) =~= Seq::<Seq<char>>::empty());
        assert(period_ids(periods_without(ps, id)) =~= Seq::<Seq<char>>::empty());
    } else {
        lemma_ids_without(ps.drop_last(), id);
        assert(period_ids(ps).drop_last() =~= period_ids(ps.drop_last()));
        let f = periods_without(ps.drop_last(), id);
        if ps.last().id@ != id {
            assert(period_ids(f.push(ps.last())) =~= period_ids(f).push(ps.last().id@));
        }
    }
}

/// What removing the period with this id does, decided on the ids alone.
fn deletion(hidden: &Vec<String>, own: &Vec<String>, id: &str) -> (r: Result<PeriodDeletion, UiError>)
    requires
        own@.len() <= usize::MAX - 7,
    ensures
        r is Ok <==> remaining_spec(texts(hidden@), texts(own@), id@) > 0,
        r matches Err(e) ==> e is Invalid && e.message_of() == empty_strip_message(),
        r matches Ok(d) ==> {
            &&& d.drop_own == texts(own@).contains(id@)
            &&& d.hide_preset == (!texts(own@).contains(id@) && builtin_ids().contains(id@)
                && !texts(hidden@).contains(id@))
            &&& offered(hidden_after(texts(hidden@), id@, d), own_after(texts(own@), id@)) > 0
        },
{
    let left = remaining_after(hidden, own, id);
    if left == 0 {
        return Err(UiError::invalid(owned("the period strip cannot be left empty")));
    }
    let had_own = contains_text(own, id);
    let presets = builtin_presets();
    let mut builtin = false;
    let mut i: usize = 0;
    while i < presets.len()
        invariant
            presets@.map_values(|s: &str| s@) == builtin_ids(),
            i <= presets@.len(),
            builtin == exists|j: int| 0 <= j < i && presets@[j]@ == id@,
        decreases presets.len() - i,
    {
        if same_text(presets[i], id) {
            builtin = true;
        }
        i = i + 1;
    }
    proof {
        let b = builtin_ids();
        if builtin {
            let j = choose|j: int| 0 <= j < presets@.len() && presets@[j]@ == id@;
            assert(b[j] == presets@.map_values(|s: &str| s@)[j]);
        }
        if b.contains(id@) {
            let j = choose|j: int| 0 <= j < b.len() && b[j] == id@;
            assert(presets@.map_values(|s: &str| s@)[j] == presets@[j]@);
        }
    }
    let hide = !had_own && builtin && !contains_text(hidden, id);
    let d = PeriodDeletion { drop_own: had_own, hide_preset: hide };
    proof {
        law_strip_never_empties(texts(hidden@), texts(own@), id@, d);
    }
    Ok(d)
}

/// What is left after a deletion is never less than what `remaining_after` counted, so a
/// deletion it allows leaves the strip with something on it.
pub proof fn law_strip_never_empties(hidden: Seq<Seq<char>>, own: Seq<Seq<char>>, id: Seq<char>, d: PeriodDeletion)
    requires
        remaining_spec(hidden, own, id) > 0,
        d.hide_preset ==> !own.contains(id),
    ensures
        offered(hidden_after(hidden, id, d), own_after(own, id)) >= remaining_spec(hidden, own, id),
        offered(hidden_after(hidden, id, d), own_after(own, id)) > 0,
{
    lemma_count_left_after(builtin_ids(), hidden, id, d.hide_preset);
    lemma_own_after(own, id);
}

/// Hiding `id` as well as leaving it out counts the same as leaving it out; not hiding it
/// counts at least as many.
proof fn lemma_count_left_after(ids: Seq<Seq<char>>, hidden: Seq<Seq<char>>, id: Seq<char>, hide: bool)
    ensures
        count_shown(ids, if hide { hidden.push(id) } else { hidden }) >= count_left(ids, hidden, id),
    decreases ids.len(),
{
    if ids.len() > 0 {
        lemma_count_left_after(ids.drop_last(), hidden, id, hide);
        let x = ids.last();
        if hide && x != id && !hidden.contains(x) {
            assert(!hidden.push(id).contains(x)) by {
                if hidden.push(id).contains(x) {
                    let j = choose|j: int| 0 <= j < hidden.push(id).len() && hidden.push(id)[j] == x;
                    if j < hidden.len() {
                        assert(hidden[j] == x);
                    }
                }
            }
        }
    }
}

/// Leaving out `id` keeps exactly the user's periods that are not `id`.
proof fn lemma_own_after(own: Seq<Seq<char>>, id: Seq<char>)
    ensures
        own_after(own, id).len() == count_other(own, id),
    decreases own.len(),
{
    if own.len() > 0 {
        lemma_own_after(own.drop_last(), id);
        assert(!Seq::<Seq<char>>::empty().contains(own.last()));
        assert(own_after(own, id) == if own.last() != id {
            own_after(own.drop_last(), id).push(own.last())
        } else {
            own_after(own.drop_last(), id)
        }) by {
            reveal_with_fuel(Seq::filter, 2);
        }
    }
}

pub open spec fn period_name_message() -> Seq<char> {
    "a period must have a name"@
}

pub open spec fn period_id_message() -> Seq<char> {
    "a period must have an id"@
}

pub open spec fn shipped_id_message() -> Seq<char> {
    "that id belongs to a shipped preset"@
}

pub open spec fn backwards_message() -> Seq<char> {
    "the period ends before it starts"@
}

/// What a period must be before it is stored: a name and an id that are more than white space,
/// an id no shipped preset uses, and a fixed window that does not end before it starts (an open
/// end means "up to today" and is not checked). `fixed` is the window of a fixed period. The
/// name is kept trimmed.
pub fn check_period(name: &str, id: &str, fixed: Option<(Date, Option<Date>)>) -> (r: Result<String, UiError>)
    ensures
        match r {
            Ok(n) => {
                &&& n@ == trimmed(name@)
                &&& trimmed(name@).len() > 0
                &&& trimmed(id@).len() > 0
                &&& !builtin_ids().contains(id@)
                &&& !(fixed matches Some((from, Some(to))) && to@ < from@)
            },
            Err(e) => e is Invalid && if trimmed(name@).len() == 0 {
                e.message_of() == period_name_message()
            } else if trimmed(id@).len() == 0 {
                e.message_of() == period_id_message()
            } else if builtin_ids().contains(id@) {
                e.message_of() == shipped_id_message()
            } else {
                e.message_of() == backwards_message() && (fixed matches Some((from, Some(to))) && to@ < from@)
            },
        },
{
    let kept = trim(name);
    if kept.unicode_len() == 0 {
        return Err(UiError::invalid(owned("a period must have a name")));
    }
    let bare_id = trim(id);
    if bare_id.unicode_len() == 0 {
        return Err(UiError::invalid(owned("a period must have an id")));
    }
    let presets = builtin_presets();
    let mut i: usize = 0;
    while i < presets.len()
        invariant
            presets@.map_values(|s: &str| s@) == builtin_ids(),
            i <= presets@.len(),
            trimmed(name@).len() > 0,
            trimmed(id@).len() > 0,
            kept@ == trimmed(name@),
            forall|j: int| 0 <= j < i ==> presets@[j]@ != id@,
        decreases presets.len() - i,
    {
        if same_text(presets[i], id) {
            proof {
                assert(builtin_ids()[i as int] == presets@[i as int]@);
            }
            return Err(UiError::invalid(owned("that id belongs to a shipped preset")));
        }
        i = i + 1;
    }
    proof {
        if builtin_ids().contains(id@) {
            let j = choose|j: int| 0 <= j < builtin_ids().len() && builtin_ids()[j] == id@;
            assert(presets@.map_values(|s: &str| s@)[j] == presets@[j]@);
        }
    }
    if let Some((from, Some(to))) = fixed {
        if to.is_before(&from) {
            return Err(UiError::invalid(owned("the period ends before it starts")));
        }
    }
    Ok(kept)
}

/// A period's dates as the strip receives them.
pub struct PeriodRange {
    /// A shipped preset's code, or a user period's id.
    pub id: String,
    /// The user's own wording. `None` for a shipped preset, whose label the frontend owns: a
    /// name the user typed is their data, not text the host invented.
    pub name: Option<String>,
    pub from: String,
    pub to: String,
}

} // verus!
