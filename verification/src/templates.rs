//! Saved CSV import mappings: the user's own, stored beside the database, and the broker
//! layouts shipped with the app. Both are the same thing to the wizard (a layout with a name),
//! so they arrive in one list, the user's first. Which layout stands where in that list is
//! decided here; the layouts themselves are the portfolio core's.

use vstd::prelude::*;
use crate::order::{key_texts, sorted_stably, is_permutation, stable_order};
use crate::paths::{ends_in_name, joined_path, parent_path, renamed_path, with_file_name};
use crate::text::same_text;

verus! {

/// Where a layout came from. A shipped one can be removed too, which is why removal is
/// recorded rather than performed.
#[derive(Debug, Clone, Copy, PartialEq, Eq, Structural)]
pub enum TemplateSource {
    User,
    Builtin,
}

impl Default for TemplateSource {
    fn default() -> (s: TemplateSource)
        ensures
            s == TemplateSource::User,
    {
        TemplateSource::User
    }
}

/// The user's own layouts, beside the database.
pub const FILE: &'static str = "import_templates.json";

/// The names of the shipped layouts the user removed, beside the database.
pub const HIDDEN_FILE: &'static str = "import_presets_hidden.json";

pub fn path_for(db_path: &str) -> (p: String)
    ensures
        p@ == renamed_path(db_path@, FILE@),
        ends_in_name(db_path@) ==> parent_path(db_path@) is Some && p@ == joined_path(
            parent_path(db_path@)->0,
            FILE@,
        ),
{
    with_file_name(db_path, FILE)
}

pub fn hidden_path_for(db_path: &str) -> (p: String)
    ensures
        p@ == renamed_path(db_path@, HIDDEN_FILE@),
        ends_in_name(db_path@) ==> parent_path(db_path@) is Some && p@ == joined_path(
            parent_path(db_path@)->0,
            HIDDEN_FILE@,
        ),
{
    with_file_name(db_path, HIDDEN_FILE)
}

/// Whether some text of `v` is `t`.
pub open spec fn has_text(v: Seq<Seq<char>>, t: Seq<char>) -> bool {
    exists|i: int| 0 <= i < v.len() && v[i] == t
}

/// The shipped layouts the list offers, by position: not hidden, not saved over by one of the
/// user's own, and not a second layout of a name already offered.
pub open spec fn offered_builtins(user: Seq<Seq<char>>, builtin: Seq<Seq<char>>, hidden: Seq<Seq<char>>) -> Seq<int>
    decreases builtin.len(),
{
    if builtin.len() == 0 {
        Seq::empty()
    } else {
        let before = offered_builtins(user, builtin.drop_last(), hidden);
        let name = builtin.last();
        if has_text(hidden, name) || has_text(user, name) || (exists|j: int|
            0 <= j < before.len() && builtin[#[trigger] before[j]] == name) {
            before
        } else {
            before.push(builtin.len() - 1)
        }
    }
}

fn has(v: &Vec<String>, t: &str) -> (r: bool)
    ensures
        r == has_text(key_texts(v@), t@),
{
    let ghost k = key_texts(v@);
    let mut i: usize = 0;
    while i < v.len()
        invariant
            k == key_texts(v@),
            i <= v@.len(),
            forall|j: int| 0 <= j < i ==> k[j] != t@,
        decreases v.len() - i,
    {
        if same_text(v[i].as_str(), t) {
            assert(k[i as int] == t@);
            return true;
        }
        i = i + 1;
    }
    false
}

/// The wizard's list, by position: the user's layouts first, in the order of their names (a
/// stable sort), then the shipped ones that are offered. A shipped preset the user has saved
/// over by name is not listed twice: the user's own wins.
pub fn listing(user: &Vec<String>, builtin: &Vec<String>, hidden: &Vec<String>) -> (r: Vec<(TemplateSource, usize)>)
    ensures
        r@.len() == user@.len() + offered_builtins(key_texts(user@), key_texts(builtin@), key_texts(hidden@)).len(),
        is_permutation(r@.subrange(0, user@.len() as int).map_values(|e: (TemplateSource, usize)| e.1), user@.len() as int),
        sorted_stably(key_texts(user@), r@.subrange(0, user@.len() as int).map_values(|e: (TemplateSource, usize)| e.1)),
        forall|i: int| 0 <= i < user@.len() ==> (#[trigger] r@[i]).0 == TemplateSource::User,
        forall|i: int|
            user@.len() <= i < r@.len() ==> (#[trigger] r@[i]).0 == TemplateSource::Builtin && r@[i].1 as int
                == offered_builtins(key_texts(user@), key_texts(builtin@), key_texts(hidden@))[i - user@.len()],
{
    let order = stable_order(user);
    let ghost u = key_texts(user@);
    let ghost b = key_texts(builtin@);
    let ghost h = key_texts(hidden@);
    let mut out: Vec<(TemplateSource, usize)> = Vec::new();
    let mut i: usize = 0;
    while i < order.len()
        invariant
            i <= order@.len(),
            order@.len() == user@.len(),
            out@.len() == i,
            forall|m: int| 0 <= m < i ==> (#[trigger] out@[m]) == (TemplateSource::User, order@[m]),
        decreases order.len() - i,
    {
        out.push((TemplateSource::User, order[i]));
        i = i + 1;
    }
    proof {
        assert(out@.map_values(|e: (TemplateSource, usize)| e.1) =~= order@);
    }
    let ghost users = out@;
    let mut taken: Vec<usize> = Vec::new();
    let mut k: usize = 0;
    while k < builtin.len()
        invariant
            b == key_texts(builtin@),
            u == key_texts(user@),
            h == key_texts(hidden@),
            k <= builtin@.len(),
            taken@.map_values(|x: usize| x as int) == offered_builtins(u, b.subrange(0, k as int), h),
            forall|j: int| 0 <= j < taken@.len() ==> (#[trigger] taken@[j]) < k,
        decreases builtin.len() - k,
    {
        proof {
            assert(b.subrange(0, k + 1).drop_last() =~= b.subrange(0, k as int));
        }
        let name = builtin[k].as_str();
        let mut seen = false;
        let mut j: usize = 0;
        while j < taken.len()
            invariant
                b == key_texts(builtin@),
                k < builtin@.len(),
                name@ == builtin@[k as int]@,
                j <= taken@.len(),
                forall|m: int| 0 <= m < taken@.len() ==> (#[trigger] taken@[m]) < k,
                seen == exists|m: int| 0 <= m < j && b[taken@[m] as int] == b[k as int],
            decreases taken.len() - j,
        {
            let same = same_text(builtin[taken[j]].as_str(), name);
            proof {
                assert(b[taken@[j as int] as int] == builtin@[taken@[j as int] as int]@);
                assert(b[k as int] == builtin@[k as int]@);
            }
            if same {
                seen = true;
            }
            j = j + 1;
        }
        let skip = has(hidden, name) || has(user, name) || seen;
        proof {
            let before = offered_builtins(u, b.subrange(0, k as int), h);
            let upto = b.subrange(0, k + 1);
            assert(upto.last() == b[k as int]);
            assert(before == taken@.map_values(|x: usize| x as int));
            assert((exists|m: int| 0 <= m < before.len() && upto[#[trigger] before[m]] == upto.last()) == seen) by {
                if seen {
                    let m = choose|m: int| 0 <= m < taken@.len() && b[taken@[m] as int] == b[k as int];
                    assert(before[m] == taken@[m] as int);
                    assert(upto[before[m]] == b[taken@[m] as int]);
                }
                if exists|m: int| 0 <= m < before.len() && upto[#[trigger] before[m]] == upto.last() {
                    let m = choose|m: int| 0 <= m < before.len() && upto[#[trigger] before[m]] == upto.last();
                    assert(before[m] == taken@[m] as int);
                    assert(upto[before[m]] == b[taken@[m] as int]);
                }
            }
        }
        if !skip {
            taken.push(k);
            proof {
                assert(taken@.map_values(|x: usize| x as int) =~= offered_builtins(u, b.subrange(0, k as int), h).push(k as int));
            }
        }
        k = k + 1;
    }
    proof {
        assert(b.subrange(0, builtin@.len() as int) =~= b);
    }
    let mut t: usize = 0;
    while t < taken.len()
        invariant
            t <= taken@.len(),
            out@.len() == user@.len() + t,
            out@.subrange(0, user@.len() as int) == users,
            forall|m: int| 0 <= m < t ==> (#[trigger] out@[user@.len() + m]) == (TemplateSource::Builtin, taken@[m]),
        decreases taken.len() - t,
    {
        out.push((TemplateSource::Builtin, taken[t]));
        proof {
            assert(out@.subrange(0, user@.len() as int) =~= users);
        }
        t = t + 1;
    }
    proof {
        assert(out@.subrange(0, user@.len() as int).map_values(|e: (TemplateSource, usize)| e.1) =~= order@);
        assert forall|i: int| user@.len() <= i < out@.len() implies (#[trigger] out@[i]).0 == TemplateSource::Builtin
            && out@[i].1 as int == offered_builtins(u, b, h)[i - user@.len()] by {
            let m = i - user@.len();
            assert(out@[user@.len() + m] == (TemplateSource::Builtin, taken@[m]));
            assert(taken@.map_values(|x: usize| x as int)[m] == taken@[m] as int);
        }
        assert forall|i: int| 0 <= i < user@.len() implies (#[trigger] out@[i]).0 == TemplateSource::User by {
            assert(out@.subrange(0, user@.len() as int)[i] == out@[i]);
            assert(users[i] == (TemplateSource::User, order@[i]));
        }
    }
    out
}

} // verus!
