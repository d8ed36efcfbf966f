//! Profiles: independent sets of everything the app stores (database, settings, import layouts),
//! one folder each under `profiles/<id>/` in the app's data directory. `profiles.json` beside
//! that folder lists them and remembers which one was open last.
//!
//! The list is a value here: what starting, creating, renaming or deleting does to it, and what
//! each answers, is decided by these functions. Reading and writing `profiles.json`, and making,
//! moving and removing folders, is the host's.

use vstd::prelude::*;
use crate::error::UiError;
use crate::paths::{ends_in_name, is_plain_name, join, joined_path, parent, parent_path};
use crate::text::{chars_of, concat, lowercased, owned, same_text, string_of, to_lowercase, trim, trimmed};

verus! {

/// The list of profiles, beside their folder.
pub const REGISTRY: &'static str = "profiles.json";

/// The folder under the data directory that holds one folder per profile.
pub const FOLDER: &'static str = "profiles";

/// A profile's database, inside its folder.
pub const DATABASE: &'static str = "portfolio.db";

/// The id the data of a single-profile install moves to. Fixed rather than random so that an
/// interrupted move finishes into the same folder on the next start.
pub const ADOPTED_ID: &'static str = "default";

/// Longest name kept, in characters: a picker line, not a paragraph.
pub const NAME_MAX: usize = 60;

/// What a single-profile install kept directly in the data directory. Every file the host writes
/// sits beside the database, so this list is the whole of it.
pub fn legacy_files() -> (v: Vec<&'static str>)
    ensures
        v@.len() == 6,
        v@[0]@ == "portfolio.db"@,
        v@[1]@ == "portfolio.db-wal"@,
        v@[2]@ == "portfolio.db-shm"@,
        v@[3]@ == "settings.json"@,
        v@[4]@ == "import_templates.json"@,
        v@[5]@ == "import_presets_hidden.json"@,
{
    vec![
        "portfolio.db",
        "portfolio.db-wal",
        "portfolio.db-shm",
        "settings.json",
        "import_templates.json",
        "import_presets_hidden.json",
    ]
}

#[derive(Debug)]
pub struct Profile {
    pub id: String,
    /// The user's own words, like a portfolio's name; seeded in English for the first profile.
    pub name: String,
    pub created_at: String,
}

impl Profile {
    /// The same profile, a second time.
    pub fn copy(&self) -> (p: Profile)
        ensures
            p == *self,
    {
        Profile { id: self.id.clone(), name: self.name.clone(), created_at: self.created_at.clone() }
    }
}

/// What `profiles.json` holds: the profiles in the order they were made, and the one open last.
#[derive(Debug)]
pub struct Registry {
    pub profiles: Vec<Profile>,
    pub last: Option<String>,
}

impl Registry {
    /// No profiles yet: what a missing `profiles.json` reads as.
    pub fn new() -> (r: Registry)
        ensures
            r.profiles@.len() == 0,
            r.last is None,
    {
        Registry { profiles: Vec::new(), last: None }
    }
}

/// The position of the first profile with this id, or -1 when none has it.
pub open spec fn first_index(ps: Seq<Profile>, id: Seq<char>) -> int
    decreases ps.len(),
{
    if ps.len() == 0 {
        -1
    } else {
        let k = first_index(ps.drop_last(), id);
        if k >= 0 {
            k
        } else if ps.last().id@ == id {
            ps.len() - 1
        } else {
            -1
        }
    }
}

/// Whether some profile has this id.
pub open spec fn has_id(ps: Seq<Profile>, id: Seq<char>) -> bool {
    exists|i: int| 0 <= i < ps.len() && (#[trigger] ps[i]).id@ == id
}

/// `first_index` is the first position that holds the id, and -1 exactly when none does.
pub proof fn lemma_first_index(ps: Seq<Profile>, id: Seq<char>)
    ensures
        -1 <= first_index(ps, id) < ps.len(),
        first_index(ps, id) >= 0 ==> ps[first_index(ps, id)].id@ == id,
        forall|j: int| 0 <= j < first_index(ps, id) ==> (#[trigger] ps[j]).id@ != id,
        first_index(ps, id) == -1 <==> !has_id(ps, id),
    decreases ps.len(),
{
    if ps.len() > 0 {
        lemma_first_index(ps.drop_last(), id);
        let k = first_index(ps.drop_last(), id);
        if k >= 0 {
            assert(ps.drop_last()[k] == ps[k]);
            assert forall|j: int| 0 <= j < k implies (#[trigger] ps[j]).id@ != id by {
                assert(ps.drop_last()[j] == ps[j]);
            }
            assert(has_id(ps, id));
        } else {
            assert forall|j: int| 0 <= j < ps.len() - 1 implies (#[trigger] ps[j]).id@ != id by {
                assert(ps.drop_last()[j] == ps[j]);
                if ps[j].id@ == id {
                    assert(has_id(ps.drop_last(), id));
                }
            }
            if ps.last().id@ != id {
                if has_id(ps, id) {
                    let i = choose|i: int| 0 <= i < ps.len() && (#[trigger] ps[i]).id@ == id;
                    assert(ps[i].id@ != id);
                }
            } else {
                assert(ps[ps.len() - 1].id@ == id);
                assert(has_id(ps, id));
            }
        }
    }
}

/// Where the first profile with this id stands.
pub fn position(profiles: &Vec<Profile>, id: &str) -> (r: Option<usize>)
    ensures
        match r {
            Some(k) => k == first_index(profiles@, id@),
            None => first_index(profiles@, id@) == -1,
        },
{
    let mut i: usize = 0;
    while i < profiles.len()
        invariant
            i <= profiles.len(),
            first_index(profiles@.subrange(0, i as int), id@) == -1,
        decreases profiles.len() - i,
    {
        proof {
            assert(profiles@.subrange(0, i + 1).drop_last() =~= profiles@.subrange(0, i as int));
        }
        if same_text(profiles[i].id.as_str(), id) {
            proof {
                assert(first_index(profiles@.subrange(0, i + 1), id@) == i);
                lemma_prefix_index(profiles@, id@, i + 1);
            }
            return Some(i);
        }
        i = i + 1;
    }
    assert(profiles@.subrange(0, profiles.len() as int) =~= profiles@);
    None
}

/// A first position found in a prefix is the first position in the whole.
pub proof fn lemma_prefix_index(ps: Seq<Profile>, id: Seq<char>, n: int)
    requires
        0 <= n <= ps.len(),
        first_index(ps.subrange(0, n), id) >= 0,
    ensures
        first_index(ps, id) == first_index(ps.subrange(0, n), id),
    decreases ps.len() - n,
{
    if n < ps.len() {
        assert(ps.subrange(0, n + 1).drop_last() =~= ps.subrange(0, n));
        lemma_prefix_index(ps, id, n + 1);
    } else {
        assert(ps.subrange(0, n) =~= ps);
    }
}

/// The profile a start opens: the last one used while it is still listed, else the first.
pub open spec fn opened_index(ps: Seq<Profile>, last: Option<String>) -> int {
    match last {
        Some(l) => if first_index(ps, l@) >= 0 { first_index(ps, l@) } else { 0 },
        None => 0,
    }
}

/// A name as it is kept: trimmed, and cut to `NAME_MAX` characters.
pub open spec fn kept_name(name: Seq<char>) -> Seq<char> {
    let t = trimmed(name);
    if t.len() <= NAME_MAX { t } else { t.subrange(0, NAME_MAX as int) }
}

/// Whether a profile other than `except` already goes by this name, letter case aside.
pub open spec fn name_taken(ps: Seq<Profile>, name: Seq<char>, except: Option<&str>) -> bool {
    exists|i: int|
        0 <= i < ps.len() && match except {
            Some(x) => ps[i].id@ != x@,
            None => true,
        } && lowercased((#[trigger] ps[i]).name@) == lowercased(name)
}

/// No two profiles go by the same name, letter case aside: a picker of two lines saying the same
/// thing offers no choice.
pub open spec fn names_distinct(ps: Seq<Profile>) -> bool {
    forall|i: int, j: int|
        0 <= i < ps.len() && 0 <= j < ps.len() && i != j ==> lowercased((#[trigger] ps[i]).name@)
            != lowercased((#[trigger] ps[j]).name@)
}

/// No two profiles share an id.
pub open spec fn ids_distinct(ps: Seq<Profile>) -> bool {
    forall|i: int, j: int|
        0 <= i < ps.len() && 0 <= j < ps.len() && i != j ==> (#[trigger] ps[i]).id@
            != (#[trigger] ps[j]).id@
}

pub open spec fn needs_name_message() -> Seq<char> {
    "a profile needs a name"@
}

pub open spec fn name_taken_message() -> Seq<char> {
    "another profile has this name"@
}

pub open spec fn unknown_profile_message(id: Seq<char>) -> Seq<char> {
    "profile "@ + id
}

/// Trimmed, not empty, not too long, and not another profile's name.
pub fn valid_name(registry: &Registry, name: &str, except: Option<&str>) -> (r: Result<String, UiError>)
    ensures
        match r {
            Ok(n) => {
                &&& trimmed(name@).len() > 0
                &&& !name_taken(registry.profiles@, kept_name(name@), except)
                &&& n@ == kept_name(name@)
            },
            Err(e) => e is Invalid && if trimmed(name@).len() == 0 {
                e.message_of() == needs_name_message()
            } else {
                name_taken(registry.profiles@, kept_name(name@), except)
                    && e.message_of() == name_taken_message()
            },
        },
{
    let t = trim(name);
    let chars = chars_of(t.as_str());
    if chars.len() == 0 {
        return Err(UiError::invalid(String::from_str("a profile needs a name")));
    }
    let mut cut: Vec<char> = Vec::new();
    let mut i: usize = 0;
    while i < chars.len() && i < NAME_MAX
        invariant
            i <= chars.len(),
            i <= NAME_MAX,
            cut@ == chars@.subrange(0, i as int),
        decreases chars.len() - i,
    {
        cut.push(chars[i]);
        i = i + 1;
        assert(cut@ =~= chars@.subrange(0, i as int));
    }
    let kept = string_of(&cut);
    proof {
        if chars.len() <= NAME_MAX {
            assert(cut@ =~= chars@);
        }
        assert(kept@ == kept_name(name@));
    }
    let wanted = to_lowercase(kept.as_str());
    let ps = &registry.profiles;
    let mut k: usize = 0;
    while k < ps.len()
        invariant
            k <= ps.len(),
            ps@ == registry.profiles@,
            trimmed(name@).len() > 0,
            wanted@ == lowercased(kept@),
            kept@ == kept_name(name@),
            forall|j: int|
                0 <= j < k ==> !(match except {
                    Some(x) => ps@[j].id@ != x@,
                    None => true,
                } && lowercased((#[trigger] ps@[j]).name@) == lowercased(kept@)),
        decreases ps.len() - k,
    {
        let other = match except {
            Some(x) => !same_text(ps[k].id.as_str(), x),
            None => true,
        };
        if other {
            let theirs = to_lowercase(ps[k].name.as_str());
            if same_text(theirs.as_str(), wanted.as_str()) {
                proof {
                    let w = k as int;
                    assert(lowercased(ps@[w].name@) == lowercased(kept_name(name@)));
                    assert(match except {
                        Some(x) => ps@[w].id@ != x@,
                        None => true,
                    });
                    assert(registry.profiles@[w] == ps@[w]);
                }
                assert(name_taken(registry.profiles@, kept_name(name@), except));
                let e = UiError::invalid(String::from_str("another profile has this name"));
                return Err(e);
            }
        }
        k = k + 1;
    }
    Ok(kept)
}


/// A lowercase hexadecimal digit.
pub open spec fn is_lower_hex(c: char) -> bool {
    ('0' <= c && c <= '9') || ('a' <= c && c <= 'f')
}

/// `uuid::Uuid::new_v4().to_string()`: a random version-4 UUID, which `Display` writes
/// hyphenated in lowercase (`xxxxxxxx-xxxx-xxxx-xxxx-xxxxxxxxxxxx`). Which one comes out is
/// chance; that the operating system's random source answers is assumed (`uuid` panics when it
/// does not).
#[verifier::external_body]
fn new_id() -> (id: String)
    ensures
        id@.len() == 36,
        forall|i: int|
            0 <= i < 36 ==> if i == 8 || i == 13 || i == 18 || i == 23 {
                id@[i] == '-'
            } else {
                is_lower_hex(#[trigger] id@[i])
            },
{
    uuid::Uuid::new_v4().to_string()
}

/// The same profiles, a second time.
pub fn copy_profiles(profiles: &Vec<Profile>) -> (v: Vec<Profile>)
    ensures
        v@ == profiles@,
{
    let mut v: Vec<Profile> = Vec::new();
    let mut i: usize = 0;
    while i < profiles.len()
        invariant
            i <= profiles.len(),
            v@ == profiles@.subrange(0, i as int),
        decreases profiles.len() - i,
    {
        v.push(profiles[i].copy());
        i = i + 1;
        assert(v@ =~= profiles@.subrange(0, i as int));
    }
    assert(v@ =~= profiles@);
    v
}

/// The profiles left once every one with this id is gone.
pub open spec fn without_id(ps: Seq<Profile>, id: Seq<char>) -> Seq<Profile> {
    ps.filter(|p: Profile| p.id@ != id)
}

/// A profile's folder under the data directory `root`.
pub open spec fn folder_path(root: Seq<char>, id: Seq<char>) -> Seq<char> {
    joined_path(joined_path(root, FOLDER@), id)
}

/// A profile's database under the data directory `root`.
pub open spec fn database_path(root: Seq<char>, id: Seq<char>) -> Seq<char> {
    joined_path(folder_path(root, id), DATABASE@)
}

pub open spec fn open_profile_message() -> Seq<char> {
    "the open profile cannot be deleted"@
}

pub open spec fn last_profile_message() -> Seq<char> {
    "the last profile cannot be deleted"@
}

/// The profiles of one data directory.
pub struct Profiles {
    root: String,
}

impl Profiles {
    /// The data directory.
    pub closed spec fn view(&self) -> Seq<char> {
        self.root@
    }

    pub fn new(root: String) -> (p: Profiles)
        ensures
            p@ == root@,
    {
        Profiles { root }
    }

    pub fn root(&self) -> (r: &str)
        ensures
            r@ == self@,
    {
        self.root.as_str()
    }

    /// Where the list is kept.
    pub fn registry_path(&self) -> (p: String)
        ensures
            p@ == joined_path(self@, REGISTRY@),
    {
        join(self.root.as_str(), REGISTRY)
    }

    /// Where the list is written before it is renamed over the old one: a half-written list would
    /// lose every profile at once.
    pub fn registry_temp_path(&self) -> (p: String)
        ensures
            p@ == joined_path(self@, REGISTRY@ + ".tmp"@),
    {
        let name = concat(REGISTRY, ".tmp");
        join(self.root.as_str(), name.as_str())
    }

    /// The folder of the profile with this id.
    pub fn folder_for(&self, id: &str) -> (p: String)
        ensures
            p@ == folder_path(self@, id@),
    {
        let all = join(self.root.as_str(), FOLDER);
        join(all.as_str(), id)
    }

    pub fn db_path(&self, id: &str) -> (p: String)
        ensures
            p@ == database_path(self@, id@),
            ends_in_name(p@),
    {
        let folder = self.folder_for(id);
        proof {
            reveal_strlit("portfolio.db");
            assert(is_plain_name(DATABASE@)) by {
                assert(!DATABASE@.contains('/')) by {
                    if DATABASE@.contains('/') {
                        let k = choose|k: int| 0 <= k < DATABASE@.len() && DATABASE@[k] == '/';
                    }
                }
                assert(!DATABASE@.contains('\\')) by {
                    if DATABASE@.contains('\\') {
                        let k = choose|k: int| 0 <= k < DATABASE@.len() && DATABASE@[k] == '\\';
                    }
                }
                assert(!DATABASE@.contains(':')) by {
                    if DATABASE@.contains(':') {
                        let k = choose|k: int| 0 <= k < DATABASE@.len() && DATABASE@[k] == ':';
                    }
                }
                assert(DATABASE@ != "."@) by {
                    reveal_strlit(".");
                    assert("."@.len() == 1);
                }
                assert(DATABASE@ != ".."@) by {
                    reveal_strlit("..");
                    assert(".."@.len() == 2);
                }
            }
        }
        join(folder.as_str(), DATABASE)
    }

    /// Makes sure at least one profile exists and returns the one to open: the last one used,
    /// or the first. An empty list gains the first profile under `ADOPTED_ID`, which is where
    /// the host moves the data a single-profile install kept in the data directory.
    pub fn ensure(&self, registry: &mut Registry, first_name: &str) -> (chosen: Profile)
        ensures
            old(registry).profiles@.len() == 0 ==> {
                &&& final(registry).profiles@.len() == 1
                &&& final(registry).profiles@[0].id@ == ADOPTED_ID@
                &&& final(registry).profiles@[0].name@ == first_name@
                &&& final(registry).last matches Some(l) && l@ == ADOPTED_ID@
            },
            old(registry).profiles@.len() > 0 ==> *final(registry) == *old(registry),
            final(registry).profiles@.len() > 0,
            chosen == final(registry).profiles@[opened_index(
                final(registry).profiles@,
                final(registry).last,
            )],
    {
        if registry.profiles.len() == 0 {
            let first = Profile {
                id: owned(ADOPTED_ID),
                name: owned(first_name),
                created_at: crate::dates::now_rfc3339(),
            };
            registry.profiles.push(first);
            registry.last = Some(owned(ADOPTED_ID));
        }
        let k = match &registry.last {
            Some(l) => match position(&registry.profiles, l.as_str()) {
                Some(k) => k,
                None => 0,
            },
            None => 0,
        };
        proof {
            lemma_first_index(registry.profiles@, registry.last->0@);
        }
        registry.profiles[k].copy()
    }

    /// Every profile, in the order they were made.
    pub fn list(&self, registry: &Registry) -> (v: Vec<Profile>)
        ensures
            v@ == registry.profiles@,
    {
        copy_profiles(&registry.profiles)
    }

    /// The profile with this id.
    pub fn find(&self, registry: &Registry, id: &str) -> (r: Result<Profile, UiError>)
        ensures
            match r {
                Ok(p) => first_index(registry.profiles@, id@) >= 0 && p == registry.profiles@[first_index(
                    registry.profiles@,
                    id@,
                )],
                Err(e) => !has_id(registry.profiles@, id@) && e is NotFound && e.message_of()
                    == unknown_profile_message(id@),
            },
    {
        proof {
            lemma_first_index(registry.profiles@, id@);
        }
        match position(&registry.profiles, id) {
            Some(k) => Ok(registry.profiles[k].copy()),
            None => Err(UiError::not_found(concat("profile ", id))),
        }
    }

    /// A new, empty profile at the end of the list, under a fresh random id. It is not opened:
    /// creating one is not a request to leave this one. The host makes its folder.
    pub fn create(&self, registry: &mut Registry, name: &str) -> (r: Result<Profile, UiError>)
        ensures
            match r {
                Ok(p) => {
                    &&& trimmed(name@).len() > 0
                    &&& !name_taken(old(registry).profiles@, kept_name(name@), None)
                    &&& p.name@ == kept_name(name@)
                    &&& p.id@.len() == 36
                    &&& final(registry).profiles@ == old(registry).profiles@.push(p)
                    &&& final(registry).last == old(registry).last
                },
                Err(e) => {
                    &&& *final(registry) == *old(registry)
                    &&& e is Invalid
                    &&& if trimmed(name@).len() == 0 {
                        e.message_of() == needs_name_message()
                    } else {
                        name_taken(old(registry).profiles@, kept_name(name@), None)
                            && e.message_of() == name_taken_message()
                    }
                },
            },
            names_distinct(old(registry).profiles@) ==> names_distinct(final(registry).profiles@),
            r matches Ok(p) ==> (ids_distinct(old(registry).profiles@) && !has_id(old(registry).profiles@, p.id@)
                ==> ids_distinct(final(registry).profiles@)),
    {
        let name = match valid_name(registry, name, None) {
            Ok(n) => n,
            Err(e) => return Err(e),
        };
        let profile = Profile { id: new_id(), name, created_at: crate::dates::now_rfc3339() };
        let made = profile.copy();
        registry.profiles.push(profile);
        proof {
            let ps = final(registry).profiles@;
            let qs = old(registry).profiles@;
            if names_distinct(qs) {
                assert forall|i: int, j: int|
                    0 <= i < ps.len() && 0 <= j < ps.len() && i != j implies lowercased(
                    (#[trigger] ps[i]).name@) != lowercased((#[trigger] ps[j]).name@) by {
                    if i < qs.len() && j < qs.len() {
                        assert(ps[i] == qs[i] && ps[j] == qs[j]);
                    } else if i < qs.len() {
                        assert(ps[i] == qs[i]);
                        if lowercased(qs[i].name@) == lowercased(made.name@) {
                            assert(name_taken(qs, kept_name(name@), None));
                        }
                    } else {
                        assert(ps[j] == qs[j]);
                        if lowercased(qs[j].name@) == lowercased(made.name@) {
                            assert(name_taken(qs, kept_name(name@), None));
                        }
                    }
                }
            }
            if ids_distinct(qs) && !has_id(qs, made.id@) {
                assert forall|i: int, j: int|
                    0 <= i < ps.len() && 0 <= j < ps.len() && i != j implies (#[trigger] ps[i]).id@
                    != (#[trigger] ps[j]).id@ by {
                    if i < qs.len() {
                        assert(ps[i] == qs[i]);
                    }
                    if j < qs.len() {
                        assert(ps[j] == qs[j]);
                    }
                }
            }
        }
        Ok(made)
    }

    /// Gives the profile with this id a new name. The name is checked before the id is looked
    /// up, as the user typed it last.
    pub fn rename(&self, registry: &mut Registry, id: &str, name: &str) -> (r: Result<Profile, UiError>)
        ensures
            match r {
                Ok(p) => {
                    let k = first_index(old(registry).profiles@, id@);
                    &&& trimmed(name@).len() > 0
                    &&& !name_taken(old(registry).profiles@, kept_name(name@), Some(id))
                    &&& k >= 0
                    &&& p.name@ == kept_name(name@)
                    &&& p.id == old(registry).profiles@[k].id
                    &&& p.created_at == old(registry).profiles@[k].created_at
                    &&& final(registry).profiles@ == old(registry).profiles@.update(k, p)
                    &&& final(registry).last == old(registry).last
                },
                Err(e) => {
                    &&& *final(registry) == *old(registry)
                    &&& if trimmed(name@).len() == 0 {
                        e is Invalid && e.message_of() == needs_name_message()
                    } else if name_taken(old(registry).profiles@, kept_name(name@), Some(id)) {
                        e is Invalid && e.message_of() == name_taken_message()
                    } else {
                        !has_id(old(registry).profiles@, id@) && e is NotFound && e.message_of()
                            == unknown_profile_message(id@)
                    }
                },
            },
            names_distinct(old(registry).profiles@) && ids_distinct(old(registry).profiles@)
                ==> names_distinct(final(registry).profiles@) && ids_distinct(
                final(registry).profiles@,
            ),
    {
        let name = match valid_name(registry, name, Some(id)) {
            Ok(n) => n,
            Err(e) => return Err(e),
        };
        proof {
            lemma_first_index(registry.profiles@, id@);
        }
        let k = match position(&registry.profiles, id) {
            Some(k) => k,
            None => return Err(UiError::not_found(concat("profile ", id))),
        };
        let renamed = Profile {
            id: registry.profiles[k].id.clone(),
            name,
            created_at: registry.profiles[k].created_at.clone(),
        };
        let answer = renamed.copy();
        registry.profiles.set(k, renamed);
        proof {
            let ps = final(registry).profiles@;
            let qs = old(registry).profiles@;
            if names_distinct(qs) && ids_distinct(qs) {
                assert forall|i: int, j: int|
                    0 <= i < ps.len() && 0 <= j < ps.len() && i != j implies lowercased(
                    (#[trigger] ps[i]).name@) != lowercased((#[trigger] ps[j]).name@) by {
                    if i != k && j != k {
                        assert(ps[i] == qs[i] && ps[j] == qs[j]);
                    } else if i == k {
                        assert(ps[j] == qs[j]);
                        assert(qs[j].id@ != qs[k as int].id@);
                        if lowercased(qs[j].name@) == lowercased(answer.name@) {
                            assert(name_taken(qs, kept_name(name@), Some(id)));
                        }
                    } else {
                        assert(ps[i] == qs[i]);
                        assert(qs[i].id@ != qs[k as int].id@);
                        if lowercased(qs[i].name@) == lowercased(answer.name@) {
                            assert(name_taken(qs, kept_name(name@), Some(id)));
                        }
                    }
                }
                assert forall|i: int, j: int|
                    0 <= i < ps.len() && 0 <= j < ps.len() && i != j implies (#[trigger] ps[i]).id@
                    != (#[trigger] ps[j]).id@ by {
                    if i != k {
                        assert(ps[i] == qs[i]);
                    }
                    if j != k {
                        assert(ps[j] == qs[j]);
                    }
                }
            }
        }
        Ok(answer)
    }

    /// Takes a profile off the list. The open profile is refused (its database is open), and so
    /// is the last one: the app always has somewhere to be. The host writes the list before it
    /// removes the folder: a folder that failed to go is wasted space, a listed profile without
    /// its folder would open as an empty one.
    pub fn delete(&self, registry: &mut Registry, id: &str, open: &str) -> (r: Result<(), UiError>)
        ensures
            match r {
                Ok(()) => {
                    &&& id@ != open@
                    &&& has_id(old(registry).profiles@, id@)
                    &&& old(registry).profiles@.len() > 1
                    &&& final(registry).profiles@ == without_id(old(registry).profiles@, id@)
                    &&& final(registry).last == old(registry).last
                },
                Err(e) => {
                    &&& *final(registry) == *old(registry)
                    &&& if id@ == open@ {
                        e is Invalid && e.message_of() == open_profile_message()
                    } else if !has_id(old(registry).profiles@, id@) {
                        e is NotFound && e.message_of() == unknown_profile_message(id@)
                    } else {
                        old(registry).profiles@.len() == 1 && e is Invalid && e.message_of()
                            == last_profile_message()
                    }
                },
            },
    {
        if same_text(id, open) {
            return Err(UiError::invalid(String::from_str("the open profile cannot be deleted")));
        }
        proof {
            lemma_first_index(registry.profiles@, id@);
        }
        if position(&registry.profiles, id).is_none() {
            return Err(UiError::not_found(concat("profile ", id)));
        }
        if registry.profiles.len() == 1 {
            return Err(UiError::invalid(String::from_str("the last profile cannot be deleted")));
        }
        let mut kept: Vec<Profile> = Vec::new();
        let mut i: usize = 0;
        while i < registry.profiles.len()
            invariant
                i <= registry.profiles.len(),
                kept@ == without_id(registry.profiles@.subrange(0, i as int), id@),
            decreases registry.profiles.len() - i,
        {
            proof {
                assert(registry.profiles@.subrange(0, i + 1).drop_last() =~= registry.profiles@.subrange(
                    0,
                    i as int,
                ));
            }
            let ghost before = registry.profiles@.subrange(0, i as int);
            let ghost upto = registry.profiles@.subrange(0, i + 1);
            assert(upto.last() == registry.profiles@[i as int]);
            assert(without_id(upto, id@) == if upto.last().id@ != id@ {
                without_id(before, id@).push(upto.last())
            } else {
                without_id(before, id@)
            }) by {
                assert(upto.len() > 0);
                assert(upto.drop_last() =~= before);
                reveal_with_fuel(Seq::filter, 2);
            }
            if !same_text(registry.profiles[i].id.as_str(), id) {
                kept.push(registry.profiles[i].copy());
            }
            i = i + 1;
        }
        assert(registry.profiles@.subrange(0, registry.profiles.len() as int) =~= registry.profiles@);
        registry.profiles = kept;
        Ok(())
    }

    /// Remembered so the next start opens the same profile.
    pub fn set_last(&self, registry: &mut Registry, id: &str)
        ensures
            final(registry).profiles@ == old(registry).profiles@,
            final(registry).last matches Some(l) && l@ == id@,
    {
        registry.last = Some(owned(id));
    }

    /// Where the app goes when the open profile is deleted: the first other profile. The last
    /// profile is never deleted.
    pub fn next_after(&self, registry: &Registry, id: &str) -> (r: Result<Profile, UiError>)
        ensures
            match r {
                Ok(p) => exists|k: int|
                    0 <= k < registry.profiles@.len() && p == registry.profiles@[k] && p.id@ != id@
                        && forall|j: int| 0 <= j < k ==> (#[trigger] registry.profiles@[j]).id@ == id@,
                Err(e) => (forall|j: int| 0 <= j < registry.profiles@.len() ==> (#[trigger] registry.profiles@[j]).id@ == id@)
                    && e is Invalid && e.message_of() == last_profile_message(),
            },
    {
        let mut i: usize = 0;
        while i < registry.profiles.len()
            invariant
                i <= registry.profiles@.len(),
                forall|j: int| 0 <= j < i ==> (#[trigger] registry.profiles@[j]).id@ == id@,
            decreases registry.profiles.len() - i,
        {
            if !same_text(registry.profiles[i].id.as_str(), id) {
                return Ok(registry.profiles[i].copy());
            }
            i = i + 1;
        }
        Err(UiError::invalid(String::from_str("the last profile cannot be deleted")))
    }
}

/// The folder a profile's database lives in; everything else of it sits beside the database.
pub fn folder_of(db_path: &str) -> (f: String)
    ensures
        f@ == match parent_path(db_path@) {
            Some(q) => q,
            None => db_path@,
        },
        ends_in_name(db_path@) ==> parent_path(db_path@) == Some(f@),
{
    match parent(db_path) {
        Some(q) => q,
        None => owned(db_path),
    }
}

/// A profile as the picker shows it.
#[derive(Debug)]
pub struct ProfileView {
    pub profile: Profile,
    /// Whether it has a password.
    pub protected: bool,
}

/// What the profile picker shows.
#[derive(Debug)]
pub struct ProfileList {
    pub profiles: Vec<ProfileView>,
    /// Id of the open profile.
    pub open: String,
    /// The open profile has a password and has not been unlocked in this run.
    pub locked: bool,
    /// This device opens the open profile without asking for its password.
    pub remembered: bool,
}

/// The last profile opened is the one the next start opens, while it is listed.
pub proof fn law_last_opened_is_reopened(ps: Seq<Profile>, last: String)
    requires
        has_id(ps, last@),
    ensures
        ps[opened_index(ps, Some(last))].id@ == last@,
{
    lemma_first_index(ps, last@);
}

/// Renaming keeps every id where it was, so the renamed profile is found where it stood.
pub proof fn law_renamed_is_found(ps: Seq<Profile>, k: int, p: Profile, id: Seq<char>)
    requires
        0 <= k < ps.len(),
        p.id == ps[k].id,
    ensures
        first_index(ps.update(k, p), id) == first_index(ps, id),
    decreases ps.len(),
{
    if k < ps.len() - 1 {
        assert(ps.update(k, p).drop_last() =~= ps.drop_last().update(k, p));
        law_renamed_is_found(ps.drop_last(), k, p, id);
    } else {
        assert(ps.update(k, p).drop_last() =~= ps.drop_last());
    }
}

/// A deleted profile is found no more.
pub proof fn law_deleted_is_gone(ps: Seq<Profile>, id: Seq<char>)
    ensures
        !has_id(without_id(ps, id), id),
{
    let kept = without_id(ps, id);
    if has_id(kept, id) {
        let i = choose|i: int| 0 <= i < kept.len() && (#[trigger] kept[i]).id@ == id;
        ps.lemma_filter_pred(|p: Profile| p.id@ != id, i);
    }
}

} // verus!
