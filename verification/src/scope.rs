//! The active data scope every analytics view works in: the whole portfolio, a saved group of
//! accounts, one account, or a securities account together with its settlement account. Which
//! accounts a scope covers is decided here, from the portfolio's, the groups' and the accounts'
//! ids as the store lists them.

use vstd::prelude::*;
use crate::error::UiError;
use crate::order::key_texts;
use crate::text::{owned, same_text};

verus! {

#[derive(Debug, Clone, Copy, PartialEq, Eq, Structural)]
pub enum ScopeKind {
    /// The complete portfolio.
    Portfolio,
    /// A saved account group.
    Group,
    /// One account.
    Account,
    /// A securities account together with its settlement account.
    AccountWithCash,
}

/// The current scope selection.
#[derive(Debug)]
pub struct DataScope {
    pub kind: ScopeKind,
    pub id: Option<String>,
}

/// A saved group: its id and the ids of its accounts.
pub type GroupIds = (String, Vec<String>);

/// An account: its id and the id of its settlement account.
pub type AccountIds = (String, String);

/// The position of the first text that is `id`, or -1.
pub open spec fn first_pos(keys: Seq<Seq<char>>, id: Seq<char>) -> int
    decreases keys.len(),
{
    if keys.len() == 0 {
        -1
    } else {
        let k = first_pos(keys.drop_last(), id);
        if k >= 0 {
            k
        } else if keys.last() == id {
            keys.len() - 1
        } else {
            -1
        }
    }
}

pub proof fn lemma_first_pos_bounds(keys: Seq<Seq<char>>, id: Seq<char>)
    ensures
        -1 <= first_pos(keys, id) < keys.len(),
        first_pos(keys, id) >= 0 ==> keys[first_pos(keys, id)] == id,
{
    lemma_first_pos(keys, id);
}

proof fn lemma_first_pos(keys: Seq<Seq<char>>, id: Seq<char>)
    ensures
        -1 <= first_pos(keys, id) < keys.len(),
        first_pos(keys, id) >= 0 ==> keys[first_pos(keys, id)] == id,
    decreases keys.len(),
{
    if keys.len() > 0 {
        lemma_first_pos(keys.drop_last(), id);
    }
}

/// Where `id` first stands among the texts.
pub fn position_of(keys: &Vec<&str>, id: &str) -> (r: Option<usize>)
    ensures
        match r {
            Some(k) => k == first_pos(keys@.map_values(|s: &str| s@), id@),
            None => first_pos(keys@.map_values(|s: &str| s@), id@) == -1,
        },
{
    let ghost all = keys@.map_values(|s: &str| s@);
    let mut i: usize = 0;
    while i < keys.len()
        invariant
            all == keys@.map_values(|s: &str| s@),
            i <= keys@.len(),
            first_pos(all.subrange(0, i as int), id@) == -1,
        decreases keys.len() - i,
    {
        proof {
            assert(all.subrange(0, i + 1).drop_last() =~= all.subrange(0, i as int));
        }
        if same_text(keys[i], id) {
            proof {
                assert(all[i as int] == keys@[i as int]@);
                lemma_prefix_first_pos(all, id@, i + 1);
            }
            return Some(i);
        }
        i = i + 1;
    }
    assert(all.subrange(0, keys@.len() as int) =~= all);
    None
}

proof fn lemma_prefix_first_pos(keys: Seq<Seq<char>>, id: Seq<char>, n: int)
    requires
        0 <= n <= keys.len(),
        first_pos(keys.subrange(0, n), id) >= 0,
    ensures
        first_pos(keys, id) == first_pos(keys.subrange(0, n), id),
    decreases keys.len() - n,
{
    if n < keys.len() {
        assert(keys.subrange(0, n + 1).drop_last() =~= keys.subrange(0, n));
        lemma_prefix_first_pos(keys, id, n + 1);
    } else {
        assert(keys.subrange(0, n) =~= keys);
    }
}

pub open spec fn group_keys(groups: Seq<GroupIds>) -> Seq<Seq<char>> {
    groups.map_values(|g: GroupIds| g.0@)
}

pub open spec fn account_keys(accounts: Seq<AccountIds>) -> Seq<Seq<char>> {
    accounts.map_values(|a: AccountIds| a.0@)
}

/// The portfolio's accounts that are among `ids`, in the portfolio's order.
pub open spec fn kept_among(portfolio: Seq<Seq<char>>, ids: Seq<Seq<char>>) -> Seq<Seq<char>> {
    portfolio.filter(|acc: Seq<char>| ids.contains(acc))
}

/// The accounts a scope covers. A selection that names nothing the store knows covers the
/// whole portfolio, and so does one without an id.
pub open spec fn covered(
    kind: ScopeKind,
    id: Option<Seq<char>>,
    portfolio: Seq<Seq<char>>,
    groups: Seq<GroupIds>,
    accounts: Seq<AccountIds>,
) -> Seq<Seq<char>> {
    match (kind, id) {
        (ScopeKind::Portfolio, _) => portfolio,
        (_, None) => portfolio,
        (ScopeKind::Group, Some(g)) => {
            let k = first_pos(group_keys(groups), g);
            if k >= 0 {
                kept_among(portfolio, key_texts(groups[k].1@))
            } else {
                portfolio
            }
        },
        (ScopeKind::Account, Some(a)) => if first_pos(portfolio, a) >= 0 {
            seq![a]
        } else {
            portfolio
        },
        (ScopeKind::AccountWithCash, Some(a)) => {
            let k = first_pos(account_keys(accounts), a);
            if k >= 0 {
                kept_among(portfolio, seq![accounts[k].0@, accounts[k].1@])
            } else {
                portfolio
            }
        },
    }
}

fn copy_texts(v: &Vec<String>) -> (r: Vec<String>)
    ensures
        key_texts(r@) == key_texts(v@),
{
    let mut r: Vec<String> = Vec::new();
    let mut i: usize = 0;
    while i < v.len()
        invariant
            i <= v@.len(),
            r@.len() == i,
            forall|j: int| 0 <= j < i ==> (#[trigger] r@[j])@ == v@[j]@,
        decreases v.len() - i,
    {
        r.push(v[i].clone());
        i = i + 1;
    }
    assert(key_texts(r@) =~= key_texts(v@));
    r
}

fn views(v: &Vec<String>) -> (r: Vec<&str>)
    ensures
        r@.map_values(|s: &str| s@) == key_texts(v@),
{
    let mut r: Vec<&str> = Vec::new();
    let mut i: usize = 0;
    while i < v.len()
        invariant
            i <= v@.len(),
            r@.len() == i,
            forall|j: int| 0 <= j < i ==> (#[trigger] r@[j])@ == v@[j]@,
        decreases v.len() - i,
    {
        r.push(v[i].as_str());
        i = i + 1;
    }
    assert(r@.map_values(|s: &str| s@) =~= key_texts(v@));
    r
}

/// The portfolio's accounts that are among `ids`, in the portfolio's order.
fn keep_among(portfolio: &Vec<String>, ids: &Vec<&str>) -> (r: Vec<String>)
    ensures
        key_texts(r@) == kept_among(key_texts(portfolio@), ids@.map_values(|s: &str| s@)),
{
    let ghost p = key_texts(portfolio@);
    let ghost wanted = ids@.map_values(|s: &str| s@);
    let mut r: Vec<String> = Vec::new();
    let mut i: usize = 0;
    while i < portfolio.len()
        invariant
            p == key_texts(portfolio@),
            wanted == ids@.map_values(|s: &str| s@),
            i <= portfolio@.len(),
            key_texts(r@) == kept_among(p.subrange(0, i as int), wanted),
        decreases portfolio.len() - i,
    {
        let ghost before = p.subrange(0, i as int);
        let ghost upto = p.subrange(0, i + 1);
        proof {
            assert(upto.drop_last() =~= before);
            assert(upto.last() == portfolio@[i as int]@);
            assert(kept_among(upto, wanted) == if wanted.contains(upto.last()) {
                kept_among(before, wanted).push(upto.last())
            } else {
                kept_among(before, wanted)
            }) by {
                reveal_with_fuel(Seq::filter, 2);
            }
        }
        let found = position_of(ids, portfolio[i].as_str());
        proof {
            lemma_first_pos(wanted, portfolio@[i as int]@);
            if wanted.contains(portfolio@[i as int]@) {
                let j = choose|j: int| 0 <= j < wanted.len() && wanted[j] == portfolio@[i as int]@;
                if first_pos(wanted, portfolio@[i as int]@) == -1 {
                    lemma_absent(wanted, portfolio@[i as int]@, j);
                }
            }
        }
        if found.is_some() {
            r.push(portfolio[i].clone());
            assert(key_texts(r@) =~= kept_among(before, wanted).push(upto.last()));
        }
        i = i + 1;
    }
    assert(p.subrange(0, portfolio@.len() as int) =~= p);
    r
}

proof fn lemma_absent(keys: Seq<Seq<char>>, id: Seq<char>, j: int)
    requires
        0 <= j < keys.len(),
        keys[j] == id,
    ensures
        first_pos(keys, id) >= 0,
    decreases keys.len(),
{
    if j < keys.len() - 1 {
        assert(keys.drop_last()[j] == keys[j]);
        lemma_absent(keys.drop_last(), id, j);
    }
}

impl DataScope {
    /// The whole portfolio.
    pub fn portfolio() -> (s: DataScope)
        ensures
            s.kind == ScopeKind::Portfolio,
            s.id is None,
    {
        DataScope { kind: ScopeKind::Portfolio, id: None }
    }

    /// The accounts the selection covers, out of the portfolio's: never an account outside it.
    pub fn apply(&self, portfolio: &Vec<String>, groups: &Vec<GroupIds>, accounts: &Vec<AccountIds>) -> (r: Vec<String>)
        ensures
            key_texts(r@) == covered(
                self.kind,
                match self.id {
                    Some(i) => Some(i@),
                    None => None,
                },
                key_texts(portfolio@),
                groups@,
                accounts@,
            ),
    {
        let id = match &self.id {
            Some(i) => i.as_str(),
            None => return copy_texts(portfolio),
        };
        let all = views(portfolio);
        match self.kind {
            ScopeKind::Portfolio => copy_texts(portfolio),
            ScopeKind::Group => {
                let mut names: Vec<&str> = Vec::new();
                let mut i: usize = 0;
                while i < groups.len()
                    invariant
                        i <= groups@.len(),
                        names@.len() == i,
                        forall|j: int| 0 <= j < i ==> (#[trigger] names@[j])@ == groups@[j].0@,
                    decreases groups.len() - i,
                {
                    names.push(groups[i].0.as_str());
                    i = i + 1;
                }
                assert(names@.map_values(|s: &str| s@) =~= group_keys(groups@));
                proof {
                    lemma_first_pos(group_keys(groups@), id@);
                }
                match position_of(&names, id) {
                    Some(k) => {
                        let members = views(&groups[k].1);
                        keep_among(portfolio, &members)
                    },
                    None => copy_texts(portfolio),
                }
            },
            ScopeKind::Account => match position_of(&all, id) {
                Some(k) => {
                    proof {
                        lemma_first_pos(key_texts(portfolio@), id@);
                    }
                    let one = vec![portfolio[k].clone()];
                    assert(key_texts(one@) =~= seq![id@]);
                    one
                },
                None => copy_texts(portfolio),
            },
            ScopeKind::AccountWithCash => {
                let mut names: Vec<&str> = Vec::new();
                let mut i: usize = 0;
                while i < accounts.len()
                    invariant
                        i <= accounts@.len(),
                        names@.len() == i,
                        forall|j: int| 0 <= j < i ==> (#[trigger] names@[j])@ == accounts@[j].0@,
                    decreases accounts.len() - i,
                {
                    names.push(accounts[i].0.as_str());
                    i = i + 1;
                }
                assert(names@.map_values(|s: &str| s@) =~= account_keys(accounts@));
                proof {
                    lemma_first_pos(account_keys(accounts@), id@);
                }
                match position_of(&names, id) {
                    Some(k) => {
                        let pair = vec![accounts[k].0.as_str(), accounts[k].1.as_str()];
                        assert(pair@.map_values(|s: &str| s@) =~= seq![accounts@[k as int].0@, accounts@[k as int].1@]);
                        keep_among(portfolio, &pair)
                    },
                    None => copy_texts(portfolio),
                }
            },
        }
    }

    /// What the store is asked to confirm before the selection is taken: nothing for the whole
    /// portfolio, the group or the account it names otherwise. A selection without an id is
    /// refused.
    pub fn lookup(&self) -> (r: Result<ScopeLookup, UiError>)
        ensures
            match r {
                Ok(ScopeLookup::Nothing) => self.kind == ScopeKind::Portfolio,
                Ok(ScopeLookup::Group(g)) => self.kind == ScopeKind::Group && (self.id matches Some(i) && g@ == i@),
                Ok(ScopeLookup::Account(a)) => (self.kind == ScopeKind::Account || self.kind
                    == ScopeKind::AccountWithCash) && (self.id matches Some(i) && a@ == i@),
                Err(e) => self.kind != ScopeKind::Portfolio && self.id is None && e is Invalid
                    && e.message_of() == "no account or group selected"@,
            },
    {
        match (self.kind, &self.id) {
            (ScopeKind::Portfolio, _) => Ok(ScopeLookup::Nothing),
            (ScopeKind::Group, Some(id)) => Ok(ScopeLookup::Group(id.clone())),
            (ScopeKind::Account, Some(id)) => Ok(ScopeLookup::Account(id.clone())),
            (ScopeKind::AccountWithCash, Some(id)) => Ok(ScopeLookup::Account(id.clone())),
            (_, None) => Err(UiError::invalid(owned("no account or group selected"))),
        }
    }
}

/// What a new selection has to be checked against.
#[derive(Debug)]
pub enum ScopeLookup {
    Nothing,
    Group(String),
    Account(String),
}

/// How many of a group's accounts are in the portfolio.
pub fn scope_count(portfolio: &Vec<String>, group: &Vec<String>) -> (n: usize)
    ensures
        n == kept_among(key_texts(group@), key_texts(portfolio@)).len(),
{
    let members = views(portfolio);
    let kept = keep_among(group, &members);
    kept.len()
}

/// A scope never reaches outside the portfolio: every account it covers is one of the
/// portfolio's.
pub proof fn law_scope_stays_inside(
    kind: ScopeKind,
    id: Option<Seq<char>>,
    portfolio: Seq<Seq<char>>,
    groups: Seq<GroupIds>,
    accounts: Seq<AccountIds>,
)
    ensures
        forall|i: int|
            0 <= i < covered(kind, id, portfolio, groups, accounts).len() ==> portfolio.contains(
                #[trigger] covered(kind, id, portfolio, groups, accounts)[i],
            ),
{
    let c = covered(kind, id, portfolio, groups, accounts);
    assert forall|i: int| 0 <= i < c.len() implies portfolio.contains(#[trigger] c[i]) by {
        match (kind, id) {
            (ScopeKind::Portfolio, _) => {},
            (_, None) => {},
            (ScopeKind::Account, Some(a)) => {
                lemma_first_pos(portfolio, a);
                if first_pos(portfolio, a) >= 0 {
                    assert(portfolio[first_pos(portfolio, a)] == a);
                }
            },
            (ScopeKind::Group, Some(g)) => {
                let k = first_pos(group_keys(groups), g);
                if k >= 0 {
                    let ids = key_texts(groups[k].1@);
                    portfolio.lemma_filter_contains_rev(|acc: Seq<char>| ids.contains(acc), c[i]);
                    assert(c.contains(c[i]));
                }
            },
            (ScopeKind::AccountWithCash, Some(a)) => {
                let k = first_pos(account_keys(accounts), a);
                if k >= 0 {
                    let ids = seq![accounts[k].0@, accounts[k].1@];
                    portfolio.lemma_filter_contains_rev(|acc: Seq<char>| ids.contains(acc), c[i]);
                    assert(c.contains(c[i]));
                }
            },
        }
    }
}

} // verus!
