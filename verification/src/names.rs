//! The names a person reads a row by.
//!
//! The core answers in ids, and an id means nothing on screen, so every row of a report carries
//! the ticker, the instrument's name and the account's label beside the figures. An id nothing
//! answers to is shown as itself rather than as a blank: a row that vanishes is worse than a row
//! with an ugly label.

use vstd::prelude::*;
use crate::text::{owned, same_text};

verus! {

/// A security as the names know it: id, ticker, name.
pub type SecurityName = (String, String, String);

/// An account as the names know it: id, label.
pub type AccountName = (String, String);

/// The ids of the store's securities and accounts with what they are called. When an id comes
/// twice, the later entry is the one that answers.
pub struct Names {
    securities: Vec<SecurityName>,
    accounts: Vec<AccountName>,
}

/// The position of the last security with this id, or -1.
pub open spec fn last_security(s: Seq<SecurityName>, id: Seq<char>) -> int
    decreases s.len(),
{
    if s.len() == 0 {
        -1
    } else if s.last().0@ == id {
        s.len() - 1
    } else {
        last_security(s.drop_last(), id)
    }
}

/// The position of the last account with this id, or -1.
pub open spec fn last_account(a: Seq<AccountName>, id: Seq<char>) -> int
    decreases a.len(),
{
    if a.len() == 0 {
        -1
    } else if a.last().0@ == id {
        a.len() - 1
    } else {
        last_account(a.drop_last(), id)
    }
}

proof fn lemma_last_security(s: Seq<SecurityName>, id: Seq<char>)
    ensures
        -1 <= last_security(s, id) < s.len(),
        last_security(s, id) >= 0 ==> s[last_security(s, id)].0@ == id,
    decreases s.len(),
{
    if s.len() > 0 && s.last().0@ != id {
        lemma_last_security(s.drop_last(), id);
    }
}

proof fn lemma_last_account(a: Seq<AccountName>, id: Seq<char>)
    ensures
        -1 <= last_account(a, id) < a.len(),
        last_account(a, id) >= 0 ==> a[last_account(a, id)].0@ == id,
    decreases a.len(),
{
    if a.len() > 0 && a.last().0@ != id {
        lemma_last_account(a.drop_last(), id);
    }
}

impl Names {
    pub closed spec fn securities(&self) -> Seq<SecurityName> {
        self.securities@
    }

    pub closed spec fn accounts(&self) -> Seq<AccountName> {
        self.accounts@
    }

    pub fn new(securities: Vec<SecurityName>, accounts: Vec<AccountName>) -> (n: Names)
        ensures
            n.securities() == securities@,
            n.accounts() == accounts@,
    {
        Names { securities, accounts }
    }

    /// Ticker and name. An unknown id stands in for its own ticker and has no name.
    pub fn security(&self, id: &str) -> (r: (String, String))
        ensures
            ({
                let k = last_security(self.securities(), id@);
                if k >= 0 {
                    r.0@ == self.securities()[k].1@ && r.1@ == self.securities()[k].2@
                } else {
                    r.0@ == id@ && r.1@ == Seq::<char>::empty()
                }
            }),
    {
        let mut i: usize = self.securities.len();
        assert(self.securities@.subrange(0, i as int) =~= self.securities@);
        while i > 0
            invariant
                i <= self.securities@.len(),
                last_security(self.securities@, id@) == last_security(self.securities@.subrange(0, i as int), id@),
            decreases i,
        {
            let s = &self.securities[i - 1];
            proof {
                assert(self.securities@.subrange(0, i as int).drop_last() =~= self.securities@.subrange(
                    0,
                    i - 1,
                ));
            }
            if same_text(s.0.as_str(), id) {
                return (s.1.clone(), s.2.clone());
            }
            i = i - 1;
        }
        (owned(id), String::new())
    }

    /// The account's label; an unknown id stands in for its own label.
    pub fn account(&self, id: &str) -> (r: String)
        ensures
            ({
                let k = last_account(self.accounts(), id@);
                if k >= 0 {
                    r@ == self.accounts()[k].1@
                } else {
                    r@ == id@
                }
            }),
    {
        let mut i: usize = self.accounts.len();
        assert(self.accounts@.subrange(0, i as int) =~= self.accounts@);
        while i > 0
            invariant
                i <= self.accounts@.len(),
                last_account(self.accounts@, id@) == last_account(self.accounts@.subrange(0, i as int), id@),
            decreases i,
        {
            let a = &self.accounts[i - 1];
            proof {
                assert(self.accounts@.subrange(0, i as int).drop_last() =~= self.accounts@.subrange(
                    0,
                    i - 1,
                ));
            }
            if same_text(a.0.as_str(), id) {
                return a.1.clone();
            }
            i = i - 1;
        }
        owned(id)
    }
}

/// A label found is the label of an entry with that id.
pub proof fn law_found_names_belong_to_the_id(n: Names, id: Seq<char>)
    ensures
        last_security(n.securities(), id) >= 0 ==> n.securities()[last_security(n.securities(), id)].0@ == id,
        last_account(n.accounts(), id) >= 0 ==> n.accounts()[last_account(n.accounts(), id)].0@ == id,
{
    lemma_last_security(n.securities(), id);
    lemma_last_account(n.accounts(), id);
}

} // verus!
