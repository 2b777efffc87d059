//! Account validity statements for the public crowdsale: a privileged origin
//! records, per account, the kind of validity statement the account has made.
//!
//! The storage map, event deposit and origin check of the original runtime
//! module are modelled explicitly: accounts and origins are their numeric
//! identifiers, and deposited events are kept in order.

use vstd::prelude::*;

verus! {

/// The kind of a statement an account needs to make for a claim to be valid.
#[derive(Clone, Copy, PartialEq, Eq, Structural, Debug)]
pub enum AccountValidity {
    /// Account is not valid.
    Invalid,
    /// Account is pending validation.
    Pending,
    /// Account is valid with a low contribution amount.
    ValidLow,
    /// Account is valid with a high contribution amount.
    ValidHigh,
}

impl Default for AccountValidity {
    /// An account with no statement recorded is not valid.
    fn default() -> (r: Self)
        ensures
            r == AccountValidity::Invalid,
    {
        AccountValidity::Invalid
    }
}

/// Why a validity statement was rejected.
#[derive(Clone, Copy, PartialEq, Eq, Structural, Debug)]
pub enum CrowdsaleError {
    /// The caller is not the configured validity origin.
    BadOrigin,
    /// Account used in the crowdsale already exists.
    ExistingAccount,
}

/// Events the module deposits.
#[derive(Clone, Copy, PartialEq, Eq, Structural, Debug)]
pub enum CrowdsaleEvent {
    /// Someone's account validity was updated.
    ValidityUpdated(u64, AccountValidity),
    /// Someone's account validity statement was removed.
    ValidityRemoved(u64),
}

/// The validity recorded by a statement list for `who`: the latest statement
/// wins; an account without one is `Invalid`.
pub open spec fn stmts_lookup(s: Seq<(u64, AccountValidity)>, who: u64) -> AccountValidity
    decreases s.len(),
{
    if s.len() == 0 {
        AccountValidity::Invalid
    } else if s.last().0 == who {
        s.last().1
    } else {
        stmts_lookup(s.drop_last(), who)
    }
}

/// Whether `who` is a live (existing) account.
pub open spec fn account_live(s: Seq<u64>, who: u64) -> bool {
    exists|i: int| 0 <= i < s.len() && #[trigger] s[i] == who
}

/// The crowdsale module's state: the privileged origin allowed to record
/// statements, the recorded statements, the accounts known to exist, and the
/// deposited events.
pub struct Crowdsale {
    pub validity_origin: u64,
    pub statements: Vec<(u64, AccountValidity)>,
    pub live_accounts: Vec<u64>,
    pub events: Vec<CrowdsaleEvent>,
}

impl Crowdsale {
    /// A fresh module with `validity_origin` as the privileged origin.
    pub fn new(validity_origin: u64) -> (c: Crowdsale)
        ensures
            c.validity_origin == validity_origin,
            c.statements@.len() == 0,
            c.live_accounts@.len() == 0,
            c.events@.len() == 0,
    {
        Crowdsale {
            validity_origin,
            statements: Vec::new(),
            live_accounts: Vec::new(),
            events: Vec::new(),
        }
    }

    /// Marks `who` as an existing account (in the full runtime, holding a
    /// balance does this).
    pub fn note_live_account(&mut self, who: u64)
        ensures
            final(self).live_accounts@ == old(self).live_accounts@.push(who),
            final(self).validity_origin == old(self).validity_origin,
            final(self).statements@ == old(self).statements@,
            final(self).events@ == old(self).events@,
    {
        self.live_accounts.push(who);
    }

    /// Whether `who` is a live account.
    #[verifier::loop_isolation(false)]
    pub fn is_live_account(&self, who: u64) -> (r: bool)
        ensures
            r == account_live(self.live_accounts@, who),
    {
        let mut i: usize = 0;
        while i < self.live_accounts.len()
            invariant
                i <= self.live_accounts@.len(),
                forall|j: int| 0 <= j < i ==> #[trigger] self.live_accounts@[j] != who,
            decreases self.live_accounts@.len() - i,
        {
            if self.live_accounts[i] == who {
                return true;
            }
            i = i + 1;
        }
        false
    }

    /// The validity recorded for `who`; an account without a statement is
    /// `Invalid` by default.
    #[verifier::loop_isolation(false)]
    pub fn get_validity(&self, who: u64) -> (r: AccountValidity)
        ensures
            r == stmts_lookup(self.statements@, who),
    {
        let mut i: usize = self.statements.len();
        proof {
            assert(self.statements@.take(i as int) =~= self.statements@);
        }
        while i > 0
            invariant
                i <= self.statements@.len(),
                stmts_lookup(self.statements@, who) == stmts_lookup(
                    self.statements@.take(i as int),
                    who,
                ),
            decreases i,
        {
            i = i - 1;
            let p = self.statements[i];
            proof {
                assert(self.statements@.take(i as int + 1).drop_last() =~= self.statements@.take(
                    i as int,
                ));
                assert(self.statements@.take(i as int + 1).last() == self.statements@[i as int]);
            }
            if p.0 == who {
                return p.1;
            }
        }
        AccountValidity::Invalid
    }

    /// Add a validity statement to a specified account.
    ///
    /// The origin must be the configured validity origin, and the account
    /// must not already exist; otherwise the statement is recorded and an
    /// update event deposited.
    pub fn set_account_validity(&mut self, origin: u64, who: u64, validity: AccountValidity) -> (r:
        Result<(), CrowdsaleError>)
        ensures
            origin != old(self).validity_origin ==> r == Err::<(), CrowdsaleError>(
                CrowdsaleError::BadOrigin,
            ) && *final(self) == *old(self),
            origin == old(self).validity_origin && account_live(old(self).live_accounts@, who)
                ==> r == Err::<(), CrowdsaleError>(CrowdsaleError::ExistingAccount) && *final(self)
                == *old(self),
            origin == old(self).validity_origin && !account_live(old(self).live_accounts@, who)
                ==> {
                &&& r == Ok::<(), CrowdsaleError>(())
                &&& final(self).statements@ == old(self).statements@.push((who, validity))
                &&& final(self).events@ == old(self).events@.push(
                    CrowdsaleEvent::ValidityUpdated(who, validity),
                )
                &&& final(self).live_accounts@ == old(self).live_accounts@
                &&& final(self).validity_origin == old(self).validity_origin
                &&& stmts_lookup(final(self).statements@, who) == validity
            },
    {
        if origin != self.validity_origin {
            return Err(CrowdsaleError::BadOrigin);
        }
        if self.is_live_account(who) {
            return Err(CrowdsaleError::ExistingAccount);
        }
        self.statements.push((who, validity));
        self.events.push(CrowdsaleEvent::ValidityUpdated(who, validity));
        proof {
            assert(self.statements@.last() == (who, validity));
        }
        Ok(())
    }
}

} // verus!
