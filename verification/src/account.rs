//! A client's account: the funds that are available, the funds that are held
//! while a dispute lasts, and the lock that a chargeback sets.

pub use error::{AccountError, AccountResult};
pub use store::AccountStore;

mod error;
mod store;

use crate::money::Money;
use vstd::prelude::*;

verus! {

broadcast use {
    Money::lemma_of_parts,
    Money::lemma_sum_is_exact,
    Money::lemma_difference_is_exact,
};

/// The number of a client.
pub type ClientId = u16;

/// What an account holds.
pub struct AccountView {
    pub client: ClientId,
    pub available: Money,
    pub held: Money,
    pub locked: bool,
}

impl AccountView {
    /// The account of a client that has done nothing yet.
    pub open spec fn new(client: ClientId) -> AccountView {
        AccountView {
            client,
            available: Money::of_parts(0, 0),
            held: Money::of_parts(0, 0),
            locked: false,
        }
    }

    /// Whether the sum that a deposit needs can be computed exactly.
    pub open spec fn can_deposit(self, amount: Money) -> bool {
        self.available.sum(amount) is Some
    }

    /// The account after a deposit.
    pub open spec fn deposit(self, amount: Money) -> AccountView {
        AccountView { available: self.available.sum(amount).unwrap(), ..self }
    }

    /// What a withdrawal returns: it is refused on a locked account, and else
    /// where the available funds do not cover it.
    pub open spec fn withdraw_result(self, amount: Money) -> AccountResult<()> {
        if self.locked {
            Err(AccountError::Locked { client: self.client })
        } else if self.available@ < amount@ {
            Err(
                AccountError::InsufficientAvailable {
                    needed: amount,
                    available: self.available,
                    client: self.client,
                },
            )
        } else {
            Ok(())
        }
    }

    /// Whether the difference that a withdrawal needs can be computed exactly;
    /// a withdrawal that is refused needs none.
    pub open spec fn can_withdraw(self, amount: Money) -> bool {
        self.withdraw_result(amount) is Ok ==> self.available.difference(amount) is Some
    }

    /// The account after a withdrawal: unchanged where it is refused.
    pub open spec fn withdraw(self, amount: Money) -> AccountView {
        if self.withdraw_result(amount) is Ok {
            AccountView { available: self.available.difference(amount).unwrap(), ..self }
        } else {
            self
        }
    }

    /// Whether the sum and the difference that a dispute needs can be
    /// computed exactly.
    pub open spec fn can_dispute(self, amount: Money) -> bool {
        &&& self.available.difference(amount) is Some
        &&& self.held.sum(amount) is Some
    }

    /// The account after a dispute: the amount has moved from available to
    /// held, whatever is available.
    pub open spec fn dispute(self, amount: Money) -> AccountView {
        AccountView {
            available: self.available.difference(amount).unwrap(),
            held: self.held.sum(amount).unwrap(),
            ..self
        }
    }

    /// What a release or a chargeback returns: it is refused where the held
    /// funds do not cover it.
    pub open spec fn settle_result(self, amount: Money) -> AccountResult<()> {
        if self.held@ < amount@ {
            Err(
                AccountError::InsufficientHeld {
                    needed: amount,
                    held: self.held,
                    client: self.client,
                },
            )
        } else {
            Ok(())
        }
    }

    /// Whether the sum and the difference that a release needs can be computed
    /// exactly; a release that is refused needs none.
    pub open spec fn can_release(self, amount: Money) -> bool {
        self.settle_result(amount) is Ok ==> {
            &&& self.available.sum(amount) is Some
            &&& self.held.difference(amount) is Some
        }
    }

    /// The account after a release: the amount has moved back from held to
    /// available, or nothing has changed where the release is refused.
    pub open spec fn release(self, amount: Money) -> AccountView {
        if self.settle_result(amount) is Ok {
            AccountView {
                available: self.available.sum(amount).unwrap(),
                held: self.held.difference(amount).unwrap(),
                ..self
            }
        } else {
            self
        }
    }

    /// Whether the difference that a chargeback needs can be computed exactly;
    /// a chargeback that is refused needs none.
    pub open spec fn can_chargeback(self, amount: Money) -> bool {
        self.settle_result(amount) is Ok ==> self.held.difference(amount) is Some
    }

    /// The account after a chargeback: the amount has left the held funds and
    /// the account is locked, or nothing has changed where the chargeback is
    /// refused.
    pub open spec fn chargeback(self, amount: Money) -> AccountView {
        if self.settle_result(amount) is Ok {
            AccountView { held: self.held.difference(amount).unwrap(), locked: true, ..self }
        } else {
            self
        }
    }

    /// Whether the total, available plus held, can be computed exactly.
    pub open spec fn has_total(self) -> bool {
        self.available.sum(self.held) is Some
    }

    /// No operation unlocks an account: one that is locked stays locked
    /// through a deposit, a withdrawal, a dispute, a release and a chargeback.
    pub proof fn lemma_lock_stays(self, amount: Money)
        requires
            self.locked,
        ensures
            self.deposit(amount).locked,
            self.withdraw(amount).locked,
            self.dispute(amount).locked,
            self.release(amount).locked,
            self.chargeback(amount).locked,
    {
    }

    /// The held funds are not below zero after an operation that was
    /// accepted: a release and a chargeback are accepted only where they leave
    /// no less than nothing, a deposit and a withdrawal leave the held funds as
    /// they were, and a dispute adds its amount to them.
    pub proof fn lemma_held_stays_non_negative(self, amount: Money)
        ensures
            self.held@ >= 0 ==> self.deposit(amount).held@ >= 0,
            self.held@ >= 0 ==> self.withdraw(amount).held@ >= 0,
            self.can_dispute(amount) && self.held@ + amount@ >= 0 ==> self.dispute(amount).held@
                >= 0,
            self.can_release(amount) && self.settle_result(amount) is Ok ==> self.release(
                amount,
            ).held@ >= 0,
            self.can_chargeback(amount) && self.settle_result(amount) is Ok ==> self.chargeback(
                amount,
            ).held@ >= 0,
    {
    }

    /// A dispute that a release of the same amount follows leaves the
    /// available and the held funds as they were.
    pub proof fn lemma_dispute_then_release(self, amount: Money)
        requires
            self.held@ >= 0,
            self.can_dispute(amount),
            self.dispute(amount).can_release(amount),
        ensures
            self.dispute(amount).settle_result(amount) is Ok,
            self.dispute(amount).release(amount).available@ == self.available@,
            self.dispute(amount).release(amount).held@ == self.held@,
            self.dispute(amount).release(amount).locked == self.locked,
            self.dispute(amount).release(amount).client == self.client,
    {
    }

    /// A dispute of more than is available is not refused: it leaves the
    /// available funds below zero.
    pub proof fn lemma_dispute_may_overdraw(self, amount: Money)
        requires
            self.can_dispute(amount),
            amount@ > self.available@,
        ensures
            self.dispute(amount).available@ < 0,
            self.dispute(amount).held@ == self.held@ + amount@,
    {
    }

    /// A withdrawal of all that is available is accepted on an account that
    /// is not locked, and leaves nothing available.
    pub proof fn lemma_withdraw_all(self, amount: Money)
        requires
            !self.locked,
            amount@ == self.available@,
            self.can_withdraw(amount),
        ensures
            self.withdraw_result(amount) is Ok,
            self.withdraw(amount).available@ == 0,
    {
    }

    /// A chargeback that is accepted locks the account. A withdrawal is then
    /// refused as `Locked`, whatever its amount, and leaves the account as it
    /// is, while a deposit still adds to the available funds.
    pub proof fn lemma_chargeback_locks(self, amount: Money, next: Money)
        requires
            self.settle_result(amount) is Ok,
            self.can_chargeback(amount),
            self.chargeback(amount).can_deposit(next),
        ensures
            self.chargeback(amount).locked,
            self.chargeback(amount).withdraw_result(next) == Err::<(), AccountError>(
                AccountError::Locked { client: self.client },
            ),
            self.chargeback(amount).withdraw(next) == self.chargeback(amount),
            self.chargeback(amount).deposit(next).available@ == self.available@ + next@,
    {
    }
}

/// The account of one client.
#[derive(Clone, Copy, Debug, PartialEq, Eq)]
pub struct Account {
    client: ClientId,
    available: Money,
    held: Money,
    locked: bool,
}

impl View for Account {
    type V = AccountView;

    closed spec fn view(&self) -> AccountView {
        AccountView {
            client: self.client,
            available: self.available,
            held: self.held,
            locked: self.locked,
        }
    }
}

impl Account {
    /// The account of a client that has done nothing yet: nothing available,
    /// nothing held, not locked.
    pub fn new(client: ClientId) -> (r: Account)
        ensures
            r@ == AccountView::new(client),
    {
        Account { client, available: Money::zero(), held: Money::zero(), locked: false }
    }

    /// An account with the given contents.
    pub fn create(client: ClientId, available: Money, held: Money, locked: bool) -> (r: Account)
        ensures
            r@ == (AccountView { client, available, held, locked }),
    {
        Account { client, available, held, locked }
    }

    /// The client that owns the account.
    pub fn client(&self) -> (r: ClientId)
        ensures
            r == self@.client,
    {
        self.client
    }

    /// The funds that the client may withdraw.
    pub fn available(&self) -> (r: Money)
        ensures
            r == self@.available,
    {
        self.available
    }

    /// The funds kept back while a dispute lasts.
    pub fn held(&self) -> (r: Money)
        ensures
            r == self@.held,
    {
        self.held
    }

    /// Whether a chargeback has locked the account.
    pub fn locked(&self) -> (r: bool)
        ensures
            r == self@.locked,
    {
        self.locked
    }

    /// Whether `deposit` can be called with `amount`.
    pub fn can_deposit(&self, amount: Money) -> (r: bool)
        ensures
            r == self@.can_deposit(amount),
    {
        self.available.checked_add(amount).is_some()
    }

    /// Whether `withdraw` can be called with `amount`.
    pub fn can_withdraw(&self, amount: Money) -> (r: bool)
        ensures
            r == self@.can_withdraw(amount),
    {
        self.locked || self.available.less_than(&amount) || self.available.checked_sub(
            amount,
        ).is_some()
    }

    /// Whether `dispute` can be called with `amount`.
    pub fn can_dispute(&self, amount: Money) -> (r: bool)
        ensures
            r == self@.can_dispute(amount),
    {
        self.available.checked_sub(amount).is_some() && self.held.checked_add(amount).is_some()
    }

    /// Whether `release` can be called with `amount`.
    pub fn can_release(&self, amount: Money) -> (r: bool)
        ensures
            r == self@.can_release(amount),
    {
        self.held.less_than(&amount) || (self.available.checked_add(amount).is_some()
            && self.held.checked_sub(amount).is_some())
    }

    /// Whether `chargeback` can be called with `amount`.
    pub fn can_chargeback(&self, amount: Money) -> (r: bool)
        ensures
            r == self@.can_chargeback(amount),
    {
        self.held.less_than(&amount) || self.held.checked_sub(amount).is_some()
    }

    /// Adds `amount` to the available funds. A deposit is never refused.
    pub fn deposit(&mut self, amount: Money) -> (r: AccountResult<()>)
        requires
            old(self)@.can_deposit(amount),
        ensures
            r is Ok,
            final(self)@ == old(self)@.deposit(amount),
            final(self)@.available@ == old(self)@.available@ + amount@,
    {
        if let Some(sum) = self.available.checked_add(amount) {
            self.available = sum;
        }
        Ok(())
    }

    /// Takes `amount` from the available funds, unless the account is locked
    /// or holds less than `amount`; the account is then left as it was.
    pub fn withdraw(&mut self, amount: Money) -> (r: AccountResult<()>)
        requires
            old(self)@.can_withdraw(amount),
        ensures
            r == old(self)@.withdraw_result(amount),
            final(self)@ == old(self)@.withdraw(amount),
            r is Ok ==> final(self)@.available@ == old(self)@.available@ - amount@,
            r is Err ==> final(self)@ == old(self)@,
    {
        if self.locked {
            return Err(AccountError::Locked { client: self.client });
        } else if self.available.less_than(&amount) {
            return Err(
                AccountError::InsufficientAvailable {
                    needed: amount,
                    available: self.available,
                    client: self.client,
                },
            );
        }
        if let Some(rest) = self.available.checked_sub(amount) {
            self.available = rest;
        }
        Ok(())
    }

    /// Moves `amount` from the available funds to the held funds. A dispute is
    /// never refused: the available funds may fall below zero.
    pub fn dispute(&mut self, amount: Money) -> (r: AccountResult<()>)
        requires
            old(self)@.can_dispute(amount),
        ensures
            r is Ok,
            final(self)@ == old(self)@.dispute(amount),
            final(self)@.available@ == old(self)@.available@ - amount@,
            final(self)@.held@ == old(self)@.held@ + amount@,
    {
        if let Some(rest) = self.available.checked_sub(amount) {
            if let Some(sum) = self.held.checked_add(amount) {
                self.available = rest;
                self.held = sum;
            }
        }
        Ok(())
    }

    /// Moves `amount` back from the held funds to the available funds, unless
    /// less than `amount` is held; the account is then left as it was.
    pub fn release(&mut self, amount: Money) -> (r: AccountResult<()>)
        requires
            old(self)@.can_release(amount),
        ensures
            r == old(self)@.settle_result(amount),
            final(self)@ == old(self)@.release(amount),
            r is Ok ==> final(self)@.available@ == old(self)@.available@ + amount@,
            r is Ok ==> final(self)@.held@ == old(self)@.held@ - amount@,
            r is Err ==> final(self)@ == old(self)@,
    {
        if self.held.less_than(&amount) {
            return Err(
                AccountError::InsufficientHeld { needed: amount, held: self.held, client: self.client },
            );
        }
        if let Some(sum) = self.available.checked_add(amount) {
            if let Some(rest) = self.held.checked_sub(amount) {
                self.available = sum;
                self.held = rest;
            }
        }
        Ok(())
    }

    /// Takes `amount` from the held funds for good and locks the account,
    /// unless less than `amount` is held; the account is then left as it was.
    pub fn chargeback(&mut self, amount: Money) -> (r: AccountResult<()>)
        requires
            old(self)@.can_chargeback(amount),
        ensures
            r == old(self)@.settle_result(amount),
            final(self)@ == old(self)@.chargeback(amount),
            r is Ok ==> final(self)@.held@ == old(self)@.held@ - amount@,
            r is Ok ==> final(self)@.locked,
            r is Err ==> final(self)@ == old(self)@,
    {
        if self.held.less_than(&amount) {
            return Err(
                AccountError::InsufficientHeld { needed: amount, held: self.held, client: self.client },
            );
        }
        if let Some(rest) = self.held.checked_sub(amount) {
            self.held = rest;
            self.locked = true;
        }
        Ok(())
    }

    /// The total funds: available plus held.
    pub fn total(&self) -> (r: Money)
        requires
            self@.has_total(),
        ensures
            Some(r) == self@.available.sum(self@.held),
            r@ == self@.available@ + self@.held@,
    {
        match self.available.checked_add(self.held) {
            Some(sum) => sum,
            None => self.available,
        }
    }

    /// The total funds, or `None` where the sum cannot be computed exactly.
    pub fn checked_total(&self) -> (r: Option<Money>)
        ensures
            r == self@.available.sum(self@.held),
            r matches Some(t) ==> t@ == self@.available@ + self@.held@,
    {
        if self.available.checked_add(self.held).is_some() {
            Some(self.total())
        } else {
            None
        }
    }
}

impl Default for Account {
    /// The untouched account of client 0.
    fn default() -> (r: Account)
        ensures
            r@ == AccountView::new(0),
    {
        Account::new(0)
    }
}

} // verus!
