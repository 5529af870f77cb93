//! The custody of the stakes of one event.

use vstd::prelude::*;
use crate::error::Error;
use crate::pubkey::Pubkey;

verus! {

/// The custody of what is staked on one event, whatever the asset.
#[derive(Clone, Copy, Debug, PartialEq, Eq)]
pub struct Vault {
    /// The event that the vault is bound to; only that event moves value out.
    pub event: Pubkey,
    /// The value in custody.
    pub balance: u64,
}

impl Vault {
    /// Takes `amount` into custody.
    ///
    /// Fails with `OverflowError`, and changes nothing, where the balance would
    /// leave 64 bits.
    pub fn deposit(&mut self, amount: u64) -> (res: Result<(), Error>)
        ensures
            final(self).event == old(self).event,
            old(self).balance + amount <= u64::MAX ==> res is Ok && final(self).balance == old(
                self,
            ).balance + amount,
            old(self).balance + amount > u64::MAX ==> res == Err::<(), Error>(Error::OverflowError)
                && *final(self) == *old(self),
    {
        match self.balance.checked_add(amount) {
            Some(balance) => {
                self.balance = balance;
                Ok(())
            },
            None => Err(Error::OverflowError),
        }
    }

    /// Releases `amount` from custody.
    ///
    /// Fails with `InsufficientFunds`, and changes nothing, where the vault
    /// holds less.
    pub fn withdraw(&mut self, amount: u64) -> (res: Result<(), Error>)
        ensures
            final(self).event == old(self).event,
            amount <= old(self).balance ==> res is Ok && final(self).balance == old(self).balance
                - amount,
            amount > old(self).balance ==> res == Err::<(), Error>(Error::InsufficientFunds)
                && *final(self) == *old(self),
    {
        if self.balance < amount {
            return Err(Error::InsufficientFunds);
        }
        self.balance = self.balance - amount;
        Ok(())
    }

    /// Releases all that is left in custody, and returns how much that was.
    pub fn close(&mut self) -> (residual: u64)
        ensures
            residual == old(self).balance,
            final(self).balance == 0,
            final(self).event == old(self).event,
    {
        let residual: u64 = self.balance;
        self.balance = 0;
        residual
    }
}

} // verus!
