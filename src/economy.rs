use vstd::prelude::*;

verus! {

/// The ways an operation of the farm can decline to act.
#[derive(Debug, Clone, Copy, PartialEq, Eq, Structural)]
pub enum FarmError {
    /// The balance is below the price asked for.
    InsufficientFunds,
    /// No live brain carries the identifier given.
    EntityNotFound,
}

/// The single currency balance of the farm.
#[derive(Debug, Clone, Copy, PartialEq, Eq, Structural)]
pub struct Money(pub i64);

impl Money {
    /// Whether the balance covers `cost`.
    pub fn can_afford(&self, cost: i64) -> (r: bool)
        ensures
            r == (self.0 >= cost),
    {
        self.0 >= cost
    }

    /// Takes `cost` from the balance when it is affordable; otherwise leaves
    /// the balance as it is and reports `InsufficientFunds`.
    pub fn debit(&mut self, cost: i64) -> (r: Result<(), FarmError>)
        requires
            old(self).0 - cost <= i64::MAX,
        ensures
            old(self).0 >= cost ==> r is Ok && final(self).0 == old(self).0 - cost,
            old(self).0 < cost ==> r == Err::<(), FarmError>(FarmError::InsufficientFunds)
                && *final(self) == *old(self),
    {
        if self.0 >= cost {
            self.0 = self.0 - cost;
            Ok(())
        } else {
            Err(FarmError::InsufficientFunds)
        }
    }

    /// Adds `amount` to the balance.
    pub fn credit(&mut self, amount: i64)
        requires
            i64::MIN <= old(self).0 + amount <= i64::MAX,
        ensures
            final(self).0 == old(self).0 + amount,
    {
        self.0 = self.0 + amount;
    }
}

} // verus!
