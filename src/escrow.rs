use vstd::prelude::*;
use crate::types::{BalanceChange, Error};

verus! {

/// The balance grew by exactly `amount`.
pub open spec fn received(change: BalanceChange, amount: int) -> bool {
    change.after == change.before + amount
}

/// The balance shrank by exactly `amount`.
pub open spec fn sent(change: BalanceChange, amount: int) -> bool {
    change.after == change.before - amount
}

/// Checks that a transfer into custody moved exactly `amount`: an asset that
/// reports success without moving the funds is refused.
pub fn check_received(change: BalanceChange, amount: i128) -> (r: Result<(), Error>)
    ensures
        r is Ok <==> received(change, amount as int),
        r is Err ==> r == Err::<(), Error>(Error::InsufficientFunds),
{
    match change.before.checked_add(amount) {
        Some(expected) => {
            if change.after == expected {
                Ok(())
            } else {
                Err(Error::InsufficientFunds)
            }
        },
        None => Err(Error::InsufficientFunds),
    }
}

/// Checks that a transfer out of a balance moved exactly `amount`.
pub fn check_sent(change: BalanceChange, amount: i128) -> (r: Result<(), Error>)
    ensures
        r is Ok <==> sent(change, amount as int),
        r is Err ==> r == Err::<(), Error>(Error::InsufficientFunds),
{
    match change.before.checked_sub(amount) {
        Some(expected) => {
            if change.after == expected {
                Ok(())
            } else {
                Err(Error::InsufficientFunds)
            }
        },
        None => Err(Error::InsufficientFunds),
    }
}

/// The total that posting a scholarship escrows, `grant_amount * number_of_grants`.
/// `InvalidAmount` when the grant is not positive, no grant is offered, or the
/// total does not fit the asset's amount type.
pub open spec fn funding_total(grant_amount: i128, number_of_grants: u64) -> Result<i128, Error> {
    let total = grant_amount * number_of_grants;
    if grant_amount <= 0 || number_of_grants == 0 || total > i128::MAX {
        Err(Error::InvalidAmount)
    } else {
        Ok(total as i128)
    }
}

/// Computes the escrow owed for a scholarship, with the overflow checked.
pub fn funding_required(grant_amount: i128, number_of_grants: u64) -> (r: Result<i128, Error>)
    ensures
        r == funding_total(grant_amount, number_of_grants),
{
    if grant_amount <= 0 || number_of_grants == 0 {
        return Err(Error::InvalidAmount);
    }
    match grant_amount.checked_mul(number_of_grants as i128) {
        Some(total) => Ok(total),
        None => Err(Error::InvalidAmount),
    }
}

} // verus!
