use vstd::prelude::*;

use crate::policy::{Config, CustomError};

verus! {

/// The largest balance a recipient may hold before graduation:
/// `supply * max_percent / 100`, rounded down.
pub open spec fn cap_of(supply: u64, max_percent: u8) -> int {
    (supply as int * max_percent as int) / 100
}

/// Whether a transfer of `amount` to a recipient holding `balance` is allowed
/// under `config` when `supply` units are issued.
pub open spec fn transfer_allowed(config: Config, supply: u64, balance: u64, amount: u64) -> bool {
    config.graduated || balance as int + amount as int <= cap_of(supply, config.max_percent)
}

/// Computes the cap in a width that holds `supply * max_percent` exactly.
pub fn max_allowed(supply: u64, max_percent: u8) -> (r: u128)
    ensures
        r as int == cap_of(supply, max_percent),
{
    assert(supply as int * max_percent as int <= u64::MAX as int * u8::MAX as int)
        by (nonlinear_arith);
    (supply as u128 * max_percent as u128) / 100
}

/// Decides a transfer of `amount` to a recipient holding `destination_balance`
/// when `supply` units are issued: always allowed once graduated; before that,
/// allowed exactly when the recipient's balance after the transfer is within
/// the cap.
pub fn within_cap(config: &Config, supply: u64, destination_balance: u64, amount: u64) -> (r: bool)
    ensures
        r == transfer_allowed(*config, supply, destination_balance, amount),
        config.graduated ==> r,
        !config.graduated ==> (r <==> destination_balance as int + amount as int <= (supply as int
            * config.max_percent as int) / 100),
{
    if config.graduated {
        return true;
    }
    let cap = max_allowed(supply, config.max_percent);
    let new_balance = destination_balance as u128 + amount as u128;
    new_balance <= cap
}

/// What a guarded transfer reads: the policy record, the asset's issued
/// supply and decimals, and the recipient's current balance.
pub struct GuardedTransfer {
    pub config: Config,
    pub supply: u64,
    pub decimals: u8,
    pub destination_balance: u64,
}

/// A transfer that the guard has let through, to be carried out by the asset
/// ledger: exactly the requested amount, checked against the asset's decimals.
#[derive(Clone, Copy, Debug, PartialEq, Eq, Structural)]
pub struct TransferOrder {
    pub amount: u64,
    pub decimals: u8,
}

/// Checks a transfer of `amount` against the policy and, when allowed, hands
/// back the transfer to carry out; otherwise fails with `OverCap`.
pub fn guarded_transfer(ctx: &GuardedTransfer, amount: u64) -> (r: Result<TransferOrder, CustomError>)
    ensures
        r is Ok <==> transfer_allowed(ctx.config, ctx.supply, ctx.destination_balance, amount),
        ctx.config.graduated ==> r is Ok,
        r is Ok ==> r == Ok::<TransferOrder, CustomError>(
            TransferOrder { amount, decimals: ctx.decimals },
        ),
        r is Err ==> r == Err::<TransferOrder, CustomError>(CustomError::OverCap),
{
    if !within_cap(&ctx.config, ctx.supply, ctx.destination_balance, amount) {
        return Err(CustomError::OverCap);
    }
    Ok(TransferOrder { amount, decimals: ctx.decimals })
}

} // verus!
