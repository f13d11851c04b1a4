//! Properties of the ledger that relate several operations, proved from the
//! operations' contracts.
use vstd::prelude::*;
use crate::contract::{lemma_balance_nonneg, lemma_two_balances_le_supply, AuraCoin};
use crate::types::{Address, Invocation, TokenError};

verus! {

/// A transfer of nothing from a holder to itself succeeds whenever the holder
/// authorizes it and the ledger is not paused, and leaves every balance as it
/// was.
pub proof fn lemma_self_transfer_of_zero(t: &AuraCoin, env: &Invocation, a: Address)
    requires
        t.wf(),
        env.authorizes(a),
        !t.is_paused(),
    ensures
        t.transfer_error(env, a, a, 0) is None,
        forall|h: Address| #[trigger] t.moved(h, a, a, 0) == t.holder_balance(h),
{
    lemma_balance_nonneg(t, a);
}

/// Once the ledger height has reached an allowance's expiration, the
/// allowance reads as zero, and any delegated transfer or burn of a positive
/// amount that passes the authorization and pause checks is refused for want
/// of allowance.
pub proof fn lemma_expired_allowance(
    t: &AuraCoin,
    env: &Invocation,
    owner: Address,
    spender: Address,
    to: Address,
    amount: i128,
)
    requires
        t.wf(),
        t.stored_allowance(owner, spender) matches Some((_, live_until)) && live_until
            <= env.sequence,
        env.authorizes(spender),
        !t.is_paused(),
        amount > 0,
    ensures
        t.allowance_at(owner, spender, env.sequence) == 0,
        t.transfer_from_error(env, spender, owner, to, amount) == Some(
            TokenError::InsufficientAllowance,
        ),
        t.burn_from_error(env, spender, owner, amount) == Some(TokenError::InsufficientAllowance),
{
}

/// A mint whose call does not carry the owner's authorization is refused as
/// unauthorized, whatever the amount; a refused mint changes nothing.
pub proof fn lemma_mint_needs_owner(t: &AuraCoin, env: &Invocation, amount: i128)
    requires
        !t.owner_authorized(env),
    ensures
        t.mint_error(env, amount) == Some(TokenError::Unauthorized),
{
}

/// While the ledger is paused, an authorized transfer is refused as paused;
/// while it is not, a transfer that the sender authorizes and its balance
/// covers succeeds.
pub proof fn lemma_pause_gates_transfer(
    t: &AuraCoin,
    env: &Invocation,
    from: Address,
    to: Address,
    amount: i128,
)
    requires
        t.wf(),
        env.authorizes(from),
    ensures
        t.is_paused() ==> t.transfer_error(env, from, to, amount) == Some(
            TokenError::ContractPaused,
        ),
        !t.is_paused() && 0 <= amount <= t.holder_balance(from) ==> t.transfer_error(
            env,
            from,
            to,
            amount,
        ) is None,
{
    lemma_balance_nonneg(t, from);
    if from != to {
        lemma_two_balances_le_supply(t, from, to);
    }
}

} // verus!
