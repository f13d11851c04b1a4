//! The values the ledger exchanges with its callers: identities, errors,
//! published events, and what the environment says about the current call.
use vstd::prelude::*;

verus! {

/// The identity of a holder, spender or owner.
pub type Address = u64;

/// Number of decimal places of the token.
pub const DECIMALS: u32 = 18;

/// Why an operation was refused. A refused operation changes nothing.
#[derive(Clone, Copy, Debug, PartialEq, Eq, Structural)]
pub enum TokenError {
    Unauthorized,
    ContractPaused,
    InsufficientBalance,
    InsufficientAllowance,
    InvalidAmount,
    InvalidExpiration,
    Overflow,
}

/// A record published by each successful state change.
#[derive(Clone, Copy, Debug, PartialEq, Eq, Structural)]
pub enum Event {
    Mint { to: Address, amount: i128 },
    Burn { from: Address, amount: i128 },
    Transfer { from: Address, to: Address, amount: i128 },
    Approve { owner: Address, spender: Address, amount: i128, live_until: u32 },
    Paused,
    Unpaused,
    OwnershipTransferred { previous: Address, new_owner: Address },
    OwnershipRenounced { previous: Address },
}

/// What the execution environment tells the ledger about the current call:
/// the ledger height, and the identities whose authorization it has verified.
pub struct Invocation {
    pub sequence: u32,
    pub signers: Vec<Address>,
}

impl Invocation {
    /// The call carries verified authorization for `a`.
    pub open spec fn authorizes(&self, a: Address) -> bool {
        self.signers@.contains(a)
    }

    pub fn is_authorized(&self, a: Address) -> (r: bool)
        ensures
            r == self.authorizes(a),
    {
        let mut i: usize = 0;
        while i < self.signers.len()
            invariant
                0 <= i <= self.signers.len(),
                forall|j: int| 0 <= j < i ==> self.signers@[j] != a,
            decreases self.signers.len() - i,
        {
            if self.signers[i] == a {
                assert(self.signers@[i as int] == a);
                return true;
            }
            i += 1;
        }
        false
    }
}

} // verus!
