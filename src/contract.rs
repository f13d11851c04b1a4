//! The AuraCoin ledger: balances, allowances with expiry, total supply, an
//! owner that gates minting and pausing, and a pause switch that gates
//! every operation that moves balances.
use vstd::prelude::*;
use crate::types::{Address, Event, Invocation, TokenError, DECIMALS};
use crate::table::{
    amounts_nonneg, keys_unique, lemma_entry_le_sum, lemma_lookup_absent, lemma_lookup_at,
    lemma_lookup_found, lemma_lookup_update, lemma_pair_le_sum, lemma_push_unique, lemma_sum_nonneg,
    lemma_sum_update, lookup, sum_amounts,
};

verus! {

/// The amount an allowance lets a spender move at ledger height `height`:
/// the stored amount while `height` is below its expiration, else zero.
pub open spec fn live_amount(stored: Option<(i128, u32)>, height: u32) -> int {
    match stored {
        Some((amount, live_until)) => if height < live_until {
            amount as int
        } else {
            0
        },
        None => 0,
    }
}

/// The token ledger.
pub struct AuraCoin {
    decimals: u32,
    name: &'static str,
    symbol: &'static str,
    owner: Option<Address>,
    paused: bool,
    total_supply: i128,
    balances: Vec<(Address, i128)>,
    allowances: Vec<((Address, Address), (i128, u32))>,
    events: Vec<Event>,
}

impl AuraCoin {
    /// The ledger's invariant: one entry per holder and per (owner, spender)
    /// pair, no negative amount, and a total supply equal to the sum of all
    /// balances.
    pub closed spec fn wf(&self) -> bool {
        &&& keys_unique(self.balances@)
        &&& amounts_nonneg(self.balances@)
        &&& self.total_supply as int == sum_amounts(self.balances@)
        &&& keys_unique(self.allowances@)
        &&& forall|i: int| 0 <= i < self.allowances@.len() ==> self.allowances@[i].1.0 >= 0
    }

    /// The balance of `h`; zero for a holder never credited.
    pub closed spec fn holder_balance(&self, h: Address) -> int {
        match lookup(self.balances@, h) {
            Some(v) => v as int,
            None => 0,
        }
    }

    /// The holders that have an entry, each once, with their balances.
    pub closed spec fn ledger_entries(&self) -> Seq<(Address, i128)> {
        self.balances@
    }

    pub closed spec fn supply(&self) -> int {
        self.total_supply as int
    }

    /// The (amount, expiration height) stored for the pair, if any.
    pub closed spec fn stored_allowance(&self, owner: Address, spender: Address) -> Option<(i128, u32)> {
        lookup(self.allowances@, (owner, spender))
    }

    /// What `spender` may move from `owner` at ledger height `height`.
    pub open spec fn allowance_at(&self, owner: Address, spender: Address, height: u32) -> int {
        live_amount(self.stored_allowance(owner, spender), height)
    }

    pub closed spec fn current_owner(&self) -> Option<Address> {
        self.owner
    }

    pub closed spec fn is_paused(&self) -> bool {
        self.paused
    }

    pub closed spec fn event_log(&self) -> Seq<Event> {
        self.events@
    }

    pub closed spec fn token_decimals(&self) -> u32 {
        self.decimals
    }

    pub closed spec fn token_name(&self) -> Seq<char> {
        self.name@
    }

    pub closed spec fn token_symbol(&self) -> Seq<char> {
        self.symbol@
    }

    /// Field by field: metadata, owner and pause flag are equal.
    spec fn same_config_fields(&self, other: &AuraCoin) -> bool {
        &&& self.decimals == other.decimals
        &&& self.name == other.name
        &&& self.symbol == other.symbol
        &&& self.owner == other.owner
        &&& self.paused == other.paused
    }

    /// Field by field: the balance table and the total supply are equal.
    spec fn same_balance_fields(&self, other: &AuraCoin) -> bool {
        &&& self.balances@ == other.balances@
        &&& self.total_supply == other.total_supply
    }

    /// Field by field: the allowance table is equal.
    spec fn same_allowance_fields(&self, other: &AuraCoin) -> bool {
        self.allowances@ == other.allowances@
    }

    /// Metadata, owner and pause flag agree.
    pub open spec fn same_config(&self, other: &AuraCoin) -> bool {
        &&& self.token_decimals() == other.token_decimals()
        &&& self.token_name() == other.token_name()
        &&& self.token_symbol() == other.token_symbol()
        &&& self.current_owner() == other.current_owner()
        &&& self.is_paused() == other.is_paused()
    }

    /// Every balance, and the total supply, agree.
    pub open spec fn same_balances(&self, other: &AuraCoin) -> bool {
        &&& forall|h: Address| #[trigger] self.holder_balance(h) == other.holder_balance(h)
        &&& self.supply() == other.supply()
    }

    /// Every stored allowance agrees.
    pub open spec fn same_allowances(&self, other: &AuraCoin) -> bool {
        forall|o: Address, s: Address| #[trigger]
            self.stored_allowance(o, s) == other.stored_allowance(o, s)
    }

    fn find_holder(&self, a: Address) -> (r: Option<usize>)
        ensures
            match r {
                Some(i) => i < self.balances@.len() && self.balances@[i as int].0 == a,
                None => forall|j: int| 0 <= j < self.balances@.len() ==> self.balances@[j].0 != a,
            },
    {
        let mut i: usize = 0;
        while i < self.balances.len()
            invariant
                0 <= i <= self.balances.len(),
                forall|j: int| 0 <= j < i ==> self.balances@[j].0 != a,
            decreases self.balances.len() - i,
        {
            if self.balances[i].0 == a {
                return Some(i);
            }
            i += 1;
        }
        None
    }

    fn find_allowance(&self, owner: Address, spender: Address) -> (r: Option<usize>)
        ensures
            match r {
                Some(i) => i < self.allowances@.len() && self.allowances@[i as int].0 == (owner, spender),
                None => forall|j: int|
                    0 <= j < self.allowances@.len() ==> self.allowances@[j].0 != (owner, spender),
            },
    {
        let mut i: usize = 0;
        while i < self.allowances.len()
            invariant
                0 <= i <= self.allowances.len(),
                forall|j: int| 0 <= j < i ==> self.allowances@[j].0 != (owner, spender),
            decreases self.allowances.len() - i,
        {
            let key = self.allowances[i].0;
            if key.0 == owner && key.1 == spender {
                return Some(i);
            }
            i += 1;
        }
        None
    }

    fn read_balance(&self, a: Address) -> (r: i128)
        requires
            self.wf(),
        ensures
            r as int == self.holder_balance(a),
            0 <= r <= self.total_supply,
    {
        match self.find_holder(a) {
            Some(i) => {
                proof {
                    lemma_lookup_at(self.balances@, i as int);
                    lemma_entry_le_sum(self.balances@, i as int);
                }
                self.balances[i].1
            },
            None => {
                proof {
                    lemma_lookup_absent(self.balances@, a);
                    lemma_sum_nonneg(self.balances@);
                }
                0
            },
        }
    }

    fn read_allowance(&self, owner: Address, spender: Address) -> (r: Option<(i128, u32)>)
        requires
            self.wf(),
        ensures
            r == self.stored_allowance(owner, spender),
            r matches Some((amount, _)) ==> amount >= 0,
    {
        match self.find_allowance(owner, spender) {
            Some(i) => {
                proof {
                    lemma_lookup_at(self.allowances@, i as int);
                }
                Some(self.allowances[i].1)
            },
            None => {
                proof {
                    lemma_lookup_absent(self.allowances@, (owner, spender));
                }
                None
            },
        }
    }

    /// Sets the balance of `a` to `v`, leaving every other field as it is;
    /// the sum of balances moves by the difference.
    fn set_balance(&mut self, a: Address, v: i128)
        requires
            keys_unique(old(self).balances@),
            amounts_nonneg(old(self).balances@),
            v >= 0,
        ensures
            keys_unique(final(self).balances@),
            amounts_nonneg(final(self).balances@),
            forall|h: Address| #[trigger]
                final(self).holder_balance(h) == if h == a {
                    v as int
                } else {
                    old(self).holder_balance(h)
                },
            sum_amounts(final(self).balances@) == sum_amounts(old(self).balances@)
                - old(self).holder_balance(a) + v,
            final(self).total_supply == old(self).total_supply,
            final(self).same_config_fields(old(self)),
            final(self).same_allowance_fields(old(self)),
            final(self).events@ == old(self).events@,
    {
        match self.find_holder(a) {
            Some(i) => {
                proof {
                    lemma_lookup_at(self.balances@, i as int);
                    lemma_lookup_update(self.balances@, i as int, v);
                    lemma_sum_update(self.balances@, i as int, v);
                }
                self.balances.set(i, (a, v));
            },
            None => {
                proof {
                    lemma_lookup_absent(self.balances@, a);
                    lemma_push_unique(self.balances@, a, v);
                    let s = self.balances@.push((a, v));
                    assert(s.drop_last() =~= self.balances@);
                    assert forall|h: Address| lookup(s, h) == if h == a {
                        Some(v)
                    } else {
                        lookup(self.balances@, h)
                    } by {}
                }
                self.balances.push((a, v));
            },
        }
    }

    /// Stores (`amount`, `live_until`) for the pair, leaving every other
    /// field as it is.
    fn set_allowance(&mut self, owner: Address, spender: Address, amount: i128, live_until: u32)
        requires
            old(self).wf(),
            amount >= 0,
        ensures
            final(self).wf(),
            forall|o: Address, s: Address| #[trigger]
                final(self).stored_allowance(o, s) == if o == owner && s == spender {
                    Some((amount, live_until))
                } else {
                    old(self).stored_allowance(o, s)
                },
            final(self).same_config_fields(old(self)),
            final(self).same_balance_fields(old(self)),
            final(self).events@ == old(self).events@,
    {
        let ghost prev = self.allowances@;
        match self.find_allowance(owner, spender) {
            Some(i) => {
                proof {
                    lemma_lookup_update(prev, i as int, (amount, live_until));
                }
                self.allowances.set(i, ((owner, spender), (amount, live_until)));
                proof {
                    assert(self.allowances@ == prev.update(i as int, (prev[i as int].0, (amount, live_until))));
                    assert forall|o: Address, s: Address| #[trigger]
                        self.stored_allowance(o, s) == if o == owner && s == spender {
                            Some((amount, live_until))
                        } else {
                            lookup(prev, (o, s))
                        } by {
                        assert(lookup(self.allowances@, (o, s)) == if (o, s) == prev[i as int].0 {
                            Some((amount, live_until))
                        } else {
                            lookup(prev, (o, s))
                        });
                    }
                }
            },
            None => {
                proof {
                    lemma_push_unique(prev, (owner, spender), (amount, live_until));
                    assert(prev.push(((owner, spender), (amount, live_until))).drop_last() =~= prev);
                }
                self.allowances.push(((owner, spender), (amount, live_until)));
            },
        }
    }

    /// Moves `amount` from `from` to `to`; a move to oneself changes nothing.
    fn move_balance(&mut self, from: Address, to: Address, amount: i128)
        requires
            old(self).wf(),
            0 <= amount <= old(self).holder_balance(from),
            from != to ==> old(self).holder_balance(to) + amount <= i128::MAX,
        ensures
            final(self).wf(),
            forall|h: Address| #[trigger]
                final(self).holder_balance(h) == old(self).holder_balance(h) - (if h == from {
                    amount as int
                } else {
                    0
                }) + (if h == to {
                    amount as int
                } else {
                    0
                }),
            final(self).supply() == old(self).supply(),
            final(self).same_config_fields(old(self)),
            final(self).same_allowance_fields(old(self)),
            final(self).events@ == old(self).events@,
    {
        if from != to && amount > 0 {
            let from_balance = self.read_balance(from);
            let to_balance = self.read_balance(to);
            self.set_balance(from, from_balance - amount);
            self.set_balance(to, to_balance + amount);
        }
    }

    /// Consumes `amount` of the allowance of (`owner`, `spender`).
    fn spend_allowance(&mut self, owner: Address, spender: Address, amount: i128, height: u32)
        requires
            old(self).wf(),
            0 <= amount <= old(self).allowance_at(owner, spender, height),
        ensures
            final(self).wf(),
            forall|o: Address, s: Address| #[trigger]
                final(self).stored_allowance(o, s) == if o == owner && s == spender {
                    after_spend(old(self).stored_allowance(o, s), amount)
                } else {
                    old(self).stored_allowance(o, s)
                },
            final(self).same_config_fields(old(self)),
            final(self).same_balance_fields(old(self)),
            final(self).events@ == old(self).events@,
    {
        if amount > 0 {
            match self.read_allowance(owner, spender) {
                Some((stored, live_until)) => {
                    self.set_allowance(owner, spender, stored - amount, live_until);
                },
                None => {},
            }
        }
    }

    /// A ledger owned by `owner`, with metadata set, no balances, no
    /// allowances, and not paused.
    pub fn new(owner: Address) -> (r: AuraCoin)
        ensures
            r.wf(),
            r.current_owner() == Some(owner),
            !r.is_paused(),
            r.supply() == 0,
            forall|h: Address| r.holder_balance(h) == 0,
            forall|o: Address, s: Address| r.stored_allowance(o, s) is None,
            r.token_decimals() == DECIMALS,
            r.token_name() == "Aura Coin"@,
            r.token_symbol() == "AURA"@,
            r.event_log().len() == 0,
    {
        AuraCoin {
            decimals: DECIMALS,
            name: "Aura Coin",
            symbol: "AURA",
            owner: Some(owner),
            paused: false,
            total_supply: 0,
            balances: Vec::new(),
            allowances: Vec::new(),
            events: Vec::new(),
        }
    }

    pub fn decimals(&self) -> (r: u32)
        ensures
            r == self.token_decimals(),
    {
        self.decimals
    }

    pub fn name(&self) -> (r: &'static str)
        ensures
            r@ == self.token_name(),
    {
        self.name
    }

    pub fn symbol(&self) -> (r: &'static str)
        ensures
            r@ == self.token_symbol(),
    {
        self.symbol
    }

    pub fn total_supply(&self) -> (r: i128)
        ensures
            r as int == self.supply(),
    {
        self.total_supply
    }

    /// The balance of `holder`; zero for one never credited.
    pub fn balance(&self, holder: Address) -> (r: i128)
        requires
            self.wf(),
        ensures
            r as int == self.holder_balance(holder),
            r >= 0,
    {
        self.read_balance(holder)
    }

    /// What `spender` may still move from `owner` at the current height; an
    /// expired allowance reads as zero.
    pub fn allowance(&self, env: &Invocation, owner: Address, spender: Address) -> (r: i128)
        requires
            self.wf(),
        ensures
            r as int == self.allowance_at(owner, spender, env.sequence),
            r >= 0,
    {
        match self.read_allowance(owner, spender) {
            Some((amount, live_until)) => if env.sequence < live_until {
                amount
            } else {
                0
            },
            None => 0,
        }
    }

    pub fn paused(&self) -> (r: bool)
        ensures
            r == self.is_paused(),
    {
        self.paused
    }

    pub fn get_owner(&self) -> (r: Option<Address>)
        ensures
            r == self.current_owner(),
    {
        self.owner
    }

    /// The events published so far, oldest first.
    pub fn events(&self) -> (r: &Vec<Event>)
        ensures
            r@ == self.event_log(),
    {
        &self.events
    }
}

impl AuraCoin {
    /// The balance of `h` after `amount` moved from `from` to `to`.
    pub open spec fn moved(&self, h: Address, from: Address, to: Address, amount: i128) -> int {
        self.holder_balance(h) - (if h == from {
            amount as int
        } else {
            0
        }) + (if h == to {
            amount as int
        } else {
            0
        })
    }

    /// The first check that refuses `transfer`, if any.
    pub open spec fn transfer_error(
        &self,
        env: &Invocation,
        from: Address,
        to: Address,
        amount: i128,
    ) -> Option<TokenError> {
        if !env.authorizes(from) {
            Some(TokenError::Unauthorized)
        } else if self.is_paused() {
            Some(TokenError::ContractPaused)
        } else if amount < 0 {
            Some(TokenError::InvalidAmount)
        } else if self.holder_balance(from) < amount {
            Some(TokenError::InsufficientBalance)
        } else if from != to && self.holder_balance(to) + amount > i128::MAX {
            Some(TokenError::Overflow)
        } else {
            None
        }
    }

    /// The first check that refuses `transfer_from`, if any.
    pub open spec fn transfer_from_error(
        &self,
        env: &Invocation,
        spender: Address,
        from: Address,
        to: Address,
        amount: i128,
    ) -> Option<TokenError> {
        if !env.authorizes(spender) {
            Some(TokenError::Unauthorized)
        } else if self.is_paused() {
            Some(TokenError::ContractPaused)
        } else if amount < 0 {
            Some(TokenError::InvalidAmount)
        } else if self.allowance_at(from, spender, env.sequence) < amount {
            Some(TokenError::InsufficientAllowance)
        } else if self.holder_balance(from) < amount {
            Some(TokenError::InsufficientBalance)
        } else if from != to && self.holder_balance(to) + amount > i128::MAX {
            Some(TokenError::Overflow)
        } else {
            None
        }
    }

    /// The first check that refuses `burn`, if any.
    pub open spec fn burn_error(&self, env: &Invocation, from: Address, amount: i128) -> Option<TokenError> {
        if !env.authorizes(from) {
            Some(TokenError::Unauthorized)
        } else if self.is_paused() {
            Some(TokenError::ContractPaused)
        } else if amount < 0 {
            Some(TokenError::InvalidAmount)
        } else if self.holder_balance(from) < amount {
            Some(TokenError::InsufficientBalance)
        } else {
            None
        }
    }

    /// The first check that refuses `burn_from`, if any.
    pub open spec fn burn_from_error(
        &self,
        env: &Invocation,
        spender: Address,
        from: Address,
        amount: i128,
    ) -> Option<TokenError> {
        if !env.authorizes(spender) {
            Some(TokenError::Unauthorized)
        } else if self.is_paused() {
            Some(TokenError::ContractPaused)
        } else if amount < 0 {
            Some(TokenError::InvalidAmount)
        } else if self.allowance_at(from, spender, env.sequence) < amount {
            Some(TokenError::InsufficientAllowance)
        } else if self.holder_balance(from) < amount {
            Some(TokenError::InsufficientBalance)
        } else {
            None
        }
    }

    /// The call carries the authorization of the current owner; always
    /// false once ownership is renounced.
    pub open spec fn owner_authorized(&self, env: &Invocation) -> bool {
        match self.current_owner() {
            Some(o) => env.authorizes(o),
            None => false,
        }
    }

    /// `caller` is the current owner and the call carries its authorization.
    pub open spec fn caller_is_owner(&self, env: &Invocation, caller: Address) -> bool {
        self.current_owner() == Some(caller) && env.authorizes(caller)
    }

    /// The first check that refuses `mint`, if any.
    pub open spec fn mint_error(&self, env: &Invocation, amount: i128) -> Option<TokenError> {
        if !self.owner_authorized(env) {
            Some(TokenError::Unauthorized)
        } else if self.is_paused() {
            Some(TokenError::ContractPaused)
        } else if amount < 0 {
            Some(TokenError::InvalidAmount)
        } else if self.supply() + amount > i128::MAX {
            Some(TokenError::Overflow)
        } else {
            None
        }
    }

    /// The first check that refuses `approve`, if any. Approving is not
    /// gated by the pause switch: it moves no balance.
    pub open spec fn approve_error(
        &self,
        env: &Invocation,
        owner: Address,
        amount: i128,
        live_until: u32,
    ) -> Option<TokenError> {
        if !env.authorizes(owner) {
            Some(TokenError::Unauthorized)
        } else if amount < 0 {
            Some(TokenError::InvalidAmount)
        } else if amount > 0 && live_until < env.sequence {
            Some(TokenError::InvalidExpiration)
        } else {
            None
        }
    }

    fn check_owner(&self, env: &Invocation) -> (r: bool)
        ensures
            r == self.owner_authorized(env),
    {
        match self.owner {
            Some(o) => env.is_authorized(o),
            None => false,
        }
    }

    /// Moves `amount` from `from` to `to` on the authority of `from`.
    pub fn transfer(&mut self, env: &Invocation, from: Address, to: Address, amount: i128) -> (r: Result<(), TokenError>)
        requires
            old(self).wf(),
        ensures
            final(self).wf(),
            r == match old(self).transfer_error(env, from, to, amount) {
                Some(e) => Err(e),
                None => Ok(()),
            },
            r is Err ==> *final(self) == *old(self),
            r is Ok ==> {
                &&& forall|h: Address| #[trigger]
                    final(self).holder_balance(h) == old(self).moved(h, from, to, amount)
                &&& final(self).supply() == old(self).supply()
                &&& final(self).same_config(old(self))
                &&& final(self).same_allowances(old(self))
                &&& final(self).event_log() == old(self).event_log().push(
                    (Event::Transfer { from, to, amount }),
                )
            },
    {
        if !env.is_authorized(from) {
            return Err(TokenError::Unauthorized);
        }
        if self.paused {
            return Err(TokenError::ContractPaused);
        }
        if amount < 0 {
            return Err(TokenError::InvalidAmount);
        }
        let from_balance = self.read_balance(from);
        if from_balance < amount {
            return Err(TokenError::InsufficientBalance);
        }
        let to_balance = self.read_balance(to);
        if from != to && to_balance > i128::MAX - amount {
            return Err(TokenError::Overflow);
        }
        self.events.push(Event::Transfer { from, to, amount });
        self.move_balance(from, to, amount);
        Ok(())
    }

    /// Moves `amount` from `from` to `to` on the authority of `spender`,
    /// consuming that much of the allowance `from` gave `spender`.
    pub fn transfer_from(
        &mut self,
        env: &Invocation,
        spender: Address,
        from: Address,
        to: Address,
        amount: i128,
    ) -> (r: Result<(), TokenError>)
        requires
            old(self).wf(),
        ensures
            final(self).wf(),
            r == match old(self).transfer_from_error(env, spender, from, to, amount) {
                Some(e) => Err(e),
                None => Ok(()),
            },
            r is Err ==> *final(self) == *old(self),
            r is Ok ==> {
                &&& forall|h: Address| #[trigger]
                    final(self).holder_balance(h) == old(self).moved(h, from, to, amount)
                &&& final(self).supply() == old(self).supply()
                &&& final(self).same_config(old(self))
                &&& forall|o: Address, s: Address| #[trigger]
                    final(self).stored_allowance(o, s) == if o == from && s == spender {
                        after_spend(old(self).stored_allowance(o, s), amount)
                    } else {
                        old(self).stored_allowance(o, s)
                    }
                &&& final(self).event_log() == old(self).event_log().push(
                    (Event::Transfer { from, to, amount }),
                )
            },
    {
        if !env.is_authorized(spender) {
            return Err(TokenError::Unauthorized);
        }
        if self.paused {
            return Err(TokenError::ContractPaused);
        }
        if amount < 0 {
            return Err(TokenError::InvalidAmount);
        }
        if self.allowance(env, from, spender) < amount {
            return Err(TokenError::InsufficientAllowance);
        }
        let from_balance = self.read_balance(from);
        if from_balance < amount {
            return Err(TokenError::InsufficientBalance);
        }
        let to_balance = self.read_balance(to);
        if from != to && to_balance > i128::MAX - amount {
            return Err(TokenError::Overflow);
        }
        self.events.push(Event::Transfer { from, to, amount });
        self.spend_allowance(from, spender, amount, env.sequence);
        let ghost spent = *self;
        self.move_balance(from, to, amount);
        proof {
            assert forall|o: Address, s: Address| #[trigger]
                self.stored_allowance(o, s) == spent.stored_allowance(o, s) by {}
        }
        Ok(())
    }

    /// Destroys `amount` of the balance of `from` on its own authority.
    pub fn burn(&mut self, env: &Invocation, from: Address, amount: i128) -> (r: Result<(), TokenError>)
        requires
            old(self).wf(),
        ensures
            final(self).wf(),
            r == match old(self).burn_error(env, from, amount) {
                Some(e) => Err(e),
                None => Ok(()),
            },
            r is Err ==> *final(self) == *old(self),
            r is Ok ==> {
                &&& forall|h: Address| #[trigger]
                    final(self).holder_balance(h) == old(self).holder_balance(h) - (if h == from {
                        amount as int
                    } else {
                        0
                    })
                &&& final(self).supply() == old(self).supply() - amount
                &&& final(self).same_config(old(self))
                &&& final(self).same_allowances(old(self))
                &&& final(self).event_log() == old(self).event_log().push(
                    (Event::Burn { from, amount }),
                )
            },
    {
        if !env.is_authorized(from) {
            return Err(TokenError::Unauthorized);
        }
        if self.paused {
            return Err(TokenError::ContractPaused);
        }
        if amount < 0 {
            return Err(TokenError::InvalidAmount);
        }
        let from_balance = self.read_balance(from);
        if from_balance < amount {
            return Err(TokenError::InsufficientBalance);
        }
        self.events.push(Event::Burn { from, amount });
        self.total_supply = self.total_supply - amount;
        self.set_balance(from, from_balance - amount);
        Ok(())
    }

    /// Destroys `amount` of the balance of `from` on the authority of
    /// `spender`, consuming that much of the allowance `from` gave it.
    pub fn burn_from(&mut self, env: &Invocation, spender: Address, from: Address, amount: i128) -> (r: Result<(), TokenError>)
        requires
            old(self).wf(),
        ensures
            final(self).wf(),
            r == match old(self).burn_from_error(env, spender, from, amount) {
                Some(e) => Err(e),
                None => Ok(()),
            },
            r is Err ==> *final(self) == *old(self),
            r is Ok ==> {
                &&& forall|h: Address| #[trigger]
                    final(self).holder_balance(h) == old(self).holder_balance(h) - (if h == from {
                        amount as int
                    } else {
                        0
                    })
                &&& final(self).supply() == old(self).supply() - amount
                &&& final(self).same_config(old(self))
                &&& forall|o: Address, s: Address| #[trigger]
                    final(self).stored_allowance(o, s) == if o == from && s == spender {
                        after_spend(old(self).stored_allowance(o, s), amount)
                    } else {
                        old(self).stored_allowance(o, s)
                    }
                &&& final(self).event_log() == old(self).event_log().push(
                    (Event::Burn { from, amount }),
                )
            },
    {
        if !env.is_authorized(spender) {
            return Err(TokenError::Unauthorized);
        }
        if self.paused {
            return Err(TokenError::ContractPaused);
        }
        if amount < 0 {
            return Err(TokenError::InvalidAmount);
        }
        if self.allowance(env, from, spender) < amount {
            return Err(TokenError::InsufficientAllowance);
        }
        let from_balance = self.read_balance(from);
        if from_balance < amount {
            return Err(TokenError::InsufficientBalance);
        }
        self.events.push(Event::Burn { from, amount });
        self.spend_allowance(from, spender, amount, env.sequence);
        let ghost spent = *self;
        self.total_supply = self.total_supply - amount;
        self.set_balance(from, from_balance - amount);
        proof {
            assert forall|o: Address, s: Address| #[trigger]
                self.stored_allowance(o, s) == spent.stored_allowance(o, s) by {}
        }
        Ok(())
    }

    /// Creates `amount` new tokens for `account`, on the authority of the
    /// owner.
    pub fn mint(&mut self, env: &Invocation, account: Address, amount: i128) -> (r: Result<(), TokenError>)
        requires
            old(self).wf(),
        ensures
            final(self).wf(),
            r == match old(self).mint_error(env, amount) {
                Some(e) => Err(e),
                None => Ok(()),
            },
            r is Err ==> *final(self) == *old(self),
            r is Ok ==> {
                &&& forall|h: Address| #[trigger]
                    final(self).holder_balance(h) == old(self).holder_balance(h) + (if h == account {
                        amount as int
                    } else {
                        0
                    })
                &&& final(self).supply() == old(self).supply() + amount
                &&& final(self).same_config(old(self))
                &&& final(self).same_allowances(old(self))
                &&& final(self).event_log() == old(self).event_log().push(
                    (Event::Mint { to: account, amount }),
                )
            },
    {
        if !self.check_owner(env) {
            return Err(TokenError::Unauthorized);
        }
        if self.paused {
            return Err(TokenError::ContractPaused);
        }
        if amount < 0 {
            return Err(TokenError::InvalidAmount);
        }
        if self.total_supply > i128::MAX - amount {
            return Err(TokenError::Overflow);
        }
        let balance = self.read_balance(account);
        self.events.push(Event::Mint { to: account, amount });
        self.total_supply = self.total_supply + amount;
        self.set_balance(account, balance + amount);
        Ok(())
    }

    /// Lets `spender` move up to `amount` from `owner` until ledger height
    /// `live_until`, replacing any earlier allowance of the pair.
    pub fn approve(
        &mut self,
        env: &Invocation,
        owner: Address,
        spender: Address,
        amount: i128,
        live_until: u32,
    ) -> (r: Result<(), TokenError>)
        requires
            old(self).wf(),
        ensures
            final(self).wf(),
            r == match old(self).approve_error(env, owner, amount, live_until) {
                Some(e) => Err(e),
                None => Ok(()),
            },
            r is Err ==> *final(self) == *old(self),
            r is Ok ==> {
                &&& forall|o: Address, s: Address| #[trigger]
                    final(self).stored_allowance(o, s) == if o == owner && s == spender {
                        Some((amount, live_until))
                    } else {
                        old(self).stored_allowance(o, s)
                    }
                &&& final(self).same_config(old(self))
                &&& final(self).same_balances(old(self))
                &&& final(self).event_log() == old(self).event_log().push(
                    (Event::Approve { owner, spender, amount, live_until }),
                )
            },
    {
        if !env.is_authorized(owner) {
            return Err(TokenError::Unauthorized);
        }
        if amount < 0 {
            return Err(TokenError::InvalidAmount);
        }
        if amount > 0 && live_until < env.sequence {
            return Err(TokenError::InvalidExpiration);
        }
        self.events.push(Event::Approve { owner, spender, amount, live_until });
        self.set_allowance(owner, spender, amount, live_until);
        Ok(())
    }

    /// Engages the pause switch; `caller` must be the owner. Pausing a
    /// paused ledger succeeds.
    pub fn pause(&mut self, env: &Invocation, caller: Address) -> (r: Result<(), TokenError>)
        requires
            old(self).wf(),
        ensures
            final(self).wf(),
            r == if old(self).caller_is_owner(env, caller) {
                Ok(())
            } else {
                Err(TokenError::Unauthorized)
            },
            r is Err ==> *final(self) == *old(self),
            r is Ok ==> {
                &&& final(self).is_paused()
                &&& final(self).current_owner() == old(self).current_owner()
                &&& final(self).same_balances(old(self))
                &&& final(self).same_allowances(old(self))
                &&& final(self).event_log() == old(self).event_log().push(Event::Paused)
            },
    {
        if self.owner != Some(caller) || !env.is_authorized(caller) {
            return Err(TokenError::Unauthorized);
        }
        self.paused = true;
        self.events.push(Event::Paused);
        Ok(())
    }

    /// Releases the pause switch; `caller` must be the owner. Unpausing a
    /// ledger that is not paused succeeds.
    pub fn unpause(&mut self, env: &Invocation, caller: Address) -> (r: Result<(), TokenError>)
        requires
            old(self).wf(),
        ensures
            final(self).wf(),
            r == if old(self).caller_is_owner(env, caller) {
                Ok(())
            } else {
                Err(TokenError::Unauthorized)
            },
            r is Err ==> *final(self) == *old(self),
            r is Ok ==> {
                &&& !final(self).is_paused()
                &&& final(self).current_owner() == old(self).current_owner()
                &&& final(self).same_balances(old(self))
                &&& final(self).same_allowances(old(self))
                &&& final(self).event_log() == old(self).event_log().push(Event::Unpaused)
            },
    {
        if self.owner != Some(caller) || !env.is_authorized(caller) {
            return Err(TokenError::Unauthorized);
        }
        self.paused = false;
        self.events.push(Event::Unpaused);
        Ok(())
    }

    /// Hands ownership to `new_owner`, on the authority of the current owner.
    pub fn transfer_ownership(&mut self, env: &Invocation, new_owner: Address) -> (r: Result<(), TokenError>)
        requires
            old(self).wf(),
        ensures
            final(self).wf(),
            r == if old(self).owner_authorized(env) {
                Ok(())
            } else {
                Err(TokenError::Unauthorized)
            },
            r is Err ==> *final(self) == *old(self),
            r is Ok ==> {
                &&& final(self).current_owner() == Some(new_owner)
                &&& final(self).is_paused() == old(self).is_paused()
                &&& final(self).same_balances(old(self))
                &&& final(self).same_allowances(old(self))
                &&& final(self).event_log() == old(self).event_log().push(
                    (Event::OwnershipTransferred {
                        previous: old(self).current_owner().unwrap(),
                        new_owner,
                    }),
                )
            },
    {
        match self.owner {
            Some(previous) => {
                if !env.is_authorized(previous) {
                    return Err(TokenError::Unauthorized);
                }
                self.owner = Some(new_owner);
                self.events.push(Event::OwnershipTransferred { previous, new_owner });
                Ok(())
            },
            None => Err(TokenError::Unauthorized),
        }
    }

    /// Gives up ownership for good, on the authority of the current owner;
    /// afterwards every owner-gated operation is refused.
    pub fn renounce_ownership(&mut self, env: &Invocation) -> (r: Result<(), TokenError>)
        requires
            old(self).wf(),
        ensures
            final(self).wf(),
            r == if old(self).owner_authorized(env) {
                Ok(())
            } else {
                Err(TokenError::Unauthorized)
            },
            r is Err ==> *final(self) == *old(self),
            r is Ok ==> {
                &&& final(self).current_owner() is None
                &&& final(self).is_paused() == old(self).is_paused()
                &&& final(self).same_balances(old(self))
                &&& final(self).same_allowances(old(self))
                &&& final(self).event_log() == old(self).event_log().push(
                    (Event::OwnershipRenounced { previous: old(self).current_owner().unwrap() }),
                )
            },
    {
        match self.owner {
            Some(previous) => {
                if !env.is_authorized(previous) {
                    return Err(TokenError::Unauthorized);
                }
                self.owner = None;
                self.events.push(Event::OwnershipRenounced { previous });
                Ok(())
            },
            None => Err(TokenError::Unauthorized),
        }
    }
}

/// The stored allowance after `amount` of it has been spent: the amount goes
/// down and the expiration stays; spending nothing changes nothing.
pub open spec fn after_spend(stored: Option<(i128, u32)>, amount: i128) -> Option<(i128, u32)> {
    match stored {
        Some((a, live_until)) => if amount > 0 {
            Some(((a - amount) as i128, live_until))
        } else {
            stored
        },
        None => None,
    }
}

/// The total supply is the sum of the balances of all holders: the ledger
/// lists each holder with a non-zero balance exactly once, with that
/// balance, and its amounts add up to the total supply.
pub proof fn lemma_supply_is_sum_of_balances(t: &AuraCoin)
    requires
        t.wf(),
    ensures
        keys_unique(t.ledger_entries()),
        forall|i: int|
            0 <= i < t.ledger_entries().len() ==> t.holder_balance(#[trigger] t.ledger_entries()[i].0)
                == t.ledger_entries()[i].1,
        forall|h: Address|
            t.holder_balance(h) != 0 ==> exists|i: int|
                0 <= i < t.ledger_entries().len() && t.ledger_entries()[i].0 == h,
        t.supply() == sum_amounts(t.ledger_entries()),
{
    assert forall|i: int| 0 <= i < t.ledger_entries().len() implies t.holder_balance(
        #[trigger] t.ledger_entries()[i].0,
    ) == t.ledger_entries()[i].1 by {
        lemma_lookup_at(t.balances@, i);
    }
    assert forall|h: Address| t.holder_balance(h) != 0 implies exists|i: int|
        0 <= i < t.ledger_entries().len() && t.ledger_entries()[i].0 == h by {
        lemma_lookup_found(t.balances@, h);
    }
}

/// No balance is ever negative, and none exceeds the total supply, which
/// fits in an `i128`.
pub proof fn lemma_balance_nonneg(t: &AuraCoin, h: Address)
    requires
        t.wf(),
    ensures
        0 <= t.holder_balance(h) <= t.supply() <= i128::MAX,
{
    lemma_sum_nonneg(t.balances@);
    if lookup(t.balances@, h) is Some {
        lemma_lookup_found(t.balances@, h);
        let i = choose|i: int|
            0 <= i < t.balances@.len() && t.balances@[i].0 == h && lookup(t.balances@, h) == Some(
                t.balances@[i].1,
            );
        lemma_entry_le_sum(t.balances@, i);
    }
}

/// Two distinct holders together hold no more than the total supply.
pub proof fn lemma_two_balances_le_supply(t: &AuraCoin, a: Address, b: Address)
    requires
        t.wf(),
        a != b,
    ensures
        t.holder_balance(a) + t.holder_balance(b) <= t.supply(),
{
    lemma_balance_nonneg(t, a);
    lemma_balance_nonneg(t, b);
    let s = t.balances@;
    if lookup(s, a) is Some && lookup(s, b) is Some {
        lemma_lookup_found(s, a);
        lemma_lookup_found(s, b);
        let i = choose|i: int| 0 <= i < s.len() && s[i].0 == a && lookup(s, a) == Some(s[i].1);
        let j = choose|j: int| 0 <= j < s.len() && s[j].0 == b && lookup(s, b) == Some(s[j].1);
        lemma_pair_le_sum(s, i, j);
    }
}

} // verus!
