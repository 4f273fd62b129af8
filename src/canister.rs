//! The service entry points: one ledger slot, empty until `init_token`, and
//! the operations that the host dispatches to it with the caller's identity.
//! Queries on an empty slot answer a zero or empty value; updates fail with
//! `NotInitialized`.
use crate::ledger::{records, LedgerModel, TokenError, TokenICRC2, TransactionRecord};
use crate::principal::Principal;
use vstd::prelude::*;

verus! {

/// The process-wide ledger slot of the service.
pub struct TokenCanister {
    token: Option<TokenICRC2>,
}

impl View for TokenCanister {
    type V = Option<LedgerModel>;

    closed spec fn view(&self) -> Option<LedgerModel> {
        match self.token {
            Some(t) => Some(t@),
            None => None,
        }
    }
}

impl TokenCanister {
    pub open spec fn wf(&self) -> bool {
        self@ is Some ==> self@.unwrap().wf()
    }

    /// A service whose ledger has not been created yet.
    pub fn new() -> (r: TokenCanister)
        ensures
            r@ is None,
            r.wf(),
    {
        TokenCanister { token: None }
    }

    /// Creates the ledger with `caller` as its owner. A ledger that already
    /// exists is replaced, its balances and history included.
    pub fn init_token(
        &mut self,
        caller: Principal,
        symbol: String,
        name: String,
        total_supply: u64,
        decimals: u8,
    )
        ensures
            final(self)@ == Some(
                LedgerModel::initial(caller@, total_supply, decimals, name@, symbol@),
            ),
            final(self).wf(),
    {
        self.token = Some(TokenICRC2::new(caller, total_supply, decimals, name, symbol));
    }

    pub fn add_minter(&mut self, caller: Principal, minter: Principal) -> (r: Result<
        (),
        TokenError,
    >)
        requires
            old(self).wf(),
        ensures
            final(self).wf(),
            old(self)@ is None ==> r == Err::<(), TokenError>(TokenError::NotInitialized)
                && final(self)@ is None,
            old(self)@ is Some && caller@ != old(self)@.unwrap().owner ==> r == Err::<
                (),
                TokenError,
            >(TokenError::NotOwner) && final(self)@ == old(self)@,
            old(self)@ is Some && caller@ == old(self)@.unwrap().owner ==> r == Ok::<(), TokenError>(
                (),
            ) && final(self)@ == Some(
                (LedgerModel {
                    minters: old(self)@.unwrap().minters.insert(minter@),
                    ..old(self)@.unwrap()
                }),
            ),
    {
        match &mut self.token {
            Some(t) => t.add_minter(caller, minter),
            None => Err(TokenError::NotInitialized),
        }
    }

    pub fn mint(&mut self, caller: Principal, to: Principal, amount: u64) -> (r: Result<
        (),
        TokenError,
    >)
        requires
            old(self).wf(),
            old(self)@ is Some && old(self)@.unwrap().minters.contains(caller@) ==> old(
                self,
            )@.unwrap().total_supply + amount <= u64::MAX,
        ensures
            final(self).wf(),
            old(self)@ is None ==> r == Err::<(), TokenError>(TokenError::NotInitialized)
                && final(self)@ is None,
            old(self)@ is Some && !old(self)@.unwrap().minters.contains(caller@) ==> r == Err::<
                (),
                TokenError,
            >(TokenError::NotAuthorized) && final(self)@ == old(self)@,
            old(self)@ is Some && old(self)@.unwrap().minters.contains(caller@) ==> r == Ok::<
                (),
                TokenError,
            >(()) && final(self)@ == Some(old(self)@.unwrap().minted(caller@, to@, amount)),
    {
        match &mut self.token {
            Some(t) => t.mint(caller, to, amount),
            None => Err(TokenError::NotInitialized),
        }
    }

    /// Whether `who` may mint; false before `init_token`.
    pub fn is_minter(&self, who: &Principal) -> (r: bool)
        ensures
            r == (self@ is Some && self@.unwrap().minters.contains(who@)),
    {
        match &self.token {
            Some(t) => t.is_minter(who),
            None => false,
        }
    }

    pub fn balance_of(&self, user: Principal) -> (r: u64)
        ensures
            r == match self@ {
                Some(m) => m.balance(user@),
                None => 0,
            },
    {
        match &self.token {
            Some(t) => t.balance_of(user),
            None => 0,
        }
    }

    pub fn total_supply(&self) -> (r: u64)
        ensures
            r == match self@ {
                Some(m) => m.total_supply,
                None => 0,
            },
    {
        match &self.token {
            Some(t) => t.total_supply(),
            None => 0,
        }
    }

    pub fn symbol(&self) -> (r: String)
        ensures
            r@ == match self@ {
                Some(m) => m.symbol,
                None => Seq::<char>::empty(),
            },
    {
        match &self.token {
            Some(t) => t.symbol(),
            None => String::new(),
        }
    }

    pub fn name(&self) -> (r: String)
        ensures
            r@ == match self@ {
                Some(m) => m.name,
                None => Seq::<char>::empty(),
            },
    {
        match &self.token {
            Some(t) => t.name(),
            None => String::new(),
        }
    }

    pub fn decimals(&self) -> (r: u8)
        ensures
            r == match self@ {
                Some(m) => m.decimals,
                None => 0,
            },
    {
        match &self.token {
            Some(t) => t.decimals(),
            None => 0,
        }
    }

    pub fn allowance(&self, owner: Principal, spender: Principal) -> (r: u64)
        ensures
            r == match self@ {
                Some(m) => m.allowance(owner@, spender@),
                None => 0,
            },
    {
        match &self.token {
            Some(t) => t.allowance(owner, spender),
            None => 0,
        }
    }

    /// Sets the allowance that `caller` grants `spender`.
    pub fn approve(&mut self, caller: Principal, spender: Principal, amount: u64) -> (r: Result<
        (),
        TokenError,
    >)
        requires
            old(self).wf(),
        ensures
            final(self).wf(),
            old(self)@ is None ==> r == Err::<(), TokenError>(TokenError::NotInitialized)
                && final(self)@ is None,
            old(self)@ is Some ==> r == Ok::<(), TokenError>(()) && final(self)@ == Some(
                old(self)@.unwrap().approved(caller@, spender@, amount),
            ),
    {
        match &mut self.token {
            Some(t) => t.approve(caller, spender, amount),
            None => Err(TokenError::NotInitialized),
        }
    }

    /// Moves `amount` from `caller` to `to`.
    pub fn transfer(&mut self, caller: Principal, to: Principal, amount: u64) -> (r: Result<
        (),
        TokenError,
    >)
        requires
            old(self).wf(),
        ensures
            final(self).wf(),
            old(self)@ is None ==> r == Err::<(), TokenError>(TokenError::NotInitialized)
                && final(self)@ is None,
            old(self)@ is Some && old(self)@.unwrap().balance(caller@) < amount ==> r == Err::<
                (),
                TokenError,
            >(TokenError::InsufficientBalance) && final(self)@ == old(self)@,
            old(self)@ is Some && old(self)@.unwrap().balance(caller@) >= amount ==> r == Ok::<
                (),
                TokenError,
            >(()) && final(self)@ == Some(old(self)@.unwrap().transferred(caller@, to@, amount)),
    {
        match &mut self.token {
            Some(t) => t.transfer(caller, to, amount),
            None => Err(TokenError::NotInitialized),
        }
    }

    /// Adds `cycles` to the burnt-cycle counter; does nothing before `init_token`.
    pub fn burn_cycles(&mut self, cycles: u64)
        requires
            old(self)@ is Some ==> old(self)@.unwrap().burnt_cycles + cycles <= u64::MAX,
        ensures
            old(self)@ is None ==> final(self)@ is None,
            old(self)@ is Some ==> final(self)@ == Some(
                (LedgerModel {
                    burnt_cycles: (old(self)@.unwrap().burnt_cycles + cycles) as u64,
                    ..old(self)@.unwrap()
                }),
            ),
            old(self).wf() ==> final(self).wf(),
    {
        match &mut self.token {
            Some(t) => t.burn_cycles(cycles),
            None => {},
        }
    }

    pub fn burnt_cycles(&self) -> (r: u64)
        ensures
            r == match self@ {
                Some(m) => m.burnt_cycles,
                None => 0,
            },
    {
        match &self.token {
            Some(t) => t.burnt_cycles(),
            None => 0,
        }
    }

    pub fn get_transaction_history(&self) -> (r: Vec<TransactionRecord>)
        ensures
            records(r@) == match self@ {
                Some(m) => m.history,
                None => Seq::empty(),
            },
    {
        match &self.token {
            Some(t) => t.get_transaction_history(),
            None => {
                let r: Vec<TransactionRecord> = Vec::new();
                assert(records(r@) =~= Seq::empty());
                r
            },
        }
    }
}

} // verus!
