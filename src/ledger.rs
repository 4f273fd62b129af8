//! The ledger state machine: balances, allowances, minters, a burnt-cycle
//! counter and the history of transfers and mints.
use crate::entries::{
    index_of, keys, keys_unique, lemma_index_of, lemma_index_of_at, lemma_lookup_le_total,
    lemma_lookup_put, lemma_put_contains, lemma_put_keeps_keys, lemma_put_keys_unique,
    lemma_total_put, lookup, put, sum_lookups, total,
};
use crate::principal::Principal;
use vstd::prelude::*;

verus! {

/// Why a ledger operation was refused.
#[derive(Debug, Clone, Copy, PartialEq, Eq, Structural)]
pub enum TokenError {
    /// A mutating operation reached a canister whose ledger was never created.
    NotInitialized,
    /// The source of a transfer holds less than the amount.
    InsufficientBalance,
    /// The caller of `mint` is not a minter.
    NotAuthorized,
    /// The caller of `add_minter` is not the ledger's owner.
    NotOwner,
}

impl TokenError {
    /// The message that the service boundary reports for this error.
    pub fn message(&self) -> String {
        match self {
            TokenError::NotInitialized => "Token not initialized".to_owned(),
            TokenError::InsufficientBalance => "Insufficient balance".to_owned(),
            TokenError::NotAuthorized => "Caller is not authorized to mint".to_owned(),
            TokenError::NotOwner => "Only the owner can add minters".to_owned(),
        }
    }
}

/// Descriptive data of a token.
pub struct Token {
    pub symbol: String,
    pub name: String,
    pub total_supply: u64,
    pub owner: Principal,
    pub decimals: u8,
}

/// One entry of the audit trail: a transfer or a mint.
#[derive(Debug)]
pub struct TransactionRecord {
    pub from: Principal,
    pub to: Principal,
    pub amount: u64,
    pub post_balance_from: u64,
    pub post_balance_to: u64,
    pub cycles_burnt: u64,
    pub reason: String,
}

/// What a [`TransactionRecord`] holds, as plain values.
pub struct RecordModel {
    pub from: Seq<u8>,
    pub to: Seq<u8>,
    pub amount: u64,
    pub post_balance_from: u64,
    pub post_balance_to: u64,
    pub cycles_burnt: u64,
    pub reason: Seq<char>,
}

impl View for TransactionRecord {
    type V = RecordModel;

    open spec fn view(&self) -> RecordModel {
        RecordModel {
            from: self.from@,
            to: self.to@,
            amount: self.amount,
            post_balance_from: self.post_balance_from,
            post_balance_to: self.post_balance_to,
            cycles_burnt: self.cycles_burnt,
            reason: self.reason@,
        }
    }
}

impl Clone for TransactionRecord {
    fn clone(&self) -> (r: TransactionRecord)
        ensures
            r@ == self@,
    {
        TransactionRecord {
            from: self.from.clone(),
            to: self.to.clone(),
            amount: self.amount,
            post_balance_from: self.post_balance_from,
            post_balance_to: self.post_balance_to,
            cycles_burnt: self.cycles_burnt,
            reason: self.reason.clone(),
        }
    }
}

/// The reason written into a transfer's record: it tells whether the
/// ledger-wide burnt-cycle counter was nonzero at the time of the transfer.
pub open spec fn transfer_reason(cycles_burnt: u64) -> Seq<char> {
    if cycles_burnt > 0 {
        "Cycles were burnt due to transfer fees or maintenance costs."@
    } else {
        "No cycles were burnt as no transfer fees applied."@
    }
}

/// The reason written into every mint's record.
pub open spec fn mint_reason() -> Seq<char> {
    "Minting operation has no cycle burn cost."@
}

/// The abstract state of a ledger.
pub struct LedgerModel {
    pub owner: Seq<u8>,
    pub name: Seq<char>,
    pub symbol: Seq<char>,
    pub decimals: u8,
    pub total_supply: u64,
    /// One entry per identity ever credited or debited, in the order of first use.
    pub balances: Seq<(Seq<u8>, u64)>,
    /// One entry per (owner, spender) pair ever approved.
    pub allowances: Seq<((Seq<u8>, Seq<u8>), u64)>,
    pub minters: Set<Seq<u8>>,
    pub burnt_cycles: u64,
    pub history: Seq<RecordModel>,
}

impl LedgerModel {
    pub open spec fn balance(self, who: Seq<u8>) -> u64 {
        lookup(self.balances, who)
    }

    pub open spec fn allowance(self, owner: Seq<u8>, spender: Seq<u8>) -> u64 {
        lookup(self.allowances, (owner, spender))
    }

    /// Every identity that holds a balance entry.
    pub open spec fn accounts(self) -> Seq<Seq<u8>> {
        keys(self.balances)
    }

    /// The sum of the balances of `ids`.
    pub open spec fn sum_of_balances(self, ids: Seq<Seq<u8>>) -> int {
        sum_lookups(self.balances, ids)
    }

    /// The ledger's invariant: one entry per key, a supply equal to the sum of
    /// the balances, and the owner among the minters.
    pub open spec fn wf(self) -> bool {
        &&& keys_unique(self.balances)
        &&& keys_unique(self.allowances)
        &&& self.total_supply == total(self.balances)
        &&& self.minters.contains(self.owner)
    }

    pub open spec fn initial(
        owner: Seq<u8>,
        total_supply: u64,
        decimals: u8,
        name: Seq<char>,
        symbol: Seq<char>,
    ) -> LedgerModel {
        LedgerModel {
            owner,
            name,
            symbol,
            decimals,
            total_supply,
            balances: seq![(owner, total_supply)],
            allowances: Seq::empty(),
            minters: set![owner],
            burnt_cycles: 0,
            history: Seq::empty(),
        }
    }

    /// The state after moving `amount` from `from` to `to`, with its record.
    pub open spec fn transferred(self, from: Seq<u8>, to: Seq<u8>, amount: u64) -> LedgerModel {
        let debited = put(self.balances, from, (self.balance(from) - amount) as u64);
        let credited = put(debited, to, (lookup(debited, to) + amount) as u64);
        LedgerModel {
            balances: credited,
            history: self.history.push(
                RecordModel {
                    from,
                    to,
                    amount,
                    post_balance_from: lookup(credited, from),
                    post_balance_to: lookup(credited, to),
                    cycles_burnt: self.burnt_cycles,
                    reason: transfer_reason(self.burnt_cycles),
                },
            ),
            ..self
        }
    }

    /// The state after `requester` minted `amount` to `to`, with its record.
    pub open spec fn minted(self, requester: Seq<u8>, to: Seq<u8>, amount: u64) -> LedgerModel {
        let credited = put(self.balances, to, (self.balance(to) + amount) as u64);
        LedgerModel {
            balances: credited,
            total_supply: (self.total_supply + amount) as u64,
            history: self.history.push(
                RecordModel {
                    from: requester,
                    to,
                    amount,
                    post_balance_from: 0,
                    post_balance_to: lookup(credited, to),
                    cycles_burnt: 0,
                    reason: mint_reason(),
                },
            ),
            ..self
        }
    }

    /// The state after `owner` set the allowance of `spender` to `amount`.
    pub open spec fn approved(self, owner: Seq<u8>, spender: Seq<u8>, amount: u64) -> LedgerModel {
        LedgerModel { allowances: put(self.allowances, (owner, spender), amount), ..self }
    }
}

/// A fungible-token ledger.
pub struct TokenICRC2 {
    balances: Vec<(Principal, u64)>,
    allowances: Vec<((Principal, Principal), u64)>,
    minters: Vec<Principal>,
    owner: Principal,
    total_supply: u64,
    decimals: u8,
    name: String,
    symbol: String,
    burnt_cycles: u64,
    transaction_history: Vec<TransactionRecord>,
}

spec fn balance_entries(v: Seq<(Principal, u64)>) -> Seq<(Seq<u8>, u64)> {
    v.map_values(|e: (Principal, u64)| (e.0@, e.1))
}

spec fn allowance_entries(v: Seq<((Principal, Principal), u64)>) -> Seq<((Seq<u8>, Seq<u8>), u64)> {
    v.map_values(|e: ((Principal, Principal), u64)| ((e.0.0@, e.0.1@), e.1))
}

spec fn identities(v: Seq<Principal>) -> Seq<Seq<u8>> {
    v.map_values(|p: Principal| p@)
}

/// The plain values of each record, in order.
pub open spec fn records(v: Seq<TransactionRecord>) -> Seq<RecordModel> {
    v.map_values(|r: TransactionRecord| r@)
}

impl View for TokenICRC2 {
    type V = LedgerModel;

    closed spec fn view(&self) -> LedgerModel {
        LedgerModel {
            owner: self.owner@,
            name: self.name@,
            symbol: self.symbol@,
            decimals: self.decimals,
            total_supply: self.total_supply,
            balances: balance_entries(self.balances@),
            allowances: allowance_entries(self.allowances@),
            minters: identities(self.minters@).to_set(),
            burnt_cycles: self.burnt_cycles,
            history: records(self.transaction_history@),
        }
    }
}

impl TokenICRC2 {
    pub open spec fn wf(&self) -> bool {
        self@.wf()
    }

    /// A ledger in which `owner` holds the whole supply and is the only minter.
    pub fn new(owner: Principal, total_supply: u64, decimals: u8, name: String, symbol: String) -> (r:
        Self)
        ensures
            r@ == LedgerModel::initial(owner@, total_supply, decimals, name@, symbol@),
            r.wf(),
    {
        let mut balances: Vec<(Principal, u64)> = Vec::new();
        let mut minters: Vec<Principal> = Vec::new();
        balances.push((owner.clone(), total_supply));
        minters.push(owner.clone());
        let r = TokenICRC2 {
            balances,
            allowances: Vec::new(),
            minters,
            owner,
            total_supply,
            decimals,
            name,
            symbol,
            burnt_cycles: 0,
            transaction_history: Vec::new(),
        };
        proof {
            let m = LedgerModel::initial(r.owner@, total_supply, decimals, r.name@, r.symbol@);
            assert(balance_entries(r.balances@) =~= m.balances);
            assert(allowance_entries(r.allowances@) =~= m.allowances);
            assert(identities(r.minters@) =~= seq![r.owner@]);
            assert(identities(r.minters@).to_set() =~= m.minters) by {
                assert(identities(r.minters@)[0] == r.owner@);
            }
            assert(records(r.transaction_history@) =~= m.history);
            assert(total(m.balances.drop_last()) == 0);
        }
        r
    }

    pub fn get_owner(&self) -> (r: Principal)
        ensures
            r@ == self@.owner,
    {
        self.owner.clone()
    }

    /// Position of the entry of `who` in `balances`.
    fn find_balance(&self, who: &Principal) -> (r: Option<usize>)
        ensures
            match r {
                Some(i) => i == index_of(self@.balances, who@) && i < self.balances@.len(),
                None => index_of(self@.balances, who@) == -1,
            },
    {
        let ghost s = self@.balances;
        let mut i: usize = self.balances.len();
        while i > 0
            invariant
                i <= self.balances@.len(),
                s == balance_entries(self.balances@),
                forall|j: int| i <= j < s.len() ==> s[j].0 != who@,
            decreases i,
        {
            if self.balances[i - 1].0 == *who {
                proof {
                    lemma_index_of_at(s, who@, i - 1);
                }
                return Some(i - 1);
            }
            i = i - 1;
        }
        proof {
            lemma_index_of(s, who@);
            if index_of(s, who@) >= 0 {
                assert(s[index_of(s, who@)].0 == who@);
            }
        }
        None
    }

    fn amount_of(&self, who: &Principal) -> (r: u64)
        ensures
            r == self@.balance(who@),
    {
        match self.find_balance(who) {
            Some(i) => self.balances[i].1,
            None => 0,
        }
    }

    /// Sets the balance of `who` to `v`, leaving everything else as it was.
    fn put_balance(&mut self, who: &Principal, v: u64)
        ensures
            final(self)@ == (LedgerModel { balances: put(old(self)@.balances, who@, v), ..old(self)@ }),
    {
        let ghost s = self@.balances;
        match self.find_balance(who) {
            Some(i) => {
                self.balances.set(i, (who.clone(), v));
                proof {
                    lemma_index_of(s, who@);
                    assert(balance_entries(self.balances@) =~= s.update(i as int, (who@, v)));
                }
            },
            None => {
                self.balances.push((who.clone(), v));
                proof {
                    assert(balance_entries(self.balances@) =~= s.push((who@, v)));
                }
            },
        }
    }

    pub fn balance_of(&self, user: Principal) -> (r: u64)
        ensures
            r == self@.balance(user@),
    {
        self.amount_of(&user)
    }

    /// Position of the entry of the pair (`owner`, `spender`) in `allowances`.
    fn find_allowance(&self, owner: &Principal, spender: &Principal) -> (r: Option<usize>)
        ensures
            match r {
                Some(i) => i == index_of(self@.allowances, (owner@, spender@)) && i
                    < self.allowances@.len(),
                None => index_of(self@.allowances, (owner@, spender@)) == -1,
            },
    {
        let ghost s = self@.allowances;
        let mut i: usize = self.allowances.len();
        while i > 0
            invariant
                i <= self.allowances@.len(),
                s == allowance_entries(self.allowances@),
                forall|j: int| i <= j < s.len() ==> s[j].0 != (owner@, spender@),
            decreases i,
        {
            let entry = &self.allowances[i - 1];
            let same_owner = entry.0.0 == *owner;
            let same_spender = entry.0.1 == *spender;
            if same_owner && same_spender {
                proof {
                    assert(s[i - 1] == ((entry.0.0@, entry.0.1@), entry.1));
                    lemma_index_of_at(s, (owner@, spender@), i - 1);
                }
                return Some(i - 1);
            }
            i = i - 1;
        }
        proof {
            lemma_index_of(s, (owner@, spender@));
            if index_of(s, (owner@, spender@)) >= 0 {
                assert(s[index_of(s, (owner@, spender@))].0 == (owner@, spender@));
            }
        }
        None
    }

    pub fn allowance(&self, owner: Principal, spender: Principal) -> (r: u64)
        ensures
            r == self@.allowance(owner@, spender@),
    {
        match self.find_allowance(&owner, &spender) {
            Some(i) => self.allowances[i].1,
            None => 0,
        }
    }

    pub fn total_supply(&self) -> (r: u64)
        ensures
            r == self@.total_supply,
    {
        self.total_supply
    }

    pub fn decimals(&self) -> (r: u8)
        ensures
            r == self@.decimals,
    {
        self.decimals
    }

    pub fn symbol(&self) -> (r: String)
        ensures
            r@ == self@.symbol,
    {
        self.symbol.clone()
    }

    pub fn name(&self) -> (r: String)
        ensures
            r@ == self@.name,
    {
        self.name.clone()
    }

    /// Moves `amount` from `from` to `to` and records the transfer. The source
    /// must hold at least `amount`; otherwise nothing changes. Whether the
    /// caller may debit `from` is not decided here: `TokenCanister::transfer`
    /// binds `from` to the authenticated caller.
    pub fn transfer(&mut self, from: Principal, to: Principal, amount: u64) -> (r: Result<
        (),
        TokenError,
    >)
        requires
            old(self).wf(),
        ensures
            final(self).wf(),
            old(self)@.balance(from@) < amount ==> r == Err::<(), TokenError>(
                TokenError::InsufficientBalance,
            ) && final(self)@ == old(self)@,
            old(self)@.balance(from@) >= amount ==> r == Ok::<(), TokenError>(())
                && final(self)@ == old(self)@.transferred(from@, to@, amount),
            r.is_ok() ==> final(self)@.history.len() == old(self)@.history.len() + 1,
            r.is_err() ==> final(self)@.history.len() == old(self)@.history.len(),
            r.is_ok() && from@ != to@ ==> final(self)@.balance(from@) == old(self)@.balance(from@)
                - amount && final(self)@.balance(to@) == old(self)@.balance(to@) + amount,
            r.is_ok() ==> final(self)@.accounts().contains(from@) && final(self)@.accounts().contains(to@),
            final(self)@.total_supply == old(self)@.total_supply,
    {
        let from_balance = self.amount_of(&from);
        if from_balance < amount {
            return Err(TokenError::InsufficientBalance);
        }
        let ghost l = self@;
        proof {
            lemma_transferred(l, from@, to@, amount);
        }
        self.put_balance(&from, from_balance - amount);
        let to_balance = self.amount_of(&to);
        self.put_balance(&to, to_balance + amount);
        let cycles_burnt = self.burnt_cycles;
        let reason = if cycles_burnt > 0 {
            "Cycles were burnt due to transfer fees or maintenance costs.".to_owned()
        } else {
            "No cycles were burnt as no transfer fees applied.".to_owned()
        };
        let post_balance_from = self.amount_of(&from);
        let post_balance_to = self.amount_of(&to);
        let record = TransactionRecord {
            from,
            to,
            amount,
            post_balance_from,
            post_balance_to,
            cycles_burnt,
            reason,
        };
        let ghost h = self.transaction_history@;
        self.transaction_history.push(record);
        proof {
            assert(records(self.transaction_history@) =~= records(h).push(record@));
            assert(self@ == l.transferred(from@, to@, amount));
        }
        Ok(())
    }

    /// Sets the allowance of (`owner`, `spender`) to exactly `amount`.
    fn put_allowance(&mut self, owner: &Principal, spender: &Principal, amount: u64)
        ensures
            final(self)@ == old(self)@.approved(owner@, spender@, amount),
    {
        let ghost s = self@.allowances;
        match self.find_allowance(owner, spender) {
            Some(i) => {
                self.allowances.set(i, ((owner.clone(), spender.clone()), amount));
                proof {
                    lemma_index_of(s, (owner@, spender@));
                    assert(allowance_entries(self.allowances@) =~= s.update(
                        i as int,
                        ((owner@, spender@), amount),
                    ));
                }
            },
            None => {
                self.allowances.push(((owner.clone(), spender.clone()), amount));
                proof {
                    assert(allowance_entries(self.allowances@) =~= s.push(
                        ((owner@, spender@), amount),
                    ));
                }
            },
        }
    }

    /// Lets `spender` spend up to `amount` on behalf of `owner`, replacing any
    /// earlier allowance of the pair.
    pub fn approve(&mut self, owner: Principal, spender: Principal, amount: u64) -> (r: Result<
        (),
        TokenError,
    >)
        requires
            old(self).wf(),
        ensures
            final(self).wf(),
            r == Ok::<(), TokenError>(()),
            final(self)@ == old(self)@.approved(owner@, spender@, amount),
            final(self)@.allowance(owner@, spender@) == amount,
            forall|o: Seq<u8>, s: Seq<u8>|
                (o, s) != (owner@, spender@) ==> #[trigger] final(self)@.allowance(o, s) == old(
                    self,
                )@.allowance(o, s),
            final(self)@.history == old(self)@.history,
    {
        proof {
            lemma_approved(self@, owner@, spender@, amount);
        }
        self.put_allowance(&owner, &spender, amount);
        Ok(())
    }

    /// Adds `cycles` to the ledger-wide burnt-cycle counter.
    pub fn burn_cycles(&mut self, cycles: u64)
        requires
            old(self)@.burnt_cycles + cycles <= u64::MAX,
        ensures
            final(self)@ == (LedgerModel {
                burnt_cycles: (old(self)@.burnt_cycles + cycles) as u64,
                ..old(self)@
            }),
    {
        self.burnt_cycles = self.burnt_cycles + cycles;
    }

    pub fn burnt_cycles(&self) -> (r: u64)
        ensures
            r == self@.burnt_cycles,
    {
        self.burnt_cycles
    }

    /// Whether `who` may mint.
    pub fn is_minter(&self, who: &Principal) -> (r: bool)
        ensures
            r == self@.minters.contains(who@),
    {
        let ghost ids = identities(self.minters@);
        let mut i: usize = 0;
        while i < self.minters.len()
            invariant
                i <= self.minters@.len(),
                ids == identities(self.minters@),
                forall|j: int| 0 <= j < i ==> ids[j] != who@,
            decreases self.minters@.len() - i,
        {
            if self.minters[i] == *who {
                assert(ids[i as int] == who@);
                return true;
            }
            i = i + 1;
        }
        assert(!ids.contains(who@));
        false
    }

    /// Lets `requester`, if it is the owner, make `minter` a minter.
    pub fn add_minter(&mut self, requester: Principal, minter: Principal) -> (r: Result<
        (),
        TokenError,
    >)
        requires
            old(self).wf(),
        ensures
            final(self).wf(),
            requester@ != old(self)@.owner ==> r == Err::<(), TokenError>(TokenError::NotOwner)
                && final(self)@ == old(self)@,
            requester@ == old(self)@.owner ==> r == Ok::<(), TokenError>(()) && final(self)@ == (
            LedgerModel { minters: old(self)@.minters.insert(minter@), ..old(self)@ }),
    {
        if requester != self.owner {
            return Err(TokenError::NotOwner);
        }
        if !self.is_minter(&minter) {
            let ghost ids = identities(self.minters@);
            self.minters.push(minter);
            proof {
                assert(identities(self.minters@) =~= ids.push(minter@));
                ids.lemma_push_to_set_commute(minter@);
            }
        } else {
            assert(self@.minters.insert(minter@) =~= self@.minters);
        }
        Ok(())
    }

    /// Lets `requester`, if it is a minter, create `amount` new tokens for `to`.
    pub fn mint(&mut self, requester: Principal, to: Principal, amount: u64) -> (r: Result<
        (),
        TokenError,
    >)
        requires
            old(self).wf(),
            old(self)@.minters.contains(requester@) ==> old(self)@.total_supply + amount
                <= u64::MAX,
        ensures
            final(self).wf(),
            !old(self)@.minters.contains(requester@) ==> r == Err::<(), TokenError>(
                TokenError::NotAuthorized,
            ) && final(self)@ == old(self)@,
            old(self)@.minters.contains(requester@) ==> r == Ok::<(), TokenError>(())
                && final(self)@ == old(self)@.minted(requester@, to@, amount),
            r.is_ok() ==> final(self)@.history.len() == old(self)@.history.len() + 1,
            r.is_err() ==> final(self)@.history.len() == old(self)@.history.len(),
            r.is_ok() ==> final(self)@.total_supply == old(self)@.total_supply + amount
                && final(self)@.balance(to@) == old(self)@.balance(to@) + amount
                && final(self)@.accounts().contains(to@),
    {
        if !self.is_minter(&requester) {
            return Err(TokenError::NotAuthorized);
        }
        let ghost l = self@;
        proof {
            lemma_minted(l, requester@, to@, amount);
        }
        let to_balance = self.amount_of(&to);
        self.put_balance(&to, to_balance + amount);
        self.total_supply = self.total_supply + amount;
        let post_balance_to = self.amount_of(&to);
        let record = TransactionRecord {
            from: requester,
            to,
            amount,
            post_balance_from: 0,
            post_balance_to,
            cycles_burnt: 0,
            reason: "Minting operation has no cycle burn cost.".to_owned(),
        };
        let ghost h = self.transaction_history@;
        self.transaction_history.push(record);
        proof {
            assert(records(self.transaction_history@) =~= records(h).push(record@));
            assert(self@ == l.minted(record.from@, record.to@, amount));
        }
        Ok(())
    }

    /// A copy of every record, oldest first.
    pub fn get_transaction_history(&self) -> (r: Vec<TransactionRecord>)
        ensures
            records(r@) == self@.history,
    {
        let mut r: Vec<TransactionRecord> = Vec::new();
        let mut i: usize = 0;
        while i < self.transaction_history.len()
            invariant
                i <= self.transaction_history@.len(),
                records(r@) == records(self.transaction_history@).subrange(0, i as int),
            decreases self.transaction_history@.len() - i,
        {
            let ghost before = r@;
            r.push(self.transaction_history[i].clone());
            proof {
                assert(records(r@) =~= records(before).push(self.transaction_history@[i as int]@));
                assert(records(r@) =~= records(self.transaction_history@).subrange(0, i + 1));
            }
            i = i + 1;
        }
        assert(records(r@) =~= records(self.transaction_history@));
        r
    }
}

/// A transfer that the source can cover keeps the invariant and the supply,
/// and no intermediate balance overflows.
pub proof fn lemma_transferred(l: LedgerModel, from: Seq<u8>, to: Seq<u8>, amount: u64)
    requires
        l.wf(),
        l.balance(from) >= amount,
    ensures
        ({
            let debited = put(l.balances, from, (l.balance(from) - amount) as u64);
            lookup(debited, to) + amount <= l.total_supply
        }),
        l.transferred(from, to, amount).wf(),
        l.transferred(from, to, amount).total_supply == l.total_supply,
        from != to ==> l.transferred(from, to, amount).balance(from) == l.balance(from) - amount,
        from != to ==> l.transferred(from, to, amount).balance(to) == l.balance(to) + amount,
        from == to ==> l.transferred(from, to, amount).balance(from) == l.balance(from),
        forall|w: Seq<u8>|
            w != from && w != to ==> #[trigger] l.transferred(from, to, amount).balance(w)
                == l.balance(w),
        l.transferred(from, to, amount).accounts().contains(from),
        l.transferred(from, to, amount).accounts().contains(to),
{
    let s = l.balances;
    let debited = put(s, from, (l.balance(from) - amount) as u64);
    let credited = put(debited, to, (lookup(debited, to) + amount) as u64);
    lemma_total_put(s, from, (l.balance(from) - amount) as u64);
    lemma_lookup_le_total(debited, to);
    lemma_total_put(debited, to, (lookup(debited, to) + amount) as u64);
    lemma_put_keys_unique(s, from, (l.balance(from) - amount) as u64);
    lemma_put_keys_unique(debited, to, (lookup(debited, to) + amount) as u64);
    lemma_lookup_put(s, from, (l.balance(from) - amount) as u64, to);
    lemma_lookup_put(s, from, (l.balance(from) - amount) as u64, from);
    lemma_lookup_put(debited, to, (lookup(debited, to) + amount) as u64, from);
    lemma_lookup_put(debited, to, (lookup(debited, to) + amount) as u64, to);
    assert forall|w: Seq<u8>| w != from && w != to implies #[trigger] l.transferred(
        from,
        to,
        amount,
    ).balance(w) == l.balance(w) by {
        lemma_lookup_put(s, from, (l.balance(from) - amount) as u64, w);
        lemma_lookup_put(debited, to, (lookup(debited, to) + amount) as u64, w);
    }
    lemma_put_contains(s, from, (l.balance(from) - amount) as u64);
    lemma_put_contains(debited, to, (lookup(debited, to) + amount) as u64);
    lemma_put_keeps_keys(debited, to, (lookup(debited, to) + amount) as u64, from);
}

/// A mint that fits in the supply keeps the invariant and adds `amount` to
/// the balance of `to` and to the supply.
pub proof fn lemma_minted(l: LedgerModel, requester: Seq<u8>, to: Seq<u8>, amount: u64)
    requires
        l.wf(),
        l.total_supply + amount <= u64::MAX,
    ensures
        l.balance(to) + amount <= l.total_supply + amount,
        l.minted(requester, to, amount).wf(),
        l.minted(requester, to, amount).total_supply == l.total_supply + amount,
        l.minted(requester, to, amount).balance(to) == l.balance(to) + amount,
        forall|w: Seq<u8>|
            w != to ==> #[trigger] l.minted(requester, to, amount).balance(w) == l.balance(w),
        l.minted(requester, to, amount).accounts().contains(to),
{
    let s = l.balances;
    lemma_lookup_le_total(s, to);
    lemma_total_put(s, to, (l.balance(to) + amount) as u64);
    lemma_put_keys_unique(s, to, (l.balance(to) + amount) as u64);
    lemma_lookup_put(s, to, (l.balance(to) + amount) as u64, to);
    assert forall|w: Seq<u8>| w != to implies #[trigger] l.minted(requester, to, amount).balance(w)
        == l.balance(w) by {
        lemma_lookup_put(s, to, (l.balance(to) + amount) as u64, w);
    }
    lemma_put_contains(s, to, (l.balance(to) + amount) as u64);
}

/// An approval keeps the invariant, sets the pair's allowance to `amount`
/// and leaves every other pair's allowance as it was.
pub proof fn lemma_approved(l: LedgerModel, owner: Seq<u8>, spender: Seq<u8>, amount: u64)
    requires
        l.wf(),
    ensures
        l.approved(owner, spender, amount).wf(),
        l.approved(owner, spender, amount).allowance(owner, spender) == amount,
        forall|o: Seq<u8>, s: Seq<u8>|
            (o, s) != (owner, spender) ==> #[trigger] l.approved(owner, spender, amount).allowance(
                o,
                s,
            ) == l.allowance(o, s),
{
    lemma_put_keys_unique(l.allowances, (owner, spender), amount);
    lemma_lookup_put(l.allowances, (owner, spender), amount, (owner, spender));
    assert forall|o: Seq<u8>, s: Seq<u8>| (o, s) != (owner, spender) implies #[trigger] l.approved(
        owner,
        spender,
        amount,
    ).allowance(o, s) == l.allowance(o, s) by {
        lemma_lookup_put(l.allowances, (owner, spender), amount, (o, s));
    }
}

} // verus!
