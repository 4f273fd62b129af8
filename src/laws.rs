//! Properties of the ledger that relate several operations or hold of every
//! reachable state. Each operation of `TokenICRC2` keeps `wf`, so whatever is
//! proved here of a well-formed ledger holds after any sequence of them.
use crate::entries::{
    index_of, keys, lemma_index_of, lemma_sum_lookups_keys, lookup, put,
};
use crate::ledger::LedgerModel;
use vstd::prelude::*;

verus! {

/// The total supply equals the sum of the balances of every identity that
/// was ever credited or debited, and every other identity holds nothing.
pub proof fn lemma_supply_is_sum_of_balances(l: LedgerModel)
    requires
        l.wf(),
    ensures
        l.total_supply == l.sum_of_balances(l.accounts()),
        forall|w: Seq<u8>| !l.accounts().contains(w) ==> #[trigger] l.balance(w) == 0,
{
    lemma_sum_lookups_keys(l.balances);
    assert forall|w: Seq<u8>| !l.accounts().contains(w) implies #[trigger] l.balance(w) == 0 by {
        lemma_index_of(l.balances, w);
        if index_of(l.balances, w) >= 0 {
            assert(keys(l.balances)[index_of(l.balances, w)] == w);
        }
    }
}

/// Transfers and mints keep the supply equal to the sum of all balances:
/// a transfer leaves the supply as it was, a mint adds exactly its amount.
pub proof fn lemma_transfer_and_mint_keep_supply(
    l: LedgerModel,
    from: Seq<u8>,
    to: Seq<u8>,
    amount: u64,
)
    requires
        l.wf(),
    ensures
        l.balance(from) >= amount ==> l.transferred(from, to, amount).wf()
            && l.transferred(from, to, amount).total_supply == l.total_supply,
        l.total_supply + amount <= u64::MAX ==> l.minted(from, to, amount).wf()
            && l.minted(from, to, amount).total_supply == l.total_supply + amount,
{
    if l.balance(from) >= amount {
        crate::ledger::lemma_transferred(l, from, to, amount);
    }
    if l.total_supply + amount <= u64::MAX {
        crate::ledger::lemma_minted(l, from, to, amount);
    }
}

/// Approving sets the allowance to the amount given, and a second approval
/// of the same pair replaces the first: the state is as if only the second
/// had been made.
pub proof fn lemma_approve_overwrites(
    l: LedgerModel,
    owner: Seq<u8>,
    spender: Seq<u8>,
    first: u64,
    second: u64,
)
    requires
        l.wf(),
    ensures
        l.approved(owner, spender, first).allowance(owner, spender) == first,
        l.approved(owner, spender, first).approved(owner, spender, second) == l.approved(
            owner,
            spender,
            second,
        ),
        l.approved(owner, spender, first).approved(owner, spender, second).allowance(owner, spender)
            == second,
{
    let k = (owner, spender);
    let s = l.allowances;
    crate::ledger::lemma_approved(l, owner, spender, first);
    crate::ledger::lemma_approved(l, owner, spender, second);
    lemma_index_of(s, k);
    let once = put(s, k, first);
    if index_of(s, k) >= 0 {
        crate::entries::lemma_index_of_update(s, index_of(s, k), first, k);
        assert(once == s.update(index_of(s, k), (s[index_of(s, k)].0, first)));
        assert(put(once, k, second) =~= put(s, k, second));
    } else {
        assert(once.drop_last() =~= s);
        assert(index_of(once, k) == s.len());
        assert(put(once, k, second) =~= put(s, k, second));
    }
}

/// The history grows by exactly one record per successful transfer or mint,
/// and an approval leaves it as it was.
pub proof fn lemma_history_growth(
    l: LedgerModel,
    from: Seq<u8>,
    to: Seq<u8>,
    amount: u64,
)
    ensures
        l.transferred(from, to, amount).history.len() == l.history.len() + 1,
        l.transferred(from, to, amount).history.subrange(0, l.history.len() as int) == l.history,
        l.minted(from, to, amount).history.len() == l.history.len() + 1,
        l.minted(from, to, amount).history.subrange(0, l.history.len() as int) == l.history,
        l.approved(from, to, amount).history == l.history,
{
    assert(l.transferred(from, to, amount).history.subrange(0, l.history.len() as int)
        =~= l.history);
    assert(l.minted(from, to, amount).history.subrange(0, l.history.len() as int) =~= l.history);
}

} // verus!
