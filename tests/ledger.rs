use icrc2_token::{Principal, TokenCanister, TokenError, TokenICRC2};

fn id(b: u8) -> Principal {
    Principal::from_slice(&[b, 7, 7])
}

fn ledger() -> TokenICRC2 {
    TokenICRC2::new(id(1), 1000, 2, "Token".to_string(), "TOK".to_string())
}

#[test]
fn scenario_transfer_then_mint() {
    let o = id(1);
    let a = id(2);
    let b = id(3);
    let m = id(4);
    let mut t = ledger();
    assert_eq!(t.balance_of(o.clone()), 1000);
    assert_eq!(t.transfer(o.clone(), a.clone(), 300), Ok(()));
    assert_eq!(t.balance_of(o.clone()), 700);
    assert_eq!(t.balance_of(a.clone()), 300);
    assert_eq!(t.get_transaction_history().len(), 1);
    assert_eq!(t.transfer(a.clone(), b.clone(), 500), Err(TokenError::InsufficientBalance));
    assert_eq!(t.balance_of(a.clone()), 300);
    assert_eq!(t.balance_of(b.clone()), 0);
    assert_eq!(t.balance_of(o.clone()), 700);
    assert_eq!(t.get_transaction_history().len(), 1);
    assert_eq!(t.add_minter(o.clone(), m.clone()), Ok(()));
    assert_eq!(t.mint(m.clone(), a.clone(), 200), Ok(()));
    assert_eq!(t.total_supply(), 1200);
    assert_eq!(t.balance_of(a.clone()), 500);
    assert_eq!(t.get_transaction_history().len(), 2);
}

#[test]
fn new_ledger_holds_its_parameters() {
    let t = ledger();
    assert_eq!(t.get_owner(), id(1));
    assert_eq!(t.total_supply(), 1000);
    assert_eq!(t.decimals(), 2);
    assert_eq!(t.name(), "Token");
    assert_eq!(t.symbol(), "TOK");
    assert_eq!(t.burnt_cycles(), 0);
    assert_eq!(t.balance_of(id(9)), 0);
    assert!(t.get_transaction_history().is_empty());
}

#[test]
fn transfer_record_holds_post_balances() {
    let mut t = ledger();
    t.transfer(id(1), id(2), 250).unwrap();
    let h = t.get_transaction_history();
    let r = &h[0];
    assert_eq!(r.from, id(1));
    assert_eq!(r.to, id(2));
    assert_eq!(r.amount, 250);
    assert_eq!(r.post_balance_from, 750);
    assert_eq!(r.post_balance_to, 250);
    assert_eq!(r.cycles_burnt, 0);
    assert_eq!(r.reason, "No cycles were burnt as no transfer fees applied.");
}

#[test]
fn transfer_reason_reports_burnt_cycles() {
    let mut t = ledger();
    t.burn_cycles(40);
    t.burn_cycles(2);
    assert_eq!(t.burnt_cycles(), 42);
    t.transfer(id(1), id(2), 1).unwrap();
    let h = t.get_transaction_history();
    assert_eq!(h[0].cycles_burnt, 42);
    assert_eq!(h[0].reason, "Cycles were burnt due to transfer fees or maintenance costs.");
    assert_eq!(t.balance_of(id(1)), 999);
    assert_eq!(t.total_supply(), 1000);
}

#[test]
fn transfer_to_self_keeps_balance_and_records() {
    let mut t = ledger();
    assert_eq!(t.transfer(id(1), id(1), 400), Ok(()));
    assert_eq!(t.balance_of(id(1)), 1000);
    let h = t.get_transaction_history();
    assert_eq!(h.len(), 1);
    assert_eq!(h[0].post_balance_from, 1000);
    assert_eq!(h[0].post_balance_to, 1000);
}

#[test]
fn transfer_of_whole_balance_and_of_zero() {
    let mut t = ledger();
    assert_eq!(t.transfer(id(1), id(2), 1000), Ok(()));
    assert_eq!(t.balance_of(id(1)), 0);
    assert_eq!(t.transfer(id(1), id(3), 1), Err(TokenError::InsufficientBalance));
    assert_eq!(t.transfer(id(5), id(3), 0), Ok(()));
    assert_eq!(t.balance_of(id(3)), 0);
    assert_eq!(t.get_transaction_history().len(), 2);
}

#[test]
fn transfer_insufficient_leaves_everything() {
    let mut t = ledger();
    t.transfer(id(1), id(2), 10).unwrap();
    assert_eq!(t.transfer(id(2), id(1), 11), Err(TokenError::InsufficientBalance));
    assert_eq!(t.balance_of(id(1)), 990);
    assert_eq!(t.balance_of(id(2)), 10);
    assert_eq!(t.total_supply(), 1000);
    assert_eq!(t.get_transaction_history().len(), 1);
}

#[test]
fn approve_sets_and_overwrites() {
    let mut t = ledger();
    assert_eq!(t.allowance(id(1), id(2)), 0);
    assert_eq!(t.approve(id(1), id(2), 50), Ok(()));
    assert_eq!(t.allowance(id(1), id(2)), 50);
    assert_eq!(t.approve(id(1), id(2), 20), Ok(()));
    assert_eq!(t.allowance(id(1), id(2)), 20);
    assert_eq!(t.allowance(id(2), id(1)), 0);
    assert_eq!(t.approve(id(1), id(3), 7), Ok(()));
    assert_eq!(t.allowance(id(1), id(3)), 7);
    assert_eq!(t.allowance(id(1), id(2)), 20);
    assert!(t.get_transaction_history().is_empty());
    assert_eq!(t.balance_of(id(1)), 1000);
}

#[test]
fn mint_by_non_minter_fails() {
    let mut t = ledger();
    assert_eq!(t.mint(id(2), id(2), 5), Err(TokenError::NotAuthorized));
    assert_eq!(t.total_supply(), 1000);
    assert_eq!(t.balance_of(id(2)), 0);
    assert!(t.get_transaction_history().is_empty());
}

#[test]
fn owner_mints_and_record_is_written() {
    let mut t = ledger();
    assert_eq!(t.mint(id(1), id(3), 5), Ok(()));
    assert_eq!(t.mint(id(1), id(3), 6), Ok(()));
    assert_eq!(t.balance_of(id(3)), 11);
    assert_eq!(t.total_supply(), 1011);
    let h = t.get_transaction_history();
    assert_eq!(h.len(), 2);
    assert_eq!(h[1].from, id(1));
    assert_eq!(h[1].to, id(3));
    assert_eq!(h[1].amount, 6);
    assert_eq!(h[1].post_balance_from, 0);
    assert_eq!(h[1].post_balance_to, 11);
    assert_eq!(h[1].cycles_burnt, 0);
    assert_eq!(h[1].reason, "Minting operation has no cycle burn cost.");
}

#[test]
fn add_minter_only_by_owner() {
    let mut t = ledger();
    assert_eq!(t.add_minter(id(2), id(3)), Err(TokenError::NotOwner));
    assert_eq!(t.mint(id(3), id(3), 1), Err(TokenError::NotAuthorized));
    assert_eq!(t.add_minter(id(1), id(3)), Ok(()));
    assert_eq!(t.add_minter(id(1), id(3)), Ok(()));
    assert_eq!(t.mint(id(3), id(3), 1), Ok(()));
    // a minter that is not the owner still cannot add minters
    assert_eq!(t.add_minter(id(3), id(4)), Err(TokenError::NotOwner));
}

#[test]
fn supply_equals_sum_of_touched_balances() {
    let mut t = ledger();
    t.transfer(id(1), id(2), 100).unwrap();
    t.transfer(id(2), id(3), 40).unwrap();
    t.add_minter(id(1), id(4)).unwrap();
    t.mint(id(4), id(5), 77).unwrap();
    t.transfer(id(5), id(1), 7).unwrap();
    let sum: u64 = (1..=5).map(|b| t.balance_of(id(b))).sum();
    assert_eq!(t.total_supply(), 1077);
    assert_eq!(sum, t.total_supply());
}

#[test]
fn history_is_a_snapshot() {
    let mut t = ledger();
    t.transfer(id(1), id(2), 1).unwrap();
    let before = t.get_transaction_history();
    t.transfer(id(1), id(2), 1).unwrap();
    assert_eq!(before.len(), 1);
    assert_eq!(t.get_transaction_history().len(), 2);
    assert_eq!(before[0].post_balance_to, 1);
}

#[test]
fn history_grows_only_on_success() {
    let mut t = ledger();
    t.approve(id(1), id(2), 5).unwrap();
    t.burn_cycles(3);
    assert_eq!(t.get_transaction_history().len(), 0);
    let _ = t.transfer(id(2), id(1), 1);
    let _ = t.mint(id(2), id(1), 1);
    assert_eq!(t.get_transaction_history().len(), 0);
    t.transfer(id(1), id(2), 1).unwrap();
    t.mint(id(1), id(2), 1).unwrap();
    assert_eq!(t.get_transaction_history().len(), 2);
}

#[test]
fn principals_compare_by_bytes() {
    assert_eq!(Principal::from_slice(&[1, 2]), Principal::from_slice(&[1, 2]));
    assert_ne!(Principal::from_slice(&[1, 2]), Principal::from_slice(&[1]));
    assert_eq!(Principal::from_slice(&[9, 8]).as_slice(), &[9, 8]);
}

#[test]
fn error_messages() {
    assert_eq!(TokenError::NotInitialized.message(), "Token not initialized");
    assert_eq!(TokenError::InsufficientBalance.message(), "Insufficient balance");
    assert_eq!(TokenError::NotAuthorized.message(), "Caller is not authorized to mint");
    assert_eq!(TokenError::NotOwner.message(), "Only the owner can add minters");
}

#[test]
fn canister_before_init() {
    let mut c = TokenCanister::new();
    assert_eq!(c.balance_of(id(1)), 0);
    assert_eq!(c.total_supply(), 0);
    assert_eq!(c.symbol(), "");
    assert_eq!(c.name(), "");
    assert_eq!(c.decimals(), 0);
    assert_eq!(c.allowance(id(1), id(2)), 0);
    assert_eq!(c.burnt_cycles(), 0);
    assert!(c.get_transaction_history().is_empty());
    assert_eq!(c.add_minter(id(1), id(2)), Err(TokenError::NotInitialized));
    assert_eq!(c.mint(id(1), id(2), 1), Err(TokenError::NotInitialized));
    assert_eq!(c.approve(id(1), id(2), 1), Err(TokenError::NotInitialized));
    assert_eq!(c.transfer(id(1), id(2), 1), Err(TokenError::NotInitialized));
    c.burn_cycles(5);
    assert_eq!(c.burnt_cycles(), 0);
}

#[test]
fn canister_dispatches_with_caller() {
    let mut c = TokenCanister::new();
    c.init_token(id(1), "TOK".to_string(), "Token".to_string(), 1000, 2);
    assert_eq!(c.symbol(), "TOK");
    assert_eq!(c.name(), "Token");
    assert_eq!(c.decimals(), 2);
    assert_eq!(c.transfer(id(1), id(2), 300), Ok(()));
    assert_eq!(c.balance_of(id(2)), 300);
    assert_eq!(c.transfer(id(2), id(3), 500), Err(TokenError::InsufficientBalance));
    assert_eq!(c.approve(id(2), id(3), 9), Ok(()));
    assert_eq!(c.allowance(id(2), id(3)), 9);
    assert_eq!(c.add_minter(id(2), id(4)), Err(TokenError::NotOwner));
    assert_eq!(c.add_minter(id(1), id(4)), Ok(()));
    assert_eq!(c.mint(id(4), id(2), 200), Ok(()));
    assert_eq!(c.total_supply(), 1200);
    assert_eq!(c.balance_of(id(2)), 500);
    c.burn_cycles(8);
    assert_eq!(c.burnt_cycles(), 8);
    assert_eq!(c.get_transaction_history().len(), 2);
}

#[test]
fn canister_reinit_replaces_ledger() {
    let mut c = TokenCanister::new();
    c.init_token(id(1), "A".to_string(), "A".to_string(), 10, 0);
    c.transfer(id(1), id(2), 4).unwrap();
    c.init_token(id(3), "B".to_string(), "B".to_string(), 5, 1);
    assert_eq!(c.balance_of(id(2)), 0);
    assert_eq!(c.balance_of(id(3)), 5);
    assert!(c.get_transaction_history().is_empty());
    assert_eq!(c.symbol(), "B");
}
