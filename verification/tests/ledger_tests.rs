use index_token::account::AccountId;
use index_token::errors::ContractError;
use index_token::ledger::Ledger;

fn id(s: &str) -> AccountId {
    AccountId::new(s.as_bytes().to_vec())
}

fn total_of(l: &Ledger, names: &[&str]) -> u128 {
    let mut sum: u128 = 0;
    for n in names {
        sum += l.balance_of(&id(n));
    }
    sum
}

#[test]
fn conservation_over_a_call_sequence() {
    let names = ["alice.test", "bob.test", "carol.test"];
    let mut l = Ledger::new();
    assert_eq!(l.supply(), 0);
    l.register(id("alice.test")).unwrap();
    assert_eq!(total_of(&l, &names), l.supply());
    l.register(id("bob.test")).unwrap();
    assert_eq!(total_of(&l, &names), l.supply());
    l.credit(&id("alice.test"), 1_000).unwrap();
    assert_eq!(total_of(&l, &names), l.supply());
    l.register(id("carol.test")).unwrap();
    l.credit(&id("bob.test"), 250).unwrap();
    assert_eq!(total_of(&l, &names), l.supply());
    l.transfer(&id("alice.test"), &id("carol.test"), 400, None).unwrap();
    assert_eq!(total_of(&l, &names), l.supply());
    l.debit(&id("bob.test"), 50).unwrap();
    assert_eq!(total_of(&l, &names), l.supply());
    assert_eq!(l.supply(), 1_200);
    assert_eq!(l.balance_of(&id("alice.test")), 600);
    assert_eq!(l.balance_of(&id("bob.test")), 200);
    assert_eq!(l.balance_of(&id("carol.test")), 400);
}

#[test]
fn transfer_success_updates_both_sides() {
    let mut l = Ledger::new();
    l.register(id("a.test")).unwrap();
    l.register(id("b.test")).unwrap();
    l.credit(&id("a.test"), 100).unwrap();
    let supply_before = l.supply();
    l.transfer(&id("a.test"), &id("b.test"), 30, Some(b"memo".to_vec())).unwrap();
    assert_eq!(l.balance_of(&id("a.test")), 70);
    assert_eq!(l.balance_of(&id("b.test")), 30);
    assert_eq!(l.supply(), supply_before);
}

#[test]
fn transfer_failure_changes_neither_side() {
    let mut l = Ledger::new();
    l.register(id("a.test")).unwrap();
    l.register(id("b.test")).unwrap();
    l.credit(&id("a.test"), 100).unwrap();
    let r = l.transfer(&id("a.test"), &id("b.test"), 101, None);
    assert_eq!(r, Err(ContractError::InsufficientBalance));
    assert_eq!(l.balance_of(&id("a.test")), 100);
    assert_eq!(l.balance_of(&id("b.test")), 0);
    assert_eq!(l.supply(), 100);
    let r = l.transfer(&id("a.test"), &id("nobody.test"), 10, None);
    assert_eq!(r, Err(ContractError::NotRegistered));
    assert_eq!(l.balance_of(&id("a.test")), 100);
    assert_eq!(l.supply(), 100);
}

#[test]
fn self_transfer_is_rejected() {
    let mut l = Ledger::new();
    l.register(id("a.test")).unwrap();
    l.credit(&id("a.test"), 5).unwrap();
    let r = l.transfer(&id("a.test"), &id("a.test"), 1, None);
    assert_eq!(r, Err(ContractError::SelfTransferDisallowed));
    assert_eq!(l.balance_of(&id("a.test")), 5);
}

#[test]
fn register_twice_fails_and_keeps_balance() {
    let mut l = Ledger::new();
    assert_eq!(l.register(id("x.test")), Ok(()));
    l.credit(&id("x.test"), 77).unwrap();
    assert_eq!(l.register(id("x.test")), Err(ContractError::AlreadyRegistered));
    assert_eq!(l.balance_of(&id("x.test")), 77);
    assert_eq!(l.supply(), 77);
}

#[test]
fn unregistered_identity_reads_zero_but_cannot_move_value() {
    let mut l = Ledger::new();
    assert_eq!(l.balance_of(&id("ghost.test")), 0);
    assert_eq!(l.credit(&id("ghost.test"), 1), Err(ContractError::NotRegistered));
    assert_eq!(l.debit(&id("ghost.test"), 1), Err(ContractError::NotRegistered));
    assert_eq!(l.supply(), 0);
}

#[test]
fn debit_more_than_balance_fails() {
    let mut l = Ledger::new();
    l.register(id("a.test")).unwrap();
    l.credit(&id("a.test"), 10).unwrap();
    assert_eq!(l.debit(&id("a.test"), 11), Err(ContractError::InsufficientBalance));
    assert_eq!(l.balance_of(&id("a.test")), 10);
}

#[test]
fn credit_overflow_fails_without_wrapping() {
    let mut l = Ledger::new();
    l.register(id("a.test")).unwrap();
    l.credit(&id("a.test"), u128::MAX).unwrap();
    assert_eq!(l.credit(&id("a.test"), 1), Err(ContractError::Overflow));
    assert_eq!(l.balance_of(&id("a.test")), u128::MAX);
    assert_eq!(l.supply(), u128::MAX);
    let mut m = Ledger::new();
    m.register(id("a.test")).unwrap();
    m.register(id("b.test")).unwrap();
    m.credit(&id("a.test"), u128::MAX - 5).unwrap();
    assert_eq!(m.credit(&id("b.test"), 6), Err(ContractError::Overflow));
    assert_eq!(m.balance_of(&id("b.test")), 0);
}

#[test]
fn watermark_tracks_longest_registered_identity() {
    let mut l = Ledger::new();
    assert_eq!(l.bytes_for_longest_account_id, 0);
    l.register(id("ab.test")).unwrap();
    assert_eq!(l.bytes_for_longest_account_id, 7);
    l.register(id("a-much-longer-account.test")).unwrap();
    assert_eq!(l.bytes_for_longest_account_id, 26);
    l.register(id("c.test")).unwrap();
    assert_eq!(l.bytes_for_longest_account_id, 26);
}
