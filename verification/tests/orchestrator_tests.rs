use index_token::account::AccountId;
use index_token::errors::ContractError;
use index_token::index_token::Contract;
use index_token::metadata::FungibleTokenMetadata;
use index_token::plan::{Action, CallNode, POINT_ONE_NEAR, STORAGE_DEPOSIT};
use index_token::workflow::{
    parse_amount, AggregatorTask, CallOutcome, Diagnostic, WorkflowState,
};

fn id(s: &str) -> AccountId {
    AccountId::new(s.as_bytes().to_vec())
}

fn meta(name: &str) -> FungibleTokenMetadata {
    FungibleTokenMetadata {
        spec_version: b"ft-1.0.0".to_vec(),
        name: name.as_bytes().to_vec(),
        symbol: b"BSK".to_vec(),
        icon: None,
        reference: None,
        reference_hash: None,
        decimals: 24,
    }
}

/// Enough attached value for a two-asset instance: three storage
/// provisions, the exchange provision and the registration reservation.
const NEW_ATTACHED: u128 = 200_000_000_000_000_000_000_000;

fn two_asset_contract(total_supply: u128) -> (Contract, Vec<CallNode>) {
    Contract::new(
        id("basket.test"),
        &id("deployer.test"),
        NEW_ATTACHED,
        total_supply,
        meta("basket"),
        vec![id("token0.test"), id("token1.test")],
        vec![1, 2],
        id("amm.test"),
        id("wrap.test"),
    )
}

fn succeeded(text: &str) -> CallOutcome {
    CallOutcome::Succeeded(format!("\"{}\"", text).into_bytes())
}

#[test]
fn new_seeds_owner_with_total_supply_and_builds_provisioning_plan() {
    let (c, plan) = two_asset_contract(1_000);
    assert_eq!(c.total_supply(), 1_000);
    assert_eq!(c.balance_of(&id("basket.test")), 1_000);
    assert_eq!(plan.len(), 6);
    match &plan[0].action {
        Action::StorageDeposit { beneficiary: None } => {}
        _ => panic!("expected an exchange storage provision first"),
    }
    assert_eq!(plan[0].target.bytes, b"amm.test".to_vec());
    assert_eq!(plan[0].deposit, POINT_ONE_NEAR);
    assert_eq!(plan[1].target.bytes, b"token0.test".to_vec());
    assert_eq!(plan[2].target.bytes, b"token1.test".to_vec());
    assert_eq!(plan[3].target.bytes, b"wrap.test".to_vec());
    for n in &plan[1..4] {
        assert_eq!(n.deposit, STORAGE_DEPOSIT);
        assert!(matches!(n.action, Action::StorageDeposit { beneficiary: None }));
        assert!(n.after.is_empty());
    }
    match &plan[4].action {
        Action::RegisterTokens { tokens } => {
            assert_eq!(tokens.len(), 2);
            assert_eq!(tokens[0].bytes, b"token0.test".to_vec());
        }
        _ => panic!("expected the asset registration"),
    }
    let refund = &plan[5];
    assert_eq!(refund.target.bytes, b"deployer.test".to_vec());
    match refund.action {
        Action::TransferNative { amount } => {
            assert_eq!(amount, NEW_ATTACHED - 3 * STORAGE_DEPOSIT - POINT_ONE_NEAR - 1);
        }
        _ => panic!("expected the refund transfer last"),
    }
    assert_eq!(refund.after, vec![0, 1, 2, 3, 4]);
}

#[test]
fn buy_plan_has_one_wrap_and_one_swap_per_asset() {
    let (c, _) = two_asset_contract(0);
    let buyer = id("buyer.test");
    let w = c
        .buy_index_token(&buyer, &vec![1_000, 1_000], 500, 3_000)
        .expect("buy should dispatch");
    assert_eq!(w.plan.len(), 4);
    match &w.plan[0].action {
        Action::StorageDeposit { beneficiary: Some(b) } => {
            assert_eq!(b.bytes, b"buyer.test".to_vec());
        }
        _ => panic!("expected the buyer's storage provision first"),
    }
    assert_eq!(w.plan[0].target.bytes, b"basket.test".to_vec());
    assert!(w.plan[0].after.is_empty());
    match &w.plan[1].action {
        Action::WrapAndForward { amount, receiver } => {
            // Everything but the per-call reservation (2 * 2 + 1 units).
            assert_eq!(*amount, 3_000 - 5);
            assert_eq!(receiver.bytes, b"amm.test".to_vec());
        }
        _ => panic!("expected exactly one wrap node"),
    }
    assert_eq!(w.plan[1].after, vec![0]);
    for (i, (pool, token)) in [(1u64, b"token0.test".as_slice()), (2u64, b"token1.test".as_slice())]
        .iter()
        .enumerate()
    {
        let n = &w.plan[2 + i];
        match &n.action {
            Action::Swap { pool_id, token_in, amount_in, token_out, min_amount_out } => {
                assert_eq!(pool_id, pool);
                assert_eq!(token_in.bytes, b"wrap.test".to_vec());
                assert_eq!(*amount_in, 1_000);
                assert_eq!(token_out.bytes, token.to_vec());
                assert_eq!(*min_amount_out, 0);
            }
            _ => panic!("expected one swap per asset"),
        }
        // Sequenced after the wrap only: mutually independent swaps.
        assert_eq!(n.after, vec![1]);
    }
    match w.state {
        WorkflowState::AwaitingSwaps(t) => {
            assert_eq!(t.buyer.bytes, b"buyer.test".to_vec());
            assert_eq!(t.expected_amount, 500);
        }
        _ => panic!("a dispatched buy awaits its swaps"),
    }
}

#[test]
fn buy_rejects_wrong_amount_count() {
    let (c, _) = two_asset_contract(0);
    let r = c.buy_index_token(&id("buyer.test"), &vec![1_000], 500, 3_000);
    assert!(matches!(r, Err(ContractError::AssetCountMismatch)));
}

#[test]
fn buy_rejects_insufficient_attached_value() {
    let (c, _) = two_asset_contract(0);
    // Needs 2 * 2 + 1 reservation units plus the 2_000 to swap.
    let r = c.buy_index_token(&id("buyer.test"), &vec![1_000, 1_000], 500, 2_004);
    assert!(matches!(r, Err(ContractError::InsufficientAttachedValue)));
    assert!(c.buy_index_token(&id("buyer.test"), &vec![1_000, 1_000], 500, 2_005).is_ok());
}

#[test]
fn aggregator_aborts_on_any_under_delivery() {
    let (c, _) = two_asset_contract(0);
    let task = AggregatorTask { buyer: id("buyer.test"), expected_amount: 50 };
    let outcomes = vec![succeeded("100"), succeeded("40")];
    let r = c.buy_index_token_callback(&task, &outcomes);
    assert_eq!(
        r.err().expect("the basket guarantee is all-or-nothing"),
        ContractError::SlippageViolated
    );
}

#[test]
fn aggregator_issues_withdrawals_then_mint_when_all_deliver() {
    let (c, _) = two_asset_contract(0);
    let task = AggregatorTask { buyer: id("buyer.test"), expected_amount: 50 };
    let outcomes = vec![succeeded("100"), succeeded("60")];
    let eff = c.buy_index_token_callback(&task, &outcomes).expect("both swaps delivered");
    assert_eq!(eff.plan.len(), 3);
    for (i, token) in [b"token0.test".as_slice(), b"token1.test".as_slice()].iter().enumerate() {
        match &eff.plan[i].action {
            Action::Withdraw { token: t, amount } => {
                assert_eq!(t.bytes, token.to_vec());
                assert_eq!(*amount, 50);
            }
            _ => panic!("expected a withdrawal per delivered asset"),
        }
        assert_eq!(eff.plan[i].target.bytes, b"amm.test".to_vec());
    }
    match &eff.plan[2].action {
        Action::MintCredit { account, amount } => {
            assert_eq!(account.bytes, b"buyer.test".to_vec());
            assert_eq!(*amount, 50);
        }
        _ => panic!("expected the single mint credit last"),
    }
    assert!(eff.plan[0].after.is_empty());
    assert_eq!(eff.plan[1].after, vec![0]);
    assert_eq!(eff.plan[2].after, vec![1]);
    assert!(eff.diagnostics.is_empty());
}

#[test]
fn aggregator_records_diagnostics_and_skips_unvalidated_assets() {
    let (c, _) = two_asset_contract(0);
    let task = AggregatorTask { buyer: id("buyer.test"), expected_amount: 50 };
    let outcomes = vec![CallOutcome::Failed, succeeded("60")];
    let eff = c.buy_index_token_callback(&task, &outcomes).expect("partial success is allowed");
    assert_eq!(eff.diagnostics, vec![Diagnostic::SwapFailed { index: 0 }]);
    assert_eq!(eff.plan.len(), 2);
    assert!(matches!(&eff.plan[0].action, Action::Withdraw { .. }));
    assert!(matches!(&eff.plan[1].action, Action::MintCredit { .. }));

    // A JSON number is not the expected amount shape: a string is required.
    let outcomes = vec![CallOutcome::NotReady, CallOutcome::Succeeded(b"100".to_vec())];
    let eff = c.buy_index_token_callback(&task, &outcomes).expect("nothing under-delivered");
    assert_eq!(
        eff.diagnostics,
        vec![Diagnostic::SwapNotReady { index: 0 }, Diagnostic::PayloadUnreadable { index: 1 }]
    );
    assert_eq!(eff.plan.len(), 1);
    assert!(matches!(&eff.plan[0].action, Action::MintCredit { .. }));
}

#[test]
fn payload_amounts_parse_as_quoted_decimals() {
    assert_eq!(parse_amount(&b"\"123\"".to_vec()), Some(123));
    assert_eq!(parse_amount(&b"\"+7\"".to_vec()), Some(7));
    assert_eq!(parse_amount(&b"\"0\"".to_vec()), Some(0));
    assert_eq!(
        parse_amount(&b"\"340282366920938463463374607431768211455\"".to_vec()),
        Some(u128::MAX)
    );
    assert_eq!(parse_amount(&b"\"340282366920938463463374607431768211456\"".to_vec()), None);
    assert_eq!(parse_amount(&b"123".to_vec()), None);
    assert_eq!(parse_amount(&b"\"12a\"".to_vec()), None);
    assert_eq!(parse_amount(&b"\"\"".to_vec()), None);
    assert_eq!(parse_amount(&b"not json".to_vec()), None);
}

#[test]
fn redeem_with_insufficient_balance_dispatches_nothing() {
    let (mut c, _) = two_asset_contract(0);
    c.ledger.register(id("caller.test")).unwrap();
    c.ledger.credit(&id("caller.test"), 100).unwrap();
    let r = c.redeem_index_token(&id("caller.test"), 150);
    assert!(matches!(r, Err(ContractError::InsufficientBalance)));
    assert_eq!(c.balance_of(&id("caller.test")), 100);
    assert_eq!(c.total_supply(), 100);
    let r = c.redeem_index_token(&id("stranger.test"), 1);
    assert!(matches!(r, Err(ContractError::NotRegistered)));
}

#[test]
fn redeem_debits_first_then_fans_out_transfers() {
    let (mut c, _) = two_asset_contract(0);
    c.ledger.register(id("caller.test")).unwrap();
    c.ledger.credit(&id("caller.test"), 100).unwrap();
    let plan = c.redeem_index_token(&id("caller.test"), 40).expect("balance suffices");
    assert_eq!(c.balance_of(&id("caller.test")), 60);
    assert_eq!(c.total_supply(), 60);
    assert_eq!(plan.len(), 4);
    for (i, token) in [b"token0.test".as_slice(), b"token1.test".as_slice()].iter().enumerate() {
        match &plan[i].action {
            Action::StorageDeposit { beneficiary: Some(b) } => {
                assert_eq!(b.bytes, b"caller.test".to_vec());
            }
            _ => panic!("expected the caller's provision per asset"),
        }
        assert_eq!(plan[i].target.bytes, token.to_vec());
        assert!(plan[i].after.is_empty());
        match &plan[2 + i].action {
            Action::FtTransfer { receiver, amount } => {
                assert_eq!(receiver.bytes, b"caller.test".to_vec());
                assert_eq!(*amount, 40);
            }
            _ => panic!("expected one transfer-out per asset"),
        }
        assert_eq!(plan[2 + i].target.bytes, token.to_vec());
        // Each transfer waits only for its own asset's provision.
        assert_eq!(plan[2 + i].after, vec![i]);
    }
}

#[test]
fn end_to_end_buy_mints_exactly_the_promised_amount() {
    let (mut c, _) = two_asset_contract(1_000);
    let buyer = id("buyer.test");
    let w = c.buy_index_token(&buyer, &vec![1_000, 1_000], 500, 3_000).expect("buy dispatches");
    // The host runs the plan: the buyer's provision registers them here.
    c.ledger.register(id("buyer.test")).unwrap();
    let task = match w.state {
        WorkflowState::AwaitingSwaps(t) => t,
        _ => panic!("a dispatched buy awaits its swaps"),
    };
    let outcomes = vec![succeeded("500"), succeeded("500")];
    let eff = c.buy_index_token_callback(&task, &outcomes).expect("both swaps delivered");
    assert_eq!(eff.plan.len(), 3);
    // The final plan node lands in the ledger mint.
    match &eff.plan[2].action {
        Action::MintCredit { account, amount } => {
            c.ft_mint(&AccountId::new(account.bytes.clone()), *amount).unwrap();
        }
        _ => panic!("expected the mint credit last"),
    }
    assert_eq!(c.balance_of(&buyer), 500);
    assert_eq!(c.total_supply(), 1_500);
}

#[test]
fn getters_expose_the_basket_definition() {
    let (c, _) = two_asset_contract(0);
    let tokens = c.get_underlying_tokens();
    assert_eq!(tokens.len(), 2);
    assert_eq!(tokens[0].bytes, b"token0.test".to_vec());
    assert_eq!(tokens[1].bytes, b"token1.test".to_vec());
    assert_eq!(c.get_underlying_poolids(), vec![1, 2]);
}
