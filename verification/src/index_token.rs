use vstd::prelude::*;

use crate::account::{duplicate_ids, ids_view, AccountId};
use crate::errors::ContractError;
use crate::ledger::{bal_of, holds_id, Ledger};
use crate::metadata::FungibleTokenMetadata;
use crate::plan::{
    is_ft_transfer_node, is_mint_node, is_register_tokens_node, is_storage_deposit_node,
    is_swap_node, is_transfer_native_node, is_withdraw_node, is_wrap_node, Action, CallNode,
    FIVE_TGAS, ONE_YOCTO, POINT_ONE_NEAR, SIXTY_TGAS, STORAGE_DEPOSIT, TRANSFER_GAS, TWENTY_TGAS,
    WRAP_GAS,
};
use crate::workflow::{
    count_delivered, delivered, diag_for, diag_seq, lemma_count_delivered_mono, needs_diag,
    parse_amount, under_delivered, AggregatorTask, BuyWorkflow, CallbackEffect, CallOutcome,
    Diagnostic, WorkflowState,
};

verus! {

/// Key prefixes under which the host's persistent collections would store
/// the account map and the metadata; the embedding program serializes them
/// to the byte prefixes its storage API wants.
#[derive(Clone, Copy, Debug, PartialEq, Eq, Structural)]
pub enum StorageKey {
    Accounts,
    Metadata,
}

/// The sum of the first `n` requested per-asset amounts.
pub open spec fn sum_amounts(s: Seq<u128>, n: int) -> int
    decreases n,
{
    if n <= 0 {
        0
    } else {
        sum_amounts(s, n - 1) + s[n - 1]
    }
}

pub proof fn lemma_sum_amounts_mono(s: Seq<u128>, m: int, n: int)
    requires
        0 <= m <= n,
    ensures
        sum_amounts(s, m) <= sum_amounts(s, n),
    decreases n - m,
{
    if m < n {
        lemma_sum_amounts_mono(s, m, n - 1);
    }
}

/// One basket-token instance: its ledger, its basket definition (assets and
/// the pool each is priced through), and the identities of the external
/// services it routes value through.
pub struct Contract {
    /// Balances, total supply and the longest-identity watermark.
    pub ledger: Ledger,
    /// Descriptive metadata of this basket token.
    pub metadata: FungibleTokenMetadata,
    /// This contract's own account: the ledger's owner.
    pub owner_id: AccountId,
    /// The underlying assets backing the basket token.
    pub tokens: Vec<AccountId>,
    /// One exchange pool per asset, priced against the intermediate asset.
    pub pool_ids: Vec<u64>,
    /// The exchange (AMM) service.
    pub ref_finance: AccountId,
    /// The wrapped-native-value (intermediate asset) service.
    pub wnear: AccountId,
}

impl Contract {
    /// Well-formedness: a sound ledger and a basket of at least one asset
    /// with exactly one pool per asset, fixed at creation.
    pub open spec fn wf(self) -> bool {
        &&& self.ledger.wf()
        &&& self.tokens@.len() == self.pool_ids@.len()
        &&& self.tokens@.len() >= 1
    }

    /// A call asking the exchange service to learn this basket's assets.
    fn register_tokens(&self, account: &AccountId) -> (n: CallNode)
        ensures
            is_register_tokens_node(n, account@, ids_view(self.tokens@)),
            n.after@.len() == 0,
    {
        CallNode {
            target: account.duplicate(),
            action: Action::RegisterTokens { tokens: duplicate_ids(&self.tokens) },
            deposit: ONE_YOCTO,
            gas: FIVE_TGAS,
            after: Vec::new(),
        }
    }

    /// A call transferring `amount` of `token` to `receiver`.
    fn token_transfer_call(&self, token: &AccountId, receiver: &AccountId, amount: u128) -> (n:
        CallNode)
        ensures
            is_ft_transfer_node(n, token@, receiver@, amount),
            n.after@.len() == 0,
    {
        CallNode {
            target: token.duplicate(),
            action: Action::FtTransfer { receiver: receiver.duplicate(), amount },
            deposit: ONE_YOCTO,
            gas: TRANSFER_GAS,
            after: Vec::new(),
        }
    }

    /// A call provisioning storage for this contract itself on `token`.
    fn token_storage_deposit(&self, token: &AccountId) -> (n: CallNode)
        ensures
            is_storage_deposit_node(n, token@, None, STORAGE_DEPOSIT),
            n.after@.len() == 0,
    {
        CallNode {
            target: token.duplicate(),
            action: Action::StorageDeposit { beneficiary: None },
            deposit: STORAGE_DEPOSIT,
            gas: FIVE_TGAS,
            after: Vec::new(),
        }
    }

    /// A call provisioning storage for `user` on `token`.
    fn token_storage_deposit_delegated(&self, token: &AccountId, user: &AccountId) -> (n: CallNode)
        ensures
            is_storage_deposit_node(n, token@, Some(user@), STORAGE_DEPOSIT),
            n.after@.len() == 0,
    {
        CallNode {
            target: token.duplicate(),
            action: Action::StorageDeposit { beneficiary: Some(user.duplicate()) },
            deposit: STORAGE_DEPOSIT,
            gas: FIVE_TGAS,
            after: Vec::new(),
        }
    }

    /// A call swapping `amount_in` of the intermediate asset for
    /// `token_out`, with no swap-level minimum: validation is deferred to
    /// the result aggregator.
    fn swap_token(&self, token_out: &AccountId, pool_id: u64, amount_in: u128) -> (n: CallNode)
        ensures
            is_swap_node(n, self.ref_finance@, self.wnear@, pool_id, token_out@, amount_in),
            n.after@.len() == 0,
    {
        CallNode {
            target: self.ref_finance.duplicate(),
            action: Action::Swap {
                pool_id,
                token_in: self.wnear.duplicate(),
                amount_in,
                token_out: token_out.duplicate(),
                min_amount_out: 0,
            },
            deposit: ONE_YOCTO,
            gas: TWENTY_TGAS,
            after: Vec::new(),
        }
    }

    /// A call moving `amount` of `token_out` from the exchange service's
    /// holding back to this contract's balance.
    fn withdraw_token(&self, token_out: &AccountId, amount: u128) -> (n: CallNode)
        ensures
            is_withdraw_node(n, self.ref_finance@, token_out@, amount),
            n.after@.len() == 0,
    {
        CallNode {
            target: self.ref_finance.duplicate(),
            action: Action::Withdraw { token: token_out.duplicate(), amount },
            deposit: ONE_YOCTO,
            gas: SIXTY_TGAS,
            after: Vec::new(),
        }
    }

    /// A one-element sequencing slot.
    fn single_after(j: usize) -> (r: Vec<usize>)
        ensures
            r@.len() == 1,
            r@[0] == j,
    {
        let mut v: Vec<usize> = Vec::new();
        v.push(j);
        v
    }

    /// Initializes a basket instance: seeds the ledger with `total_supply`
    /// held by the contract's own account, and builds the provisioning
    /// plan — storage on the exchange service, on every underlying asset
    /// and on the intermediate asset, asset registration with the exchange
    /// (all mutually independent), then a refund of the unused attached
    /// value to the signer once all of them are accepted.
    pub fn new(
        current_account: AccountId,
        signer: &AccountId,
        attached_deposit: u128,
        total_supply: u128,
        metadata: FungibleTokenMetadata,
        tokens: Vec<AccountId>,
        pool_ids: Vec<u64>,
        ref_finance: AccountId,
        wnear: AccountId,
    ) -> (r: (Contract, Vec<CallNode>))
        requires
            tokens@.len() == pool_ids@.len(),
            tokens@.len() >= 1,
            attached_deposit >= (tokens@.len() + 1) * STORAGE_DEPOSIT + POINT_ONE_NEAR + ONE_YOCTO,
        ensures
            r.0.wf(),
            r.0.owner_id@ == current_account@,
            r.0.ref_finance@ == ref_finance@,
            r.0.wnear@ == wnear@,
            ids_view(r.0.tokens@) == ids_view(tokens@),
            r.0.pool_ids@ == pool_ids@,
            r.0.ledger.total_supply == total_supply,
            holds_id(r.0.ledger.balances(), current_account@),
            bal_of(r.0.ledger.balances(), current_account@) == total_supply,
            r.0.ledger.balances().len() == 1,
            r.1@.len() == tokens@.len() + 4,
            is_storage_deposit_node(r.1@[0], ref_finance@, None, POINT_ONE_NEAR),
            forall|i: int|
                0 <= i < tokens@.len() ==> is_storage_deposit_node(
                    #[trigger] r.1@[1 + i],
                    tokens@[i]@,
                    None,
                    STORAGE_DEPOSIT,
                ),
            is_storage_deposit_node(r.1@[tokens@.len() as int + 1], wnear@, None, STORAGE_DEPOSIT),
            is_register_tokens_node(r.1@[tokens@.len() as int + 2], ref_finance@, ids_view(tokens@)),
            is_transfer_native_node(
                r.1@[tokens@.len() as int + 3],
                signer@,
                (attached_deposit - (tokens@.len() + 1) * STORAGE_DEPOSIT - POINT_ONE_NEAR
                    - ONE_YOCTO) as u128,
            ),
            forall|j: int| 0 <= j < tokens@.len() + 3 ==> (#[trigger] r.1@[j]).after@.len() == 0,
            r.1@[tokens@.len() as int + 3].after@.len() == tokens@.len() + 3,
            forall|j: int|
                0 <= j < tokens@.len() + 3 ==> #[trigger] r.1@[tokens@.len() as int + 3].after@[j] == j,
    {
        let mut ledger = Ledger::new();
        match ledger.register(current_account.duplicate()) {
            Ok(()) => {},
            Err(_) => {
                proof {
                    assert(false);
                }
            },
        }
        match ledger.credit(&current_account, total_supply) {
            Ok(()) => {},
            Err(_) => {
                proof {
                    assert(false);
                }
            },
        }
        let this = Contract {
            ledger,
            metadata,
            owner_id: current_account,
            tokens,
            pool_ids,
            ref_finance,
            wnear,
        };
        let k = this.tokens.len();
        let mut plan: Vec<CallNode> = Vec::new();
        plan.push(
            CallNode {
                target: this.ref_finance.duplicate(),
                action: Action::StorageDeposit { beneficiary: None },
                deposit: POINT_ONE_NEAR,
                gas: FIVE_TGAS,
                after: Vec::new(),
            },
        );
        let mut i: usize = 0;
        while i < k
            invariant
                k == this.tokens@.len(),
                i <= k,
                plan@.len() == 1 + i,
                is_storage_deposit_node(plan@[0], this.ref_finance@, None, POINT_ONE_NEAR),
                forall|j: int|
                    0 <= j < i ==> is_storage_deposit_node(
                        #[trigger] plan@[1 + j],
                        this.tokens@[j]@,
                        None,
                        STORAGE_DEPOSIT,
                    ),
                forall|j: int| 0 <= j < plan@.len() ==> (#[trigger] plan@[j]).after@.len() == 0,
            decreases k - i,
        {
            plan.push(this.token_storage_deposit(&this.tokens[i]));
            i = i + 1;
        }
        plan.push(this.token_storage_deposit(&this.wnear));
        plan.push(this.register_tokens(&this.ref_finance));
        proof {
            assert((k as int + 1) * STORAGE_DEPOSIT + POINT_ONE_NEAR + ONE_YOCTO
                <= u128::MAX);
            assert((k as int) * STORAGE_DEPOSIT + STORAGE_DEPOSIT == (k as int + 1)
                * STORAGE_DEPOSIT);
        }
        let reserved = (k as u128) * STORAGE_DEPOSIT + STORAGE_DEPOSIT + POINT_ONE_NEAR
            + ONE_YOCTO;
        let refund = attached_deposit - reserved;
        let limit = plan.len();
        let mut after: Vec<usize> = Vec::new();
        let mut j: usize = 0;
        while j < limit
            invariant
                limit == k + 3,
                j <= limit,
                after@.len() == j,
                forall|m: int| 0 <= m < j ==> #[trigger] after@[m] == m,
            decreases limit - j,
        {
            after.push(j);
            j = j + 1;
        }
        plan.push(
            CallNode {
                target: signer.duplicate(),
                action: Action::TransferNative { amount: refund },
                deposit: refund,
                gas: 0,
                after,
            },
        );
        (this, plan)
    }

    /// Starts a buy workflow. Validates the request shape and the attached
    /// value, then builds the buy call plan — storage provision for the
    /// buyer on this contract; one combined wrap-and-forward of the
    /// attached value (minus the per-call reservation of one minimal unit
    /// for each call issued) into the exchange service, sequenced after the
    /// provision; then one swap per underlying asset, mutually independent,
    /// each sequenced after the wrap — and the continuation the result
    /// aggregator will consume once every swap resolves. The ledger is not
    /// touched: minting is strictly the aggregator's decision.
    pub fn buy_index_token(
        &self,
        buyer: &AccountId,
        near_amounts: &Vec<u128>,
        token_amount: u128,
        attached_deposit: u128,
    ) -> (r: Result<BuyWorkflow, ContractError>)
        requires
            self.wf(),
        ensures
            (near_amounts@.len() != self.tokens@.len()) <==> r == Err::<
                BuyWorkflow,
                ContractError,
            >(ContractError::AssetCountMismatch),
            (near_amounts@.len() == self.tokens@.len() && attached_deposit < 2 * self.tokens@.len()
                + 1 + sum_amounts(near_amounts@, self.tokens@.len() as int)) <==> r == Err::<
                BuyWorkflow,
                ContractError,
            >(ContractError::InsufficientAttachedValue),
            r is Ok <==> (near_amounts@.len() == self.tokens@.len() && attached_deposit >= 2
                * self.tokens@.len() + 1 + sum_amounts(near_amounts@, self.tokens@.len() as int)),
            r matches Ok(w) ==> {
                let k = self.tokens@.len() as int;
                let wrapped = (attached_deposit - (2 * k + 1)) as u128;
                &&& w.plan@.len() == k + 2
                &&& is_storage_deposit_node(
                    w.plan@[0],
                    self.owner_id@,
                    Some(buyer@),
                    STORAGE_DEPOSIT,
                )
                &&& w.plan@[0].after@.len() == 0
                &&& is_wrap_node(w.plan@[1], self.wnear@, self.ref_finance@, wrapped)
                &&& w.plan@[1].after@.len() == 1 && w.plan@[1].after@[0] == 0
                &&& forall|i: int|
                    0 <= i < k ==> is_swap_node(
                        #[trigger] w.plan@[2 + i],
                        self.ref_finance@,
                        self.wnear@,
                        self.pool_ids@[i],
                        self.tokens@[i]@,
                        near_amounts@[i],
                    ) && w.plan@[2 + i].after@.len() == 1 && w.plan@[2 + i].after@[0] == 1
                &&& w.state matches WorkflowState::AwaitingSwaps(t) && t.buyer@ == buyer@
                    && t.expected_amount == token_amount
            },
    {
        let k = self.tokens.len();
        if near_amounts.len() != k {
            return Err(ContractError::AssetCountMismatch);
        }
        let reserve: u128 = 2 * (k as u128) + 1;
        let mut total: u128 = 0;
        let mut i: usize = 0;
        while i < k
            invariant
                i <= k,
                k == near_amounts@.len(),
                k == self.tokens@.len(),
                total == sum_amounts(near_amounts@, i as int),
            decreases k - i,
        {
            let a = near_amounts[i];
            if a > u128::MAX - total {
                proof {
                    lemma_sum_amounts_mono(near_amounts@, i as int + 1, k as int);
                }
                return Err(ContractError::InsufficientAttachedValue);
            }
            total = total + a;
            i = i + 1;
        }
        if attached_deposit < reserve {
            return Err(ContractError::InsufficientAttachedValue);
        }
        let wrapped = attached_deposit - reserve;
        if wrapped < total {
            return Err(ContractError::InsufficientAttachedValue);
        }
        let mut plan: Vec<CallNode> = Vec::new();
        plan.push(self.token_storage_deposit_delegated(&self.owner_id, buyer));
        let wrap_node = CallNode {
            target: self.wnear.duplicate(),
            action: Action::WrapAndForward {
                amount: wrapped,
                receiver: self.ref_finance.duplicate(),
            },
            deposit: wrapped,
            gas: WRAP_GAS,
            after: Self::single_after(0),
        };
        plan.push(wrap_node);
        let mut j: usize = 0;
        while j < k
            invariant
                j <= k,
                k == self.tokens@.len(),
                k == self.pool_ids@.len(),
                k == near_amounts@.len(),
                plan@.len() == 2 + j,
                is_storage_deposit_node(plan@[0], self.owner_id@, Some(buyer@), STORAGE_DEPOSIT),
                plan@[0].after@.len() == 0,
                is_wrap_node(plan@[1], self.wnear@, self.ref_finance@, wrapped),
                plan@[1].after@.len() == 1 && plan@[1].after@[0] == 0,
                forall|m: int|
                    0 <= m < j ==> is_swap_node(
                        #[trigger] plan@[2 + m],
                        self.ref_finance@,
                        self.wnear@,
                        self.pool_ids@[m],
                        self.tokens@[m]@,
                        near_amounts@[m],
                    ) && plan@[2 + m].after@.len() == 1 && plan@[2 + m].after@[0] == 1,
            decreases k - j,
        {
            let mut node = self.swap_token(&self.tokens[j], self.pool_ids[j], near_amounts[j]);
            node.after = Self::single_after(1);
            plan.push(node);
            j = j + 1;
        }
        let state = WorkflowState::AwaitingSwaps(
            AggregatorTask { buyer: buyer.duplicate(), expected_amount: token_amount },
        );
        Ok(BuyWorkflow { plan, state })
    }

    /// The result aggregator: consumes one outcome per swap of a buy
    /// workflow, in asset order. A failed, unresolved or unreadable outcome
    /// is recorded as a diagnostic and its asset is skipped. A readable
    /// outcome below the promised amount aborts the whole workflow with
    /// `SlippageViolated`: no withdrawal and no mint is issued. Otherwise
    /// the effect chains one withdrawal per delivered asset and then the
    /// single mint credit of the promised amount to the buyer.
    #[verifier::rlimit(100)]
    #[verifier::spinoff_prover]
    pub fn buy_index_token_callback(
        &self,
        task: &AggregatorTask,
        outcomes: &Vec<CallOutcome>,
    ) -> (r: Result<CallbackEffect, ContractError>)
        requires
            self.wf(),
            outcomes@.len() == self.tokens@.len(),
        ensures
            (exists|i: int|
                0 <= i < outcomes@.len() && under_delivered(
                    #[trigger] outcomes@[i],
                    task.expected_amount,
                )) <==> r is Err,
            r is Err ==> r == Err::<CallbackEffect, ContractError>(ContractError::SlippageViolated),
            r matches Ok(eff) ==> {
                let exp = task.expected_amount;
                let n = outcomes@.len() as int;
                let nw = count_delivered(outcomes@, exp, n);
                &&& eff.plan@.len() == nw + 1
                &&& forall|i: int|
                    0 <= i < n && delivered(#[trigger] outcomes@[i], exp) ==> is_withdraw_node(
                        eff.plan@[count_delivered(outcomes@, exp, i)],
                        self.ref_finance@,
                        self.tokens@[i]@,
                        exp,
                    )
                &&& is_mint_node(eff.plan@[nw], self.owner_id@, task.buyer@, exp)
                &&& forall|j: int|
                    0 <= j < eff.plan@.len() ==> ((#[trigger] eff.plan@[j]).after@.len() == if j
                        == 0 {
                        0int
                    } else {
                        1int
                    } && (j > 0 ==> eff.plan@[j].after@[0] == j - 1))
                &&& eff.diagnostics@ == diag_seq(outcomes@, n)
            },
    {
        let exp = task.expected_amount;
        let k = self.tokens.len();
        let mut plan: Vec<CallNode> = Vec::new();
        let mut diags: Vec<Diagnostic> = Vec::new();
        let mut i: usize = 0;
        while i < k
            invariant
                i <= k,
                k == self.tokens@.len(),
                k == outcomes@.len(),
                exp == task.expected_amount,
                plan@.len() == count_delivered(outcomes@, exp, i as int),
                diags@ == diag_seq(outcomes@, i as int),
                forall|m: int| 0 <= m < i ==> !under_delivered(#[trigger] outcomes@[m], exp),
                forall|m: int|
                    0 <= m < i && delivered(#[trigger] outcomes@[m], exp) ==> is_withdraw_node(
                        plan@[count_delivered(outcomes@, exp, m)],
                        self.ref_finance@,
                        self.tokens@[m]@,
                        exp,
                    ),
                forall|j: int|
                    0 <= j < plan@.len() ==> ((#[trigger] plan@[j]).after@.len() == if j == 0 {
                        0int
                    } else {
                        1int
                    } && (j > 0 ==> plan@[j].after@[0] == j - 1)),
            decreases k - i,
        {
            let ghost pre_plan = plan@;
            let ghost pre_diags = diags@;
            match &outcomes[i] {
                CallOutcome::Failed => {
                    diags.push(Diagnostic::SwapFailed { index: i });
                },
                CallOutcome::NotReady => {
                    diags.push(Diagnostic::SwapNotReady { index: i });
                },
                CallOutcome::Succeeded(payload) => {
                    match parse_amount(payload) {
                        None => {
                            diags.push(Diagnostic::PayloadUnreadable { index: i });
                        },
                        Some(a) => {
                            if a < exp {
                                proof {
                                    assert(under_delivered(outcomes@[i as int], exp));
                                }
                                return Err(ContractError::SlippageViolated);
                            }
                            let mut node = self.withdraw_token(&self.tokens[i], exp);
                            if plan.len() > 0 {
                                node.after = Self::single_after(plan.len() - 1);
                            }
                            plan.push(node);
                        },
                    }
                },
            }
            proof {
                assert forall|m: int|
                    0 <= m < i + 1 && delivered(#[trigger] outcomes@[m], exp) implies is_withdraw_node(
                    plan@[count_delivered(outcomes@, exp, m)],
                    self.ref_finance@,
                    self.tokens@[m]@,
                    exp,
                ) by {
                    if m < i as int {
                        lemma_count_delivered_mono(outcomes@, exp, 0, m);
                        lemma_count_delivered_mono(outcomes@, exp, m + 1, i as int);
                        assert(0 <= count_delivered(outcomes@, exp, m) < pre_plan.len());
                        assert(pre_plan[count_delivered(outcomes@, exp, m)] == plan@[count_delivered(
                            outcomes@,
                            exp,
                            m,
                        )]);
                    }
                }
            }
            i = i + 1;
        }
        proof {
            assert forall|m: int|
                0 <= m < k && delivered(#[trigger] outcomes@[m], exp) implies 0 <= count_delivered(
                outcomes@,
                exp,
                m,
            ) < plan@.len() by {
                lemma_count_delivered_mono(outcomes@, exp, 0, m);
                lemma_count_delivered_mono(outcomes@, exp, m + 1, k as int);
            }
        }
        let mut mint_node = CallNode {
            target: self.owner_id.duplicate(),
            action: Action::MintCredit { account: task.buyer.duplicate(), amount: exp },
            deposit: 0,
            gas: FIVE_TGAS,
            after: Vec::new(),
        };
        if plan.len() > 0 {
            mint_node.after = Self::single_after(plan.len() - 1);
        }
        plan.push(mint_node);
        Ok(CallbackEffect { plan, diagnostics: diags })
    }

    /// Starts a redeem workflow. The caller's basket balance is debited
    /// synchronously, before any external call: an insufficient balance
    /// fails immediately and no call plan exists. On success the plan fans
    /// out, per underlying asset, a storage provision for the caller and,
    /// after it, a transfer of the redeemed amount of that asset to the
    /// caller; the pairs are mutually independent. There is no compensating
    /// mint-back if a transfer later fails: the debit stays committed.
    pub fn redeem_index_token(&mut self, caller: &AccountId, token_amount: u128) -> (r: Result<
        Vec<CallNode>,
        ContractError,
    >)
        requires
            old(self).wf(),
        ensures
            final(self).wf(),
            final(self).tokens == old(self).tokens,
            final(self).pool_ids == old(self).pool_ids,
            final(self).owner_id == old(self).owner_id,
            final(self).ref_finance == old(self).ref_finance,
            final(self).wnear == old(self).wnear,
            final(self).metadata == old(self).metadata,
            match r {
                Ok(plan) => {
                    let k = old(self).tokens@.len() as int;
                    &&& holds_id(old(self).ledger.balances(), caller@)
                    &&& token_amount <= bal_of(old(self).ledger.balances(), caller@)
                    &&& final(self).ledger.total_supply == old(self).ledger.total_supply
                        - token_amount
                    &&& bal_of(final(self).ledger.balances(), caller@) == bal_of(
                        old(self).ledger.balances(),
                        caller@,
                    ) - token_amount
                    &&& forall|x: Seq<u8>|
                        x != caller@ ==> #[trigger] bal_of(final(self).ledger.balances(), x)
                            == bal_of(old(self).ledger.balances(), x)
                    &&& forall|x: Seq<u8>|
                        #[trigger] holds_id(final(self).ledger.balances(), x) == holds_id(
                            old(self).ledger.balances(),
                            x,
                        )
                    &&& plan@.len() == 2 * k
                    &&& forall|i: int|
                        0 <= i < k ==> is_storage_deposit_node(
                            #[trigger] plan@[i],
                            old(self).tokens@[i]@,
                            Some(caller@),
                            STORAGE_DEPOSIT,
                        ) && plan@[i].after@.len() == 0
                    &&& forall|i: int|
                        0 <= i < k ==> is_ft_transfer_node(
                            #[trigger] plan@[k + i],
                            old(self).tokens@[i]@,
                            caller@,
                            token_amount,
                        ) && plan@[k + i].after@.len() == 1 && plan@[k + i].after@[0] == i
                },
                Err(e) => {
                    &&& *final(self) == *old(self)
                    &&& (e == ContractError::NotRegistered <==> !holds_id(
                        old(self).ledger.balances(),
                        caller@,
                    ))
                    &&& (e == ContractError::InsufficientBalance <==> holds_id(
                        old(self).ledger.balances(),
                        caller@,
                    ) && token_amount > bal_of(old(self).ledger.balances(), caller@))
                    &&& (e == ContractError::NotRegistered || e
                        == ContractError::InsufficientBalance)
                },
            },
    {
        match self.ledger.debit(caller, token_amount) {
            Err(e) => {
                return Err(e);
            },
            Ok(()) => {},
        }
        let k = self.tokens.len();
        let mut plan: Vec<CallNode> = Vec::new();
        let mut i: usize = 0;
        while i < k
            invariant
                i <= k,
                k == self.tokens@.len(),
                plan@.len() == i,
                forall|m: int|
                    0 <= m < i ==> is_storage_deposit_node(
                        #[trigger] plan@[m],
                        self.tokens@[m]@,
                        Some(caller@),
                        STORAGE_DEPOSIT,
                    ) && plan@[m].after@.len() == 0,
            decreases k - i,
        {
            plan.push(self.token_storage_deposit_delegated(&self.tokens[i], caller));
            i = i + 1;
        }
        let mut j: usize = 0;
        while j < k
            invariant
                j <= k,
                k == self.tokens@.len(),
                plan@.len() == k + j,
                forall|m: int|
                    0 <= m < k ==> is_storage_deposit_node(
                        #[trigger] plan@[m],
                        self.tokens@[m]@,
                        Some(caller@),
                        STORAGE_DEPOSIT,
                    ) && plan@[m].after@.len() == 0,
                forall|m: int|
                    0 <= m < j ==> is_ft_transfer_node(
                        #[trigger] plan@[k + m],
                        self.tokens@[m]@,
                        caller@,
                        token_amount,
                    ) && plan@[k + m].after@.len() == 1 && plan@[k + m].after@[0] == m,
            decreases k - j,
        {
            let mut node = self.token_transfer_call(&self.tokens[j], caller, token_amount);
            node.after = Self::single_after(j);
            plan.push(node);
            j = j + 1;
        }
        Ok(plan)
    }

    /// The ledger mint the aggregator's final call lands in: credits the
    /// buyer with the promised basket amount.
    pub fn ft_mint(&mut self, account: &AccountId, amount: u128) -> (r: Result<(), ContractError>)
        requires
            old(self).wf(),
        ensures
            final(self).wf(),
            final(self).tokens == old(self).tokens,
            final(self).pool_ids == old(self).pool_ids,
            final(self).owner_id == old(self).owner_id,
            final(self).ref_finance == old(self).ref_finance,
            final(self).wnear == old(self).wnear,
            final(self).metadata == old(self).metadata,
            match r {
                Ok(()) => {
                    &&& holds_id(old(self).ledger.balances(), account@)
                    &&& final(self).ledger.total_supply == old(self).ledger.total_supply + amount
                    &&& bal_of(final(self).ledger.balances(), account@) == bal_of(
                        old(self).ledger.balances(),
                        account@,
                    ) + amount
                    &&& forall|x: Seq<u8>|
                        x != account@ ==> #[trigger] bal_of(final(self).ledger.balances(), x)
                            == bal_of(old(self).ledger.balances(), x)
                },
                Err(e) => {
                    &&& *final(self) == *old(self)
                    &&& (e == ContractError::NotRegistered <==> !holds_id(
                        old(self).ledger.balances(),
                        account@,
                    ))
                    &&& (e == ContractError::Overflow <==> holds_id(
                        old(self).ledger.balances(),
                        account@,
                    ) && old(self).ledger.total_supply + amount > u128::MAX)
                    &&& (e == ContractError::NotRegistered || e == ContractError::Overflow)
                },
            },
    {
        self.ledger.credit(account, amount)
    }

    /// The underlying assets backing this basket.
    pub fn get_underlying_tokens(&self) -> (r: Vec<AccountId>)
        ensures
            ids_view(r@) == ids_view(self.tokens@),
    {
        duplicate_ids(&self.tokens)
    }

    /// The exchange pool of each underlying asset, in asset order.
    pub fn get_underlying_poolids(&self) -> (r: Vec<u64>)
        ensures
            r@ == self.pool_ids@,
    {
        let r = self.pool_ids.clone();
        proof {
            assert(r@ =~= self.pool_ids@);
        }
        r
    }

    /// The balance of `id`; zero when `id` is not registered.
    pub fn balance_of(&self, id: &AccountId) -> (r: u128)
        requires
            self.wf(),
        ensures
            r == bal_of(self.ledger.balances(), id@),
    {
        self.ledger.balance_of(id)
    }

    /// The basket token's total supply.
    pub fn total_supply(&self) -> (r: u128)
        ensures
            r == self.ledger.total_supply,
    {
        self.ledger.supply()
    }
}

} // verus!
