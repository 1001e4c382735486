use vstd::prelude::*;

use crate::account::{ids_view, AccountId};

verus! {

// Compute budgets handed to the host for each kind of external call, in the
// host's gas units, and the value amounts attached to them, in the host's
// smallest native denomination.

pub const FIVE_TGAS: u64 = 5_000_000_000_000;

pub const SEVEN_TGAS: u64 = 7_000_000_000_000;

pub const TWENTY_TGAS: u64 = 20_000_000_000_000;

pub const SIXTY_TGAS: u64 = 60_000_000_000_000;

/// Budget for the combined wrap-and-forward call.
pub const WRAP_GAS: u64 = SEVEN_TGAS + 2 * TWENTY_TGAS;

/// Budget for a token transfer call.
pub const TRANSFER_GAS: u64 = 2 * TWENTY_TGAS;

/// Budget for the result-aggregation continuation.
pub const CALLBACK_GAS: u64 = 8 * TWENTY_TGAS;

/// The smallest attachable value unit: the per-call reservation.
pub const ONE_YOCTO: u128 = 1;

/// The value a token contract asks for to provision storage for one account.
pub const STORAGE_DEPOSIT: u128 = 12_500_000_000_000_000_000_000;

/// The value the exchange service asks for to provision storage.
pub const POINT_ONE_NEAR: u128 = 100_000_000_000_000_000_000_000;

/// What one external call asks its target to do.
pub enum Action {
    /// Provision storage on the target for `beneficiary`, or for the calling
    /// contract itself when `beneficiary` is absent.
    StorageDeposit { beneficiary: Option<AccountId> },
    /// Register the listed assets with the exchange service.
    RegisterTokens { tokens: Vec<AccountId> },
    /// Wrap `amount` of native value into the intermediate asset and forward
    /// it to `receiver` in the same call.
    WrapAndForward { amount: u128, receiver: AccountId },
    /// Swap `amount_in` of `token_in` for `token_out` through pool
    /// `pool_id`. `min_amount_out` is the swap-level slippage guard; the
    /// buy workflow sets it to zero and defers validation to the aggregator.
    Swap { pool_id: u64, token_in: AccountId, amount_in: u128, token_out: AccountId, min_amount_out: u128 },
    /// Move `amount` of the swapped asset from the exchange service's
    /// holding back to the calling contract's on-chain balance.
    Withdraw { token: AccountId, amount: u128 },
    /// Transfer `amount` of the target token to `receiver`.
    FtTransfer { receiver: AccountId, amount: u128 },
    /// Call back into this contract's own ledger: credit `account`.
    MintCredit { account: AccountId, amount: u128 },
    /// Transfer `amount` of native value to the target.
    TransferNative { amount: u128 },
}

/// One node of a call plan: a single external invocation with the value and
/// compute budget attached to it, and its sequencing slot. The node at
/// position `j` may be dispatched only after every node whose position is
/// listed in `after` has been accepted; nodes that do not reach each other
/// through `after` edges are mutually independent and may resolve in any
/// order.
pub struct CallNode {
    pub target: AccountId,
    pub action: Action,
    pub deposit: u128,
    pub gas: u64,
    pub after: Vec<usize>,
}

pub open spec fn opt_id_view(o: Option<AccountId>) -> Option<Seq<u8>> {
    match o {
        Some(a) => Some(a@),
        None => None,
    }
}

pub open spec fn is_storage_deposit_node(
    n: CallNode,
    target: Seq<u8>,
    beneficiary: Option<Seq<u8>>,
    deposit: u128,
) -> bool {
    &&& n.target@ == target
    &&& n.action matches Action::StorageDeposit { beneficiary: b } && opt_id_view(b) == beneficiary
    &&& n.deposit == deposit
    &&& n.gas == FIVE_TGAS
}

pub open spec fn is_register_tokens_node(n: CallNode, target: Seq<u8>, tokens: Seq<Seq<u8>>) -> bool {
    &&& n.target@ == target
    &&& n.action matches Action::RegisterTokens { tokens: t } && ids_view(t@) == tokens
    &&& n.deposit == ONE_YOCTO
    &&& n.gas == FIVE_TGAS
}

pub open spec fn is_wrap_node(n: CallNode, wnear: Seq<u8>, receiver: Seq<u8>, amount: u128) -> bool {
    &&& n.target@ == wnear
    &&& n.action matches Action::WrapAndForward { amount: a, receiver: r } && a == amount && r@
        == receiver
    &&& n.deposit == amount
    &&& n.gas == WRAP_GAS
}

pub open spec fn is_swap_node(
    n: CallNode,
    amm: Seq<u8>,
    token_in: Seq<u8>,
    pool_id: u64,
    token_out: Seq<u8>,
    amount_in: u128,
) -> bool {
    &&& n.target@ == amm
    &&& n.action matches Action::Swap {
        pool_id: p,
        token_in: ti,
        amount_in: ai,
        token_out: to,
        min_amount_out: mo,
    } && p == pool_id && ti@ == token_in && ai == amount_in && to@ == token_out && mo == 0
    &&& n.deposit == ONE_YOCTO
    &&& n.gas == TWENTY_TGAS
}

pub open spec fn is_withdraw_node(n: CallNode, amm: Seq<u8>, token: Seq<u8>, amount: u128) -> bool {
    &&& n.target@ == amm
    &&& n.action matches Action::Withdraw { token: t, amount: a } && t@ == token && a == amount
    &&& n.deposit == ONE_YOCTO
    &&& n.gas == SIXTY_TGAS
}

pub open spec fn is_ft_transfer_node(
    n: CallNode,
    token: Seq<u8>,
    receiver: Seq<u8>,
    amount: u128,
) -> bool {
    &&& n.target@ == token
    &&& n.action matches Action::FtTransfer { receiver: r, amount: a } && r@ == receiver && a
        == amount
    &&& n.deposit == ONE_YOCTO
    &&& n.gas == TRANSFER_GAS
}

pub open spec fn is_mint_node(n: CallNode, owner: Seq<u8>, account: Seq<u8>, amount: u128) -> bool {
    &&& n.target@ == owner
    &&& n.action matches Action::MintCredit { account: ac, amount: a } && ac@ == account && a
        == amount
    &&& n.deposit == 0
    &&& n.gas == FIVE_TGAS
}

pub open spec fn is_transfer_native_node(n: CallNode, receiver: Seq<u8>, amount: u128) -> bool {
    &&& n.target@ == receiver
    &&& n.action matches Action::TransferNative { amount: a } && a == amount
    &&& n.deposit == amount
    &&& n.gas == 0
}

} // verus!
