use vstd::prelude::*;

use crate::account::{duplicate_ids, ids_view, AccountId};
use crate::metadata::FungibleTokenMetadata;

verus! {

/// The value transferred to a freshly provisioned basket instance.
pub const TWENTY_ONE_NEAR: u128 = 21_000_000_000_000_000_000_000_000;

/// The provisioning collaborator: records every basket instance it has
/// deployed. The host-side work of a deployment — creating the account,
/// moving value, installing the code and invoking its initializer — is the
/// embedding program's; the core derives the instance's identity and keeps
/// the registry.
pub struct Contract {
    /// The deployed basket instances, in deployment order.
    pub index_tokens: Vec<AccountId>,
}

impl Contract {
    /// An empty registry.
    pub fn new() -> (r: Contract)
        ensures
            r.index_tokens@.len() == 0,
    {
        Contract { index_tokens: Vec::new() }
    }

    /// Derives the new instance's identity — the token name, a dot, then
    /// the manager's own account — and records it. The basket definition
    /// and the attached value travel to the instance's initializer through
    /// the embedding program's deploy call.
    pub fn deploy_new_index(
        &mut self,
        current_account: &AccountId,
        metadata: &FungibleTokenMetadata,
        attached_deposit: u128,
    ) -> (r: AccountId)
        requires
            attached_deposit >= TWENTY_ONE_NEAR,
        ensures
            r@ == metadata.name@ + seq![46u8] + current_account@,
            ids_view(final(self).index_tokens@) == ids_view(old(self).index_tokens@).push(r@),
    {
        let mut bytes = metadata.name.clone();
        proof {
            assert(bytes@ =~= metadata.name@);
        }
        bytes.push(46);
        let mut i: usize = 0;
        while i < current_account.bytes.len()
            invariant
                i <= current_account.bytes.len(),
                bytes@.len() == metadata.name@.len() + 1 + i,
                bytes@ == metadata.name@ + seq![46u8] + current_account@.take(i as int),
            decreases current_account.bytes.len() - i,
        {
            bytes.push(current_account.bytes[i]);
            proof {
                assert(bytes@ =~= metadata.name@ + seq![46u8] + current_account@.take(i + 1));
            }
            i = i + 1;
        }
        proof {
            assert(current_account@.take(current_account@.len() as int) =~= current_account@);
        }
        let new_id = AccountId::new(bytes);
        self.index_tokens.push(new_id.duplicate());
        proof {
            assert(ids_view(self.index_tokens@) =~= ids_view(old(self).index_tokens@).push(
                new_id@,
            ));
        }
        new_id
    }

    /// Every deployed basket instance, in deployment order.
    pub fn get_index_tokens(&self) -> (r: Vec<AccountId>)
        ensures
            ids_view(r@) == ids_view(self.index_tokens@),
    {
        duplicate_ids(&self.index_tokens)
    }

    /// Forgets every recorded instance.
    pub fn clean_state(&mut self)
        ensures
            final(self).index_tokens@.len() == 0,
    {
        self.index_tokens = Vec::new();
    }
}

} // verus!
