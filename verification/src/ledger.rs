use vstd::prelude::*;

use crate::account::AccountId;
use crate::errors::ContractError;

verus! {

// A ledger snapshot at the specification level: one (identity, balance) pair
// per registered account, in registration order.

/// Whether some account in `s` has the identity `id`.
pub open spec fn holds_id(s: Seq<(Seq<u8>, u128)>, id: Seq<u8>) -> bool {
    exists|j: int| 0 <= j < s.len() && (#[trigger] s[j]).0 == id
}

/// The position of the account with identity `id` (meaningful when
/// `holds_id` and the identities are unique).
pub open spec fn idx_of(s: Seq<(Seq<u8>, u128)>, id: Seq<u8>) -> int {
    choose|j: int| 0 <= j < s.len() && (#[trigger] s[j]).0 == id
}

/// The balance of `id`: zero for an identity that is not registered.
pub open spec fn bal_of(s: Seq<(Seq<u8>, u128)>, id: Seq<u8>) -> u128 {
    if holds_id(s, id) {
        s[idx_of(s, id)].1
    } else {
        0
    }
}

/// No identity occurs twice.
pub open spec fn ids_unique(s: Seq<(Seq<u8>, u128)>) -> bool {
    forall|i: int, j: int| 0 <= i < j < s.len() ==> (#[trigger] s[i]).0 != (#[trigger] s[j]).0
}

/// The sum of all balances.
pub open spec fn sum_bal(s: Seq<(Seq<u8>, u128)>) -> int
    decreases s.len(),
{
    if s.len() == 0 {
        0
    } else {
        sum_bal(s.drop_last()) + s.last().1
    }
}

pub proof fn lemma_sum_nonneg(s: Seq<(Seq<u8>, u128)>)
    ensures
        sum_bal(s) >= 0,
    decreases s.len(),
{
    if s.len() > 0 {
        lemma_sum_nonneg(s.drop_last());
    }
}

pub proof fn lemma_sum_push(s: Seq<(Seq<u8>, u128)>, p: (Seq<u8>, u128))
    ensures
        sum_bal(s.push(p)) == sum_bal(s) + p.1,
{
    assert(s.push(p).drop_last() =~= s);
}

pub proof fn lemma_sum_update(s: Seq<(Seq<u8>, u128)>, i: int, p: (Seq<u8>, u128))
    requires
        0 <= i < s.len(),
    ensures
        sum_bal(s.update(i, p)) == sum_bal(s) - s[i].1 + p.1,
    decreases s.len(),
{
    if i == s.len() - 1 {
        assert(s.update(i, p).drop_last() =~= s.drop_last());
        assert(s.update(i, p).last() == p);
    } else {
        assert(s.update(i, p).drop_last() =~= s.drop_last().update(i, p));
        assert(s.update(i, p).last() == s.last());
        lemma_sum_update(s.drop_last(), i, p);
    }
}

/// Every single balance is bounded by the sum of all balances.
pub proof fn lemma_sum_bound(s: Seq<(Seq<u8>, u128)>, i: int)
    requires
        0 <= i < s.len(),
    ensures
        s[i].1 <= sum_bal(s),
    decreases s.len(),
{
    if i == s.len() - 1 {
        lemma_sum_nonneg(s.drop_last());
    } else {
        lemma_sum_bound(s.drop_last(), i);
    }
}

/// Two distinct balances together are bounded by the sum of all balances.
pub proof fn lemma_sum_two(s: Seq<(Seq<u8>, u128)>, i: int, j: int)
    requires
        0 <= i < s.len(),
        0 <= j < s.len(),
        i != j,
    ensures
        s[i].1 + s[j].1 <= sum_bal(s),
{
    let zeroed = s.update(i, (s[i].0, 0u128));
    lemma_sum_update(s, i, (s[i].0, 0u128));
    lemma_sum_bound(zeroed, j);
}

/// With unique identities, the account at any position is the one that
/// `idx_of` and `bal_of` find for its identity.
pub proof fn lemma_unique_at(s: Seq<(Seq<u8>, u128)>, i: int)
    requires
        ids_unique(s),
        0 <= i < s.len(),
    ensures
        holds_id(s, s[i].0),
        idx_of(s, s[i].0) == i,
        bal_of(s, s[i].0) == s[i].1,
{
    assert(holds_id(s, s[i].0));
    let j = idx_of(s, s[i].0);
    assert(0 <= j < s.len() && s[j].0 == s[i].0);
    if i != j {
        assert(s[i].0 != s[j].0);
    }
}

/// An identity that matches no account is not held, and reads as zero.
pub proof fn lemma_no_witness(s: Seq<(Seq<u8>, u128)>, id: Seq<u8>)
    requires
        forall|j: int| 0 <= j < s.len() ==> (#[trigger] s[j]).0 != id,
    ensures
        !holds_id(s, id),
        bal_of(s, id) == 0,
{
    if holds_id(s, id) {
        let j = choose|j: int| 0 <= j < s.len() && (#[trigger] s[j]).0 == id;
        assert(s[j].0 != id);
    }
}

/// Replacing the balance at one position touches no other account.
pub proof fn lemma_update_frame(s: Seq<(Seq<u8>, u128)>, i: int, p: (Seq<u8>, u128))
    requires
        ids_unique(s),
        0 <= i < s.len(),
        p.0 == s[i].0,
    ensures
        ids_unique(s.update(i, p)),
        holds_id(s.update(i, p), p.0),
        bal_of(s.update(i, p), p.0) == p.1,
        forall|x: Seq<u8>| x != p.0 ==> #[trigger] bal_of(s.update(i, p), x) == bal_of(s, x),
        forall|x: Seq<u8>| x != p.0 ==> #[trigger] holds_id(s.update(i, p), x) == holds_id(s, x),
        sum_bal(s.update(i, p)) == sum_bal(s) - s[i].1 + p.1,
{
    let t = s.update(i, p);
    assert forall|a: int, b: int| 0 <= a < b < t.len() implies (#[trigger] t[a]).0 != (#[trigger] t[b]).0 by {
        assert(t[a].0 == s[a].0 && t[b].0 == s[b].0);
    }
    lemma_unique_at(t, i);
    assert forall|x: Seq<u8>| x != p.0 implies #[trigger] holds_id(t, x) == holds_id(s, x) by {
        if holds_id(t, x) {
            let j = idx_of(t, x);
            assert(0 <= j < t.len() && t[j].0 == x);
            assert(j != i);
            assert(s[j].0 == x);
        }
        if holds_id(s, x) {
            let j = idx_of(s, x);
            assert(0 <= j < s.len() && s[j].0 == x);
            assert(j != i);
            assert(t[j].0 == x);
        }
    }
    assert forall|x: Seq<u8>| x != p.0 implies #[trigger] bal_of(t, x) == bal_of(s, x) by {
        if holds_id(s, x) {
            let j = idx_of(s, x);
            assert(0 <= j < s.len() && s[j].0 == x);
            assert(j != i);
            lemma_unique_at(s, j);
            lemma_unique_at(t, j);
        }
    }
    lemma_sum_update(s, i, p);
}

/// Appending a fresh account touches no existing account.
pub proof fn lemma_push_frame(s: Seq<(Seq<u8>, u128)>, p: (Seq<u8>, u128))
    requires
        ids_unique(s),
        !holds_id(s, p.0),
    ensures
        ids_unique(s.push(p)),
        holds_id(s.push(p), p.0),
        bal_of(s.push(p), p.0) == p.1,
        forall|x: Seq<u8>| x != p.0 ==> #[trigger] bal_of(s.push(p), x) == bal_of(s, x),
        forall|x: Seq<u8>| x != p.0 ==> #[trigger] holds_id(s.push(p), x) == holds_id(s, x),
        sum_bal(s.push(p)) == sum_bal(s) + p.1,
{
    let t = s.push(p);
    assert forall|a: int, b: int| 0 <= a < b < t.len() implies (#[trigger] t[a]).0 != (#[trigger] t[b]).0 by {
        if b < s.len() {
            assert(t[a].0 == s[a].0 && t[b].0 == s[b].0);
        } else {
            assert(t[b] == p);
            assert(t[a].0 == s[a].0);
            if s[a].0 == p.0 {
                assert(holds_id(s, p.0));
            }
        }
    }
    lemma_unique_at(t, s.len() as int);
    assert forall|x: Seq<u8>| x != p.0 implies #[trigger] holds_id(t, x) == holds_id(s, x) by {
        if holds_id(t, x) {
            let j = idx_of(t, x);
            assert(0 <= j < t.len() && t[j].0 == x);
            assert(j != s.len());
            assert(s[j].0 == x);
        }
        if holds_id(s, x) {
            let j = idx_of(s, x);
            assert(t[j].0 == x);
        }
    }
    assert forall|x: Seq<u8>| x != p.0 implies #[trigger] bal_of(t, x) == bal_of(s, x) by {
        if holds_id(s, x) {
            let j = idx_of(s, x);
            assert(0 <= j < s.len() && s[j].0 == x);
            lemma_unique_at(s, j);
            lemma_unique_at(t, j);
        }
    }
    lemma_sum_push(s, p);
}

/// Once an identity is held — in particular right after a successful
/// registration, which appends it with a zero balance — a further
/// registration of it finds it held: `register` then returns
/// `AlreadyRegistered` and leaves the ledger, and so the balance the first
/// registration created, unchanged.
pub proof fn lemma_register_not_repeatable(s: Seq<(Seq<u8>, u128)>, id: Seq<u8>)
    requires
        ids_unique(s),
        !holds_id(s, id),
    ensures
        ids_unique(s.push((id, 0u128))),
        holds_id(s.push((id, 0u128)), id),
        bal_of(s.push((id, 0u128)), id) == 0,
{
    lemma_push_frame(s, (id, 0u128));
}

/// One registered account: an identity and its balance.
pub struct AccountEntry {
    pub id: AccountId,
    pub balance: u128,
}

/// The fungible ledger: every registered account's balance, the total
/// supply, and the longest registered identity's encoded size (a watermark
/// callers use for storage-cost estimation).
pub struct Ledger {
    pub accounts: Vec<AccountEntry>,
    pub total_supply: u128,
    pub bytes_for_longest_account_id: u64,
}

impl Ledger {
    /// The snapshot this ledger denotes.
    pub open spec fn balances(self) -> Seq<(Seq<u8>, u128)> {
        self.accounts@.map_values(|e: AccountEntry| (e.id@, e.balance))
    }

    /// Conservation: the balances sum exactly to the total supply.
    pub open spec fn conserved(self) -> bool {
        sum_bal(self.balances()) == self.total_supply
    }

    /// Well-formedness: unique identities, conservation, and a watermark
    /// that bounds every registered identity's encoded size.
    pub open spec fn wf(self) -> bool {
        &&& ids_unique(self.balances())
        &&& self.conserved()
        &&& forall|j: int|
            0 <= j < self.balances().len() ==> (#[trigger] self.balances()[j]).0.len()
                <= self.bytes_for_longest_account_id
    }

    /// An empty ledger: no accounts, no supply.
    pub fn new() -> (r: Ledger)
        ensures
            r.wf(),
            r.balances().len() == 0,
            r.total_supply == 0,
            r.bytes_for_longest_account_id == 0,
    {
        Ledger { accounts: Vec::new(), total_supply: 0, bytes_for_longest_account_id: 0 }
    }

    /// The position of `id` in the account vector, if it is registered.
    fn find_index(&self, id: &AccountId) -> (r: Option<usize>)
        ensures
            match r {
                Some(i) => i < self.accounts.len() && self.balances()[i as int].0 == id@,
                None => !holds_id(self.balances(), id@) && bal_of(self.balances(), id@) == 0,
            },
    {
        let mut i: usize = 0;
        while i < self.accounts.len()
            invariant
                i <= self.accounts.len(),
                forall|j: int| 0 <= j < i ==> (#[trigger] self.balances()[j]).0 != id@,
            decreases self.accounts.len() - i,
        {
            if self.accounts[i].id.matches(id) {
                return Some(i);
            }
            i = i + 1;
        }
        proof {
            lemma_no_witness(self.balances(), id@);
        }
        None
    }

    /// The balance of `id`; zero when `id` is not registered. Reading a
    /// balance never implies registration.
    pub fn balance_of(&self, id: &AccountId) -> (r: u128)
        requires
            self.wf(),
        ensures
            r == bal_of(self.balances(), id@),
    {
        match self.find_index(id) {
            Some(i) => {
                proof {
                    lemma_unique_at(self.balances(), i as int);
                }
                self.accounts[i].balance
            },
            None => 0,
        }
    }

    /// The total supply of the token.
    pub fn supply(&self) -> (r: u128)
        ensures
            r == self.total_supply,
    {
        self.total_supply
    }

    /// Creates a zero balance for `id`. Fails with `AlreadyRegistered`, and
    /// changes nothing, when `id` is already present: registering is safe to
    /// attempt but never silently repeats. Raises the longest-identity
    /// watermark when this identity's encoded size exceeds it.
    pub fn register(&mut self, id: AccountId) -> (r: Result<(), ContractError>)
        requires
            old(self).wf(),
        ensures
            final(self).wf(),
            final(self).total_supply == old(self).total_supply,
            match r {
                Ok(()) => {
                    &&& !holds_id(old(self).balances(), id@)
                    &&& final(self).balances() == old(self).balances().push((id@, 0u128))
                    &&& holds_id(final(self).balances(), id@)
                    &&& bal_of(final(self).balances(), id@) == 0
                    &&& forall|x: Seq<u8>|
                        x != id@ ==> #[trigger] bal_of(final(self).balances(), x) == bal_of(
                            old(self).balances(),
                            x,
                        )
                    &&& forall|x: Seq<u8>|
                        x != id@ ==> #[trigger] holds_id(final(self).balances(), x) == holds_id(
                            old(self).balances(),
                            x,
                        )
                    &&& final(self).bytes_for_longest_account_id == if id@.len() > old(
                        self,
                    ).bytes_for_longest_account_id {
                        id@.len() as u64
                    } else {
                        old(self).bytes_for_longest_account_id
                    }
                },
                Err(e) => {
                    &&& e == ContractError::AlreadyRegistered
                    &&& holds_id(old(self).balances(), id@)
                    &&& *final(self) == *old(self)
                },
            },
    {
        match self.find_index(&id) {
            Some(i) => {
                proof {
                    lemma_unique_at(self.balances(), i as int);
                }
                Err(ContractError::AlreadyRegistered)
            },
            None => {
                let ghost pre = self.balances();
                let ghost gid = id@;
                let len = id.byte_len();
                if len as u64 > self.bytes_for_longest_account_id {
                    self.bytes_for_longest_account_id = len as u64;
                }
                proof {
                    lemma_push_frame(pre, (gid, 0u128));
                }
                self.accounts.push(AccountEntry { id, balance: 0 });
                proof {
                    assert(self.balances() =~= pre.push((gid, 0u128)));
                }
                Ok(())
            },
        }
    }

    /// Adds `amount` to `id`'s balance and to the total supply. Fails with
    /// `NotRegistered` when `id` is absent and with `Overflow` when the new
    /// supply would not fit, changing nothing in either case.
    pub fn credit(&mut self, id: &AccountId, amount: u128) -> (r: Result<(), ContractError>)
        requires
            old(self).wf(),
        ensures
            final(self).wf(),
            final(self).bytes_for_longest_account_id == old(self).bytes_for_longest_account_id,
            final(self).balances().len() == old(self).balances().len(),
            match r {
                Ok(()) => {
                    &&& holds_id(old(self).balances(), id@)
                    &&& old(self).total_supply + amount <= u128::MAX
                    &&& final(self).total_supply == old(self).total_supply + amount
                    &&& bal_of(final(self).balances(), id@) == bal_of(old(self).balances(), id@)
                        + amount
                    &&& forall|x: Seq<u8>|
                        x != id@ ==> #[trigger] bal_of(final(self).balances(), x) == bal_of(
                            old(self).balances(),
                            x,
                        )
                    &&& forall|x: Seq<u8>|
                        #[trigger] holds_id(final(self).balances(), x) == holds_id(
                            old(self).balances(),
                            x,
                        )
                },
                Err(e) => {
                    &&& *final(self) == *old(self)
                    &&& (e == ContractError::NotRegistered <==> !holds_id(
                        old(self).balances(),
                        id@,
                    ))
                    &&& (e == ContractError::Overflow <==> holds_id(old(self).balances(), id@)
                        && old(self).total_supply + amount > u128::MAX)
                    &&& (e == ContractError::NotRegistered || e == ContractError::Overflow)
                },
            },
    {
        let ghost pre = self.balances();
        match self.find_index(id) {
            None => Err(ContractError::NotRegistered),
            Some(i) => {
                proof {
                    lemma_unique_at(pre, i as int);
                }
                if amount > u128::MAX - self.total_supply {
                    return Err(ContractError::Overflow);
                }
                let fresh_id = self.accounts[i].id.duplicate();
                let bal = self.accounts[i].balance;
                proof {
                    lemma_sum_bound(pre, i as int);
                }
                self.accounts.set(i, AccountEntry { id: fresh_id, balance: bal + amount });
                self.total_supply = self.total_supply + amount;
                proof {
                    assert(self.balances() =~= pre.update(i as int, (id@, (bal + amount) as u128)));
                    lemma_update_frame(pre, i as int, (id@, (bal + amount) as u128));
                }
                Ok(())
            },
        }
    }

    /// Subtracts `amount` from `id`'s balance and from the total supply.
    /// Fails with `NotRegistered` when `id` is absent and with
    /// `InsufficientBalance` when the balance is too small, changing nothing
    /// in either case.
    pub fn debit(&mut self, id: &AccountId, amount: u128) -> (r: Result<(), ContractError>)
        requires
            old(self).wf(),
        ensures
            final(self).wf(),
            final(self).bytes_for_longest_account_id == old(self).bytes_for_longest_account_id,
            final(self).balances().len() == old(self).balances().len(),
            match r {
                Ok(()) => {
                    &&& holds_id(old(self).balances(), id@)
                    &&& amount <= bal_of(old(self).balances(), id@)
                    &&& final(self).total_supply == old(self).total_supply - amount
                    &&& bal_of(final(self).balances(), id@) == bal_of(old(self).balances(), id@)
                        - amount
                    &&& forall|x: Seq<u8>|
                        x != id@ ==> #[trigger] bal_of(final(self).balances(), x) == bal_of(
                            old(self).balances(),
                            x,
                        )
                    &&& forall|x: Seq<u8>|
                        #[trigger] holds_id(final(self).balances(), x) == holds_id(
                            old(self).balances(),
                            x,
                        )
                },
                Err(e) => {
                    &&& *final(self) == *old(self)
                    &&& (e == ContractError::NotRegistered <==> !holds_id(
                        old(self).balances(),
                        id@,
                    ))
                    &&& (e == ContractError::InsufficientBalance <==> holds_id(
                        old(self).balances(),
                        id@,
                    ) && amount > bal_of(old(self).balances(), id@))
                    &&& (e == ContractError::NotRegistered || e
                        == ContractError::InsufficientBalance)
                },
            },
    {
        let ghost pre = self.balances();
        match self.find_index(id) {
            None => Err(ContractError::NotRegistered),
            Some(i) => {
                proof {
                    lemma_unique_at(pre, i as int);
                }
                let bal = self.accounts[i].balance;
                if amount > bal {
                    return Err(ContractError::InsufficientBalance);
                }
                let fresh_id = self.accounts[i].id.duplicate();
                proof {
                    lemma_sum_bound(pre, i as int);
                }
                self.accounts.set(i, AccountEntry { id: fresh_id, balance: bal - amount });
                self.total_supply = self.total_supply - amount;
                proof {
                    assert(self.balances() =~= pre.update(i as int, (id@, (bal - amount) as u128)));
                    lemma_update_frame(pre, i as int, (id@, (bal - amount) as u128));
                }
                Ok(())
            },
        }
    }

    /// Moves `amount` from `from` to `to` atomically: either both balances
    /// change or, on any failure, nothing does. The supply never changes.
    /// Fails with `SelfTransferDisallowed` when `from == to`, with
    /// `NotRegistered` when either side is absent, and with
    /// `InsufficientBalance` when `from` holds less than `amount`. The memo
    /// is for the embedding program's event log; the ledger ignores it.
    pub fn transfer(
        &mut self,
        from: &AccountId,
        to: &AccountId,
        amount: u128,
        memo: Option<Vec<u8>>,
    ) -> (r: Result<(), ContractError>)
        requires
            old(self).wf(),
        ensures
            final(self).wf(),
            final(self).total_supply == old(self).total_supply,
            final(self).bytes_for_longest_account_id == old(self).bytes_for_longest_account_id,
            match r {
                Ok(()) => {
                    &&& from@ != to@
                    &&& holds_id(old(self).balances(), from@)
                    &&& holds_id(old(self).balances(), to@)
                    &&& amount <= bal_of(old(self).balances(), from@)
                    &&& bal_of(final(self).balances(), from@) == bal_of(
                        old(self).balances(),
                        from@,
                    ) - amount
                    &&& bal_of(final(self).balances(), to@) == bal_of(old(self).balances(), to@)
                        + amount
                    &&& forall|x: Seq<u8>|
                        x != from@ && x != to@ ==> #[trigger] bal_of(final(self).balances(), x)
                            == bal_of(old(self).balances(), x)
                    &&& forall|x: Seq<u8>|
                        #[trigger] holds_id(final(self).balances(), x) == holds_id(
                            old(self).balances(),
                            x,
                        )
                },
                Err(e) => {
                    &&& *final(self) == *old(self)
                    &&& (e == ContractError::SelfTransferDisallowed <==> from@ == to@)
                    &&& (from@ != to@ && !holds_id(old(self).balances(), from@) ==> e
                        == ContractError::NotRegistered)
                    &&& (from@ != to@ && holds_id(old(self).balances(), from@) && amount > bal_of(
                        old(self).balances(),
                        from@,
                    ) ==> e == ContractError::InsufficientBalance)
                    &&& (from@ != to@ && holds_id(old(self).balances(), from@) && amount <= bal_of(
                        old(self).balances(),
                        from@,
                    ) && !holds_id(old(self).balances(), to@) ==> e
                        == ContractError::NotRegistered)
                },
            },
            r is Ok <==> (from@ != to@ && holds_id(old(self).balances(), from@) && holds_id(
                old(self).balances(),
                to@,
            ) && amount <= bal_of(old(self).balances(), from@)),
    {
        let _ = memo;
        if from.matches(to) {
            return Err(ContractError::SelfTransferDisallowed);
        }
        let ghost pre = self.balances();
        let fi = match self.find_index(from) {
            None => {
                return Err(ContractError::NotRegistered);
            },
            Some(fi) => fi,
        };
        proof {
            lemma_unique_at(pre, fi as int);
        }
        let from_bal = self.accounts[fi].balance;
        if amount > from_bal {
            return Err(ContractError::InsufficientBalance);
        }
        let ti = match self.find_index(to) {
            None => {
                return Err(ContractError::NotRegistered);
            },
            Some(ti) => ti,
        };
        proof {
            lemma_unique_at(pre, ti as int);
            assert(fi != ti);
            lemma_sum_two(pre, fi as int, ti as int);
        }
        let to_bal = self.accounts[ti].balance;
        let fresh_from = self.accounts[fi].id.duplicate();
        self.accounts.set(fi, AccountEntry { id: fresh_from, balance: from_bal - amount });
        let ghost mid = self.balances();
        proof {
            assert(mid =~= pre.update(fi as int, (from@, (from_bal - amount) as u128)));
            lemma_update_frame(pre, fi as int, (from@, (from_bal - amount) as u128));
            assert(mid[ti as int] == pre[ti as int]);
            lemma_unique_at(mid, ti as int);
        }
        let fresh_to = self.accounts[ti].id.duplicate();
        self.accounts.set(ti, AccountEntry { id: fresh_to, balance: to_bal + amount });
        proof {
            assert(self.balances() =~= mid.update(ti as int, (to@, (to_bal + amount) as u128)));
            lemma_update_frame(mid, ti as int, (to@, (to_bal + amount) as u128));
        }
        Ok(())
    }
}

} // verus!
