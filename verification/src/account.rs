use vstd::prelude::*;

verus! {

/// An account identity: the UTF-8 bytes of a host-environment account name.
///
/// The host's own account type never enters the verified core; the core only
/// ever reads an identity's bytes (for equality and for its encoded size), so
/// it carries them as a plain byte vector.
pub struct AccountId {
    pub bytes: Vec<u8>,
}

impl View for AccountId {
    type V = Seq<u8>;

    open spec fn view(&self) -> Seq<u8> {
        self.bytes@
    }
}

impl AccountId {
    pub fn new(bytes: Vec<u8>) -> (r: AccountId)
        ensures
            r@ == bytes@,
    {
        AccountId { bytes }
    }

    /// The encoded size of this identity, in bytes.
    pub fn byte_len(&self) -> (r: usize)
        ensures
            r == self@.len(),
    {
        self.bytes.len()
    }

    /// Whether two identities are the same account.
    pub fn matches(&self, other: &AccountId) -> (r: bool)
        ensures
            r == (self@ == other@),
    {
        let r = self.bytes == other.bytes;
        proof {
            if r {
                assert(self@ =~= other@);
            }
        }
        r
    }

    /// A fresh copy of this identity.
    pub fn duplicate(&self) -> (r: AccountId)
        ensures
            r@ == self@,
    {
        let bytes = self.bytes.clone();
        proof {
            assert(bytes@ =~= self.bytes@);
        }
        AccountId { bytes }
    }
}

/// The identities held in a vector, as byte sequences.
pub open spec fn ids_view(v: Seq<AccountId>) -> Seq<Seq<u8>> {
    v.map_values(|a: AccountId| a@)
}

/// Copies a list of identities.
pub fn duplicate_ids(v: &Vec<AccountId>) -> (r: Vec<AccountId>)
    ensures
        ids_view(r@) == ids_view(v@),
{
    let mut r: Vec<AccountId> = Vec::new();
    let mut i: usize = 0;
    while i < v.len()
        invariant
            i <= v.len(),
            r@.len() == i,
            forall|j: int| 0 <= j < i ==> r@[j]@ == v@[j]@,
        decreases v.len() - i,
    {
        r.push(v[i].duplicate());
        i = i + 1;
    }
    proof {
        assert(ids_view(r@) =~= ids_view(v@));
    }
    r
}

} // verus!
