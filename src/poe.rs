//! Proof of existence: an account claims a byte string, recorded with the
//! block it was claimed in; only the claimer may revoke or hand it on.
use vstd::prelude::*;

use crate::AccountId;

verus! {

broadcast use vstd::std_specs::vec::group_vec_axioms;

/// Number of a block.
pub type BlockNumber = u64;

/// What a successful operation reports.
#[derive(Debug, PartialEq, Eq)]
pub enum Event {
    /// (claimer, claim)
    ClaimCreated(AccountId, Vec<u8>),
    /// (claimer, claim)
    ClaimRevoked(AccountId, Vec<u8>),
    /// (old owner, new owner, claim)
    TransferClaim(AccountId, AccountId, Vec<u8>),
}

/// Why an operation failed.
#[derive(Clone, Copy, Debug, PartialEq, Eq, Structural)]
pub enum Error {
    /// The claim is already recorded.
    ProofAlreadyExist,
    /// The claim is not recorded.
    ClaimNotExist,
    /// The caller is not the claim's owner.
    NotClaimOwner,
}

/// Whether two byte strings are equal.
fn bytes_equal(a: &Vec<u8>, b: &Vec<u8>) -> (r: bool)
    ensures
        r == (a@ == b@),
{
    if a.len() != b.len() {
        return false;
    }
    let mut i: usize = 0;
    while i < a.len()
        invariant
            a@.len() == b@.len(),
            0 <= i <= a@.len(),
            forall|j: int| 0 <= j < i ==> a@[j] == b@[j],
        decreases a@.len() - i,
    {
        if a[i] != b[i] {
            return false;
        }
        i += 1;
    }
    assert(a@ =~= b@);
    true
}

/// The recorded claims, each with its owner and the block it was made in.
pub struct Pallet {
    claims: Vec<Vec<u8>>,
    owners: Vec<AccountId>,
    blocks: Vec<BlockNumber>,
    records: Ghost<Map<Seq<u8>, (AccountId, BlockNumber)>>,
}

impl Pallet {
    /// Owner and block of each recorded claim.
    pub closed spec fn proofs(&self) -> Map<Seq<u8>, (AccountId, BlockNumber)> {
        self.records@
    }

    /// The three columns line up, each row is recorded in `proofs`, every
    /// recorded claim has a row, and no claim has two rows.
    pub closed spec fn wf(&self) -> bool {
        &&& self.claims@.len() == self.owners@.len()
        &&& self.claims@.len() == self.blocks@.len()
        &&& forall|i: int| #![trigger self.claims@[i]]
            0 <= i < self.claims@.len() ==> self.records@.contains_key(self.claims@[i]@)
                && self.records@[self.claims@[i]@] == (self.owners@[i], self.blocks@[i])
        &&& forall|k: Seq<u8>| #[trigger]
            self.records@.contains_key(k) ==> exists|i: int|
                0 <= i < self.claims@.len() && #[trigger] self.claims@[i]@ == k
        &&& forall|i: int, j: int|
            0 <= i < self.claims@.len() && 0 <= j < self.claims@.len() && i != j
                ==> #[trigger] self.claims@[i]@ != #[trigger] self.claims@[j]@
    }

    /// A registry with no claims.
    pub fn new() -> (r: Pallet)
        ensures
            r.wf(),
            r.proofs() == Map::<Seq<u8>, (AccountId, BlockNumber)>::empty(),
    {
        Pallet {
            claims: Vec::new(),
            owners: Vec::new(),
            blocks: Vec::new(),
            records: Ghost(Map::empty()),
        }
    }

    /// The row that holds `claim`, if any.
    fn find(&self, claim: &Vec<u8>) -> (r: Option<usize>)
        requires
            self.wf(),
        ensures
            match r {
                Some(i) => i < self.claims@.len() && self.claims@[i as int]@ == claim@,
                None => !self.proofs().contains_key(claim@),
            },
    {
        let mut i: usize = 0;
        while i < self.claims.len()
            invariant
                self.wf(),
                0 <= i <= self.claims@.len(),
                forall|j: int| 0 <= j < i ==> #[trigger] self.claims@[j]@ != claim@,
            decreases self.claims@.len() - i,
        {
            if bytes_equal(&self.claims[i], claim) {
                return Some(i);
            }
            i += 1;
        }
        None
    }

    /// Owner and block of `claim`, if it is recorded.
    pub fn proof_of(&self, claim: &Vec<u8>) -> (r: Option<(AccountId, BlockNumber)>)
        requires
            self.wf(),
        ensures
            match r {
                Some(v) => self.proofs().contains_key(claim@) && v == self.proofs()[claim@],
                None => !self.proofs().contains_key(claim@),
            },
    {
        match self.find(claim) {
            Some(i) => Some((self.owners[i], self.blocks[i])),
            None => None,
        }
    }
    /// `who` claims `claim` in block `current_block`; a claim already recorded
    /// is refused.
    pub fn create_claim(&mut self, who: AccountId, claim: Vec<u8>, current_block: BlockNumber) -> (r:
        Result<Event, Error>)
        requires
            old(self).wf(),
        ensures
            final(self).wf(),
            old(self).proofs().contains_key(claim@) ==> r == Err::<Event, Error>(
                Error::ProofAlreadyExist,
            ) && *final(self) == *old(self),
            !old(self).proofs().contains_key(claim@) ==> r == Ok::<Event, Error>(
                Event::ClaimCreated(who, claim),
            ) && final(self).proofs() == old(self).proofs().insert(claim@, (who, current_block)),
    {
        if let Some(_) = self.find(&claim) {
            return Err(Error::ProofAlreadyExist);
        }
        let stored = claim.clone();
        assert(stored@ =~= claim@);
        self.claims.push(stored);
        self.owners.push(who);
        self.blocks.push(current_block);
        self.records = Ghost(self.records@.insert(claim@, (who, current_block)));
        proof {
            let n = old(self).claims@.len() as int;
            assert forall|i: int| #![trigger self.claims@[i]] 0 <= i < self.claims@.len() implies self.records@.contains_key(self.claims@[i]@)
                && self.records@[self.claims@[i]@] == (self.owners@[i], self.blocks@[i]) by {
                if i < n {
                    assert(self.claims@[i] == old(self).claims@[i]);
                    assert(old(self).records@.contains_key(old(self).claims@[i]@));
                }
            }
            assert forall|k: Seq<u8>| #[trigger] self.records@.contains_key(k) implies exists|i: int|
                0 <= i < self.claims@.len() && #[trigger] self.claims@[i]@ == k by {
                if k == claim@ {
                    assert(self.claims@[n]@ == k);
                } else {
                    assert(old(self).records@.contains_key(k));
                    let w = choose|i: int| 0 <= i < old(self).claims@.len() && #[trigger] old(self).claims@[i]@ == k;
                    assert(self.claims@[w] == old(self).claims@[w]);
                }
            }
            assert forall|i: int, j: int|
                0 <= i < self.claims@.len() && 0 <= j < self.claims@.len() && i != j
                    implies #[trigger] self.claims@[i]@ != #[trigger] self.claims@[j]@ by {
                if i < n {
                    assert(self.claims@[i] == old(self).claims@[i]);
                    assert(old(self).records@.contains_key(old(self).claims@[i]@));
                }
                if j < n {
                    assert(self.claims@[j] == old(self).claims@[j]);
                    assert(old(self).records@.contains_key(old(self).claims@[j]@));
                }
            }
        }
        Ok(Event::ClaimCreated(who, claim))
    }

    /// `who` withdraws its claim `claim`.
    pub fn revoke_claim(&mut self, who: AccountId, claim: Vec<u8>) -> (r: Result<Event, Error>)
        requires
            old(self).wf(),
        ensures
            final(self).wf(),
            !old(self).proofs().contains_key(claim@) ==> r == Err::<Event, Error>(Error::ClaimNotExist)
                && *final(self) == *old(self),
            old(self).proofs().contains_key(claim@) && old(self).proofs()[claim@].0 != who ==> r
                == Err::<Event, Error>(Error::NotClaimOwner) && *final(self) == *old(self),
            old(self).proofs().contains_key(claim@) && old(self).proofs()[claim@].0 == who ==> r
                == Ok::<Event, Error>(Event::ClaimRevoked(who, claim)) && final(self).proofs()
                == old(self).proofs().remove(claim@),
    {
        let i = match self.find(&claim) {
            Some(i) => i,
            None => {
                return Err(Error::ClaimNotExist);
            },
        };
        if self.owners[i] != who {
            return Err(Error::NotClaimOwner);
        }
        self.claims.remove(i);
        self.owners.remove(i);
        self.blocks.remove(i);
        self.records = Ghost(self.records@.remove(claim@));
        proof {
            let old_claims = old(self).claims@;
            assert forall|j: int| #![trigger self.claims@[j]] 0 <= j < self.claims@.len() implies self.records@.contains_key(self.claims@[j]@)
                && self.records@[self.claims@[j]@] == (self.owners@[j], self.blocks@[j]) by {
                let o = if j < i { j } else { j + 1 };
                assert(self.claims@[j] == old_claims[o]);
                assert(old(self).records@.contains_key(old_claims[o]@));
                assert(old_claims[o]@ != old_claims[i as int]@);
            }
            assert forall|k: Seq<u8>| #[trigger] self.records@.contains_key(k) implies exists|j: int|
                0 <= j < self.claims@.len() && #[trigger] self.claims@[j]@ == k by {
                assert(old(self).records@.contains_key(k));
                let w = choose|j: int| 0 <= j < old_claims.len() && #[trigger] old_claims[j]@ == k;
                if w < i {
                    assert(self.claims@[w] == old_claims[w]);
                } else {
                    assert(w != i);
                    assert(self.claims@[w - 1] == old_claims[w]);
                }
            }
            assert forall|a: int, b: int|
                0 <= a < self.claims@.len() && 0 <= b < self.claims@.len() && a != b
                    implies #[trigger] self.claims@[a]@ != #[trigger] self.claims@[b]@ by {
                let oa = if a < i { a } else { a + 1 };
                let ob = if b < i { b } else { b + 1 };
                assert(self.claims@[a] == old_claims[oa]);
                assert(self.claims@[b] == old_claims[ob]);
                assert(old_claims[oa]@ != old_claims[ob]@);
            }
        }
        Ok(Event::ClaimRevoked(who, claim))
    }

    /// `who` hands its claim `claim` to `receiver`; the block it was made in is kept.
    pub fn transfer_claim(&mut self, who: AccountId, receiver: AccountId, claim: Vec<u8>) -> (r: Result<
        Event,
        Error,
    >)
        requires
            old(self).wf(),
        ensures
            final(self).wf(),
            !old(self).proofs().contains_key(claim@) ==> r == Err::<Event, Error>(Error::ClaimNotExist)
                && *final(self) == *old(self),
            old(self).proofs().contains_key(claim@) && old(self).proofs()[claim@].0 != who ==> r
                == Err::<Event, Error>(Error::NotClaimOwner) && *final(self) == *old(self),
            old(self).proofs().contains_key(claim@) && old(self).proofs()[claim@].0 == who ==> r
                == Ok::<Event, Error>(Event::TransferClaim(who, receiver, claim)) && final(self).proofs()
                == old(self).proofs().insert(claim@, (receiver, old(self).proofs()[claim@].1)),
    {
        let i = match self.find(&claim) {
            Some(i) => i,
            None => {
                return Err(Error::ClaimNotExist);
            },
        };
        if self.owners[i] != who {
            return Err(Error::NotClaimOwner);
        }
        self.owners.set(i, receiver);
        let ghost block = old(self).records@[claim@].1;
        self.records = Ghost(self.records@.insert(claim@, (receiver, block)));
        proof {
            assert forall|j: int| #![trigger self.claims@[j]] 0 <= j < self.claims@.len() implies self.records@.contains_key(self.claims@[j]@)
                && self.records@[self.claims@[j]@] == (self.owners@[j], self.blocks@[j]) by {
                assert(old(self).records@.contains_key(old(self).claims@[j]@));
                if j != i {
                    assert(old(self).claims@[j]@ != old(self).claims@[i as int]@);
                }
            }
            assert forall|k: Seq<u8>| #[trigger] self.records@.contains_key(k) implies exists|j: int|
                0 <= j < self.claims@.len() && #[trigger] self.claims@[j]@ == k by {
                if k == claim@ {
                    assert(self.claims@[i as int]@ == k);
                } else {
                    assert(old(self).records@.contains_key(k));
                }
            }
        }
        Ok(Event::TransferClaim(who, receiver, claim))
    }
}

} // verus!
