//! The address of each owner's proof account.
use vstd::prelude::*;

verus! {

/// The proof account address of the owner with address `owner`, if the
/// search for an off-curve address succeeds.
pub uninterp spec fn proof_address_of(owner: Seq<u8>) -> Option<Seq<u8>>;

/// Relies on solana's `Pubkey::try_find_program_address` over the seeds
/// `["proof", owner]` and ore's program id: a deterministic search over bump
/// seeds that returns the first off-curve address, or `None`.
#[verifier::external_body]
fn find_proof_address(owner: &[u8; 32]) -> (r: Option<[u8; 32]>)
    ensures
        r is None <==> proof_address_of(owner@) is None,
        r matches Some(a) ==> proof_address_of(owner@) == Some(a@),
{
    solana_sdk::pubkey::Pubkey::try_find_program_address(&[ore::PROOF, owner.as_slice()], &ore::ID)
        .map(|found| found.0.to_bytes())
}

/// Derives the proof account address of every owner, in order; `None` when
/// some owner has no such address.
pub fn derive_proof_addresses(owners: &Vec<[u8; 32]>) -> (r: Option<Vec<[u8; 32]>>)
    ensures
        r is None <==> exists|i: int| 0 <= i < owners@.len() && (#[trigger] proof_address_of(owners@[i]@)) is None,
        r matches Some(v) ==> v@.len() == owners@.len() && forall|i: int| 0 <= i < owners@.len()
            ==> proof_address_of(owners@[i]@) == Some((#[trigger] v@[i])@),
{
    let mut v: Vec<[u8; 32]> = Vec::new();
    let mut i: usize = 0;
    while i < owners.len()
        invariant
            i <= owners@.len(),
            v@.len() == i,
            forall|k: int| 0 <= k < i ==> proof_address_of(owners@[k]@) == Some((#[trigger] v@[k])@),
        decreases owners@.len() - i,
    {
        match find_proof_address(&owners[i]) {
            Some(a) => v.push(a),
            None => {
                assert(proof_address_of(owners@[i as int]@) is None);
                return None;
            },
        }
        i = i + 1;
    }
    assert forall|k: int| 0 <= k < owners@.len() implies !(#[trigger] proof_address_of(owners@[k]@) is None) by {
        assert(proof_address_of(owners@[k]@) == Some(v@[k]@));
    }
    Some(v)
}

} // verus!
