use vstd::prelude::*;

verus! {

/// Options of the reward report: the folder holding the owner keys.
pub struct BalanceArgs {
    pub key_folder: String,
}

impl BalanceArgs {
    pub fn new(key_folder: String) -> (r: BalanceArgs)
        ensures
            r.key_folder@ == key_folder@,
    {
        BalanceArgs { key_folder }
    }
}

/// Options of a consolidation run: the folder of source keys, the address
/// that receives the funds, and the fee payer's key file.
pub struct CollectArgs {
    pub keypair: String,
    pub beneficiary: [u8; 32],
    pub fee_payer: String,
}

impl CollectArgs {
    pub fn new(keypair: String, beneficiary: [u8; 32], fee_payer: String) -> (r: CollectArgs)
        ensures
            r.keypair@ == keypair@,
            r.beneficiary@ == beneficiary@,
            r.fee_payer@ == fee_payer@,
    {
        CollectArgs { keypair, beneficiary, fee_payer }
    }
}

} // verus!
