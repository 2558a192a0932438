//! Who may act on the ledger: signers, and the keyless identities that a
//! program derives from seeds.

use crate::pubkey::Pubkey;
use vstd::prelude::*;

verus! {

/// The address that a program derives from seeds, as the bytes of the address,
/// or `None` where the seeds derive none.
pub uninterp spec fn program_address(seeds: Seq<Seq<u8>>, program_id: Seq<u8>) -> Option<Seq<u8>>;

/// Calls `Pubkey::create_program_address` of `anchor_lang`. The result is the
/// address that the seeds derive for the program, a function of the seeds and
/// the program alone; an error of the call, whatever its kind, comes back as
/// `None`.
#[verifier::external_body]
fn create_program_address(seeds: &Vec<Vec<u8>>, program_id: &Pubkey) -> (address: Option<Pubkey>)
    ensures
        match address {
            Some(a) => program_address(seeds.deep_view(), program_id@) == Some(a@),
            None => program_address(seeds.deep_view(), program_id@) is None,
        },
{
    let parts: Vec<&[u8]> = seeds.iter().map(|seed| seed.as_slice()).collect();
    let program = anchor_lang::prelude::Pubkey::new_from_array(program_id.bytes);
    match anchor_lang::prelude::Pubkey::create_program_address(&parts, &program) {
        Ok(address) => Some(Pubkey { bytes: address.to_bytes() }),
        Err(_) => None,
    }
}

/// Proof of the right to act for one identity on the ledger. The ledger moves
/// tokens out of an account, or closes it, only for a token of the account's
/// owner.
///
/// There are two ways to one: a party that signed the request stands for
/// itself, and a program stands for the keyless address that seeds derive for
/// it. Nothing signs by default.
#[derive(Clone, Copy, Debug)]
pub struct AuthorityToken {
    address: Pubkey,
}

impl View for AuthorityToken {
    type V = Pubkey;

    /// The identity that the token acts for.
    closed spec fn view(&self) -> Pubkey {
        self.address
    }
}

impl AuthorityToken {
    /// The token of a party that signed the request itself.
    pub fn signer(identity: Pubkey) -> (token: AuthorityToken)
        ensures
            token@ == identity,
    {
        AuthorityToken { address: identity }
    }

    /// The identity that the token acts for.
    pub fn address(&self) -> (address: Pubkey)
        ensures
            address == self@,
    {
        self.address
    }
}

/// The keyless identity that `seeds` derive for the program, or `None` where
/// they derive none.
pub open spec fn derived_authority(seeds: Seq<Seq<u8>>, program_id: Pubkey) -> Option<Pubkey> {
    match program_address(seeds, program_id@) {
        Some(bytes) => Some(Pubkey::of_bytes(bytes)),
        None => None,
    }
}

/// The token of the keyless identity that `seeds` derive for the program, or
/// `None` where they derive none. This is the one way in which a program
/// signs.
pub fn derive_authority(seeds: &Vec<Vec<u8>>, program_id: &Pubkey) -> (token: Option<
    AuthorityToken,
>)
    ensures
        match token {
            Some(t) => derived_authority(seeds.deep_view(), *program_id) == Some(t@),
            None => derived_authority(seeds.deep_view(), *program_id) is None,
        },
{
    match create_program_address(seeds, program_id) {
        Some(address) => {
            proof {
                Pubkey::lemma_of_bytes(address);
            }
            Some(AuthorityToken { address })
        },
        None => None,
    }
}

} // verus!
