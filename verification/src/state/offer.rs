//! The record of an offer.

use crate::pubkey::Pubkey;
use vstd::bytes::{spec_u64_to_le_bytes, u64_to_le_bytes};
use vstd::prelude::*;

verus! {

/// The record of one outstanding swap: what was locked, by whom, and what is
/// wanted in return. It is written once, when the offer is made, and never
/// changed; settling the offer removes it.
#[derive(Clone, Copy, Debug, PartialEq, Eq)]
pub struct Offer {
    /// Identifier of the offer, and the seed of its derived authority.
    pub id: u64,
    /// Who made the offer: the party that may take it back, and that is paid
    /// when it is taken.
    pub maker: Pubkey,
    /// The asset locked in the vault.
    pub token_mint_a: Pubkey,
    /// The asset wanted in return.
    pub token_mint_b: Pubkey,
    /// The exact amount of the wanted asset that fulfils the offer.
    pub token_b_wanted_amount: u64,
    /// The salt that, with the identifier, derives the offer's authority.
    /// Kept so that the authority can be derived again without a search.
    pub bump: u8,
}

/// The tag that starts the seeds of every offer: the bytes of `offer`.
pub open spec fn offer_tag() -> Seq<u8> {
    seq![111u8, 102u8, 102u8, 101u8, 114u8]
}

impl Offer {
    /// The seeds of the offer's derived authority: the tag, the identifier in
    /// little-endian bytes, and the salt.
    pub open spec fn spec_signer_seeds(&self) -> Seq<Seq<u8>> {
        seq![offer_tag(), spec_u64_to_le_bytes(self.id), seq![self.bump]]
    }

    /// The seeds that let the offer sign for its vault.
    pub fn signer_seeds(&self) -> (seeds: Vec<Vec<u8>>)
        ensures
            seeds.deep_view() == self.spec_signer_seeds(),
    {
        let mut tag: Vec<u8> = Vec::new();
        tag.push(111u8);
        tag.push(102u8);
        tag.push(102u8);
        tag.push(101u8);
        tag.push(114u8);
        let id_bytes = u64_to_le_bytes(self.id);
        let mut salt: Vec<u8> = Vec::new();
        salt.push(self.bump);
        let mut seeds: Vec<Vec<u8>> = Vec::new();
        seeds.push(tag);
        seeds.push(id_bytes);
        seeds.push(salt);
        proof {
            let got = seeds.deep_view();
            let want = self.spec_signer_seeds();
            assert(got.len() == 3);
            assert(got[0] =~= want[0]);
            assert(got[1] =~= want[1]);
            assert(got[2] =~= want[2]);
            assert(got =~= want);
        }
        seeds
    }
}

} // verus!
