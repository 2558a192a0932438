//! The take: an offer is fulfilled.

use crate::authority::{derive_authority, derived_authority, AuthorityToken};
use crate::error::ErrorCode;
use crate::handlers::shared::{run, run_steps, SignedBy, Step};
use crate::ledger::Ledger;
use crate::model::{LedgerCall, LedgerView, TokenAccountId};
use crate::pubkey::Pubkey;
use crate::state::offer::Offer;
use vstd::prelude::*;

verus! {

/// A request to fulfil an offer.
///
/// The token accounts involved are not chosen by the caller: they are the
/// taker's and the maker's holdings of the two assets, and the vault of the
/// offer.
#[derive(Clone, Copy, Debug, PartialEq, Eq)]
pub struct TakeOffer {
    /// The party that takes the offer. It signs the request, and so stands
    /// for its own token accounts.
    pub taker: Pubkey,
    /// The identifier of the offer to fulfil.
    pub offer_id: u64,
    /// The asset that the taker pays in.
    pub token_mint_b: Pubkey,
}

/// The vault of an offer: the holdings of the offer's derived authority in the
/// offered asset.
pub open spec fn vault_of(offer: Offer, authority: Pubkey) -> TokenAccountId {
    TokenAccountId { owner: authority, mint: offer.token_mint_a }
}

/// The identity that signs for the vault of the live offer `id`: the one that
/// the seeds of the offer derive for the ledger's program. `None` where the
/// offer is not live or its seeds derive no identity.
pub open spec fn signing_authority(ledger: LedgerView, id: u64) -> Option<Pubkey> {
    if ledger.offers.contains_key(id) {
        derived_authority(ledger.offers[id].offer.spec_signer_seeds(), ledger.program_id)
    } else {
        None
    }
}

/// The steps of a take, in their order: the vault's whole balance, `vaulted`,
/// goes to the taker; the vault is closed, its deposit going to the maker;
/// the taker pays the wanted amount to the maker. The offer authorizes the
/// first two as the owner of the vault, `vault_owner`; the taker the third.
pub open spec fn spec_take_steps(
    offer: Offer,
    taker: Pubkey,
    vault_owner: Pubkey,
    vaulted: u64,
) -> Seq<Step> {
    let vault = vault_of(offer, vault_owner);
    seq![
        Step {
            call: LedgerCall::Transfer {
                from: vault,
                to: TokenAccountId { owner: taker, mint: offer.token_mint_a },
                amount: vaulted,
                mint: offer.token_mint_a,
            },
            signed_by: SignedBy::Offer,
            failure: ErrorCode::VaultWithdrawalFailed,
        },
        Step {
            call: LedgerCall::CloseAccount { account: vault, recipient: offer.maker },
            signed_by: SignedBy::Offer,
            failure: ErrorCode::VaultClosureFailed,
        },
        Step {
            call: LedgerCall::Transfer {
                from: TokenAccountId { owner: taker, mint: offer.token_mint_b },
                to: TokenAccountId { owner: offer.maker, mint: offer.token_mint_b },
                amount: offer.token_b_wanted_amount,
                mint: offer.token_mint_b,
            },
            signed_by: SignedBy::Caller,
            failure: ErrorCode::InsufficientTakerBalance,
        },
    ]
}

/// The steps of a take of `offer` by `taker`, where the vault belongs to
/// `vault_owner` and holds `vaulted` tokens.
pub fn take_steps(offer: &Offer, taker: &Pubkey, vault_owner: &Pubkey, vaulted: u64) -> (steps: Vec<
    Step,
>)
    ensures
        steps@ == spec_take_steps(*offer, *taker, *vault_owner, vaulted),
{
    let vault = TokenAccountId { owner: *vault_owner, mint: offer.token_mint_a };
    let mut steps: Vec<Step> = Vec::new();
    steps.push(
        Step {
            call: LedgerCall::Transfer {
                from: vault,
                to: TokenAccountId { owner: *taker, mint: offer.token_mint_a },
                amount: vaulted,
                mint: offer.token_mint_a,
            },
            signed_by: SignedBy::Offer,
            failure: ErrorCode::VaultWithdrawalFailed,
        },
    );
    steps.push(
        Step {
            call: LedgerCall::CloseAccount { account: vault, recipient: offer.maker },
            signed_by: SignedBy::Offer,
            failure: ErrorCode::VaultClosureFailed,
        },
    );
    steps.push(
        Step {
            call: LedgerCall::Transfer {
                from: TokenAccountId { owner: *taker, mint: offer.token_mint_b },
                to: TokenAccountId { owner: offer.maker, mint: offer.token_mint_b },
                amount: offer.token_b_wanted_amount,
                mint: offer.token_mint_b,
            },
            signed_by: SignedBy::Caller,
            failure: ErrorCode::InsufficientTakerBalance,
        },
    );
    assert(steps@ =~= spec_take_steps(*offer, *taker, *vault_owner, vaulted));
    steps
}

/// What a take does to the ledger, where `authority` is the identity that the
/// offer's seeds derive: the ledger after it, or the failure.
///
/// The offer must be live and want the asset that the request pays in, and
/// its seeds must derive an identity. The taker's account for the offered
/// asset and the maker's account for the wanted asset are opened where they
/// do not exist. Then the steps of the take are made. At the end the record
/// of the offer is destroyed, its deposit going to the maker.
pub open spec fn take(ledger: LedgerView, request: TakeOffer, authority: Option<Pubkey>) -> Result<
    LedgerView,
    ErrorCode,
> {
    if !ledger.offers.contains_key(request.offer_id) {
        Err(ErrorCode::OfferNotFound)
    } else {
        let offer = ledger.offers[request.offer_id].offer;
        if offer.token_mint_b != request.token_mint_b {
            Err(ErrorCode::OfferMismatch)
        } else if authority is None {
            Err(ErrorCode::VaultWithdrawalFailed)
        } else {
            let signer = authority->0;
            let opened = ledger.with_account(
                TokenAccountId { owner: request.taker, mint: offer.token_mint_a },
            ).with_account(TokenAccountId { owner: offer.maker, mint: offer.token_mint_b });
            let steps = spec_take_steps(
                offer,
                request.taker,
                signer,
                opened.balance(vault_of(offer, signer)) as u64,
            );
            match run(opened, steps, signer, request.taker) {
                Err(code) => Err(code),
                Ok(settled) => Ok(settled.retire(request.offer_id, offer.maker)),
            }
        }
    }
}

/// Fulfils an offer for the taker, with `authority` as the token of the
/// identity that the offer's seeds derive (`None` where they derive none).
/// The vault is the account of that identity: `take_offer` derives the token
/// itself, and a caller that hands in another vouches for it.
///
/// All of it happens or none of it: on a failure the ledger is as it was.
pub fn take_offer_with(
    ledger: &mut Ledger,
    request: &TakeOffer,
    authority: Option<AuthorityToken>,
) -> (result: Result<(), ErrorCode>)
    requires
        old(ledger).wf(),
    ensures
        final(ledger).wf(),
        match take(
            old(ledger)@,
            *request,
            match authority {
                Some(token) => Some(token@),
                None => None,
            },
        ) {
            Ok(after) => result is Ok && final(ledger)@ == after,
            Err(code) => result == Err::<(), ErrorCode>(code) && final(ledger)@ == old(ledger)@,
        },
{
    let offer = match ledger.offer(request.offer_id) {
        Some(record) => record.offer,
        None => {
            return Err(ErrorCode::OfferNotFound);
        },
    };
    if offer.token_mint_b != request.token_mint_b {
        return Err(ErrorCode::OfferMismatch);
    }
    let signer = match authority {
        Some(token) => token,
        None => {
            return Err(ErrorCode::VaultWithdrawalFailed);
        },
    };
    let vault = TokenAccountId { owner: signer.address(), mint: offer.token_mint_a };

    let mut work = ledger.snapshot();
    work.ensure_account(&TokenAccountId { owner: request.taker, mint: offer.token_mint_a });
    work.ensure_account(&TokenAccountId { owner: offer.maker, mint: offer.token_mint_b });
    let vaulted = match work.account(&vault) {
        Some(account) => account.amount,
        None => 0,
    };
    let steps = take_steps(&offer, &request.taker, &signer.address(), vaulted);
    let taker = AuthorityToken::signer(request.taker);
    match run_steps(&mut work, &steps, &signer, &taker) {
        Ok(()) => {},
        Err(code) => {
            return Err(code);
        },
    }
    proof {
        reveal_with_fuel(run, 4);
    }
    work.retire_offer(request.offer_id, &offer.maker);
    *ledger = work;
    Ok(())
}

/// Fulfils an offer: the taker receives what the vault holds, and pays the
/// maker the wanted amount of the wanted asset. The offer signs for its vault
/// through the identity that its seeds derive for the ledger's program.
///
/// All of it happens or none of it: on a failure the ledger is as it was.
pub fn take_offer(ledger: &mut Ledger, request: &TakeOffer) -> (result: Result<(), ErrorCode>)
    requires
        old(ledger).wf(),
    ensures
        final(ledger).wf(),
        match take(old(ledger)@, *request, signing_authority(old(ledger)@, request.offer_id)) {
            Ok(after) => result is Ok && final(ledger)@ == after,
            Err(code) => result == Err::<(), ErrorCode>(code) && final(ledger)@ == old(ledger)@,
        },
{
    let authority = match ledger.offer(request.offer_id) {
        Some(record) => derive_authority(&record.offer.signer_seeds(), &ledger.program_id()),
        None => None,
    };
    take_offer_with(ledger, request, authority)
}

} // verus!
