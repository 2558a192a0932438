//! The refund: an offer is cancelled by its maker.

use crate::authority::{derive_authority, AuthorityToken};
use crate::error::ErrorCode;
use crate::handlers::shared::{run, run_steps, SignedBy, Step};
use crate::handlers::take_offer::{signing_authority, vault_of};
use crate::ledger::Ledger;
use crate::model::{LedgerCall, LedgerView, TokenAccountId};
use crate::pubkey::Pubkey;
use crate::state::offer::Offer;
use vstd::prelude::*;

verus! {

/// A request to cancel an offer and take the vaulted tokens back.
#[derive(Clone, Copy, Debug, PartialEq, Eq)]
pub struct RefundOffer {
    /// The party that asks for the refund. It signs the request; only the
    /// maker of the offer is served.
    pub maker: Pubkey,
    /// The identifier of the offer to cancel.
    pub offer_id: u64,
}

/// The steps of a refund, in their order: the vault's whole balance,
/// `vaulted`, goes back to the maker; the vault is closed, its deposit going
/// to the maker. The offer authorizes both as the owner of the vault,
/// `vault_owner`.
pub open spec fn spec_refund_steps(offer: Offer, vault_owner: Pubkey, vaulted: u64) -> Seq<Step> {
    let vault = vault_of(offer, vault_owner);
    seq![
        Step {
            call: LedgerCall::Transfer {
                from: vault,
                to: TokenAccountId { owner: offer.maker, mint: offer.token_mint_a },
                amount: vaulted,
                mint: offer.token_mint_a,
            },
            signed_by: SignedBy::Offer,
            failure: ErrorCode::RefundTransferFailed,
        },
        Step {
            call: LedgerCall::CloseAccount { account: vault, recipient: offer.maker },
            signed_by: SignedBy::Offer,
            failure: ErrorCode::RefundClosureFailed,
        },
    ]
}

/// The steps of a refund of `offer`, where the vault belongs to `vault_owner`
/// and holds `vaulted` tokens.
pub fn refund_steps(offer: &Offer, vault_owner: &Pubkey, vaulted: u64) -> (steps: Vec<Step>)
    ensures
        steps@ == spec_refund_steps(*offer, *vault_owner, vaulted),
{
    let vault = TokenAccountId { owner: *vault_owner, mint: offer.token_mint_a };
    let mut steps: Vec<Step> = Vec::new();
    steps.push(
        Step {
            call: LedgerCall::Transfer {
                from: vault,
                to: TokenAccountId { owner: offer.maker, mint: offer.token_mint_a },
                amount: vaulted,
                mint: offer.token_mint_a,
            },
            signed_by: SignedBy::Offer,
            failure: ErrorCode::RefundTransferFailed,
        },
    );
    steps.push(
        Step {
            call: LedgerCall::CloseAccount { account: vault, recipient: offer.maker },
            signed_by: SignedBy::Offer,
            failure: ErrorCode::RefundClosureFailed,
        },
    );
    assert(steps@ =~= spec_refund_steps(*offer, *vault_owner, vaulted));
    steps
}

/// What a refund does to the ledger, where `authority` is the identity that
/// the offer's seeds derive: the ledger after it, or the failure.
///
/// The offer must be live and the caller its maker, and the seeds of the
/// offer must derive an identity. Then the steps of the refund are made. At
/// the end the record of the offer is destroyed, its deposit going to the
/// maker.
pub open spec fn refund(
    ledger: LedgerView,
    request: RefundOffer,
    authority: Option<Pubkey>,
) -> Result<LedgerView, ErrorCode> {
    if !ledger.offers.contains_key(request.offer_id) {
        Err(ErrorCode::OfferNotFound)
    } else {
        let offer = ledger.offers[request.offer_id].offer;
        if offer.maker != request.maker {
            Err(ErrorCode::UnauthorizedCaller)
        } else if authority is None {
            Err(ErrorCode::RefundTransferFailed)
        } else {
            let signer = authority->0;
            let steps = spec_refund_steps(
                offer,
                signer,
                ledger.balance(vault_of(offer, signer)) as u64,
            );
            match run(ledger, steps, signer, request.maker) {
                Err(code) => Err(code),
                Ok(settled) => Ok(settled.retire(request.offer_id, offer.maker)),
            }
        }
    }
}

/// Cancels an offer for its maker, with `authority` as the token of the
/// identity that the offer's seeds derive (`None` where they derive none).
/// The vault is the account of that identity: `refund_offer` derives the
/// token itself, and a caller that hands in another vouches for it.
///
/// All of it happens or none of it: on a failure the ledger is as it was.
pub fn refund_offer_with(
    ledger: &mut Ledger,
    request: &RefundOffer,
    authority: Option<AuthorityToken>,
) -> (result: Result<(), ErrorCode>)
    requires
        old(ledger).wf(),
    ensures
        final(ledger).wf(),
        match refund(
            old(ledger)@,
            *request,
            match authority {
                Some(token) => Some(token@),
                None => None,
            },
        ) {
            Ok(after) => result is Ok && final(ledger)@ == after,
            Err(code) => result == Err::<(), ErrorCode>(code) && final(ledger)@ == old(ledger)@,
        },
{
    let offer = match ledger.offer(request.offer_id) {
        Some(record) => record.offer,
        None => {
            return Err(ErrorCode::OfferNotFound);
        },
    };
    if offer.maker != request.maker {
        return Err(ErrorCode::UnauthorizedCaller);
    }
    let signer = match authority {
        Some(token) => token,
        None => {
            return Err(ErrorCode::RefundTransferFailed);
        },
    };
    let vault = TokenAccountId { owner: signer.address(), mint: offer.token_mint_a };

    let mut work = ledger.snapshot();
    let vaulted = match work.account(&vault) {
        Some(account) => account.amount,
        None => 0,
    };
    let steps = refund_steps(&offer, &signer.address(), vaulted);
    let maker = AuthorityToken::signer(request.maker);
    match run_steps(&mut work, &steps, &signer, &maker) {
        Ok(()) => {},
        Err(code) => {
            return Err(code);
        },
    }
    proof {
        reveal_with_fuel(run, 3);
    }
    work.retire_offer(request.offer_id, &offer.maker);
    *ledger = work;
    Ok(())
}

/// Cancels an offer: the maker receives what the vault holds. The offer signs
/// for its vault through the identity that its seeds derive for the ledger's
/// program.
///
/// All of it happens or none of it: on a failure the ledger is as it was.
pub fn refund_offer(ledger: &mut Ledger, request: &RefundOffer) -> (result: Result<(), ErrorCode>)
    requires
        old(ledger).wf(),
    ensures
        final(ledger).wf(),
        match refund(old(ledger)@, *request, signing_authority(old(ledger)@, request.offer_id)) {
            Ok(after) => result is Ok && final(ledger)@ == after,
            Err(code) => result == Err::<(), ErrorCode>(code) && final(ledger)@ == old(ledger)@,
        },
{
    let authority = match ledger.offer(request.offer_id) {
        Some(record) => derive_authority(&record.offer.signer_seeds(), &ledger.program_id()),
        None => None,
    };
    refund_offer_with(ledger, request, authority)
}

} // verus!
