//! What holds of the escrow as a whole.

use crate::error::{ErrorCode, LedgerError};
use crate::handlers::refund_offer::{refund, RefundOffer};
use crate::handlers::shared::run;
use crate::handlers::take_offer::{take, vault_of, TakeOffer};
use crate::model::{LedgerCall, LedgerView, TokenAccountId};
use crate::pubkey::Pubkey;
use crate::state::offer::Offer;
use vstd::prelude::*;

verus! {

/// A take settles the offer for good: the record is gone, the identifier is
/// retired, and every later take or refund that names the identifier fails
/// with `OfferNotFound`, whoever asks and whatever authority is shown.
pub proof fn law_take_settles_once(
    ledger: LedgerView,
    request: TakeOffer,
    authority: Option<Pubkey>,
    later_take: TakeOffer,
    later_refund: RefundOffer,
    later_authority: Option<Pubkey>,
)
    requires
        ledger.wf(),
        take(ledger, request, authority) is Ok,
        later_take.offer_id == request.offer_id,
        later_refund.offer_id == request.offer_id,
    ensures
        !take(ledger, request, authority)->Ok_0.offers.contains_key(request.offer_id),
        take(ledger, request, authority)->Ok_0.retired.contains(request.offer_id),
        take(take(ledger, request, authority)->Ok_0, later_take, later_authority) == Err::<
            LedgerView,
            ErrorCode,
        >(ErrorCode::OfferNotFound),
        refund(take(ledger, request, authority)->Ok_0, later_refund, later_authority) == Err::<
            LedgerView,
            ErrorCode,
        >(ErrorCode::OfferNotFound),
{
    reveal_with_fuel(run, 4);
}

/// A refund settles the offer for good: the record is gone, the identifier
/// is retired, and every later take or refund that names the identifier fails
/// with `OfferNotFound`, whoever asks and whatever authority is shown.
pub proof fn law_refund_settles_once(
    ledger: LedgerView,
    request: RefundOffer,
    authority: Option<Pubkey>,
    later_take: TakeOffer,
    later_refund: RefundOffer,
    later_authority: Option<Pubkey>,
)
    requires
        ledger.wf(),
        refund(ledger, request, authority) is Ok,
        later_take.offer_id == request.offer_id,
        later_refund.offer_id == request.offer_id,
    ensures
        !refund(ledger, request, authority)->Ok_0.offers.contains_key(request.offer_id),
        refund(ledger, request, authority)->Ok_0.retired.contains(request.offer_id),
        take(refund(ledger, request, authority)->Ok_0, later_take, later_authority) == Err::<
            LedgerView,
            ErrorCode,
        >(ErrorCode::OfferNotFound),
        refund(refund(ledger, request, authority)->Ok_0, later_refund, later_authority) == Err::<
            LedgerView,
            ErrorCode,
        >(ErrorCode::OfferNotFound),
{
    reveal_with_fuel(run, 4);
}

/// A retired identifier stays retired. No offer is live under it, nothing
/// can be put on record under it again, requests that name it fail with
/// `OfferNotFound`, and a take or a refund of another offer leaves it
/// retired.
pub proof fn law_retired_for_good(
    ledger: LedgerView,
    id: u64,
    payer: Pubkey,
    offer: Offer,
    deposit: u64,
    any_take: TakeOffer,
    any_refund: RefundOffer,
    authority: Option<Pubkey>,
)
    requires
        ledger.wf(),
        ledger.retired.contains(id),
        offer.id == id,
    ensures
        !ledger.offers.contains_key(id),
        ledger.register(payer, offer, deposit) == Err::<LedgerView, LedgerError>(
            LedgerError::OfferIdInUse,
        ),
        any_take.offer_id == id ==> take(ledger, any_take, authority) == Err::<
            LedgerView,
            ErrorCode,
        >(ErrorCode::OfferNotFound),
        any_refund.offer_id == id ==> refund(ledger, any_refund, authority) == Err::<
            LedgerView,
            ErrorCode,
        >(ErrorCode::OfferNotFound),
        take(ledger, any_take, authority) is Ok ==> take(
            ledger,
            any_take,
            authority,
        )->Ok_0.retired.contains(id),
        refund(ledger, any_refund, authority) is Ok ==> refund(
            ledger,
            any_refund,
            authority,
        )->Ok_0.retired.contains(id),
{
    reveal_with_fuel(run, 4);
}

/// No call on the ledger brings a settled offer back. After a transfer or
/// a closure, after an account was opened, an asset issued or another offer
/// put on record, a retired identifier is still retired and no offer is live
/// under it.
pub proof fn law_retired_outlasts_calls(
    ledger: LedgerView,
    id: u64,
    call: LedgerCall,
    authority: Pubkey,
    payer: Pubkey,
    account: TokenAccountId,
    amount: u64,
    offer: Offer,
)
    requires
        ledger.wf(),
        ledger.retired.contains(id),
    ensures
        ledger.perform(call, authority) matches Ok(after) ==> after.retired.contains(id)
            && !after.offers.contains_key(id),
        ledger.open_account(payer, account, amount) matches Ok(after) ==> after.retired.contains(id)
            && !after.offers.contains_key(id),
        ledger.issue(account, amount) matches Ok(after) ==> after.retired.contains(id)
            && !after.offers.contains_key(id),
        ledger.register(payer, offer, amount) matches Ok(after) ==> after.retired.contains(id)
            && !after.offers.contains_key(id),
{
}

/// A take conserves every asset. The supply of each asset is as before; the
/// vault is gone; and the balance of every other account, existing or not
/// (an account that does not exist holds nothing), has changed by exactly
/// what the take moved through it: the vault's balance into the taker's
/// account for the offered asset, the wanted amount out of the taker's
/// account for the wanted asset and into the maker's. Of the offers only the
/// taken one has gone, and only the maker's reserve has changed, by the two
/// deposits that come back.
pub proof fn law_take_conserves(ledger: LedgerView, request: TakeOffer, authority: Option<Pubkey>)
    requires
        ledger.wf(),
        take(ledger, request, authority) is Ok,
    ensures
        ({
            let after = take(ledger, request, authority)->Ok_0;
            let offer = ledger.offers[request.offer_id].offer;
            let vault = vault_of(offer, authority->0);
            let taker_a = TokenAccountId { owner: request.taker, mint: offer.token_mint_a };
            let taker_b = TokenAccountId { owner: request.taker, mint: offer.token_mint_b };
            let maker_b = TokenAccountId { owner: offer.maker, mint: offer.token_mint_b };
            let vaulted = ledger.balance(vault);
            let wanted = offer.token_b_wanted_amount as nat;
            &&& after.wf()
            &&& forall|mint: Pubkey| #[trigger] after.supply(mint) == ledger.supply(mint)
            &&& after.reserve_supply() == ledger.reserve_supply()
            &&& !after.accounts.contains_key(vault)
            &&& after.offers == ledger.offers.remove(request.offer_id)
            &&& after.reserve(offer.maker) == ledger.reserve(offer.maker) + ledger.deposit(vault)
                + ledger.offers[request.offer_id].deposit
            &&& forall|owner: Pubkey|
                owner != offer.maker ==> #[trigger] after.reserve(owner) == ledger.reserve(owner)
            &&& forall|id: TokenAccountId|
                id != vault ==> #[trigger] after.balance(id) == ledger.balance(id) + (if id
                    == taker_a {
                    vaulted
                } else {
                    0
                }) + (if id == maker_b {
                    wanted
                } else {
                    0
                }) - (if id == taker_b {
                    wanted
                } else {
                    0
                })
        }),
{
    reveal_with_fuel(run, 4);
    let offer = ledger.offers[request.offer_id].offer;
    let signer = authority->0;
    let vault = vault_of(offer, signer);
    let taker_a = TokenAccountId { owner: request.taker, mint: offer.token_mint_a };
    let taker_b = TokenAccountId { owner: request.taker, mint: offer.token_mint_b };
    let maker_b = TokenAccountId { owner: offer.maker, mint: offer.token_mint_b };
    let first = ledger.with_account(taker_a);
    let opened = first.with_account(maker_b);
    ledger.lemma_with_account(taker_a);
    first.lemma_with_account(maker_b);
    let vaulted = opened.balance(vault) as u64;
    opened.lemma_transfer(vault, taker_a, vaulted, offer.token_mint_a, signer);
    let withdrawn = opened.transfer(vault, taker_a, vaulted, offer.token_mint_a, signer)->Ok_0;
    withdrawn.lemma_close(vault, offer.maker, signer);
    let closed = withdrawn.close(vault, offer.maker, signer)->Ok_0;
    closed.lemma_transfer(
        taker_b,
        maker_b,
        offer.token_b_wanted_amount,
        offer.token_mint_b,
        request.taker,
    );
    let paid = closed.transfer(
        taker_b,
        maker_b,
        offer.token_b_wanted_amount,
        offer.token_mint_b,
        request.taker,
    )->Ok_0;
    paid.lemma_retire(request.offer_id, offer.maker);
}

/// After a take between distinct parties, of an offer that swaps distinct
/// assets, the taker holds the vault's former balance more of the offered
/// asset and the wanted amount less of the wanted asset, and the maker holds
/// the wanted amount more of the wanted asset.
pub proof fn law_take_pays_both(ledger: LedgerView, request: TakeOffer, authority: Option<Pubkey>)
    requires
        ledger.wf(),
        take(ledger, request, authority) is Ok,
        request.taker != ledger.offers[request.offer_id].offer.maker,
        ledger.offers[request.offer_id].offer.token_mint_a
            != ledger.offers[request.offer_id].offer.token_mint_b,
    ensures
        ({
            let after = take(ledger, request, authority)->Ok_0;
            let offer = ledger.offers[request.offer_id].offer;
            let vault = vault_of(offer, authority->0);
            let taker_a = TokenAccountId { owner: request.taker, mint: offer.token_mint_a };
            let taker_b = TokenAccountId { owner: request.taker, mint: offer.token_mint_b };
            let maker_b = TokenAccountId { owner: offer.maker, mint: offer.token_mint_b };
            &&& after.balance(taker_a) == ledger.balance(taker_a) + ledger.balance(vault)
            &&& after.balance(maker_b) == ledger.balance(maker_b) + offer.token_b_wanted_amount
            &&& after.balance(taker_b) == ledger.balance(taker_b) - offer.token_b_wanted_amount
        }),
{
    reveal_with_fuel(run, 4);
    law_take_conserves(ledger, request, authority);
    let after = take(ledger, request, authority)->Ok_0;
    let offer = ledger.offers[request.offer_id].offer;
    let vault = vault_of(offer, authority->0);
    let taker_a = TokenAccountId { owner: request.taker, mint: offer.token_mint_a };
    let taker_b = TokenAccountId { owner: request.taker, mint: offer.token_mint_b };
    let maker_b = TokenAccountId { owner: offer.maker, mint: offer.token_mint_b };
    assert(taker_b != vault);
    assert(maker_b != vault);
    if taker_a != vault {
        assert(after.balance(taker_a) == ledger.balance(taker_a) + ledger.balance(vault));
    }
    assert(after.balance(taker_b) == ledger.balance(taker_b) - offer.token_b_wanted_amount);
    assert(after.balance(maker_b) == ledger.balance(maker_b) + offer.token_b_wanted_amount);
}

/// A refund gives the maker back what the vault held and changes nothing
/// else. The maker's balance of the offered asset has grown by the vault's
/// balance; the vault is gone; every other token account is as it was; the
/// supply of each asset is as before; of the offers only the refunded one
/// has gone; and only the maker's reserve has changed, by the two deposits
/// that come back.
pub proof fn law_refund_restores(
    ledger: LedgerView,
    request: RefundOffer,
    authority: Option<Pubkey>,
)
    requires
        ledger.wf(),
        refund(ledger, request, authority) is Ok,
    ensures
        ({
            let after = refund(ledger, request, authority)->Ok_0;
            let record = ledger.offers[request.offer_id];
            let offer = record.offer;
            let vault = vault_of(offer, authority->0);
            let maker_a = TokenAccountId { owner: offer.maker, mint: offer.token_mint_a };
            &&& after.wf()
            &&& after.balance(maker_a) == ledger.balance(maker_a) + ledger.balance(vault)
            &&& ledger.accounts.contains_key(vault)
            &&& !after.accounts.contains_key(vault)
            &&& forall|id: TokenAccountId|
                id != vault && id != maker_a ==> #[trigger] after.accounts.contains_key(id)
                    == ledger.accounts.contains_key(id) && after.accounts[id]
                    == ledger.accounts[id]
            &&& forall|mint: Pubkey| #[trigger] after.supply(mint) == ledger.supply(mint)
            &&& after.offers == ledger.offers.remove(request.offer_id)
            &&& after.reserve_supply() == ledger.reserve_supply()
            &&& after.reserve(offer.maker) == ledger.reserve(offer.maker)
                + ledger.accounts[vault].deposit + record.deposit
            &&& forall|owner: Pubkey|
                owner != offer.maker ==> #[trigger] after.reserve(owner) == ledger.reserve(owner)
        }),
{
    reveal_with_fuel(run, 4);
    let offer = ledger.offers[request.offer_id].offer;
    let signer = authority->0;
    let vault = vault_of(offer, signer);
    let maker_a = TokenAccountId { owner: offer.maker, mint: offer.token_mint_a };
    let vaulted = ledger.balance(vault) as u64;
    ledger.lemma_transfer(vault, maker_a, vaulted, offer.token_mint_a, signer);
    let returned = ledger.transfer(vault, maker_a, vaulted, offer.token_mint_a, signer)->Ok_0;
    returned.lemma_close(vault, offer.maker, signer);
    let closed = returned.close(vault, offer.maker, signer)->Ok_0;
    closed.lemma_retire(request.offer_id, offer.maker);
}

/// A take whose payment the ledger rejects fails as a whole. Where the taker
/// holds less of the wanted asset than the offer wants, and the wanted asset
/// is not the offered one, the take fails; where the release of the vault
/// and its closure would be accepted, the failure is
/// `InsufficientTakerBalance`.
pub proof fn law_take_needs_payment(
    ledger: LedgerView,
    request: TakeOffer,
    authority: Option<Pubkey>,
)
    requires
        ledger.wf(),
        ledger.offers.contains_key(request.offer_id),
        ledger.offers[request.offer_id].offer.token_mint_a
            != ledger.offers[request.offer_id].offer.token_mint_b,
        ledger.balance(
            TokenAccountId {
                owner: request.taker,
                mint: ledger.offers[request.offer_id].offer.token_mint_b,
            },
        ) < ledger.offers[request.offer_id].offer.token_b_wanted_amount,
    ensures
        take(ledger, request, authority) is Err,
        ({
            let offer = ledger.offers[request.offer_id].offer;
            let vault = vault_of(offer, authority->0);
            let taker_a = TokenAccountId { owner: request.taker, mint: offer.token_mint_a };
            let maker_b = TokenAccountId { owner: offer.maker, mint: offer.token_mint_b };
            let opened = ledger.with_account(taker_a).with_account(maker_b);
            let withdrawn = opened.transfer(
                vault,
                taker_a,
                opened.balance(vault) as u64,
                offer.token_mint_a,
                authority->0,
            );
            request.token_mint_b == offer.token_mint_b && authority is Some && withdrawn is Ok
                && withdrawn->Ok_0.close(vault, offer.maker, authority->0) is Ok ==> take(
                ledger,
                request,
                authority,
            ) == Err::<LedgerView, ErrorCode>(ErrorCode::InsufficientTakerBalance)
        }),
{
    reveal_with_fuel(run, 4);
}

/// A refund asked for by anyone but the maker of the offer fails with
/// `UnauthorizedCaller`, whatever authority is shown.
pub proof fn law_refund_needs_maker(
    ledger: LedgerView,
    request: RefundOffer,
    authority: Option<Pubkey>,
)
    requires
        ledger.offers.contains_key(request.offer_id),
        request.maker != ledger.offers[request.offer_id].offer.maker,
    ensures
        refund(ledger, request, authority) == Err::<LedgerView, ErrorCode>(
            ErrorCode::UnauthorizedCaller,
        ),
{
}

/// A take that pays in another asset than the offer wants fails with
/// `OfferMismatch`, whatever authority is shown and whatever the ledger
/// holds.
pub proof fn law_take_needs_wanted_asset(
    ledger: LedgerView,
    request: TakeOffer,
    authority: Option<Pubkey>,
)
    requires
        ledger.offers.contains_key(request.offer_id),
        request.token_mint_b != ledger.offers[request.offer_id].offer.token_mint_b,
    ensures
        take(ledger, request, authority) == Err::<LedgerView, ErrorCode>(ErrorCode::OfferMismatch),
{
}

/// Anything that can be asked of a ledger. A call is made for `signer`; for
/// a take or a refund, `authority` is the identity that the seeds of the
/// offer derive.
pub enum Request {
    Open { payer: Pubkey, account: TokenAccountId, deposit: u64 },
    Issue { account: TokenAccountId, amount: u64 },
    Register { payer: Pubkey, offer: Offer, deposit: u64 },
    Call { call: LedgerCall, signer: Pubkey },
    Take { taking: TakeOffer, authority: Option<Pubkey> },
    Refund { refunding: RefundOffer, authority: Option<Pubkey> },
}

/// The ledger that a request gives where it is served, `None` where it fails.
pub open spec fn served(ledger: LedgerView, request: Request) -> Option<LedgerView> {
    match request {
        Request::Open { payer, account, deposit } => match ledger.open_account(
            payer,
            account,
            deposit,
        ) {
            Ok(after) => Some(after),
            Err(_) => None,
        },
        Request::Issue { account, amount } => match ledger.issue(account, amount) {
            Ok(after) => Some(after),
            Err(_) => None,
        },
        Request::Register { payer, offer, deposit } => match ledger.register(payer, offer, deposit) {
            Ok(after) => Some(after),
            Err(_) => None,
        },
        Request::Call { call, signer } => match ledger.perform(call, signer) {
            Ok(after) => Some(after),
            Err(_) => None,
        },
        Request::Take { taking, authority } => match take(ledger, taking, authority) {
            Ok(after) => Some(after),
            Err(_) => None,
        },
        Request::Refund { refunding, authority } => match refund(ledger, refunding, authority) {
            Ok(after) => Some(after),
            Err(_) => None,
        },
    }
}

/// The ledger that a request leaves: a request that fails changes nothing.
pub open spec fn left_by(ledger: LedgerView, request: Request) -> LedgerView {
    match served(ledger, request) {
        Some(after) => after,
        None => ledger,
    }
}

/// The ledger that a run of requests leaves, each made on what the one
/// before it left.
pub open spec fn left_by_all(ledger: LedgerView, requests: Seq<Request>) -> LedgerView
    decreases requests.len(),
{
    if requests.len() == 0 {
        ledger
    } else {
        left_by(left_by_all(ledger, requests.drop_last()), requests.last())
    }
}

/// Whether a request is a take or a refund of the offer `id`.
pub open spec fn settles(request: Request, id: u64) -> bool {
    match request {
        Request::Take { taking, authority } => taking.offer_id == id,
        Request::Refund { refunding, authority } => refunding.offer_id == id,
        _ => false,
    }
}

/// How many of the requests of a run were takes or refunds of the offer `id`
/// that were served.
pub open spec fn settlements(ledger: LedgerView, requests: Seq<Request>, id: u64) -> nat
    decreases requests.len(),
{
    if requests.len() == 0 {
        0
    } else {
        let before = left_by_all(ledger, requests.drop_last());
        settlements(ledger, requests.drop_last(), id) + if settles(requests.last(), id) && served(
            before,
            requests.last(),
        ) is Some {
            1nat
        } else {
            0nat
        }
    }
}

/// A request leaves a well-formed ledger well-formed, and a retired
/// identifier retired.
pub proof fn law_request_keeps_order(ledger: LedgerView, request: Request, id: u64)
    requires
        ledger.wf(),
    ensures
        left_by(ledger, request).wf(),
        ledger.retired.contains(id) ==> left_by(ledger, request).retired.contains(id),
        settles(request, id) && served(ledger, request) is Some ==> ledger.offers.contains_key(id)
            && left_by(ledger, request).retired.contains(id),
{
    reveal_with_fuel(run, 4);
    match request {
        Request::Open { payer, account, deposit } => {
            if ledger.open_account(payer, account, deposit) is Ok {
                ledger.lemma_open_account(payer, account, deposit);
            }
        },
        Request::Issue { account, amount } => {
            if ledger.issue(account, amount) is Ok {
                ledger.lemma_issue(account, amount);
            }
        },
        Request::Register { payer, offer, deposit } => {
            if ledger.register(payer, offer, deposit) is Ok {
                ledger.lemma_register(payer, offer, deposit);
            }
        },
        Request::Call { call, signer } => {
            if ledger.perform(call, signer) is Ok {
                ledger.lemma_perform(call, signer);
            }
        },
        Request::Take { taking, authority } => {
            if take(ledger, taking, authority) is Ok {
                law_take_conserves(ledger, taking, authority);
            }
        },
        Request::Refund { refunding, authority } => {
            if refund(ledger, refunding, authority) is Ok {
                law_refund_restores(ledger, refunding, authority);
            }
        },
    }
}

/// Whatever is asked of a ledger, in whatever order, it stays well-formed,
/// and an identifier that was retired stays retired, with no offer live
/// under it.
pub proof fn law_settled_for_good(ledger: LedgerView, requests: Seq<Request>, id: u64)
    requires
        ledger.wf(),
    ensures
        left_by_all(ledger, requests).wf(),
        ledger.retired.contains(id) ==> left_by_all(ledger, requests).retired.contains(id)
            && !left_by_all(ledger, requests).offers.contains_key(id) && settlements(
            ledger,
            requests,
            id,
        ) == 0,
    decreases requests.len(),
{
    if requests.len() > 0 {
        law_settled_for_good(ledger, requests.drop_last(), id);
        law_request_keeps_order(left_by_all(ledger, requests.drop_last()), requests.last(), id);
    }
}

/// An offer is settled at most once. Of all the takes and refunds of one
/// offer that a run of requests holds, whoever makes them and in whatever
/// order, at most one is served; and once one was served the identifier is
/// retired.
pub proof fn law_settled_at_most_once(ledger: LedgerView, requests: Seq<Request>, id: u64)
    requires
        ledger.wf(),
    ensures
        settlements(ledger, requests, id) <= 1,
        settlements(ledger, requests, id) == 1 ==> left_by_all(ledger, requests).retired.contains(
            id,
        ),
    decreases requests.len(),
{
    if requests.len() > 0 {
        let earlier = requests.drop_last();
        let before = left_by_all(ledger, earlier);
        law_settled_at_most_once(ledger, earlier, id);
        law_settled_for_good(ledger, earlier, id);
        law_request_keeps_order(before, requests.last(), id);
    }
}

} // verus!
