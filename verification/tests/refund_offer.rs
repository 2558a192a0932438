use anchor_lang::prelude::Pubkey as ChainKey;
use escrow::handlers::refund_offer::refund_offer_with;
use escrow::{
    refund_offer, take_offer, AuthorityToken, ErrorCode, Ledger, LedgerError, Offer, OfferRecord,
    Pubkey, RefundOffer, TakeOffer, TokenAccount, TokenAccountId,
};

fn key(byte: u8) -> Pubkey {
    Pubkey::new([byte; 32])
}

const PROGRAM: u8 = 9;
const TREASURY: u8 = 1;
const MAKER: u8 = 2;
const TAKER: u8 = 3;
const MINT_A: u8 = 20;
const MINT_B: u8 = 21;

fn account(owner: Pubkey, mint: u8) -> TokenAccountId {
    TokenAccountId { owner, mint: key(mint) }
}

fn holds(amount: u64, deposit: u64) -> Option<TokenAccount> {
    Some(TokenAccount { amount, deposit })
}

fn authority_of(id: u64) -> (Pubkey, u8) {
    let program = ChainKey::new_from_array(key(PROGRAM).bytes);
    let (address, bump) = ChainKey::find_program_address(&[b"offer", &id.to_le_bytes()], &program);
    (Pubkey::new(address.to_bytes()), bump)
}

fn offer(id: u64) -> Offer {
    Offer {
        id,
        maker: key(MAKER),
        token_mint_a: key(MINT_A),
        token_mint_b: key(MINT_B),
        token_b_wanted_amount: 500,
        bump: authority_of(id).1,
    }
}

/// The maker holds 200 of A; offer 7 has 1000 of A in its vault.
fn ledger() -> Ledger {
    let mut ledger = Ledger::new(key(PROGRAM), key(TREASURY), 1_000);
    let maker_a = account(key(MAKER), MINT_A);
    let vault = account(authority_of(7).0, MINT_A);
    ledger.open_token_account(&key(TREASURY), &maker_a, 10).unwrap();
    ledger.issue(&maker_a, 1_200).unwrap();
    ledger.open_token_account(&key(TREASURY), &vault, 20).unwrap();
    let maker = AuthorityToken::signer(key(MAKER));
    ledger.transfer_tokens(&maker_a, &vault, 1_000, &key(MINT_A), &maker).unwrap();
    ledger.register_offer(&key(TREASURY), offer(7), 30).unwrap();
    ledger
}

fn request() -> RefundOffer {
    RefundOffer { maker: key(MAKER), offer_id: 7 }
}

#[test]
fn refund_gives_the_vault_back() {
    let mut ledger = ledger();
    let vault = account(authority_of(7).0, MINT_A);
    assert_eq!(ledger.account(&account(key(MAKER), MINT_A)), holds(200, 10));
    assert_eq!(refund_offer(&mut ledger, &request()), Ok(()));
    assert_eq!(ledger.account(&account(key(MAKER), MINT_A)), holds(1_200, 10));
    assert_eq!(ledger.account(&vault), None);
    assert_eq!(ledger.offer(7), None);
    assert!(ledger.is_retired(7));
    assert_eq!(ledger.reserve(&key(MAKER)), 50);
    assert_eq!(ledger.reserve(&key(TREASURY)), 940);
}

#[test]
fn refund_changes_nothing_else() {
    let mut ledger = ledger();
    let taker_b = account(key(TAKER), MINT_B);
    ledger.open_token_account(&key(TREASURY), &taker_b, 3).unwrap();
    ledger.issue(&taker_b, 77).unwrap();
    ledger.register_offer(&key(TREASURY), offer(8), 4).unwrap();
    refund_offer(&mut ledger, &request()).unwrap();
    assert_eq!(ledger.account(&taker_b), holds(77, 3));
    assert_eq!(ledger.account(&account(key(MAKER), MINT_B)), None);
    assert_eq!(ledger.offer(8), Some(OfferRecord { offer: offer(8), deposit: 4 }));
    assert_eq!(ledger.reserve(&key(TAKER)), 0);
}

#[test]
fn refund_settles_the_offer_for_good() {
    let mut ledger = ledger();
    refund_offer(&mut ledger, &request()).unwrap();
    let after = ledger.snapshot();
    assert_eq!(refund_offer(&mut ledger, &request()), Err(ErrorCode::OfferNotFound));
    let take = TakeOffer { taker: key(TAKER), offer_id: 7, token_mint_b: key(MINT_B) };
    assert_eq!(take_offer(&mut ledger, &take), Err(ErrorCode::OfferNotFound));
    assert_eq!(
        ledger.register_offer(&key(TREASURY), offer(7), 0),
        Err(LedgerError::OfferIdInUse)
    );
    assert_eq!(ledger, after);
}

#[test]
fn refund_by_another_party_is_unauthorized() {
    let mut ledger = ledger();
    let before = ledger.snapshot();
    let stranger = RefundOffer { maker: key(TAKER), offer_id: 7 };
    assert_eq!(refund_offer(&mut ledger, &stranger), Err(ErrorCode::UnauthorizedCaller));
    assert_eq!(ledger, before);
    assert_eq!(refund_offer(&mut ledger, &request()), Ok(()));
}

#[test]
fn refund_by_the_vault_owner_is_unauthorized_too() {
    let mut ledger = ledger();
    let before = ledger.snapshot();
    let owner = RefundOffer { maker: authority_of(7).0, offer_id: 7 };
    assert_eq!(refund_offer(&mut ledger, &owner), Err(ErrorCode::UnauthorizedCaller));
    assert_eq!(ledger, before);
}

#[test]
fn refund_of_an_unknown_offer_is_not_found() {
    let mut ledger = ledger();
    let before = ledger.snapshot();
    let unknown = RefundOffer { maker: key(MAKER), offer_id: 8 };
    assert_eq!(refund_offer(&mut ledger, &unknown), Err(ErrorCode::OfferNotFound));
    let stranger = RefundOffer { maker: key(TAKER), offer_id: 8 };
    assert_eq!(refund_offer(&mut ledger, &stranger), Err(ErrorCode::OfferNotFound));
    assert_eq!(ledger, before);
}

#[test]
fn refund_without_the_makers_account_fails_at_the_transfer() {
    let mut ledger = Ledger::new(key(PROGRAM), key(TREASURY), 1_000);
    let vault = account(authority_of(7).0, MINT_A);
    ledger.open_token_account(&key(TREASURY), &vault, 20).unwrap();
    ledger.issue(&vault, 1_000).unwrap();
    ledger.register_offer(&key(TREASURY), offer(7), 30).unwrap();
    let before = ledger.snapshot();
    assert_eq!(refund_offer(&mut ledger, &request()), Err(ErrorCode::RefundTransferFailed));
    assert_eq!(ledger, before);
}

#[test]
fn refund_without_a_vault_fails_at_the_transfer() {
    let mut ledger = Ledger::new(key(PROGRAM), key(TREASURY), 1_000);
    ledger.open_token_account(&key(TREASURY), &account(key(MAKER), MINT_A), 10).unwrap();
    ledger.register_offer(&key(TREASURY), offer(7), 30).unwrap();
    let before = ledger.snapshot();
    assert_eq!(refund_offer(&mut ledger, &request()), Err(ErrorCode::RefundTransferFailed));
    assert_eq!(ledger, before);
}

#[test]
fn refund_without_authority_fails_at_the_transfer() {
    let mut ledger = ledger();
    let before = ledger.snapshot();
    assert_eq!(
        refund_offer_with(&mut ledger, &request(), None),
        Err(ErrorCode::RefundTransferFailed)
    );
    assert_eq!(ledger, before);
}

#[test]
fn refund_with_the_derived_authority_is_the_refund() {
    let mut one = ledger();
    let mut other = ledger();
    let token = AuthorityToken::signer(authority_of(7).0);
    assert_eq!(refund_offer_with(&mut one, &request(), Some(token)), Ok(()));
    assert_eq!(refund_offer(&mut other, &request()), Ok(()));
    assert_eq!(one, other);
}

#[test]
fn refund_to_the_vault_itself_fails_at_the_closure() {
    // The maker is the identity that owns the vault: the return moves the
    // tokens onto themselves, and the vault cannot be closed while it holds them.
    let mut ledger = Ledger::new(key(PROGRAM), key(TREASURY), 1_000);
    let vault = account(key(MAKER), MINT_A);
    ledger.open_token_account(&key(TREASURY), &vault, 20).unwrap();
    ledger.issue(&vault, 1_000).unwrap();
    ledger.register_offer(&key(TREASURY), offer(7), 30).unwrap();
    let before = ledger.snapshot();
    let token = AuthorityToken::signer(key(MAKER));
    assert_eq!(
        refund_offer_with(&mut ledger, &request(), Some(token)),
        Err(ErrorCode::RefundClosureFailed)
    );
    assert_eq!(ledger, before);
}

#[test]
fn refund_of_an_empty_vault() {
    let mut ledger = Ledger::new(key(PROGRAM), key(TREASURY), 1_000);
    let vault = account(authority_of(7).0, MINT_A);
    ledger.open_token_account(&key(TREASURY), &vault, 20).unwrap();
    ledger.open_token_account(&key(TREASURY), &account(key(MAKER), MINT_A), 0).unwrap();
    ledger.register_offer(&key(TREASURY), offer(7), 30).unwrap();
    assert_eq!(refund_offer(&mut ledger, &request()), Ok(()));
    assert_eq!(ledger.account(&account(key(MAKER), MINT_A)), holds(0, 0));
    assert_eq!(ledger.account(&vault), None);
    assert_eq!(ledger.reserve(&key(MAKER)), 50);
}

#[test]
fn take_after_refund_and_refund_after_take_both_fail() {
    let take = TakeOffer { taker: key(TAKER), offer_id: 7, token_mint_b: key(MINT_B) };

    let mut refunded = ledger();
    refunded.open_token_account(&key(TREASURY), &account(key(TAKER), MINT_B), 0).unwrap();
    refunded.issue(&account(key(TAKER), MINT_B), 500).unwrap();
    let mut taken = refunded.snapshot();

    assert_eq!(refund_offer(&mut refunded, &request()), Ok(()));
    assert_eq!(take_offer(&mut refunded, &take), Err(ErrorCode::OfferNotFound));

    assert_eq!(take_offer(&mut taken, &take), Ok(()));
    assert_eq!(refund_offer(&mut taken, &request()), Err(ErrorCode::OfferNotFound));
}
