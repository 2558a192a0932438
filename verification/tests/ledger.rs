use escrow::{
    AuthorityToken, Ledger, LedgerError, Offer, OfferRecord, Pubkey, TokenAccount, TokenAccountId,
};

fn key(byte: u8) -> Pubkey {
    Pubkey::new([byte; 32])
}

const PROGRAM: u8 = 9;
const TREASURY: u8 = 1;
const ALICE: u8 = 2;
const BOB: u8 = 3;
const GOLD: u8 = 20;
const SILVER: u8 = 21;

fn account(owner: u8, mint: u8) -> TokenAccountId {
    TokenAccountId { owner: key(owner), mint: key(mint) }
}

fn holds(amount: u64, deposit: u64) -> Option<TokenAccount> {
    Some(TokenAccount { amount, deposit })
}

/// Alice holds 500 gold, Bob none; each account has a deposit of 10.
fn ledger() -> Ledger {
    let mut ledger = Ledger::new(key(PROGRAM), key(TREASURY), 1_000);
    ledger.open_token_account(&key(TREASURY), &account(ALICE, GOLD), 10).unwrap();
    ledger.open_token_account(&key(TREASURY), &account(BOB, GOLD), 10).unwrap();
    ledger.issue(&account(ALICE, GOLD), 500).unwrap();
    ledger
}

fn offer(id: u64) -> Offer {
    Offer {
        id,
        maker: key(ALICE),
        token_mint_a: key(GOLD),
        token_mint_b: key(SILVER),
        token_b_wanted_amount: 500,
        bump: 255,
    }
}

#[test]
fn new_ledger_holds_the_funds_and_nothing_else() {
    let ledger = Ledger::new(key(PROGRAM), key(TREASURY), 1_000);
    assert_eq!(ledger.program_id(), key(PROGRAM));
    assert_eq!(ledger.reserve(&key(TREASURY)), 1_000);
    assert_eq!(ledger.reserve(&key(ALICE)), 0);
    assert_eq!(ledger.account(&account(ALICE, GOLD)), None);
    assert_eq!(ledger.offer(7), None);
    assert!(!ledger.is_retired(7));
}

#[test]
fn open_moves_the_deposit_from_the_payer() {
    let ledger = ledger();
    assert_eq!(ledger.reserve(&key(TREASURY)), 980);
    assert_eq!(ledger.account(&account(ALICE, GOLD)), holds(500, 10));
    assert_eq!(ledger.account(&account(BOB, GOLD)), holds(0, 10));
    assert_eq!(ledger.account(&account(BOB, SILVER)), None);
}

#[test]
fn open_refuses_an_account_that_exists() {
    let mut ledger = ledger();
    let before = ledger.snapshot();
    assert_eq!(
        ledger.open_token_account(&key(TREASURY), &account(ALICE, GOLD), 0),
        Err(LedgerError::AccountInUse)
    );
    assert_eq!(ledger, before);
}

#[test]
fn open_refuses_a_deposit_that_the_payer_lacks() {
    let mut ledger = ledger();
    let before = ledger.snapshot();
    assert_eq!(
        ledger.open_token_account(&key(TREASURY), &account(ALICE, SILVER), 981),
        Err(LedgerError::InsufficientFunds)
    );
    assert_eq!(
        ledger.open_token_account(&key(BOB), &account(ALICE, SILVER), 1),
        Err(LedgerError::InsufficientFunds)
    );
    assert_eq!(ledger, before);
    assert_eq!(ledger.open_token_account(&key(TREASURY), &account(ALICE, SILVER), 980), Ok(()));
    assert_eq!(ledger.reserve(&key(TREASURY)), 0);
}

#[test]
fn open_without_deposit_needs_no_reserve() {
    let mut ledger = ledger();
    assert_eq!(ledger.open_token_account(&key(BOB), &account(BOB, SILVER), 0), Ok(()));
    assert_eq!(ledger.account(&account(BOB, SILVER)), holds(0, 0));
    assert_eq!(ledger.reserve(&key(BOB)), 0);
}

#[test]
fn issue_needs_the_account() {
    let mut ledger = ledger();
    assert_eq!(ledger.issue(&account(ALICE, SILVER), 5), Err(LedgerError::AccountNotFound));
}

#[test]
fn issue_happens_once_for_an_asset() {
    let mut ledger = ledger();
    let before = ledger.snapshot();
    assert_eq!(ledger.issue(&account(BOB, GOLD), 1), Err(LedgerError::AlreadyIssued));
    assert_eq!(ledger.issue(&account(ALICE, GOLD), 1), Err(LedgerError::AlreadyIssued));
    assert_eq!(ledger, before);
}

#[test]
fn issue_of_nothing_can_be_made_good() {
    let mut ledger = Ledger::new(key(PROGRAM), key(TREASURY), 0);
    ledger.open_token_account(&key(TREASURY), &account(ALICE, GOLD), 0).unwrap();
    assert_eq!(ledger.issue(&account(ALICE, GOLD), 0), Ok(()));
    assert_eq!(ledger.issue(&account(ALICE, GOLD), u64::MAX), Ok(()));
    assert_eq!(ledger.account(&account(ALICE, GOLD)), holds(u64::MAX, 0));
}

#[test]
fn transfer_moves_the_amount() {
    let mut ledger = ledger();
    let alice = AuthorityToken::signer(key(ALICE));
    let result =
        ledger.transfer_tokens(&account(ALICE, GOLD), &account(BOB, GOLD), 200, &key(GOLD), &alice);
    assert_eq!(result, Ok(()));
    assert_eq!(ledger.account(&account(ALICE, GOLD)), holds(300, 10));
    assert_eq!(ledger.account(&account(BOB, GOLD)), holds(200, 10));
    assert_eq!(ledger.reserve(&key(TREASURY)), 980);
}

#[test]
fn transfer_of_the_whole_balance_and_of_nothing() {
    let mut ledger = ledger();
    let alice = AuthorityToken::signer(key(ALICE));
    let from = account(ALICE, GOLD);
    let to = account(BOB, GOLD);
    assert_eq!(ledger.transfer_tokens(&from, &to, 0, &key(GOLD), &alice), Ok(()));
    assert_eq!(ledger.account(&from), holds(500, 10));
    assert_eq!(ledger.transfer_tokens(&from, &to, 500, &key(GOLD), &alice), Ok(()));
    assert_eq!(ledger.account(&from), holds(0, 10));
    assert_eq!(ledger.account(&to), holds(500, 10));
}

#[test]
fn transfer_to_oneself_changes_nothing() {
    let mut ledger = ledger();
    let before = ledger.snapshot();
    let alice = AuthorityToken::signer(key(ALICE));
    let own = account(ALICE, GOLD);
    assert_eq!(ledger.transfer_tokens(&own, &own, 500, &key(GOLD), &alice), Ok(()));
    assert_eq!(ledger, before);
    assert_eq!(
        ledger.transfer_tokens(&own, &own, 501, &key(GOLD), &alice),
        Err(LedgerError::InsufficientFunds)
    );
}

#[test]
fn transfer_needs_both_accounts() {
    let mut ledger = ledger();
    let before = ledger.snapshot();
    let alice = AuthorityToken::signer(key(ALICE));
    assert_eq!(
        ledger.transfer_tokens(
            &account(ALICE, GOLD),
            &account(TREASURY, GOLD),
            1,
            &key(GOLD),
            &alice
        ),
        Err(LedgerError::AccountNotFound)
    );
    assert_eq!(
        ledger.transfer_tokens(&account(ALICE, SILVER), &account(BOB, GOLD), 1, &key(GOLD), &alice),
        Err(LedgerError::AccountNotFound)
    );
    assert_eq!(ledger, before);
}

#[test]
fn transfer_needs_accounts_of_the_declared_asset() {
    let mut ledger = ledger();
    ledger.open_token_account(&key(TREASURY), &account(BOB, SILVER), 0).unwrap();
    let before = ledger.snapshot();
    let alice = AuthorityToken::signer(key(ALICE));
    assert_eq!(
        ledger.transfer_tokens(&account(ALICE, GOLD), &account(BOB, SILVER), 1, &key(GOLD), &alice),
        Err(LedgerError::MintMismatch)
    );
    assert_eq!(
        ledger.transfer_tokens(&account(ALICE, GOLD), &account(BOB, GOLD), 1, &key(SILVER), &alice),
        Err(LedgerError::MintMismatch)
    );
    assert_eq!(ledger, before);
}

#[test]
fn transfer_needs_the_owner_of_the_source() {
    let mut ledger = ledger();
    let before = ledger.snapshot();
    let bob = AuthorityToken::signer(key(BOB));
    assert_eq!(
        ledger.transfer_tokens(&account(ALICE, GOLD), &account(BOB, GOLD), 1, &key(GOLD), &bob),
        Err(LedgerError::InvalidAuthority)
    );
    assert_eq!(ledger, before);
}

#[test]
fn transfer_needs_the_funds() {
    let mut ledger = ledger();
    let before = ledger.snapshot();
    let alice = AuthorityToken::signer(key(ALICE));
    assert_eq!(
        ledger.transfer_tokens(&account(ALICE, GOLD), &account(BOB, GOLD), 501, &key(GOLD), &alice),
        Err(LedgerError::InsufficientFunds)
    );
    assert_eq!(ledger, before);
}

#[test]
fn close_hands_the_deposit_to_the_recipient() {
    let mut ledger = ledger();
    let bob = AuthorityToken::signer(key(BOB));
    assert_eq!(ledger.close_token_account(&account(BOB, GOLD), &key(ALICE), &bob), Ok(()));
    assert_eq!(ledger.account(&account(BOB, GOLD)), None);
    assert_eq!(ledger.reserve(&key(ALICE)), 10);
    assert_eq!(ledger.reserve(&key(BOB)), 0);
    assert_eq!(ledger.reserve(&key(TREASURY)), 980);
    assert_eq!(ledger.account(&account(ALICE, GOLD)), holds(500, 10));
}

#[test]
fn close_adds_to_a_reserve_that_exists() {
    let mut ledger = ledger();
    let bob = AuthorityToken::signer(key(BOB));
    assert_eq!(ledger.close_token_account(&account(BOB, GOLD), &key(TREASURY), &bob), Ok(()));
    assert_eq!(ledger.reserve(&key(TREASURY)), 990);
}

#[test]
fn close_needs_an_empty_account() {
    let mut ledger = ledger();
    let before = ledger.snapshot();
    let alice = AuthorityToken::signer(key(ALICE));
    assert_eq!(
        ledger.close_token_account(&account(ALICE, GOLD), &key(ALICE), &alice),
        Err(LedgerError::AccountNotEmpty)
    );
    assert_eq!(ledger, before);
}

#[test]
fn close_needs_the_owner() {
    let mut ledger = ledger();
    let before = ledger.snapshot();
    let alice = AuthorityToken::signer(key(ALICE));
    assert_eq!(
        ledger.close_token_account(&account(BOB, GOLD), &key(ALICE), &alice),
        Err(LedgerError::InvalidAuthority)
    );
    assert_eq!(ledger, before);
}

#[test]
fn close_needs_the_account() {
    let mut ledger = ledger();
    let before = ledger.snapshot();
    let bob = AuthorityToken::signer(key(BOB));
    assert_eq!(
        ledger.close_token_account(&account(BOB, SILVER), &key(ALICE), &bob),
        Err(LedgerError::AccountNotFound)
    );
    assert_eq!(ledger, before);
}

#[test]
fn closed_account_can_be_opened_again() {
    let mut ledger = ledger();
    let bob = AuthorityToken::signer(key(BOB));
    ledger.close_token_account(&account(BOB, GOLD), &key(BOB), &bob).unwrap();
    assert_eq!(ledger.open_token_account(&key(BOB), &account(BOB, GOLD), 4), Ok(()));
    assert_eq!(ledger.account(&account(BOB, GOLD)), holds(0, 4));
    assert_eq!(ledger.reserve(&key(BOB)), 6);
}

#[test]
fn register_puts_the_offer_on_record() {
    let mut ledger = ledger();
    assert_eq!(ledger.register_offer(&key(TREASURY), offer(7), 30), Ok(()));
    assert_eq!(ledger.offer(7), Some(OfferRecord { offer: offer(7), deposit: 30 }));
    assert_eq!(ledger.offer(8), None);
    assert_eq!(ledger.reserve(&key(TREASURY)), 950);
    assert!(!ledger.is_retired(7));
}

#[test]
fn register_refuses_an_identifier_in_use() {
    let mut ledger = ledger();
    ledger.register_offer(&key(TREASURY), offer(7), 30).unwrap();
    let before = ledger.snapshot();
    let mut again = offer(7);
    again.token_b_wanted_amount = 1;
    assert_eq!(ledger.register_offer(&key(TREASURY), again, 0), Err(LedgerError::OfferIdInUse));
    assert_eq!(ledger, before);
    assert_eq!(ledger.register_offer(&key(TREASURY), offer(8), 0), Ok(()));
}

#[test]
fn register_refuses_a_deposit_that_the_payer_lacks() {
    let mut ledger = ledger();
    let before = ledger.snapshot();
    assert_eq!(
        ledger.register_offer(&key(ALICE), offer(7), 1),
        Err(LedgerError::InsufficientFunds)
    );
    assert_eq!(ledger, before);
}

#[test]
fn snapshot_is_a_copy() {
    let mut ledger = ledger();
    let before = ledger.snapshot();
    assert_eq!(ledger, before);
    let alice = AuthorityToken::signer(key(ALICE));
    ledger
        .transfer_tokens(&account(ALICE, GOLD), &account(BOB, GOLD), 1, &key(GOLD), &alice)
        .unwrap();
    assert_ne!(ledger, before);
    assert_eq!(before.account(&account(ALICE, GOLD)), holds(500, 10));
}
