use escrow::handlers::refund_offer::refund_steps;
use escrow::handlers::take_offer::take_steps;
use escrow::model::LedgerCall;
use escrow::{
    AuthorityToken, ErrorCode, Ledger, LedgerError, Offer, Pubkey, SignedBy, Step, TokenAccount,
    TokenAccountId,
};

fn key(byte: u8) -> Pubkey {
    Pubkey::new([byte; 32])
}

fn account(owner: u8, mint: u8) -> TokenAccountId {
    TokenAccountId { owner: key(owner), mint: key(mint) }
}

fn offer() -> Offer {
    Offer {
        id: 7,
        maker: key(2),
        token_mint_a: key(20),
        token_mint_b: key(21),
        token_b_wanted_amount: 500,
        bump: 255,
    }
}

#[test]
fn take_is_withdraw_close_pay() {
    let steps = take_steps(&offer(), &key(3), &key(40), 1_000);
    assert_eq!(
        steps,
        vec![
            Step {
                call: LedgerCall::Transfer {
                    from: account(40, 20),
                    to: account(3, 20),
                    amount: 1_000,
                    mint: key(20),
                },
                signed_by: SignedBy::Offer,
                failure: ErrorCode::VaultWithdrawalFailed,
            },
            Step {
                call: LedgerCall::CloseAccount { account: account(40, 20), recipient: key(2) },
                signed_by: SignedBy::Offer,
                failure: ErrorCode::VaultClosureFailed,
            },
            Step {
                call: LedgerCall::Transfer {
                    from: account(3, 21),
                    to: account(2, 21),
                    amount: 500,
                    mint: key(21),
                },
                signed_by: SignedBy::Caller,
                failure: ErrorCode::InsufficientTakerBalance,
            },
        ]
    );
}

#[test]
fn refund_is_return_close() {
    let steps = refund_steps(&offer(), &key(40), 1_000);
    assert_eq!(
        steps,
        vec![
            Step {
                call: LedgerCall::Transfer {
                    from: account(40, 20),
                    to: account(2, 20),
                    amount: 1_000,
                    mint: key(20),
                },
                signed_by: SignedBy::Offer,
                failure: ErrorCode::RefundTransferFailed,
            },
            Step {
                call: LedgerCall::CloseAccount { account: account(40, 20), recipient: key(2) },
                signed_by: SignedBy::Offer,
                failure: ErrorCode::RefundClosureFailed,
            },
        ]
    );
}

#[test]
fn steps_of_an_empty_vault_move_nothing() {
    let steps = refund_steps(&offer(), &key(40), 0);
    assert_eq!(
        steps[0].call,
        LedgerCall::Transfer { from: account(40, 20), to: account(2, 20), amount: 0, mint: key(20) }
    );
}

#[test]
fn perform_makes_the_call() {
    let mut ledger = Ledger::new(key(9), key(1), 100);
    ledger.open_token_account(&key(1), &account(2, 20), 10).unwrap();
    ledger.open_token_account(&key(1), &account(3, 20), 10).unwrap();
    ledger.issue(&account(2, 20), 50).unwrap();
    let owner = AuthorityToken::signer(key(2));
    let transfer =
        LedgerCall::Transfer { from: account(2, 20), to: account(3, 20), amount: 50, mint: key(20) };
    assert_eq!(ledger.perform(&transfer, &owner), Ok(()));
    assert_eq!(ledger.account(&account(3, 20)), Some(TokenAccount { amount: 50, deposit: 10 }));
    assert_eq!(ledger.perform(&transfer, &owner), Err(LedgerError::InsufficientFunds));
    let close = LedgerCall::CloseAccount { account: account(2, 20), recipient: key(3) };
    assert_eq!(
        ledger.perform(&close, &AuthorityToken::signer(key(3))),
        Err(LedgerError::InvalidAuthority)
    );
    assert_eq!(ledger.perform(&close, &owner), Ok(()));
    assert_eq!(ledger.account(&account(2, 20)), None);
    assert_eq!(ledger.reserve(&key(3)), 10);
}
