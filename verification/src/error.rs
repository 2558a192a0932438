//! The failures of the ledger and of the transitions.

use vstd::prelude::*;

verus! {

/// Why the asset ledger rejected a call. Each cause is told apart from the
/// others; a transition turns it into the [`ErrorCode`] of the step that made
/// the call.
#[derive(Clone, Copy, Debug, PartialEq, Eq, Structural)]
pub enum LedgerError {
    /// A token account that the call names does not exist.
    AccountNotFound,
    /// A token account that the call names holds another asset than declared.
    MintMismatch,
    /// The authority does not control the account that the call takes from
    /// or closes.
    InvalidAuthority,
    /// The source account holds less than the amount to move, or the payer's
    /// reserve less than the deposit to set aside.
    InsufficientFunds,
    /// The account to close still holds tokens.
    AccountNotEmpty,
    /// The token account to open exists already.
    AccountInUse,
    /// Tokens of the asset are in circulation already: an asset is issued once.
    AlreadyIssued,
    /// The offer identifier is taken, by a live offer or by a settled one.
    OfferIdInUse,
}

/// The failures that the two transitions report.
#[derive(Clone, Copy, Debug, PartialEq, Eq, Structural)]
pub enum ErrorCode {
    /// No live offer has the identifier that the request names.
    OfferNotFound,
    /// The asset that the taker offers to pay in is not the asset that the
    /// offer wants.
    OfferMismatch,
    /// The party asking for the refund is not the maker of the offer.
    UnauthorizedCaller,
    /// Take: the ledger rejected the release of the vaulted tokens.
    VaultWithdrawalFailed,
    /// Take: the ledger rejected the closure of the vault.
    VaultClosureFailed,
    /// Take: the ledger rejected the taker's payment to the maker.
    InsufficientTakerBalance,
    /// Refund: the ledger rejected the return of the vaulted tokens.
    RefundTransferFailed,
    /// Refund: the ledger rejected the closure of the vault.
    RefundClosureFailed,
}

} // verus!
