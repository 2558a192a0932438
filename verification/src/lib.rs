//! An escrow for atomic two-party token swaps, with the ledger it settles on.
//!
//! A maker locks tokens of one asset in a vault and names the amount of
//! another asset wanted in return. A taker fulfils the offer by paying that
//! amount, or the maker takes the tokens back. Either way the offer is
//! settled once, as a whole, and then gone.

pub mod authority;
pub mod error;
pub mod handlers;
pub mod laws;
pub mod ledger;
pub mod model;
pub mod pubkey;
pub mod state;
pub mod table;
pub mod total;

pub use authority::AuthorityToken;
pub use error::{ErrorCode, LedgerError};
pub use handlers::{refund_offer, take_offer, RefundOffer, SignedBy, Step, TakeOffer};
pub use ledger::Ledger;
pub use model::{LedgerCall, LedgerView, OfferRecord, TokenAccount, TokenAccountId};
pub use pubkey::Pubkey;
pub use state::Offer;
