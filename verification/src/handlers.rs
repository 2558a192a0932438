//! The two transitions that end an offer.

pub mod refund_offer;
pub mod shared;
pub mod take_offer;

pub use refund_offer::{refund_offer, RefundOffer};
pub use shared::{SignedBy, Step};
pub use take_offer::{take_offer, TakeOffer};
