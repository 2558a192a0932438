//! What the escrow keeps on record.

pub mod offer;

pub use offer::Offer;
