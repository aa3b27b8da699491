//! Tapret commitments: embedding a multi-commitment digest into a taproot
//! script tree and tweaking an internal key with the resulting merkle root.

pub mod partner;
pub mod tree;
pub mod commit;
