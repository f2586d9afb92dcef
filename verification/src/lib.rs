//! Resource-identity and mod-overlay core of a runtime asset-replacement
//! layer.
//!
//! The library computes the 64-bit content identity the host uses to address
//! assets in its packed archive (path normalization, region-suffix handling,
//! and the hash itself), and maintains the table that maps an identity to a
//! resolution decision: keep the original archive entry, or substitute a
//! replacement discovered in a mod directory tree.

pub mod bridge;
pub mod hashing;
pub mod path_norm;
pub mod region;
pub mod strutil;
pub mod table;
