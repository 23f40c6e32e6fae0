//! Merkle-proof airdrop distribution.
//!
//! A distribution is published as the root of a Merkle tree over
//! `(index, recipient, amount)` leaves. A claim is accepted when its proof
//! leads from its leaf to that root and the bit of its index is still clear;
//! accepting it sets the bit, so that no index is paid twice.
//!
//! - [`merkle`] hashes leaves and verifies sorted-pair proofs; [`tree`]
//!   states what such a proof establishes.
//! - [`bitmap`] locates the bit of an index and keeps one page of bits;
//!   [`registry`] keeps all pages, created on first use.
//! - [`instructions`] decides every request over the values in [`state`].
//! - [`layout`] is the stored form of epochs and pages.
//! - [`hash`] is SHA-256, taken on trust from the `sha2` crate.

pub mod bitmap;
pub mod bytes;
pub mod error;
pub mod hash;
pub mod instructions;
pub mod layout;
pub mod merkle;
pub mod registry;
pub mod state;
pub mod tree;
