//! The ways in which an instruction can be refused.

use vstd::prelude::*;

verus! {

/// Why an instruction was refused. Nothing has changed when one is returned.
#[derive(Clone, Copy, Debug, PartialEq, Eq, Structural, Hash)]
pub enum AirdropError {
    /// An amount of zero.
    InvalidAmount,
    /// The proof does not lead from the leaf to the epoch's root.
    InvalidProof,
    /// The proof has more siblings than are ever hashed.
    ProofTooLarge,
    /// The bit of this index is already set.
    AlreadyClaimed,
    /// The byte or bit lies outside the page.
    IndexOutOfRange,
    /// The mint is not the epoch's.
    WrongMint,
    /// The vault is not owned by the epoch.
    InvalidVaultOwner,
    /// The signer is not the epoch's authority.
    Unauthorized,
    /// The claimed total would not fit in 64 bits.
    MathOverflow,
    /// No bump was handed in for a derived address.
    BumpMissing,
    /// The page belongs to another epoch.
    WrongBitmapEpoch,
    /// The page covers another range of indices.
    WrongBitmapPage,
    /// The epoch is paused.
    EpochPaused,
    /// The vault holds less than the amount.
    InsufficientVaultBalance,
    /// The recipient's token account has another owner.
    AtaWrongOwner,
    /// The recipient's token account is of another mint.
    AtaWrongMint,
}

/// The text that goes with each refusal.
pub open spec fn message_of(error: AirdropError) -> Seq<char> {
    match error {
        AirdropError::InvalidAmount => "Invalid amount"@,
        AirdropError::InvalidProof => "Merkle proof is invalid"@,
        AirdropError::ProofTooLarge => "Merkle proof too large"@,
        AirdropError::AlreadyClaimed => "Claim already executed for this index"@,
        AirdropError::IndexOutOfRange => "Index out of bitmap page range"@,
        AirdropError::WrongMint => "Wrong mint for this epoch"@,
        AirdropError::InvalidVaultOwner => "Invalid vault owner; vault must be owned by the epoch PDA"@,
        AirdropError::Unauthorized => "Unauthorized"@,
        AirdropError::MathOverflow => "Math overflow"@,
        AirdropError::BumpMissing => "Missing PDA bump"@,
        AirdropError::WrongBitmapEpoch => "Bitmap page doesn't belong to this epoch"@,
        AirdropError::WrongBitmapPage => "Wrong bitmap page index"@,
        AirdropError::EpochPaused => "Epoch is paused"@,
        AirdropError::InsufficientVaultBalance => "Insufficient vault token balance"@,
        AirdropError::AtaWrongOwner => "Recipient ATA owner mismatch"@,
        AirdropError::AtaWrongMint => "Recipient ATA mint mismatch"@,
    }
}

impl AirdropError {
    /// The text to show for this refusal.
    pub fn message(&self) -> (text: &'static str)
        ensures
            text@ == message_of(*self),
    {
        match self {
            AirdropError::InvalidAmount => "Invalid amount",
            AirdropError::InvalidProof => "Merkle proof is invalid",
            AirdropError::ProofTooLarge => "Merkle proof too large",
            AirdropError::AlreadyClaimed => "Claim already executed for this index",
            AirdropError::IndexOutOfRange => "Index out of bitmap page range",
            AirdropError::WrongMint => "Wrong mint for this epoch",
            AirdropError::InvalidVaultOwner => "Invalid vault owner; vault must be owned by the epoch PDA",
            AirdropError::Unauthorized => "Unauthorized",
            AirdropError::MathOverflow => "Math overflow",
            AirdropError::BumpMissing => "Missing PDA bump",
            AirdropError::WrongBitmapEpoch => "Bitmap page doesn't belong to this epoch",
            AirdropError::WrongBitmapPage => "Wrong bitmap page index",
            AirdropError::EpochPaused => "Epoch is paused",
            AirdropError::InsufficientVaultBalance => "Insufficient vault token balance",
            AirdropError::AtaWrongOwner => "Recipient ATA owner mismatch",
            AirdropError::AtaWrongMint => "Recipient ATA mint mismatch",
        }
    }
}

} // verus!
