//! What an epoch stores, what the host tells about its accounts, and the
//! events that record what happened.

use crate::bytes::bytes_equal;
use vstd::prelude::*;

verus! {

/// The 32-byte address of an account, a mint or a signer.
pub type Pubkey = [u8; 32];

/// Room kept free behind a stored epoch.
pub const EPOCH_SPACE_PAD: usize = 128;

/// Whether two addresses are the same.
pub fn keys_equal(a: &Pubkey, b: &Pubkey) -> (same: bool)
    ensures
        same == (*a == *b),
{
    let same = bytes_equal(a.as_slice(), b.as_slice());
    assert(same == (*a =~= *b));
    same
}

/// One distribution campaign.
///
/// `total_claimed` only grows. It is not held below `total_amount`: the
/// total is what the authority announced, and what can be paid out is
/// bounded by the vault's balance alone.
#[derive(Clone, Copy, Debug, PartialEq, Eq)]
pub struct Epoch {
    /// Who may pause the epoch, hand it over and sweep its vault.
    pub authority: Pubkey,
    /// The token that is distributed.
    pub mint: Pubkey,
    /// The root that commits to every `(index, recipient, amount)`.
    pub merkle_root: [u8; 32],
    /// The announced size of the distribution.
    pub total_amount: u64,
    /// The sum of all amounts paid out so far.
    pub total_claimed: u64,
    /// While set, no claim is accepted.
    pub paused: bool,
    /// The bump of the epoch's derived address.
    pub bump: u8,
}

impl Epoch {
    /// Stored size of an epoch in bytes.
    pub const SIZE: usize = 32 + 32 + 32 + 8 + 8 + 1 + 1;
}

/// What the host reports of a token account.
#[derive(Clone, Copy, Debug, PartialEq, Eq)]
pub struct TokenAccount {
    /// The token that the account holds.
    pub mint: Pubkey,
    /// Who controls the account.
    pub owner: Pubkey,
    /// How many tokens it holds.
    pub amount: u64,
}

/// The accounts of `initialize_epoch`.
#[derive(Clone, Copy, Debug, PartialEq, Eq)]
pub struct InitializeEpoch {
    /// The signer, who becomes the epoch's authority.
    pub authority: Pubkey,
    /// The token to distribute.
    pub mint: Pubkey,
    /// The address of the epoch that is being created.
    pub epoch: Pubkey,
    /// The bump of that address, if the host derived one.
    pub epoch_bump: Option<u8>,
    /// The token account that the payouts will come from.
    pub vault: TokenAccount,
}

/// The accounts of `ensure_bitmap_page`.
#[derive(Clone, Copy, Debug, PartialEq, Eq)]
pub struct EnsureBitmapPage {
    /// The address of the epoch that the page belongs to.
    pub epoch: Pubkey,
    /// The bump of the page's address, if the host derived one.
    pub page_bump: Option<u8>,
}

/// The accounts of `claim`, but for the epoch and the bitmap page, which
/// `claim` is handed as they are stored.
#[derive(Clone, Copy, Debug, PartialEq, Eq)]
pub struct Claim {
    /// The token that the claimant expects.
    pub mint: Pubkey,
    /// The address of the epoch.
    pub epoch: Pubkey,
    /// The epoch's vault.
    pub vault: TokenAccount,
    /// The signer, who receives the payout.
    pub recipient: Pubkey,
    /// The recipient's token account.
    pub recipient_ata: TokenAccount,
}

/// The accounts of `sweep_remaining`.
#[derive(Clone, Copy, Debug, PartialEq, Eq)]
pub struct SweepRemaining {
    /// The signer.
    pub authority: Pubkey,
    /// The address of the epoch.
    pub epoch: Pubkey,
    /// The epoch's vault.
    pub vault: TokenAccount,
    /// The address of the treasury's token account.
    pub treasury_ata: Pubkey,
}

/// The accounts of `set_paused`.
#[derive(Clone, Copy, Debug, PartialEq, Eq)]
pub struct SetPaused {
    /// The signer.
    pub authority: Pubkey,
    /// The address of the epoch.
    pub epoch: Pubkey,
}

/// The accounts of `set_authority`.
#[derive(Clone, Copy, Debug, PartialEq, Eq)]
pub struct SetAuthority {
    /// The signer.
    pub authority: Pubkey,
    /// The address of the epoch.
    pub epoch: Pubkey,
}

/// An epoch was created.
#[derive(Clone, Copy, Debug, PartialEq, Eq)]
pub struct EpochInitialized {
    pub epoch: Pubkey,
    pub authority: Pubkey,
    pub mint: Pubkey,
    pub total_amount: u64,
    pub merkle_root: [u8; 32],
    pub epoch_id: u64,
}

/// A claim was accepted: `amount` is owed to `recipient`, and the bit at
/// `byte_index`, `bit_index` of page `page_index` stands for it.
#[derive(Clone, Copy, Debug, PartialEq, Eq)]
pub struct AirdropClaimed {
    pub epoch: Pubkey,
    pub recipient: Pubkey,
    pub index: u32,
    pub amount: u64,
    pub page_index: u32,
    pub byte_index: u32,
    pub bit_index: u8,
}

/// What was left in the vault goes to the treasury.
#[derive(Clone, Copy, Debug, PartialEq, Eq)]
pub struct EpochSwept {
    pub epoch: Pubkey,
    pub to: Pubkey,
    pub amount: u64,
}

/// What `sweep_remaining` asks of the host.
#[derive(Clone, Copy, Debug, PartialEq, Eq)]
pub struct Sweep {
    /// How many tokens to move from the vault to the treasury; `None` when
    /// the vault is empty and nothing is to be moved.
    pub transfer: Option<u64>,
    /// The event to record.
    pub event: EpochSwept,
}

/// An epoch was paused or resumed.
#[derive(Clone, Copy, Debug, PartialEq, Eq)]
pub struct EpochPaused {
    pub epoch: Pubkey,
    pub paused: bool,
}

/// An epoch was handed to a new authority.
#[derive(Clone, Copy, Debug, PartialEq, Eq)]
pub struct EpochAuthorityChanged {
    pub epoch: Pubkey,
    pub new_authority: Pubkey,
}

} // verus!
