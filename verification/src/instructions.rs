//! The instructions: each decides, from what is stored and what the host
//! reports, whether a request is accepted, what is stored afterwards and
//! what the host is to do.
//!
//! No instruction moves tokens. `claim` and `sweep_remaining` say what is to
//! be moved; the host moves it, and either everything an instruction did
//! persists together with the transfer or none of it does.

use crate::bitmap::{bit_location, bit_offset, page_for, ClaimedBitmapPage, BITMAP_PAGE_SIZE};
use crate::error::AirdropError;
use crate::merkle::{accepts, leaf_digest, leaf_hash, verify_proof, MAX_PROOF_LEN};
use crate::registry::{distinct_bindings, page_ensured, ClaimBitmapIndex, PageHandle};
use crate::state::{
    keys_equal, AirdropClaimed, Claim, EnsureBitmapPage, Epoch, EpochAuthorityChanged,
    EpochInitialized, EpochPaused, EpochSwept, InitializeEpoch, Pubkey, SetAuthority, SetPaused,
    Sweep, SweepRemaining,
};
use vstd::prelude::*;

verus! {

/// What `claim` decides for a request, given the epoch and the bitmap page
/// that came with it. The checks are made in this order, and the first that
/// fails names the error.
pub open spec fn claim_decision(
    epoch: Epoch,
    page: ClaimedBitmapPage,
    ctx: Claim,
    index: u32,
    amount: u64,
    proof: Seq<[u8; 32]>,
) -> Result<AirdropClaimed, AirdropError> {
    let loc = bit_location(index);
    if epoch.paused {
        Err(AirdropError::EpochPaused)
    } else if amount == 0 {
        Err(AirdropError::InvalidAmount)
    } else if epoch.mint != ctx.mint {
        Err(AirdropError::WrongMint)
    } else if proof.len() > MAX_PROOF_LEN {
        Err(AirdropError::ProofTooLarge)
    } else if !accepts(leaf_digest(index, ctx.recipient, amount), proof, epoch.merkle_root) {
        Err(AirdropError::InvalidProof)
    } else if page.epoch != ctx.epoch {
        Err(AirdropError::WrongBitmapEpoch)
    } else if page.page_index != loc.page_index {
        Err(AirdropError::WrongBitmapPage)
    } else if page.bits()[bit_offset(loc.byte_index as int, loc.bit_index as int)] {
        Err(AirdropError::AlreadyClaimed)
    } else if ctx.recipient_ata.owner != ctx.recipient {
        Err(AirdropError::AtaWrongOwner)
    } else if ctx.recipient_ata.mint != ctx.mint {
        Err(AirdropError::AtaWrongMint)
    } else if ctx.vault.amount < amount {
        Err(AirdropError::InsufficientVaultBalance)
    } else {
        Ok(
            AirdropClaimed {
                epoch: ctx.epoch,
                recipient: ctx.recipient,
                index,
                amount,
                page_index: loc.page_index,
                byte_index: loc.byte_index,
                bit_index: loc.bit_index,
            },
        )
    }
}

/// Accepts or refuses the claim of `amount` for `index` by `ctx.recipient`.
///
/// A claim is accepted when the epoch is not paused, the amount is not
/// zero, the mint is the epoch's, the proof is no longer than
/// `MAX_PROOF_LEN` and leads from the claim's leaf to the epoch's root, the
/// page handed in is bound to this epoch and to the block that covers
/// `index`, the bit of `index` is clear, the recipient's token account is
/// the recipient's and of this mint, and the vault holds the amount. The
/// proof's length is looked at before anything is hashed.
///
/// On acceptance the bit is set and the event says what to pay out; the
/// host then transfers `amount` from the vault and calls `record_claim`. If
/// the transfer or `record_claim` fails, `revert_claim` takes the bit back.
/// On refusal nothing has changed.
///
/// A claim touches no page but its own, so claims on different pages need
/// not wait for each other.
pub fn claim(
    epoch: &Epoch,
    page: &mut ClaimedBitmapPage,
    ctx: &Claim,
    index: u32,
    amount: u64,
    proof: &Vec<[u8; 32]>,
) -> (res: Result<AirdropClaimed, AirdropError>)
    ensures
        res == claim_decision(*epoch, *old(page), *ctx, index, amount, proof@),
        res is Err ==> *final(page) == *old(page),
        res is Ok ==> final(page).sets_bit_of(
            *old(page),
            bit_location(index).byte_index as int,
            bit_location(index).bit_index as int,
        ),
{
    if epoch.paused {
        return Err(AirdropError::EpochPaused);
    }
    if amount == 0 {
        return Err(AirdropError::InvalidAmount);
    }
    if !keys_equal(&epoch.mint, &ctx.mint) {
        return Err(AirdropError::WrongMint);
    }
    if proof.len() > MAX_PROOF_LEN {
        return Err(AirdropError::ProofTooLarge);
    }
    let leaf = leaf_hash(index, &ctx.recipient, amount);
    if !verify_proof(&leaf, proof, &epoch.merkle_root) {
        return Err(AirdropError::InvalidProof);
    }
    let loc = page_for(index);
    if !keys_equal(&page.epoch, &ctx.epoch) {
        return Err(AirdropError::WrongBitmapEpoch);
    }
    if page.page_index != loc.page_index {
        return Err(AirdropError::WrongBitmapPage);
    }
    let byte_index = loc.byte_index as usize;
    if page.is_claimed(byte_index, loc.bit_index) {
        return Err(AirdropError::AlreadyClaimed);
    }
    if !keys_equal(&ctx.recipient_ata.owner, &ctx.recipient) {
        return Err(AirdropError::AtaWrongOwner);
    }
    if !keys_equal(&ctx.recipient_ata.mint, &ctx.mint) {
        return Err(AirdropError::AtaWrongMint);
    }
    if ctx.vault.amount < amount {
        return Err(AirdropError::InsufficientVaultBalance);
    }
    match page.try_claim(byte_index, loc.bit_index) {
        Err(e) => Err(e),
        Ok(()) => Ok(
            AirdropClaimed {
                epoch: ctx.epoch,
                recipient: ctx.recipient,
                index,
                amount,
                page_index: loc.page_index,
                byte_index: loc.byte_index,
                bit_index: loc.bit_index,
            },
        ),
    }
}

/// An accepted claim cannot be made again: on the page on which the bit of
/// a claim has been set, the same request is refused with `AlreadyClaimed`.
pub proof fn lemma_replay_refused(
    epoch: Epoch,
    before: ClaimedBitmapPage,
    after: ClaimedBitmapPage,
    ctx: Claim,
    index: u32,
    amount: u64,
    proof: Seq<[u8; 32]>,
)
    requires
        claim_decision(epoch, before, ctx, index, amount, proof) is Ok,
        after.sets_bit_of(
            before,
            bit_location(index).byte_index as int,
            bit_location(index).bit_index as int,
        ),
    ensures
        claim_decision(epoch, after, ctx, index, amount, proof) == Err::<
            AirdropClaimed,
            AirdropError,
        >(AirdropError::AlreadyClaimed),
{
    crate::bitmap::lemma_bit_location_bounds(index);
}

/// Claims do not interfere: what is decided for a request does not depend
/// on whether the bit of another index has been set on the same page
/// before. (A claim on another page is not even looked at.)
pub proof fn lemma_other_claim_unaffected(
    epoch: Epoch,
    before: ClaimedBitmapPage,
    after: ClaimedBitmapPage,
    claimed_index: u32,
    ctx: Claim,
    index: u32,
    amount: u64,
    proof: Seq<[u8; 32]>,
)
    requires
        after.sets_bit_of(
            before,
            bit_location(claimed_index).byte_index as int,
            bit_location(claimed_index).bit_index as int,
        ),
        (bit_location(index).byte_index, bit_location(index).bit_index) != (
            bit_location(claimed_index).byte_index,
            bit_location(claimed_index).bit_index,
        ),
    ensures
        claim_decision(epoch, after, ctx, index, amount, proof) == claim_decision(
            epoch,
            before,
            ctx,
            index,
            amount,
            proof,
        ),
{
    crate::bitmap::lemma_bit_location_bounds(index);
    crate::bitmap::lemma_bit_location_bounds(claimed_index);
}

/// What `initialize_epoch` decides. The checks are made in this order, and
/// the first that fails names the error.
pub open spec fn initialize_epoch_decision(
    ctx: InitializeEpoch,
    epoch_id: u64,
    merkle_root: [u8; 32],
    total_amount: u64,
) -> Result<(Epoch, EpochInitialized), AirdropError> {
    if total_amount == 0 {
        Err(AirdropError::InvalidAmount)
    } else if ctx.epoch_bump is None {
        Err(AirdropError::BumpMissing)
    } else if ctx.vault.mint != ctx.mint {
        Err(AirdropError::WrongMint)
    } else if ctx.vault.owner != ctx.epoch {
        Err(AirdropError::InvalidVaultOwner)
    } else {
        Ok(
            (
                Epoch {
                    authority: ctx.authority,
                    mint: ctx.mint,
                    merkle_root,
                    total_amount,
                    total_claimed: 0,
                    paused: false,
                    bump: ctx.epoch_bump->0,
                },
                EpochInitialized {
                    epoch: ctx.epoch,
                    authority: ctx.authority,
                    mint: ctx.mint,
                    total_amount,
                    merkle_root,
                    epoch_id,
                },
            ),
        )
    }
}

/// Creates the epoch for one distribution: the signer becomes its authority,
/// nothing is claimed yet and it is not paused.
///
/// Refused when the total is zero, when no bump came with the epoch's
/// address, when the vault is of another mint, or when the vault is not
/// owned by the epoch.
pub fn initialize_epoch(
    ctx: &InitializeEpoch,
    epoch_id: u64,
    merkle_root: [u8; 32],
    total_amount: u64,
) -> (res: Result<(Epoch, EpochInitialized), AirdropError>)
    ensures
        res == initialize_epoch_decision(*ctx, epoch_id, merkle_root, total_amount),
{
    if total_amount == 0 {
        return Err(AirdropError::InvalidAmount);
    }
    let bump = match ctx.epoch_bump {
        Some(bump) => bump,
        None => {
            return Err(AirdropError::BumpMissing);
        },
    };
    if !keys_equal(&ctx.vault.mint, &ctx.mint) {
        return Err(AirdropError::WrongMint);
    }
    if !keys_equal(&ctx.vault.owner, &ctx.epoch) {
        return Err(AirdropError::InvalidVaultOwner);
    }
    let epoch = Epoch {
        authority: ctx.authority,
        mint: ctx.mint,
        merkle_root,
        total_amount,
        total_claimed: 0,
        paused: false,
        bump,
    };
    let event = EpochInitialized {
        epoch: ctx.epoch,
        authority: ctx.authority,
        mint: ctx.mint,
        total_amount,
        merkle_root,
        epoch_id,
    };
    Ok((epoch, event))
}

/// Makes sure that the bitmap page of `ctx.epoch` for block `page_index`
/// exists, and returns its handle.
///
/// The first call for a block creates the page with every bit clear; every
/// later call returns the same page and changes nothing. Refused with
/// `BumpMissing`, and without creating anything, when no bump came with the
/// page's address.
pub fn ensure_bitmap_page(pages: &mut ClaimBitmapIndex, ctx: &EnsureBitmapPage, page_index: u32) -> (res:
    Result<PageHandle, AirdropError>)
    ensures
        distinct_bindings(final(pages)@),
        ctx.page_bump is None ==> res == Err::<PageHandle, AirdropError>(
            AirdropError::BumpMissing,
        ),
        ctx.page_bump is Some ==> res is Ok,
        res is Err ==> final(pages)@ == old(pages)@,
        res matches Ok(handle) ==> page_ensured(
            old(pages)@,
            final(pages)@,
            handle.slot as int,
            ctx.epoch,
            page_index,
            ctx.page_bump->0,
        ),
{
    proof {
        use_type_invariant(&*pages);
    }
    match ctx.page_bump {
        None => Err(AirdropError::BumpMissing),
        Some(bump) => Ok(pages.ensure_page(&ctx.epoch, page_index, bump)),
    }
}

/// Adds a paid-out claim to the epoch's total.
///
/// Called once the transfer for `claimed` has gone through. Refused with
/// `MathOverflow`, the epoch unchanged, when the total would no longer fit
/// in 64 bits; the sum never wraps and never saturates. The host then has
/// to abandon the whole claim: the transfer, and the bit by `revert_claim`.
pub fn record_claim(epoch: &mut Epoch, claimed: &AirdropClaimed) -> (res: Result<(), AirdropError>)
    ensures
        old(epoch).total_claimed + claimed.amount > u64::MAX ==> res == Err::<(), AirdropError>(
            AirdropError::MathOverflow,
        ) && *final(epoch) == *old(epoch),
        old(epoch).total_claimed + claimed.amount <= u64::MAX ==> res == Ok::<(), AirdropError>(
            (),
        ) && *final(epoch) == (Epoch {
            total_claimed: (old(epoch).total_claimed + claimed.amount) as u64,
            ..*old(epoch)
        }),
{
    match epoch.total_claimed.checked_add(claimed.amount) {
        None => Err(AirdropError::MathOverflow),
        Some(total) => {
            epoch.total_claimed = total;
            Ok(())
        },
    }
}

/// Takes back the bit that an accepted claim has set, for a claim whose
/// payout did not go through, and says whether there was such a bit.
///
/// `page` is the page that the claim was made on. Nothing changes when it
/// is not the page named in `claimed`, or when the bit is clear.
pub fn revert_claim(page: &mut ClaimedBitmapPage, claimed: &AirdropClaimed) -> (reverted: bool)
    ensures
        reverted == (old(page).is_bound_to(claimed.epoch, claimed.page_index)
            && claimed.byte_index < BITMAP_PAGE_SIZE && claimed.bit_index < 8 && old(page).bits()[bit_offset(
            claimed.byte_index as int,
            claimed.bit_index as int,
        )]),
        !reverted ==> *final(page) == *old(page),
        reverted ==> old(page).sets_bit_of(
            *final(page),
            claimed.byte_index as int,
            claimed.bit_index as int,
        ) && !final(page).bits()[bit_offset(claimed.byte_index as int, claimed.bit_index as int)],
{
    if !keys_equal(&page.epoch, &claimed.epoch) || page.page_index != claimed.page_index {
        return false;
    }
    page.release(claimed.byte_index as usize, claimed.bit_index)
}

/// Reverting undoes claiming: the page is again what it was before the
/// claim was accepted.
pub proof fn lemma_revert_undoes_claim(
    before: ClaimedBitmapPage,
    after: ClaimedBitmapPage,
    reverted: ClaimedBitmapPage,
    index: u32,
)
    requires
        !before.bits()[bit_offset(
            bit_location(index).byte_index as int,
            bit_location(index).bit_index as int,
        )],
        after.sets_bit_of(
            before,
            bit_location(index).byte_index as int,
            bit_location(index).bit_index as int,
        ),
        !reverted.bits()[bit_offset(
            bit_location(index).byte_index as int,
            bit_location(index).bit_index as int,
        )],
        after.sets_bit_of(
            reverted,
            bit_location(index).byte_index as int,
            bit_location(index).bit_index as int,
        ),
    ensures
        reverted == before,
{
    crate::bitmap::lemma_bit_location_bounds(index);
    crate::bitmap::lemma_sets_bit_of_one_page(
        after,
        before,
        reverted,
        bit_location(index).byte_index as int,
        bit_location(index).bit_index as int,
    );
}

/// What `sweep_remaining` decides.
pub open spec fn sweep_decision(epoch: Epoch, ctx: SweepRemaining) -> Result<Sweep, AirdropError> {
    if epoch.authority != ctx.authority {
        Err(AirdropError::Unauthorized)
    } else {
        Ok(
            Sweep {
                transfer: if ctx.vault.amount > 0 {
                    Some(ctx.vault.amount)
                } else {
                    None
                },
                event: EpochSwept {
                    epoch: ctx.epoch,
                    to: ctx.treasury_ata,
                    amount: ctx.vault.amount,
                },
            },
        )
    }
}

/// Sends whatever the vault still holds to the treasury, once an epoch is
/// over. Only the epoch's authority may do so. An empty vault is swept
/// without a transfer; the event is recorded all the same.
pub fn sweep_remaining(epoch: &Epoch, ctx: &SweepRemaining) -> (res: Result<Sweep, AirdropError>)
    ensures
        res == sweep_decision(*epoch, *ctx),
{
    if !keys_equal(&epoch.authority, &ctx.authority) {
        return Err(AirdropError::Unauthorized);
    }
    let amount = ctx.vault.amount;
    let transfer = if amount > 0 {
        Some(amount)
    } else {
        None
    };
    Ok(Sweep { transfer, event: EpochSwept { epoch: ctx.epoch, to: ctx.treasury_ata, amount } })
}

/// Pauses or resumes an epoch. Only the epoch's authority may do so; for
/// anyone else the epoch is left as it was.
pub fn set_paused(epoch: &mut Epoch, ctx: &SetPaused, paused: bool) -> (res: Result<
    EpochPaused,
    AirdropError,
>)
    ensures
        old(epoch).authority != ctx.authority ==> res == Err::<EpochPaused, AirdropError>(
            AirdropError::Unauthorized,
        ) && *final(epoch) == *old(epoch),
        old(epoch).authority == ctx.authority ==> res == Ok::<EpochPaused, AirdropError>(
            EpochPaused { epoch: ctx.epoch, paused },
        ) && *final(epoch) == (Epoch { paused, ..*old(epoch) }),
{
    if !keys_equal(&epoch.authority, &ctx.authority) {
        return Err(AirdropError::Unauthorized);
    }
    epoch.paused = paused;
    Ok(EpochPaused { epoch: ctx.epoch, paused })
}

/// Hands an epoch to a new authority. Only the present authority may do
/// so; for anyone else the epoch is left as it was.
pub fn set_authority(epoch: &mut Epoch, ctx: &SetAuthority, new_authority: Pubkey) -> (res: Result<
    EpochAuthorityChanged,
    AirdropError,
>)
    ensures
        old(epoch).authority != ctx.authority ==> res == Err::<
            EpochAuthorityChanged,
            AirdropError,
        >(AirdropError::Unauthorized) && *final(epoch) == *old(epoch),
        old(epoch).authority == ctx.authority ==> res == Ok::<EpochAuthorityChanged, AirdropError>(
            EpochAuthorityChanged { epoch: ctx.epoch, new_authority },
        ) && *final(epoch) == (Epoch { authority: new_authority, ..*old(epoch) }),
{
    if !keys_equal(&epoch.authority, &ctx.authority) {
        return Err(AirdropError::Unauthorized);
    }
    epoch.authority = new_authority;
    Ok(EpochAuthorityChanged { epoch: ctx.epoch, new_authority })
}

} // verus!
