use merkle_airdrop::bitmap::ClaimedBitmapPage;
use merkle_airdrop::error::AirdropError;
use merkle_airdrop::instructions::{
    claim, ensure_bitmap_page, initialize_epoch, record_claim, revert_claim, set_authority,
    set_paused, sweep_remaining,
};
use merkle_airdrop::merkle::{hash_pair, leaf_hash};
use merkle_airdrop::registry::{ClaimBitmapIndex, PageHandle};
use merkle_airdrop::state::{
    AirdropClaimed, Claim, EnsureBitmapPage, Epoch, EpochAuthorityChanged, EpochInitialized,
    EpochPaused, EpochSwept, InitializeEpoch, SetAuthority, SetPaused, Sweep, SweepRemaining,
    TokenAccount,
};

const A: [u8; 32] = [0xA1; 32];
const B: [u8; 32] = [0xB2; 32];
const C: [u8; 32] = [0xC3; 32];
const AUTHORITY: [u8; 32] = [0x0A; 32];
const STRANGER: [u8; 32] = [0x0B; 32];
const MINT: [u8; 32] = [0x0C; 32];
const OTHER_MINT: [u8; 32] = [0x0D; 32];
const EPOCH_KEY: [u8; 32] = [0xE0; 32];
const OTHER_EPOCH_KEY: [u8; 32] = [0xE1; 32];
const TREASURY: [u8; 32] = [0x7E; 32];

struct World {
    epoch: Epoch,
    page: ClaimedBitmapPage,
    proof_for_b: Vec<[u8; 32]>,
}

/// The tree over {(0, A, 100), (1, B, 200), (2, C, 300)}, its epoch and page 0.
fn world() -> World {
    let l0 = leaf_hash(0, &A, 100);
    let l1 = leaf_hash(1, &B, 200);
    let l2 = leaf_hash(2, &C, 300);
    let root = hash_pair(&hash_pair(&l0, &l1), &l2);
    let ctx = InitializeEpoch {
        authority: AUTHORITY,
        mint: MINT,
        epoch: EPOCH_KEY,
        epoch_bump: Some(254),
        vault: TokenAccount { mint: MINT, owner: EPOCH_KEY, amount: 600 },
    };
    let (epoch, _) = initialize_epoch(&ctx, 1, root, 600).unwrap();
    World { epoch, page: ClaimedBitmapPage::new(EPOCH_KEY, 0, 253), proof_for_b: vec![l0, l2] }
}

fn claim_by_b() -> Claim {
    Claim {
        mint: MINT,
        epoch: EPOCH_KEY,
        vault: TokenAccount { mint: MINT, owner: EPOCH_KEY, amount: 600 },
        recipient: B,
        recipient_ata: TokenAccount { mint: MINT, owner: B, amount: 0 },
    }
}

fn expect_refused(world: &mut World, ctx: &Claim, index: u32, amount: u64, error: AirdropError) {
    let before = world.page;
    let proof = world.proof_for_b.clone();
    assert_eq!(claim(&world.epoch, &mut world.page, ctx, index, amount, &proof), Err(error));
    assert_eq!(world.page, before);
}

#[test]
fn initialize_epoch_builds_the_epoch_and_the_event() {
    let root = [0x33; 32];
    let ctx = InitializeEpoch {
        authority: AUTHORITY,
        mint: MINT,
        epoch: EPOCH_KEY,
        epoch_bump: Some(251),
        vault: TokenAccount { mint: MINT, owner: EPOCH_KEY, amount: 0 },
    };
    let (epoch, event) = initialize_epoch(&ctx, 42, root, 1_000).unwrap();
    assert_eq!(
        epoch,
        Epoch {
            authority: AUTHORITY,
            mint: MINT,
            merkle_root: root,
            total_amount: 1_000,
            total_claimed: 0,
            paused: false,
            bump: 251,
        }
    );
    assert_eq!(
        event,
        EpochInitialized {
            epoch: EPOCH_KEY,
            authority: AUTHORITY,
            mint: MINT,
            total_amount: 1_000,
            merkle_root: root,
            epoch_id: 42,
        }
    );
}

#[test]
fn initialize_epoch_refusals_in_order() {
    let good = InitializeEpoch {
        authority: AUTHORITY,
        mint: MINT,
        epoch: EPOCH_KEY,
        epoch_bump: Some(1),
        vault: TokenAccount { mint: MINT, owner: EPOCH_KEY, amount: 5 },
    };
    let all_wrong = InitializeEpoch {
        epoch_bump: None,
        vault: TokenAccount { mint: OTHER_MINT, owner: STRANGER, amount: 5 },
        ..good
    };
    assert_eq!(initialize_epoch(&all_wrong, 1, [0; 32], 0), Err(AirdropError::InvalidAmount));
    assert_eq!(initialize_epoch(&all_wrong, 1, [0; 32], 9), Err(AirdropError::BumpMissing));
    let wrong_vault = InitializeEpoch { epoch_bump: Some(1), ..all_wrong };
    assert_eq!(initialize_epoch(&wrong_vault, 1, [0; 32], 9), Err(AirdropError::WrongMint));
    let wrong_owner =
        InitializeEpoch { vault: TokenAccount { mint: MINT, owner: STRANGER, amount: 5 }, ..good };
    assert_eq!(initialize_epoch(&wrong_owner, 1, [0; 32], 9), Err(AirdropError::InvalidVaultOwner));
    assert_eq!(initialize_epoch(&good, 1, [0; 32], 0), Err(AirdropError::InvalidAmount));
    assert!(initialize_epoch(&good, 1, [0; 32], 1).is_ok());
    assert!(initialize_epoch(&good, 1, [0; 32], u64::MAX).is_ok());
}

#[test]
fn ensure_bitmap_page_is_idempotent() {
    let mut pages = ClaimBitmapIndex::new();
    let ctx = EnsureBitmapPage { epoch: EPOCH_KEY, page_bump: Some(200) };
    let first = ensure_bitmap_page(&mut pages, &ctx, 7).unwrap();
    assert_eq!(pages.page(first), Some(&ClaimedBitmapPage::new(EPOCH_KEY, 7, 200)));
    assert_eq!(pages.try_claim(first, 0, 0), Ok(()));
    let snapshot = *pages.page(first).unwrap();
    for bump in 0..10u8 {
        let ctx = EnsureBitmapPage { epoch: EPOCH_KEY, page_bump: Some(bump) };
        assert_eq!(ensure_bitmap_page(&mut pages, &ctx, 7), Ok(first));
    }
    assert_eq!(pages.len(), 1);
    assert_eq!(pages.page(first), Some(&snapshot));
}

#[test]
fn ensure_bitmap_page_without_bump_creates_nothing() {
    let mut pages = ClaimBitmapIndex::new();
    let ctx = EnsureBitmapPage { epoch: EPOCH_KEY, page_bump: None };
    assert_eq!(ensure_bitmap_page(&mut pages, &ctx, 0), Err(AirdropError::BumpMissing));
    assert_eq!(pages.len(), 0);
    let with_bump = EnsureBitmapPage { epoch: EPOCH_KEY, page_bump: Some(1) };
    let handle = ensure_bitmap_page(&mut pages, &with_bump, 0).unwrap();
    assert_eq!(ensure_bitmap_page(&mut pages, &ctx, 0), Err(AirdropError::BumpMissing));
    assert_eq!(pages.len(), 1);
    assert_eq!(pages.page(handle), Some(&ClaimedBitmapPage::new(EPOCH_KEY, 0, 1)));
}

#[test]
fn end_to_end_claim_of_index_one() {
    let mut w = world();
    let ctx = claim_by_b();
    let proof = w.proof_for_b.clone();

    let claimed = claim(&w.epoch, &mut w.page, &ctx, 1, 200, &proof).unwrap();
    assert_eq!(
        claimed,
        AirdropClaimed {
            epoch: EPOCH_KEY,
            recipient: B,
            index: 1,
            amount: 200,
            page_index: 0,
            byte_index: 0,
            bit_index: 1,
        }
    );
    let page = w.page;
    assert_eq!(page.bitmap[0], 0b0000_0010);
    assert!(page.bitmap[1..].iter().all(|byte| *byte == 0));
    assert!(page.is_claimed(0, 1));
    assert!(!page.is_claimed(0, 0));
    assert!(!page.is_claimed(0, 2));
    assert_eq!(
        ClaimedBitmapPage { bitmap: [0; 4096], ..page },
        ClaimedBitmapPage::new(EPOCH_KEY, 0, 253)
    );

    assert_eq!(record_claim(&mut w.epoch, &claimed), Ok(()));
    assert_eq!(w.epoch.total_claimed, 200);

    assert_eq!(
        claim(&w.epoch, &mut w.page, &ctx, 1, 200, &proof),
        Err(AirdropError::AlreadyClaimed)
    );
    assert_eq!(w.page, page);
    assert_eq!(w.epoch.total_claimed, 200);
}

#[test]
fn claim_with_another_recipient_fails_verification() {
    let mut w = world();
    let ctx = Claim {
        recipient: C,
        recipient_ata: TokenAccount { mint: MINT, owner: C, amount: 0 },
        ..claim_by_b()
    };
    expect_refused(&mut w, &ctx, 1, 200, AirdropError::InvalidProof);
    assert!(!w.page.is_claimed(0, 1));
}

#[test]
fn claim_with_another_amount_or_index_fails_verification() {
    let mut w = world();
    let ctx = claim_by_b();
    expect_refused(&mut w, &ctx, 1, 201, AirdropError::InvalidProof);
    expect_refused(&mut w, &ctx, 0, 200, AirdropError::InvalidProof);
    expect_refused(&mut w, &ctx, 3, 200, AirdropError::InvalidProof);
}

#[test]
fn all_three_leaves_can_be_claimed_in_any_order() {
    let l0 = leaf_hash(0, &A, 100);
    let l1 = leaf_hash(1, &B, 200);
    let l2 = leaf_hash(2, &C, 300);
    let n01 = hash_pair(&l0, &l1);
    let requests = [
        (0u32, A, 100u64, vec![l1, l2]),
        (1u32, B, 200u64, vec![l0, l2]),
        (2u32, C, 300u64, vec![n01]),
    ];
    let mut finals = Vec::new();
    for order in [[0usize, 1, 2], [2, 1, 0], [1, 2, 0]] {
        let mut w = world();
        for k in order {
            let (index, recipient, amount, proof) = &requests[k];
            let ctx = Claim {
                recipient: *recipient,
                recipient_ata: TokenAccount { mint: MINT, owner: *recipient, amount: 0 },
                ..claim_by_b()
            };
            let claimed = claim(&w.epoch, &mut w.page, &ctx, *index, *amount, proof).unwrap();
            assert_eq!(claimed.bit_index as u32, *index);
            assert_eq!(record_claim(&mut w.epoch, &claimed), Ok(()));
        }
        assert_eq!(w.epoch.total_claimed, 600);
        finals.push(w.page);
    }
    assert_eq!(finals[0].bitmap[0], 0b0000_0111);
    assert_eq!(finals[0], finals[1]);
    assert_eq!(finals[0], finals[2]);
}

#[test]
fn claim_refused_while_paused() {
    let mut w = world();
    assert!(set_paused(&mut w.epoch, &SetPaused { authority: AUTHORITY, epoch: EPOCH_KEY }, true)
        .is_ok());
    let ctx = claim_by_b();
    expect_refused(&mut w, &ctx, 1, 200, AirdropError::EpochPaused);
    expect_refused(&mut w, &ctx, 1, 0, AirdropError::EpochPaused);
    assert!(set_paused(&mut w.epoch, &SetPaused { authority: AUTHORITY, epoch: EPOCH_KEY }, false)
        .is_ok());
    let proof = w.proof_for_b.clone();
    assert!(claim(&w.epoch, &mut w.page, &ctx, 1, 200, &proof).is_ok());
}

#[test]
fn claim_of_zero_is_an_invalid_amount() {
    let mut w = world();
    let ctx = Claim { mint: OTHER_MINT, ..claim_by_b() };
    expect_refused(&mut w, &ctx, 1, 0, AirdropError::InvalidAmount);
}

#[test]
fn claim_with_another_mint_is_refused() {
    let mut w = world();
    let ctx = Claim { mint: OTHER_MINT, ..claim_by_b() };
    w.proof_for_b = vec![[0u8; 32]; 65];
    expect_refused(&mut w, &ctx, 1, 200, AirdropError::WrongMint);
}

#[test]
fn proof_of_sixty_five_siblings_is_too_large() {
    let mut w = world();
    let ctx = claim_by_b();
    w.proof_for_b = vec![[0u8; 32]; 65];
    expect_refused(&mut w, &ctx, 1, 200, AirdropError::ProofTooLarge);
}

#[test]
fn too_large_is_decided_by_length_alone() {
    let leaf = leaf_hash(1, &B, 200);
    let mut proof = Vec::new();
    let mut root = leaf;
    for i in 0..65u32 {
        let sibling = leaf_hash(i, &A, 1);
        root = hash_pair(&root, &sibling);
        proof.push(sibling);
    }
    let mut w = world();
    w.epoch.merkle_root = root;
    let ctx = claim_by_b();
    assert_eq!(
        claim(&w.epoch, &mut w.page, &ctx, 1, 200, &proof),
        Err(AirdropError::ProofTooLarge)
    );
    assert!(!w.page.is_claimed(0, 1));
}

#[test]
fn proof_of_sixty_four_siblings_is_hashed() {
    let mut w = world();
    let ctx = claim_by_b();
    w.proof_for_b = vec![[0u8; 32]; 64];
    expect_refused(&mut w, &ctx, 1, 200, AirdropError::InvalidProof);

    let leaf = leaf_hash(1, &B, 200);
    let mut proof = Vec::new();
    let mut root = leaf;
    for i in 0..64u32 {
        let sibling = leaf_hash(i, &A, 1);
        root = hash_pair(&root, &sibling);
        proof.push(sibling);
    }
    w.epoch.merkle_root = root;
    assert!(claim(&w.epoch, &mut w.page, &ctx, 1, 200, &proof).is_ok());
}

#[test]
fn claim_into_a_token_account_of_someone_else_is_refused() {
    let mut w = world();
    let ctx = Claim {
        recipient_ata: TokenAccount { mint: OTHER_MINT, owner: C, amount: 0 },
        vault: TokenAccount { mint: MINT, owner: EPOCH_KEY, amount: 0 },
        ..claim_by_b()
    };
    expect_refused(&mut w, &ctx, 1, 200, AirdropError::AtaWrongOwner);
}

#[test]
fn claim_into_a_token_account_of_another_mint_is_refused() {
    let mut w = world();
    let ctx = Claim {
        recipient_ata: TokenAccount { mint: OTHER_MINT, owner: B, amount: 0 },
        vault: TokenAccount { mint: MINT, owner: EPOCH_KEY, amount: 0 },
        ..claim_by_b()
    };
    expect_refused(&mut w, &ctx, 1, 200, AirdropError::AtaWrongMint);
}

#[test]
fn claim_of_more_than_the_vault_holds_is_refused() {
    let mut w = world();
    let ctx = Claim {
        vault: TokenAccount { mint: MINT, owner: EPOCH_KEY, amount: 199 },
        ..claim_by_b()
    };
    expect_refused(&mut w, &ctx, 1, 200, AirdropError::InsufficientVaultBalance);
    let ctx = Claim {
        vault: TokenAccount { mint: MINT, owner: EPOCH_KEY, amount: 200 },
        ..claim_by_b()
    };
    let proof = w.proof_for_b.clone();
    assert!(claim(&w.epoch, &mut w.page, &ctx, 1, 200, &proof).is_ok());
}

#[test]
fn already_claimed_comes_before_the_token_account_checks() {
    let mut w = world();
    let good = claim_by_b();
    let proof = w.proof_for_b.clone();
    assert!(claim(&w.epoch, &mut w.page, &good, 1, 200, &proof).is_ok());
    let ctx = Claim {
        recipient_ata: TokenAccount { mint: OTHER_MINT, owner: C, amount: 0 },
        vault: TokenAccount { mint: MINT, owner: EPOCH_KEY, amount: 0 },
        ..good
    };
    expect_refused(&mut w, &ctx, 1, 200, AirdropError::AlreadyClaimed);
}

#[test]
fn record_claim_adds_the_amount() {
    let mut w = world();
    let claimed = AirdropClaimed {
        epoch: EPOCH_KEY,
        recipient: B,
        index: 1,
        amount: 200,
        page_index: 0,
        byte_index: 0,
        bit_index: 1,
    };
    let before = w.epoch;
    assert_eq!(record_claim(&mut w.epoch, &claimed), Ok(()));
    assert_eq!(w.epoch, Epoch { total_claimed: 200, ..before });
    assert_eq!(record_claim(&mut w.epoch, &claimed), Ok(()));
    assert_eq!(w.epoch.total_claimed, 400);
}

#[test]
fn record_claim_may_pass_the_announced_total() {
    let mut w = world();
    w.epoch.total_claimed = 600;
    let claimed = AirdropClaimed {
        epoch: EPOCH_KEY,
        recipient: B,
        index: 1,
        amount: 1,
        page_index: 0,
        byte_index: 0,
        bit_index: 1,
    };
    assert_eq!(record_claim(&mut w.epoch, &claimed), Ok(()));
    assert_eq!(w.epoch.total_claimed, 601);
    assert_eq!(w.epoch.total_amount, 600);
}

#[test]
fn record_claim_overflow_is_refused_without_wrapping() {
    let mut w = world();
    w.epoch.total_claimed = u64::MAX - 199;
    let before = w.epoch;
    let claimed = AirdropClaimed {
        epoch: EPOCH_KEY,
        recipient: B,
        index: 1,
        amount: 200,
        page_index: 0,
        byte_index: 0,
        bit_index: 1,
    };
    assert_eq!(record_claim(&mut w.epoch, &claimed), Err(AirdropError::MathOverflow));
    assert_eq!(w.epoch, before);
    let fits = AirdropClaimed { amount: 199, ..claimed };
    assert_eq!(record_claim(&mut w.epoch, &fits), Ok(()));
    assert_eq!(w.epoch.total_claimed, u64::MAX);
}

#[test]
fn sweep_remaining_moves_what_the_vault_holds() {
    let w = world();
    let ctx = SweepRemaining {
        authority: AUTHORITY,
        epoch: EPOCH_KEY,
        vault: TokenAccount { mint: MINT, owner: EPOCH_KEY, amount: 321 },
        treasury_ata: TREASURY,
    };
    assert_eq!(
        sweep_remaining(&w.epoch, &ctx),
        Ok(Sweep {
            transfer: Some(321),
            event: EpochSwept { epoch: EPOCH_KEY, to: TREASURY, amount: 321 },
        })
    );
}

#[test]
fn sweep_remaining_of_an_empty_vault_moves_nothing() {
    let w = world();
    let ctx = SweepRemaining {
        authority: AUTHORITY,
        epoch: EPOCH_KEY,
        vault: TokenAccount { mint: MINT, owner: EPOCH_KEY, amount: 0 },
        treasury_ata: TREASURY,
    };
    assert_eq!(
        sweep_remaining(&w.epoch, &ctx),
        Ok(Sweep { transfer: None, event: EpochSwept { epoch: EPOCH_KEY, to: TREASURY, amount: 0 } })
    );
}

#[test]
fn sweep_remaining_by_a_stranger_is_unauthorized() {
    let w = world();
    let ctx = SweepRemaining {
        authority: STRANGER,
        epoch: EPOCH_KEY,
        vault: TokenAccount { mint: MINT, owner: EPOCH_KEY, amount: 321 },
        treasury_ata: TREASURY,
    };
    assert_eq!(sweep_remaining(&w.epoch, &ctx), Err(AirdropError::Unauthorized));
}

#[test]
fn set_paused_by_the_authority() {
    let mut w = world();
    let before = w.epoch;
    let ctx = SetPaused { authority: AUTHORITY, epoch: EPOCH_KEY };
    assert_eq!(
        set_paused(&mut w.epoch, &ctx, true),
        Ok(EpochPaused { epoch: EPOCH_KEY, paused: true })
    );
    assert_eq!(w.epoch, Epoch { paused: true, ..before });
    assert_eq!(
        set_paused(&mut w.epoch, &ctx, true),
        Ok(EpochPaused { epoch: EPOCH_KEY, paused: true })
    );
    assert_eq!(
        set_paused(&mut w.epoch, &ctx, false),
        Ok(EpochPaused { epoch: EPOCH_KEY, paused: false })
    );
    assert_eq!(w.epoch, before);
}

#[test]
fn set_paused_by_a_stranger_is_unauthorized() {
    let mut w = world();
    let before = w.epoch;
    let ctx = SetPaused { authority: STRANGER, epoch: EPOCH_KEY };
    assert_eq!(set_paused(&mut w.epoch, &ctx, true), Err(AirdropError::Unauthorized));
    assert_eq!(w.epoch, before);
}

#[test]
fn set_authority_hands_the_epoch_over() {
    let mut w = world();
    let before = w.epoch;
    let ctx = SetAuthority { authority: AUTHORITY, epoch: EPOCH_KEY };
    assert_eq!(
        set_authority(&mut w.epoch, &ctx, STRANGER),
        Ok(EpochAuthorityChanged { epoch: EPOCH_KEY, new_authority: STRANGER })
    );
    assert_eq!(w.epoch, Epoch { authority: STRANGER, ..before });
    assert_eq!(set_authority(&mut w.epoch, &ctx, AUTHORITY), Err(AirdropError::Unauthorized));
    let ctx = SetAuthority { authority: STRANGER, epoch: EPOCH_KEY };
    assert!(set_authority(&mut w.epoch, &ctx, AUTHORITY).is_ok());
    assert_eq!(w.epoch, before);
}

#[test]
fn set_authority_by_a_stranger_is_unauthorized() {
    let mut w = world();
    let before = w.epoch;
    let ctx = SetAuthority { authority: STRANGER, epoch: EPOCH_KEY };
    assert_eq!(set_authority(&mut w.epoch, &ctx, STRANGER), Err(AirdropError::Unauthorized));
    assert_eq!(w.epoch, before);
}

#[test]
fn claim_on_a_page_of_another_epoch_is_refused() {
    let mut w = world();
    let ctx = claim_by_b();
    w.page = ClaimedBitmapPage::new(OTHER_EPOCH_KEY, 0, 1);
    expect_refused(&mut w, &ctx, 1, 200, AirdropError::WrongBitmapEpoch);
    w.page = ClaimedBitmapPage::new(OTHER_EPOCH_KEY, 9, 1);
    expect_refused(&mut w, &ctx, 1, 200, AirdropError::WrongBitmapEpoch);
}

#[test]
fn claim_on_the_page_of_another_block_is_refused() {
    let mut w = world();
    let ctx = claim_by_b();
    w.page = ClaimedBitmapPage::new(EPOCH_KEY, 1, 1);
    expect_refused(&mut w, &ctx, 1, 200, AirdropError::WrongBitmapPage);
}

#[test]
fn claim_in_page_one_uses_the_bit_within_that_page() {
    let index = 32768 + 8 * 3 + 5;
    let leaf = leaf_hash(index, &B, 50);
    let sibling = leaf_hash(0, &A, 1);
    let mut w = world();
    w.epoch.merkle_root = hash_pair(&leaf, &sibling);
    let ctx = claim_by_b();
    let mut page_one = ClaimedBitmapPage::new(EPOCH_KEY, 1, 1);
    let claimed = claim(&w.epoch, &mut page_one, &ctx, index, 50, &vec![sibling]).unwrap();
    assert_eq!((claimed.page_index, claimed.byte_index, claimed.bit_index), (1, 3, 5));
    assert_eq!(page_one.bitmap[3], 0b0010_0000);
    assert_eq!(
        claim(&w.epoch, &mut w.page, &ctx, index, 50, &vec![sibling]),
        Err(AirdropError::WrongBitmapPage)
    );
    assert_eq!(w.page, ClaimedBitmapPage::new(EPOCH_KEY, 0, 253));
}

#[test]
fn revert_claim_restores_the_page() {
    let mut w = world();
    let ctx = claim_by_b();
    let proof = w.proof_for_b.clone();
    assert_eq!(w.page.try_claim(0, 0), Ok(()));
    let before = w.page;
    let claimed = claim(&w.epoch, &mut w.page, &ctx, 1, 200, &proof).unwrap();
    assert_eq!(w.page.bitmap[0], 0b0000_0011);
    assert!(revert_claim(&mut w.page, &claimed));
    assert_eq!(w.page, before);
    assert!(!revert_claim(&mut w.page, &claimed));
    assert_eq!(w.page, before);
    assert!(claim(&w.epoch, &mut w.page, &ctx, 1, 200, &proof).is_ok());
}

#[test]
fn revert_claim_touches_only_the_page_of_the_claim() {
    let mut w = world();
    let ctx = claim_by_b();
    let proof = w.proof_for_b.clone();
    let claimed = claim(&w.epoch, &mut w.page, &ctx, 1, 200, &proof).unwrap();
    let mut page_one = ClaimedBitmapPage::new(EPOCH_KEY, 1, 1);
    assert_eq!(page_one.try_claim(0, 1), Ok(()));
    let mut foreign = ClaimedBitmapPage::new(OTHER_EPOCH_KEY, 0, 1);
    assert_eq!(foreign.try_claim(0, 1), Ok(()));
    assert!(!revert_claim(&mut page_one, &claimed));
    assert!(!revert_claim(&mut foreign, &claimed));
    assert!(page_one.is_claimed(0, 1));
    assert!(foreign.is_claimed(0, 1));
    assert!(w.page.is_claimed(0, 1));
}

#[test]
fn revert_claim_of_a_position_outside_the_page_does_nothing() {
    let mut w = world();
    w.page.bitmap = [0xff; 4096];
    let before = w.page;
    let claimed = AirdropClaimed {
        epoch: EPOCH_KEY,
        recipient: B,
        index: 1,
        amount: 200,
        page_index: 0,
        byte_index: 4096,
        bit_index: 1,
    };
    assert!(!revert_claim(&mut w.page, &claimed));
    assert!(!revert_claim(&mut w.page, &AirdropClaimed { byte_index: 0, bit_index: 8, ..claimed }));
    assert_eq!(w.page, before);
    assert!(revert_claim(
        &mut w.page,
        &AirdropClaimed { byte_index: 4095, bit_index: 7, ..claimed }
    ));
    assert_eq!(w.page.bitmap[4095], 0x7f);
}

#[test]
fn claim_through_the_registry_end_to_end() {
    let w = world();
    let ctx = claim_by_b();
    let mut pages = ClaimBitmapIndex::new();
    let page_zero = ensure_bitmap_page(
        &mut pages,
        &EnsureBitmapPage { epoch: EPOCH_KEY, page_bump: Some(253) },
        0,
    )
    .unwrap();
    let claimed = pages.claim(page_zero, &w.epoch, &ctx, 1, 200, &w.proof_for_b).unwrap();
    assert_eq!((claimed.page_index, claimed.byte_index, claimed.bit_index), (0, 0, 1));
    assert!(pages.is_claimed(&EPOCH_KEY, 1));
    assert!(!pages.is_claimed(&EPOCH_KEY, 0));
    assert_eq!(pages.page(page_zero).unwrap().bitmap[0], 0b0000_0010);
    let snapshot = *pages.page(page_zero).unwrap();
    assert_eq!(
        pages.claim(page_zero, &w.epoch, &ctx, 1, 200, &w.proof_for_b),
        Err(AirdropError::AlreadyClaimed)
    );
    assert_eq!(pages.page(page_zero), Some(&snapshot));
    let substitute = Claim {
        recipient: C,
        recipient_ata: TokenAccount { mint: MINT, owner: C, amount: 0 },
        ..ctx
    };
    assert_eq!(
        pages.claim(page_zero, &w.epoch, &substitute, 1, 200, &w.proof_for_b),
        Err(AirdropError::InvalidProof)
    );
}

#[test]
fn claim_through_the_registry_with_an_unknown_handle() {
    let w = world();
    let ctx = claim_by_b();
    let mut pages = ClaimBitmapIndex::new();
    let paused = Epoch { paused: true, ..w.epoch };
    assert_eq!(
        pages.claim(PageHandle { slot: 0 }, &paused, &ctx, 1, 200, &w.proof_for_b),
        Err(AirdropError::WrongBitmapPage)
    );
    let handle = pages.ensure_page(&EPOCH_KEY, 0, 1);
    assert_eq!(
        pages.claim(PageHandle { slot: 1 }, &w.epoch, &ctx, 1, 200, &w.proof_for_b),
        Err(AirdropError::WrongBitmapPage)
    );
    assert_eq!(
        pages.claim(handle, &paused, &ctx, 1, 200, &w.proof_for_b),
        Err(AirdropError::EpochPaused)
    );
    assert_eq!(pages.page(handle), Some(&ClaimedBitmapPage::new(EPOCH_KEY, 0, 1)));
}

#[test]
fn claims_on_different_pages_of_a_registry_are_independent() {
    let far = 32768 + 1;
    let leaf_near = leaf_hash(1, &B, 200);
    let leaf_far = leaf_hash(far, &C, 300);
    let w = world();
    let epoch = Epoch { merkle_root: hash_pair(&leaf_near, &leaf_far), ..w.epoch };
    let near_ctx = claim_by_b();
    let far_ctx = Claim {
        recipient: C,
        recipient_ata: TokenAccount { mint: MINT, owner: C, amount: 0 },
        ..near_ctx
    };
    let mut finals = Vec::new();
    for near_first in [true, false] {
        let mut pages = ClaimBitmapIndex::new();
        let page_zero = pages.ensure_page(&EPOCH_KEY, 0, 1);
        let page_one = pages.ensure_page(&EPOCH_KEY, 1, 1);
        if near_first {
            assert!(pages.claim(page_zero, &epoch, &near_ctx, 1, 200, &vec![leaf_far]).is_ok());
            assert!(pages.claim(page_one, &epoch, &far_ctx, far, 300, &vec![leaf_near]).is_ok());
        } else {
            assert!(pages.claim(page_one, &epoch, &far_ctx, far, 300, &vec![leaf_near]).is_ok());
            assert!(pages.claim(page_zero, &epoch, &near_ctx, 1, 200, &vec![leaf_far]).is_ok());
        }
        assert!(pages.is_claimed(&EPOCH_KEY, 1) && pages.is_claimed(&EPOCH_KEY, far));
        finals.push((*pages.page(page_zero).unwrap(), *pages.page(page_one).unwrap()));
    }
    assert_eq!(finals[0], finals[1]);
    assert_eq!(finals[0].0.bitmap[0], 0b0000_0010);
    assert_eq!(finals[0].1.bitmap[0], 0b0000_0010);
}
