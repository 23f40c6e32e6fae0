//! How epochs and bitmap pages are stored, byte for byte.
//!
//! An epoch is 114 bytes: authority, mint and root of 32 bytes each, the
//! announced total and the claimed total as 8 bytes little-endian each, one
//! byte that is 1 while the epoch is paused and 0 otherwise, and the bump.
//! A page is 4136 bytes: the epoch's address, the page index as 4 bytes
//! little-endian, the bump, 3 bytes of padding and the 4096 bytes of bitmap.

use crate::bitmap::{ClaimedBitmapPage, BITMAP_PAGE_SIZE};
use crate::bytes::{
    le_bytes, le_value, lemma_le_bytes_injective, lemma_le_bytes_len, lemma_le_bytes_of_value,
    lemma_pow256_widths, push_all, push_le, read_array, read_le,
};
use crate::state::Epoch;
use vstd::prelude::*;

verus! {

/// The stored form of an epoch.
pub open spec fn epoch_record(epoch: Epoch) -> Seq<u8> {
    epoch.authority@ + epoch.mint@ + epoch.merkle_root@ + le_bytes(epoch.total_amount as nat, 8)
        + le_bytes(epoch.total_claimed as nat, 8) + seq![
        if epoch.paused {
            1u8
        } else {
            0u8
        },
        epoch.bump,
    ]
}

/// The stored form of a bitmap page.
pub open spec fn page_record(page: ClaimedBitmapPage) -> Seq<u8> {
    page.epoch@ + le_bytes(page.page_index as nat, 4) + seq![page.bump] + page._pad@
        + page.bitmap@
}

/// Whether `decoded` is what reading an epoch from `bytes` gives: the epoch
/// stored in the first 114 bytes, or nothing when there are fewer bytes or
/// the paused byte is neither 0 nor 1. Bytes behind the record are ignored.
pub open spec fn reads_epoch(bytes: Seq<u8>, decoded: Option<Epoch>) -> bool {
    &&& decoded is Some <==> bytes.len() >= Epoch::SIZE && bytes[112] <= 1
    &&& decoded matches Some(epoch) ==> epoch_record(epoch) == bytes.take(Epoch::SIZE as int)
}

/// Whether `decoded` is what reading a page from `bytes` gives: the page
/// stored in the first 4136 bytes, or nothing when there are fewer bytes.
/// Bytes behind the record are ignored.
pub open spec fn reads_page(bytes: Seq<u8>, decoded: Option<ClaimedBitmapPage>) -> bool {
    &&& decoded is Some <==> bytes.len() >= ClaimedBitmapPage::SIZE
    &&& decoded matches Some(page) ==> page_record(page) == bytes.take(
        ClaimedBitmapPage::SIZE as int,
    )
}

impl Epoch {
    /// Writes the epoch in its stored form.
    pub fn to_bytes(&self) -> (out: Vec<u8>)
        ensures
            out@ == epoch_record(*self),
            out@.len() == Epoch::SIZE,
    {
        let mut out: Vec<u8> = Vec::with_capacity(Epoch::SIZE);
        push_all(&mut out, self.authority.as_slice());
        push_all(&mut out, self.mint.as_slice());
        push_all(&mut out, self.merkle_root.as_slice());
        push_le(&mut out, self.total_amount, 8);
        push_le(&mut out, self.total_claimed, 8);
        out.push(if self.paused { 1u8 } else { 0u8 });
        out.push(self.bump);
        proof {
            lemma_epoch_record_len(*self);
            assert(out@ =~= epoch_record(*self));
        }
        out
    }

    /// Reads an epoch from its stored form.
    pub fn from_bytes(bytes: &[u8]) -> (decoded: Option<Epoch>)
        ensures
            reads_epoch(bytes@, decoded),
    {
        if bytes.len() < Epoch::SIZE || bytes[112] > 1 {
            return None;
        }
        let epoch = Epoch {
            authority: read_array::<32>(bytes, 0),
            mint: read_array::<32>(bytes, 32),
            merkle_root: read_array::<32>(bytes, 64),
            total_amount: read_le(bytes, 96, 8),
            total_claimed: read_le(bytes, 104, 8),
            paused: bytes[112] == 1,
            bump: bytes[113],
        };
        proof {
            lemma_le_bytes_of_value(bytes@.subrange(96, 104));
            lemma_le_bytes_of_value(bytes@.subrange(104, 112));
            assert(epoch_record(epoch) =~= bytes@.take(Epoch::SIZE as int));
        }
        Some(epoch)
    }
}

impl ClaimedBitmapPage {
    /// Writes the page in its stored form.
    pub fn to_bytes(&self) -> (out: Vec<u8>)
        ensures
            out@ == page_record(*self),
            out@.len() == ClaimedBitmapPage::SIZE,
    {
        let mut out: Vec<u8> = Vec::with_capacity(ClaimedBitmapPage::SIZE);
        push_all(&mut out, self.epoch.as_slice());
        push_le(&mut out, self.page_index as u64, 4);
        out.push(self.bump);
        push_all(&mut out, self._pad.as_slice());
        push_all(&mut out, self.bitmap.as_slice());
        proof {
            lemma_page_record_len(*self);
            assert(out@ =~= page_record(*self));
        }
        out
    }

    /// Reads a page from its stored form.
    pub fn from_bytes(bytes: &[u8]) -> (decoded: Option<ClaimedBitmapPage>)
        ensures
            reads_page(bytes@, decoded),
    {
        if bytes.len() < ClaimedBitmapPage::SIZE {
            return None;
        }
        let page_index = read_le(bytes, 32, 4);
        proof {
            lemma_le_bytes_of_value(bytes@.subrange(32, 36));
            lemma_pow256_widths();
        }
        let page = ClaimedBitmapPage {
            epoch: read_array::<32>(bytes, 0),
            page_index: page_index as u32,
            bump: bytes[36],
            _pad: read_array::<3>(bytes, 37),
            bitmap: read_array::<4096>(bytes, 40),
        };
        proof {
            assert(page_record(page) =~= bytes@.take(ClaimedBitmapPage::SIZE as int));
        }
        Some(page)
    }
}

/// A stored epoch is 114 bytes long.
pub proof fn lemma_epoch_record_len(epoch: Epoch)
    ensures
        epoch_record(epoch).len() == Epoch::SIZE,
{
    lemma_le_bytes_len(epoch.total_amount as nat, 8);
    lemma_le_bytes_len(epoch.total_claimed as nat, 8);
}

/// A stored page is 4136 bytes long.
pub proof fn lemma_page_record_len(page: ClaimedBitmapPage)
    ensures
        page_record(page).len() == ClaimedBitmapPage::SIZE,
{
    lemma_le_bytes_len(page.page_index as nat, 4);
}

/// Different epochs are stored differently.
pub proof fn lemma_epoch_record_injective(a: Epoch, b: Epoch)
    requires
        epoch_record(a) == epoch_record(b),
    ensures
        a == b,
{
    let ra = epoch_record(a);
    let rb = epoch_record(b);
    lemma_le_bytes_len(a.total_amount as nat, 8);
    lemma_le_bytes_len(a.total_claimed as nat, 8);
    lemma_le_bytes_len(b.total_amount as nat, 8);
    lemma_le_bytes_len(b.total_claimed as nat, 8);
    assert(ra.subrange(0, 32) =~= a.authority@ && rb.subrange(0, 32) =~= b.authority@);
    assert(ra.subrange(32, 64) =~= a.mint@ && rb.subrange(32, 64) =~= b.mint@);
    assert(ra.subrange(64, 96) =~= a.merkle_root@ && rb.subrange(64, 96) =~= b.merkle_root@);
    assert(ra.subrange(96, 104) =~= le_bytes(a.total_amount as nat, 8));
    assert(rb.subrange(96, 104) =~= le_bytes(b.total_amount as nat, 8));
    assert(ra.subrange(104, 112) =~= le_bytes(a.total_claimed as nat, 8));
    assert(rb.subrange(104, 112) =~= le_bytes(b.total_claimed as nat, 8));
    assert(ra[112] == (if a.paused { 1u8 } else { 0u8 }) && ra[113] == a.bump);
    assert(rb[112] == (if b.paused { 1u8 } else { 0u8 }) && rb[113] == b.bump);
    lemma_pow256_widths();
    lemma_le_bytes_injective(a.total_amount as nat, b.total_amount as nat, 8);
    lemma_le_bytes_injective(a.total_claimed as nat, b.total_claimed as nat, 8);
    assert(a.authority =~= b.authority);
    assert(a.mint =~= b.mint);
    assert(a.merkle_root =~= b.merkle_root);
}

/// Different pages are stored differently.
pub proof fn lemma_page_record_injective(a: ClaimedBitmapPage, b: ClaimedBitmapPage)
    requires
        page_record(a) == page_record(b),
    ensures
        a == b,
{
    let ra = page_record(a);
    let rb = page_record(b);
    lemma_le_bytes_len(a.page_index as nat, 4);
    lemma_le_bytes_len(b.page_index as nat, 4);
    assert(ra.subrange(0, 32) =~= a.epoch@ && rb.subrange(0, 32) =~= b.epoch@);
    assert(ra.subrange(32, 36) =~= le_bytes(a.page_index as nat, 4));
    assert(rb.subrange(32, 36) =~= le_bytes(b.page_index as nat, 4));
    assert(ra[36] == a.bump && rb[36] == b.bump);
    assert(ra.subrange(37, 40) =~= a._pad@ && rb.subrange(37, 40) =~= b._pad@);
    assert(ra.subrange(40, 4136) =~= a.bitmap@ && rb.subrange(40, 4136) =~= b.bitmap@);
    lemma_pow256_widths();
    lemma_le_bytes_injective(a.page_index as nat, b.page_index as nat, 4);
    assert(a.epoch =~= b.epoch);
    assert(a._pad =~= b._pad);
    assert(a.bitmap =~= b.bitmap);
}

/// Reading what was written gives the epoch back.
pub proof fn lemma_epoch_round_trip(epoch: Epoch, decoded: Option<Epoch>)
    requires
        reads_epoch(epoch_record(epoch), decoded),
    ensures
        decoded == Some(epoch),
{
    lemma_epoch_record_len(epoch);
    let record = epoch_record(epoch);
    assert(record.take(Epoch::SIZE as int) =~= record);
    lemma_epoch_record_injective(decoded->0, epoch);
}

/// Reading what was written gives the page back.
pub proof fn lemma_page_round_trip(page: ClaimedBitmapPage, decoded: Option<ClaimedBitmapPage>)
    requires
        reads_page(page_record(page), decoded),
    ensures
        decoded == Some(page),
{
    lemma_page_record_len(page);
    let record = page_record(page);
    assert(record.take(ClaimedBitmapPage::SIZE as int) =~= record);
    lemma_page_record_injective(decoded->0, page);
}

} // verus!
