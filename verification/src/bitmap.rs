//! The claim bitmap: one bit per claim index, stored in pages of 4096 bytes.

use crate::error::AirdropError;
use vstd::prelude::*;

verus! {

/// Bytes of bitmap in one page.
pub const BITMAP_PAGE_SIZE: usize = 4096;

/// Claim indices covered by one page: eight per byte.
pub const PAGE_BIT_CAPACITY: u32 = 32768;

/// Where the bit of a claim index lives.
#[derive(Clone, Copy, Debug, PartialEq, Eq, Structural)]
pub struct BitLocation {
    /// Which page.
    pub page_index: u32,
    /// Which byte of that page's bitmap.
    pub byte_index: u32,
    /// Which bit of that byte, 0 being the least significant.
    pub bit_index: u8,
}

/// The page, byte and bit of `index`: pages cover 32768 consecutive indices,
/// bytes eight.
pub open spec fn bit_location(index: u32) -> BitLocation {
    BitLocation {
        page_index: index / 32768,
        byte_index: (index % 32768) / 8,
        bit_index: ((index % 32768) % 8) as u8,
    }
}

/// The position within its page of the bit at `byte_index`, `bit_index`.
pub open spec fn bit_offset(byte_index: int, bit_index: int) -> int {
    8 * byte_index + bit_index
}

/// Whether bit `bit` of `byte` is 1.
pub open spec fn bit_is_set(byte: u8, bit: u8) -> bool {
    byte & (1u8 << bit) != 0
}

/// Locates the bit of `index`.
pub fn page_for(index: u32) -> (loc: BitLocation)
    ensures
        loc == bit_location(index),
{
    let within_page: u32 = index % PAGE_BIT_CAPACITY;
    BitLocation {
        page_index: index / PAGE_BIT_CAPACITY,
        byte_index: within_page / 8,
        bit_index: (within_page % 8) as u8,
    }
}

/// Locating is a function of the index alone: whenever and however often
/// one index is located, the answer is the same.
pub proof fn lemma_page_for_deterministic(index: u32, first: BitLocation, second: BitLocation)
    requires
        first == bit_location(index),
        second == bit_location(index),
    ensures
        first == second,
{
}

/// Every location lies inside its page, and the index can be read back
/// from it.
pub proof fn lemma_bit_location_bounds(index: u32)
    ensures
        bit_location(index).byte_index < BITMAP_PAGE_SIZE,
        bit_location(index).bit_index < 8,
        bit_location(index).page_index <= 131071,
        index == 32768 * bit_location(index).page_index + 8 * bit_location(index).byte_index
            + bit_location(index).bit_index,
{
}

/// Different indices have different bits.
pub proof fn lemma_bit_location_injective(i: u32, j: u32)
    requires
        bit_location(i) == bit_location(j),
    ensures
        i == j,
{
    lemma_bit_location_bounds(i);
    lemma_bit_location_bounds(j);
}

/// One page of the claim bitmap, as it is stored.
#[derive(Clone, Copy, Debug, PartialEq, Eq)]
pub struct ClaimedBitmapPage {
    /// The epoch that the page belongs to.
    pub epoch: [u8; 32],
    /// Which block of 32768 indices the page covers.
    pub page_index: u32,
    /// The bump of the page's derived address.
    pub bump: u8,
    /// Alignment padding.
    pub _pad: [u8; 3],
    /// The claim bits.
    pub bitmap: [u8; 4096],
}

impl ClaimedBitmapPage {
    /// Stored size of a page in bytes.
    pub const SIZE: usize = 32 + 4 + 1 + 3 + BITMAP_PAGE_SIZE;

    /// The page's 32768 claim bits in index order: bit `8 * b + k` is bit
    /// `k` of byte `b`.
    pub open spec fn bits(&self) -> Seq<bool> {
        Seq::new(32768, |o: int| bit_is_set(self.bitmap[o / 8], (o % 8) as u8))
    }

    /// Whether this is the page of `epoch` for block `page_index` as it is
    /// first created: bound to both, every byte of padding and bitmap zero,
    /// and so every bit clear.
    pub open spec fn is_fresh(&self, epoch: [u8; 32], page_index: u32, bump: u8) -> bool {
        &&& self.epoch == epoch
        &&& self.page_index == page_index
        &&& self.bump == bump
        &&& self._pad@ == Seq::new(3, |i: int| 0u8)
        &&& self.bitmap@ == Seq::new(4096, |i: int| 0u8)
        &&& self.bits() == Seq::new(32768, |o: int| false)
    }

    /// Whether this page is `before` with the bit at `byte_index`,
    /// `bit_index` set in addition.
    pub open spec fn sets_bit_of(
        &self,
        before: ClaimedBitmapPage,
        byte_index: int,
        bit_index: int,
    ) -> bool {
        &&& self.epoch == before.epoch
        &&& self.page_index == before.page_index
        &&& self.bump == before.bump
        &&& self._pad == before._pad
        &&& self.bitmap@ == before.bitmap@.update(
            byte_index,
            before.bitmap[byte_index] | (1u8 << (bit_index as u8)),
        )
        &&& self.bits() == before.bits().update(bit_offset(byte_index, bit_index), true)
    }

    /// Whether the page is bound to `epoch` and `page_index`.
    pub open spec fn is_bound_to(&self, epoch: [u8; 32], page_index: u32) -> bool {
        self.epoch == epoch && self.page_index == page_index
    }

    /// Makes a page of `epoch` for block `page_index` with every bit clear.
    pub fn new(epoch: [u8; 32], page_index: u32, bump: u8) -> (page: ClaimedBitmapPage)
        ensures
            page.is_fresh(epoch, page_index, bump),
    {
        let page = ClaimedBitmapPage {
            epoch,
            page_index,
            bump,
            _pad: [0u8; 3],
            bitmap: [0u8; 4096],
        };
        proof {
            lemma_zero_byte_has_no_bit();
            assert(page._pad@ =~= Seq::new(3, |i: int| 0u8));
            assert(page.bitmap@ =~= Seq::new(4096, |i: int| 0u8));
            assert(page.bits() =~= Seq::new(32768, |o: int| false));
        }
        page
    }

    /// Whether the bit at `byte_index`, `bit_index` is set. A position
    /// outside the page has no bit and counts as not set.
    pub fn is_claimed(&self, byte_index: usize, bit_index: u8) -> (claimed: bool)
        ensures
            claimed == (byte_index < BITMAP_PAGE_SIZE && bit_index < 8 && self.bits()[bit_offset(
                byte_index as int,
                bit_index as int,
            )]),
    {
        if byte_index >= BITMAP_PAGE_SIZE || bit_index >= 8 {
            return false;
        }
        let mask: u8 = 1u8 << bit_index;
        (self.bitmap[byte_index] & mask) != 0
    }

    /// Sets the bit at `byte_index`, `bit_index` if it is clear.
    ///
    /// Refuses with `IndexOutOfRange` when the position is outside the page
    /// and with `AlreadyClaimed` when the bit is set already; the page is
    /// then left as it was.
    pub fn try_claim(&mut self, byte_index: usize, bit_index: u8) -> (res: Result<
        (),
        AirdropError,
    >)
        ensures
            byte_index >= BITMAP_PAGE_SIZE || bit_index >= 8 ==> res == Err::<(), AirdropError>(
                AirdropError::IndexOutOfRange,
            ),
            byte_index < BITMAP_PAGE_SIZE && bit_index < 8 ==> res == (if old(self).bits()[bit_offset(
                byte_index as int,
                bit_index as int,
            )] {
                Err::<(), AirdropError>(AirdropError::AlreadyClaimed)
            } else {
                Ok::<(), AirdropError>(())
            }),
            res is Err ==> *final(self) == *old(self),
            res is Ok ==> final(self).sets_bit_of(*old(self), byte_index as int, bit_index as int),
    {
        if byte_index >= BITMAP_PAGE_SIZE || bit_index >= 8 {
            return Err(AirdropError::IndexOutOfRange);
        }
        let mask: u8 = 1u8 << bit_index;
        let byte: u8 = self.bitmap[byte_index];
        if (byte & mask) != 0 {
            return Err(AirdropError::AlreadyClaimed);
        }
        self.bitmap[byte_index] = byte | mask;
        proof {
            lemma_set_bit(byte, bit_index);
            assert(self.bits() =~= old(self).bits().update(
                bit_offset(byte_index as int, bit_index as int),
                true,
            ));
        }
        Ok(())
    }

    /// Clears the bit at `byte_index`, `bit_index` if it is set, and says
    /// whether it was. This undoes one `try_claim`; a position outside the
    /// page has no bit to clear.
    pub fn release(&mut self, byte_index: usize, bit_index: u8) -> (released: bool)
        ensures
            released == (byte_index < BITMAP_PAGE_SIZE && bit_index < 8 && old(self).bits()[bit_offset(
                byte_index as int,
                bit_index as int,
            )]),
            !released ==> *final(self) == *old(self),
            released ==> old(self).sets_bit_of(*final(self), byte_index as int, bit_index as int),
            released ==> !final(self).bits()[bit_offset(byte_index as int, bit_index as int)],
    {
        if byte_index >= BITMAP_PAGE_SIZE || bit_index >= 8 {
            return false;
        }
        let mask: u8 = 1u8 << bit_index;
        let byte: u8 = self.bitmap[byte_index];
        if (byte & mask) == 0 {
            return false;
        }
        self.bitmap[byte_index] = byte & !mask;
        proof {
            lemma_clear_bit(byte, bit_index);
            lemma_set_bit(byte & !mask, bit_index);
            assert((byte & !mask) | mask == byte) by (bit_vector)
                requires
                    byte & mask != 0,
                    mask == 1u8 << bit_index,
                    bit_index < 8,
            ;
            assert(old(self).bitmap@ =~= self.bitmap@.update(byte_index as int, byte));
            assert(old(self).bits() =~= self.bits().update(
                bit_offset(byte_index as int, bit_index as int),
                true,
            ));
        }
        true
    }
}

/// No bit of a zero byte is set.
pub proof fn lemma_zero_byte_has_no_bit()
    ensures
        forall|bit: u8| bit < 8 ==> !#[trigger] bit_is_set(0u8, bit),
{
    assert forall|bit: u8| bit < 8 implies !#[trigger] bit_is_set(0u8, bit) by {
        assert(0u8 & (1u8 << bit) == 0) by (bit_vector);
    }
}

/// Or-ing a one-bit mask into a byte sets that bit and leaves the other
/// seven as they were.
pub proof fn lemma_set_bit(byte: u8, bit: u8)
    requires
        bit < 8,
    ensures
        forall|k: u8|
            k < 8 ==> #[trigger] bit_is_set(byte | (1u8 << bit), k) == (k == bit || bit_is_set(
                byte,
                k,
            )),
{
    assert forall|k: u8| k < 8 implies #[trigger] bit_is_set(byte | (1u8 << bit), k) == (k == bit
        || bit_is_set(byte, k)) by {
        assert(((byte | (1u8 << bit)) & (1u8 << k) != 0) == (k == bit || (byte & (1u8 << k)
            != 0))) by (bit_vector)
            requires
                bit < 8,
                k < 8,
        ;
    }
}

/// And-ing the complement of a one-bit mask into a byte clears that bit and
/// leaves the other seven as they were.
pub proof fn lemma_clear_bit(byte: u8, bit: u8)
    requires
        bit < 8,
    ensures
        forall|k: u8|
            k < 8 ==> #[trigger] bit_is_set(byte & !(1u8 << bit), k) == (k != bit && bit_is_set(
                byte,
                k,
            )),
{
    assert forall|k: u8| k < 8 implies #[trigger] bit_is_set(byte & !(1u8 << bit), k) == (k != bit
        && bit_is_set(byte, k)) by {
        assert(((byte & !(1u8 << bit)) & (1u8 << k) != 0) == (k != bit && (byte & (1u8 << k)
            != 0))) by (bit_vector)
            requires
                bit < 8,
                k < 8,
        ;
    }
}

/// A page is what it was before a bit was set: two pages that both turn
/// into the same page by setting the same clear bit are the same page.
pub proof fn lemma_sets_bit_of_one_page(
    after: ClaimedBitmapPage,
    before: ClaimedBitmapPage,
    other_before: ClaimedBitmapPage,
    byte_index: int,
    bit_index: int,
)
    requires
        0 <= byte_index < BITMAP_PAGE_SIZE,
        0 <= bit_index < 8,
        after.sets_bit_of(before, byte_index, bit_index),
        after.sets_bit_of(other_before, byte_index, bit_index),
        !before.bits()[bit_offset(byte_index, bit_index)],
        !other_before.bits()[bit_offset(byte_index, bit_index)],
    ensures
        before == other_before,
{
    let a = before.bitmap[byte_index];
    let b = other_before.bitmap[byte_index];
    let bit = bit_index as u8;
    assert(!bit_is_set(a, bit) && !bit_is_set(b, bit));
    assert(after.bitmap@[byte_index] == a | (1u8 << bit));
    assert(after.bitmap@[byte_index] == b | (1u8 << bit));
    assert(a == b) by (bit_vector)
        requires
            a | (1u8 << bit) == b | (1u8 << bit),
            a & (1u8 << bit) == 0,
            b & (1u8 << bit) == 0,
    ;
    assert forall|i: int| 0 <= i < 4096 implies before.bitmap@[i] == other_before.bitmap@[i] by {
        if i != byte_index {
            assert(after.bitmap@[i] == before.bitmap@[i]);
            assert(after.bitmap@[i] == other_before.bitmap@[i]);
        }
    }
    assert(before.bitmap =~= other_before.bitmap);
}

} // verus!
