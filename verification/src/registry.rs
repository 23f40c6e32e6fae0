//! The claim registry: every page that exists, found by the epoch and the
//! block of indices that it is bound to.

use crate::bitmap::{bit_location, bit_offset, ClaimedBitmapPage, BITMAP_PAGE_SIZE};
use crate::error::AirdropError;
use crate::instructions::claim_decision;
use crate::state::{keys_equal, AirdropClaimed, Claim, Epoch};
use vstd::prelude::*;

verus! {

/// Names one page of a registry.
#[derive(Clone, Copy, Debug, PartialEq, Eq, Structural)]
pub struct PageHandle {
    /// The page's position among the registry's pages, in order of creation.
    pub slot: usize,
}

/// Whether no two pages are bound to the same epoch and block.
pub open spec fn distinct_bindings(pages: Seq<ClaimedBitmapPage>) -> bool {
    forall|i: int, j: int|
        0 <= i < j < pages.len() ==> !pages[i].is_bound_to(pages[j].epoch, pages[j].page_index)
}

/// Whether some page is bound to `epoch` and `page_index`.
pub open spec fn has_page(pages: Seq<ClaimedBitmapPage>, epoch: [u8; 32], page_index: u32) -> bool {
    exists|i: int| 0 <= i < pages.len() && #[trigger] pages[i].is_bound_to(epoch, page_index)
}

/// Whether `index` is claimed in `epoch`: the page for its block exists and
/// the bit of `index` is set on it.
pub open spec fn index_claimed(pages: Seq<ClaimedBitmapPage>, epoch: [u8; 32], index: u32) -> bool {
    exists|i: int|
        0 <= i < pages.len() && #[trigger] pages[i].is_bound_to(
            epoch,
            bit_location(index).page_index,
        ) && pages[i].bits()[bit_offset(
            bit_location(index).byte_index as int,
            bit_location(index).bit_index as int,
        )]
}

/// All claim bitmap pages, each bound to one epoch and one block of indices.
/// Pages are created on first use and never removed.
pub struct ClaimBitmapIndex {
    pages: Vec<ClaimedBitmapPage>,
}

impl View for ClaimBitmapIndex {
    type V = Seq<ClaimedBitmapPage>;

    /// The pages in order of creation; a handle's slot indexes this sequence.
    closed spec fn view(&self) -> Seq<ClaimedBitmapPage> {
        self.pages@
    }
}

impl ClaimBitmapIndex {
    /// What holds of every registry: a binding names at most one page.
    #[verifier::type_invariant]
    pub open spec fn one_page_per_binding(&self) -> bool {
        distinct_bindings(self@)
    }

    /// A registry without pages.
    pub fn new() -> (index: ClaimBitmapIndex)
        ensures
            index@ == Seq::<ClaimedBitmapPage>::empty(),
    {
        ClaimBitmapIndex { pages: Vec::new() }
    }

    /// How many pages exist.
    pub fn len(&self) -> (n: usize)
        ensures
            n == self@.len(),
    {
        self.pages.len()
    }

    /// The page that `handle` names, if it names one.
    pub fn page(&self, handle: PageHandle) -> (page: Option<&ClaimedBitmapPage>)
        ensures
            handle.slot < self@.len() ==> page == Some(&self@[handle.slot as int]),
            handle.slot >= self@.len() ==> page is None,
    {
        if handle.slot < self.pages.len() {
            Some(&self.pages[handle.slot])
        } else {
            None
        }
    }

    /// Looks up the page bound to `epoch` and `page_index`.
    pub fn find_page(&self, epoch: &[u8; 32], page_index: u32) -> (found: Option<PageHandle>)
        ensures
            distinct_bindings(self@),
            found is Some <==> has_page(self@, *epoch, page_index),
            found matches Some(handle) ==> handle.slot < self@.len() && self@[handle.slot as int].is_bound_to(
                *epoch,
                page_index,
            ),
    {
        proof {
            use_type_invariant(self);
        }
        let mut i: usize = 0;
        while i < self.pages.len()
            invariant
                i <= self.pages@.len(),
                distinct_bindings(self.pages@),
                forall|k: int| 0 <= k < i ==> !self.pages@[k].is_bound_to(*epoch, page_index),
            decreases self.pages@.len() - i,
        {
            if self.pages[i].page_index == page_index && keys_equal(&self.pages[i].epoch, epoch) {
                assert(self.pages@[i as int].is_bound_to(*epoch, page_index));
                return Some(PageHandle { slot: i });
            }
            i = i + 1;
        }
        None
    }

    /// Makes sure that the page bound to `epoch` and `page_index` exists and
    /// returns its handle.
    ///
    /// The first call for a binding appends a page with every bit clear;
    /// every later call finds that page and changes nothing, whatever bump
    /// it is given.
    pub fn ensure_page(&mut self, epoch: &[u8; 32], page_index: u32, bump: u8) -> (handle:
        PageHandle)
        ensures
            distinct_bindings(final(self)@),
            page_ensured(old(self)@, final(self)@, handle.slot as int, *epoch, page_index, bump),
    {
        proof {
            use_type_invariant(&*self);
        }
        match self.find_page(epoch, page_index) {
            Some(handle) => handle,
            None => {
                let slot = self.pages.len();
                let page = ClaimedBitmapPage::new(*epoch, page_index, bump);
                let mut pages: Vec<ClaimedBitmapPage> = Vec::new();
                std::mem::swap(&mut pages, &mut self.pages);
                pages.push(page);
                self.pages = pages;
                PageHandle { slot }
            },
        }
    }

    /// Takes in a page that was stored elsewhere, bits and all, and returns
    /// its handle. Refused, the registry unchanged, when a page with the
    /// same binding is here already.
    pub fn insert_page(&mut self, page: ClaimedBitmapPage) -> (handle: Option<PageHandle>)
        ensures
            distinct_bindings(final(self)@),
            handle is None <==> has_page(old(self)@, page.epoch, page.page_index),
            handle is None ==> final(self)@ == old(self)@,
            handle matches Some(h) ==> h.slot == old(self)@.len() && final(self)@ == old(self)@.push(
                page,
            ),
    {
        proof {
            use_type_invariant(&*self);
        }
        match self.find_page(&page.epoch, page.page_index) {
            Some(_) => None,
            None => {
                let slot = self.pages.len();
                let mut pages: Vec<ClaimedBitmapPage> = Vec::new();
                std::mem::swap(&mut pages, &mut self.pages);
                pages.push(page);
                self.pages = pages;
                Some(PageHandle { slot })
            },
        }
    }

    /// Sets the bit at `byte_index`, `bit_index` of the page that `page`
    /// names, if that bit is clear.
    ///
    /// Refuses with `WrongBitmapPage` when `page` names no page, with
    /// `IndexOutOfRange` when the position is outside the page, and with
    /// `AlreadyClaimed` when the bit is set already; the registry is then
    /// left as it was.
    pub fn try_claim(&mut self, page: PageHandle, byte_index: usize, bit_index: u8) -> (res: Result<
        (),
        AirdropError,
    >)
        ensures
            distinct_bindings(final(self)@),
            res == claim_outcome(old(self)@, page.slot as int, byte_index as int, bit_index as int),
            res is Err ==> final(self)@ == old(self)@,
            res is Ok ==> bit_newly_set(
                old(self)@,
                final(self)@,
                page.slot as int,
                byte_index as int,
                bit_index as int,
            ),
    {
        proof {
            use_type_invariant(&*self);
        }
        let ghost before = self.pages@;
        if page.slot >= self.pages.len() {
            return Err(AirdropError::WrongBitmapPage);
        }
        let mut pages: Vec<ClaimedBitmapPage> = Vec::new();
        std::mem::swap(&mut pages, &mut self.pages);
        let res = pages[page.slot].try_claim(byte_index, bit_index);
        proof {
            lemma_rebound_page_keeps_bindings_distinct(
                before,
                page.slot as int,
                pages@[page.slot as int],
            );
            assert(pages@ =~= before.update(page.slot as int, pages@[page.slot as int]));
        }
        self.pages = pages;
        res
    }

    /// Accepts or refuses a claim on the page that `page` names, as
    /// `instructions::claim` does on a page of its own. Refused with
    /// `WrongBitmapPage`, before anything else is looked at, when `page`
    /// names no page. On refusal the registry is left as it was.
    pub fn claim(
        &mut self,
        page: PageHandle,
        epoch: &Epoch,
        ctx: &Claim,
        index: u32,
        amount: u64,
        proof: &Vec<[u8; 32]>,
    ) -> (res: Result<AirdropClaimed, AirdropError>)
        ensures
            distinct_bindings(final(self)@),
            res == (if page.slot < old(self)@.len() {
                claim_decision(*epoch, old(self)@[page.slot as int], *ctx, index, amount, proof@)
            } else {
                Err(AirdropError::WrongBitmapPage)
            }),
            res is Err ==> final(self)@ == old(self)@,
            res is Ok ==> bit_newly_set(
                old(self)@,
                final(self)@,
                page.slot as int,
                bit_location(index).byte_index as int,
                bit_location(index).bit_index as int,
            ),
            res is Ok ==> !index_claimed(old(self)@, ctx.epoch, index) && index_claimed(
                final(self)@,
                ctx.epoch,
                index,
            ),
    {
        proof {
            use_type_invariant(&*self);
        }
        let ghost before = self.pages@;
        if page.slot >= self.pages.len() {
            return Err(AirdropError::WrongBitmapPage);
        }
        let mut pages: Vec<ClaimedBitmapPage> = Vec::new();
        std::mem::swap(&mut pages, &mut self.pages);
        let res = crate::instructions::claim(
            epoch,
            &mut pages[page.slot],
            ctx,
            index,
            amount,
            proof,
        );
        proof {
            crate::bitmap::lemma_bit_location_bounds(index);
            lemma_rebound_page_keeps_bindings_distinct(
                before,
                page.slot as int,
                pages@[page.slot as int],
            );
            assert(pages@ =~= before.update(page.slot as int, pages@[page.slot as int]));
            if res is Ok {
                lemma_claim_marks_one_index(
                    before,
                    pages@,
                    page.slot as int,
                    ctx.epoch,
                    index,
                    ctx.epoch,
                    index,
                );
            }
        }
        self.pages = pages;
        res
    }

    /// Clears the bit at `byte_index`, `bit_index` of the page that `page`
    /// names, if there is such a bit and it is set, and says whether it was.
    /// This undoes one `try_claim`.
    pub fn release(&mut self, page: PageHandle, byte_index: usize, bit_index: u8) -> (released:
        bool)
        ensures
            distinct_bindings(final(self)@),
            released == (claim_outcome(
                old(self)@,
                page.slot as int,
                byte_index as int,
                bit_index as int,
            ) == Err::<(), AirdropError>(AirdropError::AlreadyClaimed)),
            !released ==> final(self)@ == old(self)@,
            released ==> bit_newly_set(
                final(self)@,
                old(self)@,
                page.slot as int,
                byte_index as int,
                bit_index as int,
            ),
    {
        proof {
            use_type_invariant(&*self);
        }
        let ghost before = self.pages@;
        if page.slot >= self.pages.len() {
            return false;
        }
        let mut pages: Vec<ClaimedBitmapPage> = Vec::new();
        std::mem::swap(&mut pages, &mut self.pages);
        let released = pages[page.slot].release(byte_index, bit_index);
        proof {
            lemma_rebound_page_keeps_bindings_distinct(
                before,
                page.slot as int,
                pages@[page.slot as int],
            );
            assert(pages@ =~= before.update(page.slot as int, pages@[page.slot as int]));
            assert(before =~= pages@.update(page.slot as int, before[page.slot as int]));
        }
        self.pages = pages;
        released
    }

    /// Whether `index` is claimed in `epoch`.
    pub fn is_claimed(&self, epoch: &[u8; 32], index: u32) -> (claimed: bool)
        ensures
            claimed == index_claimed(self@, *epoch, index),
    {
        proof {
            use_type_invariant(self);
        }
        let loc = crate::bitmap::page_for(index);
        match self.find_page(epoch, loc.page_index) {
            None => false,
            Some(handle) => {
                self.pages[handle.slot].is_claimed(loc.byte_index as usize, loc.bit_index)
            },
        }
    }
}

/// Whether `after` is `before` once the page bound to `epoch` and
/// `page_index` has been ensured, and `slot` is where that page is: if
/// `before` has the page, nothing has changed; if not, one page with every
/// bit clear has been appended.
pub open spec fn page_ensured(
    before: Seq<ClaimedBitmapPage>,
    after: Seq<ClaimedBitmapPage>,
    slot: int,
    epoch: [u8; 32],
    page_index: u32,
    bump: u8,
) -> bool {
    &&& 0 <= slot < after.len()
    &&& after[slot].is_bound_to(epoch, page_index)
    &&& if has_page(before, epoch, page_index) {
        after == before
    } else {
        &&& after == before.push(after[slot])
        &&& slot == before.len()
        &&& after[slot].is_fresh(epoch, page_index, bump)
    }
}

/// What `try_claim` answers in a registry with these pages.
pub open spec fn claim_outcome(
    pages: Seq<ClaimedBitmapPage>,
    slot: int,
    byte_index: int,
    bit_index: int,
) -> Result<(), AirdropError> {
    if !(0 <= slot < pages.len()) {
        Err(AirdropError::WrongBitmapPage)
    } else if !(0 <= byte_index < BITMAP_PAGE_SIZE && 0 <= bit_index < 8) {
        Err(AirdropError::IndexOutOfRange)
    } else if pages[slot].bits()[bit_offset(byte_index, bit_index)] {
        Err(AirdropError::AlreadyClaimed)
    } else {
        Ok(())
    }
}

/// Whether `after` is `before` with exactly one more bit set: the one at
/// `byte_index`, `bit_index` of the page in `slot`. Every other page, every
/// other bit and every binding is as before.
pub open spec fn bit_newly_set(
    before: Seq<ClaimedBitmapPage>,
    after: Seq<ClaimedBitmapPage>,
    slot: int,
    byte_index: int,
    bit_index: int,
) -> bool {
    &&& 0 <= slot < before.len()
    &&& 0 <= byte_index < BITMAP_PAGE_SIZE
    &&& 0 <= bit_index < 8
    &&& !before[slot].bits()[bit_offset(byte_index, bit_index)]
    &&& after == before.update(slot, after[slot])
    &&& after[slot].sets_bit_of(before[slot], byte_index, bit_index)
}

/// A binding names at most one page: two slots bound alike are one slot.
pub proof fn lemma_binding_names_one_page(
    pages: Seq<ClaimedBitmapPage>,
    i: int,
    j: int,
    epoch: [u8; 32],
    page_index: u32,
)
    requires
        distinct_bindings(pages),
        0 <= i < pages.len(),
        0 <= j < pages.len(),
        pages[i].is_bound_to(epoch, page_index),
        pages[j].is_bound_to(epoch, page_index),
    ensures
        i == j,
{
}

/// Ensuring a page is idempotent. However often the page of one binding is
/// ensured, one call after another and with whatever bumps, the first call
/// decides: every later call leaves the registry as the first left it and
/// returns the first call's slot, and that slot is the only one bound to
/// the binding.
///
/// `states[k]` is the registry before call `k` and `states[k + 1]` the
/// registry after it; `slots[k]` is what call `k` returned.
pub proof fn lemma_ensure_page_idempotent(
    states: Seq<Seq<ClaimedBitmapPage>>,
    slots: Seq<int>,
    bumps: Seq<u8>,
    epoch: [u8; 32],
    page_index: u32,
)
    requires
        slots.len() >= 1,
        states.len() == slots.len() + 1,
        bumps.len() == slots.len(),
        distinct_bindings(states[0]),
        forall|k: int|
            0 <= k < slots.len() ==> page_ensured(
                #[trigger] states[k],
                states[k + 1],
                slots[k],
                epoch,
                page_index,
                bumps[k],
            ),
    ensures
        forall|k: int| 1 <= k < states.len() ==> #[trigger] states[k] == states[1],
        forall|k: int| 0 <= k < slots.len() ==> #[trigger] slots[k] == slots[0],
        distinct_bindings(states[1]),
        forall|i: int|
            0 <= i < states[1].len() ==> (#[trigger] states[1][i].is_bound_to(epoch, page_index)
                <==> i == slots[0]),
    decreases slots.len(),
{
    let first = states[1];
    lemma_page_ensured_keeps_bindings_distinct(
        states[0],
        first,
        slots[0],
        epoch,
        page_index,
        bumps[0],
    );
    assert forall|i: int| 0 <= i < first.len() && #[trigger] first[i].is_bound_to(
        epoch,
        page_index,
    ) implies i == slots[0] by {
        lemma_binding_names_one_page(first, i, slots[0], epoch, page_index);
    }
    if slots.len() > 1 {
        let n = slots.len() - 1;
        lemma_ensure_page_idempotent(
            states.drop_last(),
            slots.drop_last(),
            bumps.drop_last(),
            epoch,
            page_index,
        );
        assert(states.drop_last()[n] == states[n]);
        lemma_binding_names_one_page(first, slots[n], slots[0], epoch, page_index);
        assert forall|k: int| 1 <= k < states.len() implies #[trigger] states[k] == states[1] by {
            if k < states.len() - 1 {
                assert(states.drop_last()[k] == states[k]);
            }
        }
        assert forall|k: int| 0 <= k < slots.len() implies #[trigger] slots[k] == slots[0] by {
            if k < n {
                assert(slots.drop_last()[k] == slots[k]);
            }
        }
    }
}

/// Ensuring a page never makes two pages share a binding.
pub proof fn lemma_page_ensured_keeps_bindings_distinct(
    before: Seq<ClaimedBitmapPage>,
    after: Seq<ClaimedBitmapPage>,
    slot: int,
    epoch: [u8; 32],
    page_index: u32,
    bump: u8,
)
    requires
        distinct_bindings(before),
        page_ensured(before, after, slot, epoch, page_index, bump),
    ensures
        distinct_bindings(after),
{
}

/// Putting a page in the place of one with the same binding never makes
/// two pages share a binding.
pub proof fn lemma_rebound_page_keeps_bindings_distinct(
    before: Seq<ClaimedBitmapPage>,
    slot: int,
    page: ClaimedBitmapPage,
)
    requires
        distinct_bindings(before),
        0 <= slot < before.len(),
        page.is_bound_to(before[slot].epoch, before[slot].page_index),
    ensures
        distinct_bindings(before.update(slot, page)),
{
    let after = before.update(slot, page);
    assert forall|i: int, j: int| 0 <= i < j < after.len() implies !after[i].is_bound_to(
        after[j].epoch,
        after[j].page_index,
    ) by {
        assert(!before[i].is_bound_to(before[j].epoch, before[j].page_index));
    }
}

/// A claim sets the bit of one index of one epoch and of no other: after
/// the bit of `index` has been set on the page of `epoch` that covers it,
/// exactly the indices claimed before and `index` itself are claimed.
pub proof fn lemma_claim_marks_one_index(
    before: Seq<ClaimedBitmapPage>,
    after: Seq<ClaimedBitmapPage>,
    slot: int,
    epoch: [u8; 32],
    index: u32,
    any_epoch: [u8; 32],
    any_index: u32,
)
    requires
        distinct_bindings(before),
        bit_newly_set(
            before,
            after,
            slot,
            bit_location(index).byte_index as int,
            bit_location(index).bit_index as int,
        ),
        before[slot].is_bound_to(epoch, bit_location(index).page_index),
    ensures
        !index_claimed(before, epoch, index),
        index_claimed(after, any_epoch, any_index) == (index_claimed(before, any_epoch, any_index)
            || (any_epoch == epoch && any_index == index)),
{
    let loc = bit_location(index);
    let any = bit_location(any_index);
    let at = bit_offset(loc.byte_index as int, loc.bit_index as int);
    let any_at = bit_offset(any.byte_index as int, any.bit_index as int);
    crate::bitmap::lemma_bit_location_bounds(index);
    crate::bitmap::lemma_bit_location_bounds(any_index);
    assert(!index_claimed(before, epoch, index)) by {
        if index_claimed(before, epoch, index) {
            let i = choose|i: int|
                0 <= i < before.len() && #[trigger] before[i].is_bound_to(epoch, loc.page_index)
                    && before[i].bits()[at];
            lemma_binding_names_one_page(before, i, slot, epoch, loc.page_index);
        }
    }
    assert forall|i: int| 0 <= i < before.len() implies (#[trigger] after[i].is_bound_to(
        any_epoch,
        any.page_index,
    ) == before[i].is_bound_to(any_epoch, any.page_index)) by {}
    if any_epoch == epoch && any_index == index {
        assert(after[slot].is_bound_to(epoch, loc.page_index) && after[slot].bits()[at]);
    } else if index_claimed(before, any_epoch, any_index) {
        let i = choose|i: int|
            0 <= i < before.len() && #[trigger] before[i].is_bound_to(any_epoch, any.page_index)
                && before[i].bits()[any_at];
        assert(after[i].is_bound_to(any_epoch, any.page_index) && after[i].bits()[any_at]);
    } else if index_claimed(after, any_epoch, any_index) {
        let i = choose|i: int|
            0 <= i < after.len() && #[trigger] after[i].is_bound_to(any_epoch, any.page_index)
                && after[i].bits()[any_at];
        if i == slot && any_at == at {
            crate::bitmap::lemma_bit_location_injective(index, any_index);
        }
    }
}

/// The second claim of a bit is refused: once a claim has set a bit, the
/// same claim finds it set, whatever else has been claimed in between.
pub proof fn lemma_second_claim_refused(
    before: Seq<ClaimedBitmapPage>,
    after: Seq<ClaimedBitmapPage>,
    slot: int,
    byte_index: int,
    bit_index: int,
)
    requires
        bit_newly_set(before, after, slot, byte_index, bit_index),
    ensures
        claim_outcome(before, slot, byte_index, bit_index) == Ok::<(), AirdropError>(()),
        claim_outcome(after, slot, byte_index, bit_index) == Err::<(), AirdropError>(
            AirdropError::AlreadyClaimed,
        ),
{
}

/// Claims of different bits do not interfere: whether the second is
/// accepted does not depend on whether the first has happened.
pub proof fn lemma_claims_independent(
    before: Seq<ClaimedBitmapPage>,
    after: Seq<ClaimedBitmapPage>,
    slot: int,
    byte_index: int,
    bit_index: int,
    other_slot: int,
    other_byte_index: int,
    other_bit_index: int,
)
    requires
        bit_newly_set(before, after, slot, byte_index, bit_index),
        (slot, byte_index, bit_index) != (other_slot, other_byte_index, other_bit_index),
    ensures
        claim_outcome(after, other_slot, other_byte_index, other_bit_index) == claim_outcome(
            before,
            other_slot,
            other_byte_index,
            other_bit_index,
        ),
{
}

/// Claims of different bits commute: the registry ends up the same whichever
/// of the two is made first.
pub proof fn lemma_claims_commute(
    start: Seq<ClaimedBitmapPage>,
    after_first: Seq<ClaimedBitmapPage>,
    after_first_second: Seq<ClaimedBitmapPage>,
    after_second: Seq<ClaimedBitmapPage>,
    after_second_first: Seq<ClaimedBitmapPage>,
    slot: int,
    byte_index: int,
    bit_index: int,
    other_slot: int,
    other_byte_index: int,
    other_bit_index: int,
)
    requires
        bit_newly_set(start, after_first, slot, byte_index, bit_index),
        bit_newly_set(
            after_first,
            after_first_second,
            other_slot,
            other_byte_index,
            other_bit_index,
        ),
        bit_newly_set(start, after_second, other_slot, other_byte_index, other_bit_index),
        bit_newly_set(after_second, after_second_first, slot, byte_index, bit_index),
    ensures
        after_first_second == after_second_first,
{
    let a = after_first_second;
    let b = after_second_first;
    assert(a.len() == b.len());
    assert forall|i: int| 0 <= i < a.len() implies a[i] == b[i] by {
        if i == slot || i == other_slot {
            let byte = start[i].bitmap[byte_index];
            let first_mask = 1u8 << (bit_index as u8);
            let second_mask = 1u8 << (other_bit_index as u8);
            assert((byte | first_mask) | second_mask == (byte | second_mask) | first_mask)
                by (bit_vector);
            assert(a[i].bitmap =~= b[i].bitmap);
        }
    }
    assert(a =~= b);
}

/// Releasing undoes claiming: a registry from which setting one bit leads
/// to `after` is the only such registry.
pub proof fn lemma_release_undoes_claim(
    before: Seq<ClaimedBitmapPage>,
    after: Seq<ClaimedBitmapPage>,
    released: Seq<ClaimedBitmapPage>,
    slot: int,
    byte_index: int,
    bit_index: int,
)
    requires
        bit_newly_set(before, after, slot, byte_index, bit_index),
        bit_newly_set(released, after, slot, byte_index, bit_index),
    ensures
        released == before,
{
    crate::bitmap::lemma_sets_bit_of_one_page(
        after[slot],
        before[slot],
        released[slot],
        byte_index,
        bit_index,
    );
    assert forall|i: int| 0 <= i < after.len() implies released[i] == before[i] by {
        if i != slot {
            assert(released[i] == after[i]);
            assert(before[i] == after[i]);
        }
    }
    assert(released =~= before);
}

} // verus!
