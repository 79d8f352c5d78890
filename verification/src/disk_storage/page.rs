//! Pages of a memory backed disk.

use crate::error::{Errno, Result, EINVAL};
use crate::util::{PAGE_SECTORS, PAGE_SIZE, SECTOR_MASK};
use vstd::prelude::*;

verus! {

/// `dst` with the bytes from position `at` on replaced by `src`.
pub open spec fn splice(dst: Seq<u8>, at: int, src: Seq<u8>) -> Seq<u8> {
    Seq::new(
        dst.len(),
        |i: int| if at <= i < at + src.len() { src[i - at] } else { dst[i] },
    )
}

/// A page of memory.
pub struct Page {
    data: Vec<u8>,
}

impl View for Page {
    type V = Seq<u8>;

    closed spec fn view(&self) -> Seq<u8> {
        self.data@
    }
}

impl Page {
    /// A page holds [`PAGE_SIZE`] bytes.
    pub open spec fn inv(&self) -> bool {
        self@.len() == PAGE_SIZE
    }

    /// A page of zeros.
    pub fn zeroed() -> (r: Self)
        ensures
            r.inv(),
            r@ == Seq::new(PAGE_SIZE as nat, |i: int| 0u8),
    {
        let mut data: Vec<u8> = Vec::new();
        let mut i: usize = 0;
        while i < PAGE_SIZE
            invariant
                i <= PAGE_SIZE,
                data@ =~= Seq::new(i as nat, |j: int| 0u8),
            decreases PAGE_SIZE - i,
        {
            data.push(0);
            i += 1;
        }
        Page { data }
    }

    /// Reads one byte.
    pub fn byte(&self, at: usize) -> (r: u8)
        requires
            at < self@.len(),
        ensures
            r == self@[at as int],
    {
        self.data[at]
    }

    /// Writes one byte.
    pub fn set_byte(&mut self, at: usize, value: u8)
        requires
            at < old(self)@.len(),
        ensures
            final(self)@ == old(self)@.update(at as int, value),
    {
        self.data.set(at, value);
    }

    /// Copies `len` bytes at `offset` to the same place in another page.
    pub fn copy_to_page(&self, dst: &mut Page, offset: usize, len: usize) -> (r: Result<()>)
        requires
            self.inv(),
            old(dst).inv(),
        ensures
            final(dst).inv(),
            match r {
                Ok(_) => offset + len <= PAGE_SIZE && final(dst)@ == splice(
                    old(dst)@,
                    offset as int,
                    self@.subrange(offset as int, offset + len),
                ),
                Err(e) => offset + len > PAGE_SIZE && e == Errno(EINVAL) && final(dst)@ == old(dst)@,
            },
    {
        if offset > PAGE_SIZE || len > PAGE_SIZE - offset {
            return Err(Errno(EINVAL));
        }
        let mut i: usize = 0;
        while i < len
            invariant
                i <= len,
                offset + len <= PAGE_SIZE,
                self.inv(),
                dst.inv(),
                dst@ =~= splice(old(dst)@, offset as int, self@.subrange(offset as int, offset + i)),
            decreases len - i,
        {
            dst.set_byte(offset + i, self.byte(offset + i));
            i += 1;
        }
        Ok(())
    }
}

/// Bit `i` of `status` is set.
pub open spec fn has_bit(status: u64, i: int) -> bool {
    0 <= i < 64 && (status >> (i as u64)) & 1 == 1
}

/// Number of trailing zero bits of a block size.
pub open spec fn block_shift(block_size: usize) -> int {
    vstd::std_specs::bits::u64_trailing_zeros(block_size as u64) as int
}

/// Number of blocks in a page.
pub open spec fn blocks_per_page(block_size: usize) -> int {
    vstd::arithmetic::power2::pow2((12 - block_shift(block_size)) as nat) as int
}

/// The state of a page of a memory backed disk.
#[verifier::ext_equal]
pub struct PageState {
    /// The content of the page.
    pub bytes: Seq<u8>,
    /// The record of used sectors, one bit for each.
    pub status: u64,
    /// Size of a block in bytes.
    pub block_size: usize,
}

impl PageState {
    /// A page of zeros of which nothing is in use.
    pub open spec fn fresh(block_size: usize) -> PageState {
        PageState { bytes: Seq::new(PAGE_SIZE as nat, |i: int| 0u8), status: 0, block_size }
    }

    /// A block is not larger than a page.
    pub open spec fn block_fits(self) -> bool {
        block_shift(self.block_size) <= 12
    }

    /// The page is complete, and a block fits in it.
    pub open spec fn inv(self) -> bool {
        self.bytes.len() == PAGE_SIZE && self.block_fits()
    }

    /// Sector number `i` of the page is marked as used.
    pub open spec fn occupied(self, i: int) -> bool {
        has_bit(self.status, i)
    }

    /// The first sector of each block of the page is in use.
    pub open spec fn full(self) -> bool {
        let blocks = blocks_per_page(self.block_size);
        forall|i: int| 0 <= i < blocks ==> self.occupied(#[trigger] (i * (8int / blocks)))
    }

    /// The page with a sector marked as used.
    pub open spec fn with_occupied(self, sector: u64) -> PageState {
        PageState { status: self.status | (1u64 << (sector % 8)), ..self }
    }

    /// The page with a sector marked as free.
    pub open spec fn with_free(self, sector: u64) -> PageState {
        PageState { status: self.status & !(1u64 << (sector % 8)), ..self }
    }

    /// The page with all sectors marked as free.
    pub open spec fn with_reset(self) -> PageState {
        PageState { status: 0, ..self }
    }

    /// The page with other content.
    pub open spec fn with_bytes(self, bytes: Seq<u8>) -> PageState {
        PageState { bytes, ..self }
    }
}

/// A page of a memory backed disk with a record of the sectors that are in use.
pub struct NullBlockPage {
    page: Page,
    status: u64,
    block_size: usize,
}

impl View for NullBlockPage {
    type V = PageState;

    closed spec fn view(&self) -> PageState {
        PageState { bytes: self.page@, status: self.status, block_size: self.block_size }
    }
}

impl NullBlockPage {
    /// Creates a page of zeros; `memory` is the outcome of allocating it.
    pub fn new(block_size: usize, memory: Result<()>) -> (r: Result<Self>)
        ensures
            match r {
                Ok(page) => memory is Ok && page@ == PageState::fresh(block_size),
                Err(e) => memory == Err::<(), Errno>(e),
            },
    {
        match memory {
            Ok(()) => Ok(NullBlockPage { page: Page::zeroed(), status: 0, block_size }),
            Err(e) => Err(e),
        }
    }

    /// Marks a sector as used.
    pub fn set_occupied(&mut self, sector: u64)
        ensures
            final(self)@ == old(self)@.with_occupied(sector),
    {
        let idx: u64 = sector & SECTOR_MASK as u64;
        proof {
            crate::util::lemma_offset_in_page(sector);
        }
        self.status = self.status | (1 << idx);
    }

    /// Marks a sector as free.
    pub fn set_free(&mut self, sector: u64)
        ensures
            final(self)@ == old(self)@.with_free(sector),
    {
        let idx: u64 = sector & SECTOR_MASK as u64;
        proof {
            crate::util::lemma_offset_in_page(sector);
        }
        self.status = self.status & !(1 << idx);
    }

    /// Returns true if no sector is in use.
    pub fn is_empty(&self) -> (r: bool)
        ensures
            r == (self@.status == 0),
    {
        self.status == 0
    }

    /// Marks all sectors as free.
    pub fn reset(&mut self)
        ensures
            final(self)@ == old(self)@.with_reset(),
    {
        self.status = 0;
    }

    /// Returns true if the first sector of each block of the page is in use.
    pub fn is_full(&self) -> (r: bool)
        requires
            self@.block_fits(),
        ensures
            r == self@.full(),
    {
        proof {
            vstd::std_specs::bits::axiom_u64_trailing_zeros(self.block_size as u64);
        }
        let shift_bits: u32 = (self.block_size as u64).trailing_zeros();
        proof {
            vstd::bits::lemma_usize_shr_is_div(PAGE_SIZE, shift_bits as usize);
            vstd::arithmetic::power2::lemma2_to64();
            vstd::arithmetic::power2::lemma_pow2_subtracts(shift_bits as nat, 12);
            lemma_blocks(self.block_size);
        }
        let blocks: usize = PAGE_SIZE >> shift_bits;
        let shift: usize = PAGE_SECTORS as usize / blocks;
        let mut i: usize = 0;
        while i < blocks
            invariant
                i <= blocks,
                blocks == blocks_per_page(self.block_size),
                1 <= blocks <= 4096,
                shift == 8int / (blocks as int),
                shift == 0 || blocks * shift == 8,
                forall|j: int|
                    0 <= j < i ==> has_bit(self.status, #[trigger] (j * (8int / blocks as int))),
            decreases blocks - i,
        {
            assert(i * shift < 64) by (nonlinear_arith)
                requires
                    i < blocks,
                    shift == 0 || blocks * shift == 8,
            ;
            assert(0 <= i * shift) by (nonlinear_arith)
                requires
                    i >= 0,
                    shift >= 0,
            ;
            let at: usize = i * shift;
            proof {
                lemma_test_bit(self.status, at as u64);
                assert(at == i as int * (8int / blocks as int));
            }
            if self.status & (1 << at) == 0 {
                proof {
                    let each: int = 8int / blocks_per_page(self@.block_size);
                    assert(!self@.occupied(i as int * each));
                    assert(!self@.full());
                }
                return false;
            }
            i += 1;
        }
        true
    }

    /// The content of the page, for writing.
    pub fn page_mut(&mut self) -> (r: &mut Page)
        ensures
            r@ == old(self)@.bytes,
            final(self)@ == old(self)@.with_bytes(final(r)@),
    {
        &mut self.page
    }

    /// The content of the page.
    pub fn page(&self) -> (r: &Page)
        ensures
            r@ == self@.bytes,
    {
        &self.page
    }
}

/// Marking a sector as used or free affects that sector alone, a reset frees all of them, and
/// nothing is in use exactly if the record is zero.
pub proof fn lemma_sector_record(page: PageState, sector: u64, i: int)
    ensures
        page.with_occupied(sector).occupied(i) == (page.occupied(i) || i == sector % 8),
        page.with_free(sector).occupied(i) == (page.occupied(i) && i != sector % 8),
        !page.with_reset().occupied(i),
        (page.status == 0) == (forall|j: int| !page.occupied(j)),
{
    if 0 <= i < 64 {
        lemma_set_bit(page.status, (sector % 8) as u64, i as u64);
        lemma_clear_bit(page.status, (sector % 8) as u64, i as u64);
    }
    lemma_no_bits(0);
    assert(!has_bit(0, i));
    lemma_no_bits(page.status);
    if forall|j: int| !page.occupied(j) {
        assert forall|j: int| !has_bit(page.status, j) by {
            assert(!page.occupied(j));
        }
    }
}

proof fn lemma_set_bit(s: u64, idx: u64, k: u64)
    by (bit_vector)
    requires
        idx < 64,
        k < 64,
    ensures
        (((s | (1u64 << idx)) >> k) & 1 == 1) == ((s >> k) & 1 == 1 || k == idx),
{
}

proof fn lemma_clear_bit(s: u64, idx: u64, k: u64)
    by (bit_vector)
    requires
        idx < 64,
        k < 64,
    ensures
        (((s & !(1u64 << idx)) >> k) & 1 == 1) == ((s >> k) & 1 == 1 && k != idx),
{
}

proof fn lemma_test_bit(s: u64, k: u64)
    by (bit_vector)
    requires
        k < 64,
    ensures
        (s & (1u64 << k) == 0) == !((s >> k) & 1 == 1),
{
}

/// A word without set bits is zero.
proof fn lemma_no_bits(s: u64)
    ensures
        (s == 0) == (forall|i: int| !has_bit(s, i)),
{
    assert forall|i: int| 0 <= i < 64 && s == 0 implies !#[trigger] has_bit(s, i) by {
        let k: u64 = i as u64;
        assert((0u64 >> k) & 1 == 0) by (bit_vector)
            requires
                k < 64,
        ;
    }
    if s != 0 {
        vstd::std_specs::bits::axiom_u64_trailing_zeros(s);
        assert(has_bit(s, vstd::std_specs::bits::u64_trailing_zeros(s) as int));
    }
}

/// The number of blocks in a page and the distance of their first sectors.
proof fn lemma_blocks(block_size: usize)
    requires
        0 <= block_shift(block_size) <= 12,
    ensures
        ({
            let blocks = blocks_per_page(block_size);
            &&& 1 <= blocks <= 4096
            &&& 8int / blocks == 0 || blocks * (8int / blocks) == 8
        }),
{
    vstd::arithmetic::power2::lemma2_to64();
    let shift = block_shift(block_size);
    let blocks = blocks_per_page(block_size);
    if shift <= 8 {
        assert(16 <= blocks <= 4096) by {
            if shift > 0 {
                vstd::arithmetic::power2::lemma_pow2_strictly_increases((12 - shift) as nat, 12);
            }
            if shift < 8 {
                vstd::arithmetic::power2::lemma_pow2_strictly_increases(4, (12 - shift) as nat);
            }
        }
        vstd::arithmetic::div_mod::lemma_basic_div(8, blocks);
    } else if shift == 9 {
        assert(blocks == 8 && 8int / 8 == 1);
        assert(blocks * (8int / blocks) == 8);
    } else if shift == 10 {
        assert(blocks == 4 && 8int / 4 == 2);
        assert(blocks * (8int / blocks) == 8);
    } else if shift == 11 {
        assert(blocks == 2 && 8int / 2 == 4);
        assert(blocks * (8int / blocks) == 8);
    } else {
        assert(shift == 12 && blocks == 1 && 8int / 1 == 8);
        assert(blocks * (8int / blocks) == 8);
    }
}

/// The block size of a power of two has that power as its shift.
pub proof fn lemma_block_shift(block_size: usize, shift: u64)
    requires
        shift < 63,
        block_size == vstd::arithmetic::power2::pow2(shift as nat),
    ensures
        block_shift(block_size) == shift,
{
    let x: u64 = block_size as u64;
    let t: u64 = vstd::std_specs::bits::u64_trailing_zeros(x) as u64;
    vstd::std_specs::bits::axiom_u64_trailing_zeros(x);
    vstd::arithmetic::power2::lemma_pow2_pos(shift as nat);
    vstd::bits::lemma_u64_pow2_no_overflow(shift as nat);
    vstd::bits::lemma_u64_shl_is_mul(1, shift);
    assert(x == 1u64 << shift);
    assert(t == shift) by (bit_vector)
        requires
            shift < 63,
            x == 1u64 << shift,
            t < 64,
            (x >> t) & 1 == 1,
    ;
}

} // verus!
