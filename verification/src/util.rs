//! Arithmetic helpers shared by the driver.

use vstd::prelude::*;

verus! {

/// Base two logarithm of the size of a sector in bytes.
pub const SECTOR_SHIFT: u32 = 9;

/// Size of a sector in bytes.
pub const SECTOR_SIZE: u32 = 512;

/// Base two logarithm of the number of sectors in a page.
pub const PAGE_SECTORS_SHIFT: u32 = 3;

/// Number of sectors in a page.
pub const PAGE_SECTORS: u32 = 8;

/// Mask that extracts the position of a sector in its page.
pub const SECTOR_MASK: u32 = 7;

/// Size of a page in bytes.
pub const PAGE_SIZE: usize = 4096;

/// `n` is a power of two.
pub open spec fn is_power(n: int) -> bool {
    exists|e: nat| n == #[trigger] vstd::arithmetic::power2::pow2(e)
}

/// The greatest multiple of `to` that is not above `n`.
pub open spec fn rounded_down(n: int, to: int) -> int {
    (n / to) * to
}

/// The least multiple of `to` that is not below `n`.
pub open spec fn rounded_up(n: int, to: int) -> int {
    ((n + to - 1) / to) * to
}

/// An unsigned machine integer on which the helpers of this module work.
pub trait Word: Copy {
    /// The value as a mathematical integer.
    spec fn value(self) -> int;

    /// One more than the largest value of the type.
    spec fn modulus() -> int;

    /// The bits of `self` that are clear in `to - 1`.
    spec fn clear_low(self, to: Self) -> Self;

    /// Decides whether the value is a power of two.
    fn word_is_power_of_two(self) -> (r: bool)
        ensures
            r == is_power(self.value()),
    ;

    /// Clears the bits of `to - 1`.
    fn word_align_down(self, to: Self) -> (r: Self)
        requires
            to.value() > 0,
        ensures
            r == self.clear_low(to),
            is_power(to.value()) ==> r.value() == rounded_down(self.value(), to.value()),
    ;

    /// Rounds up to a multiple of `to`.
    fn word_align_up(self, to: Self) -> (r: Self)
        requires
            is_power(to.value()),
            rounded_up(self.value(), to.value()) < Self::modulus(),
        ensures
            r.value() == rounded_up(self.value(), to.value()),
    ;

    /// Shifts left by 9 bits, dropping the bits that leave the word.
    fn word_shl_sector(self) -> (r: Self)
        ensures
            r.value() == (self.value() * 512) % Self::modulus(),
    ;

    /// Shifts right by 9 bits.
    fn word_shr_sector(self) -> (r: Self)
        ensures
            r.value() == self.value() / 512,
    ;

    /// Shifts left by 11 bits, dropping the bits that leave the word.
    fn word_shl_mib(self) -> (r: Self)
        ensures
            r.value() == (self.value() * 2048) % Self::modulus(),
    ;
}

/// A 64 bit word with one bit set is a power of two.
proof fn lemma_single_bit_is_power(x: u64)
    requires
        x > 0,
        x & ((x - 1) as u64) == 0,
    ensures
        is_power(x as int),
    decreases x,
{
    use_pow2_base();
    if x == 1 {
        assert(vstd::arithmetic::power2::pow2(0) == 1);
    } else {
        assert((x / 2) & ((x / 2 - 1) as u64) == 0 && x % 2 == 0 && x / 2 > 0) by (bit_vector)
            requires
                x > 1,
                x & ((x - 1) as u64) == 0,
        ;
        lemma_single_bit_is_power(x / 2);
        let e: nat = choose|e: nat| x / 2 == #[trigger] vstd::arithmetic::power2::pow2(e);
        vstd::arithmetic::power2::lemma_pow2_unfold((e + 1) as nat);
        assert(x == vstd::arithmetic::power2::pow2((e + 1) as nat));
    }
}

proof fn use_pow2_base()
    ensures
        vstd::arithmetic::power2::pow2(0) == 1,
{
    vstd::arithmetic::power2::lemma2_to64();
}

/// A power of two that fits in 64 bits has one bit set, and the bits below it form a mask that
/// takes remainders.
proof fn lemma_power_is_single_bit(x: u64, v: u64)
    requires
        is_power(x as int),
    ensures
        x > 0,
        x & ((x - 1) as u64) == 0,
        v & ((x - 1) as u64) == v % x,
        v & !((x - 1) as u64) == v - v % x,
{
    let e: nat = choose|e: nat| x == #[trigger] vstd::arithmetic::power2::pow2(e);
    vstd::arithmetic::power2::lemma_pow2_pos(e);
    if e >= 64 {
        vstd::arithmetic::power2::lemma2_to64_rest();
        if e > 64 {
            vstd::arithmetic::power2::lemma_pow2_strictly_increases(64, e);
        }
        assert(false);
    }
    vstd::bits::lemma_u64_low_bits_mask_is_mod(v, e);
    assert(vstd::bits::low_bits_mask(e) == x - 1);
    let m: u64 = (x - 1) as u64;
    assert(v & m == v % x);
    assert(v & !m == v - (v & m)) by (bit_vector);
    vstd::bits::lemma_u64_low_bits_mask_is_mod(x, e);
    assert(x & m == x % x);
}

/// Rounding up, expressed through the remainder of the predecessor.
proof fn lemma_round_up(v: int, to: int)
    requires
        v > 0,
        to > 0,
    ensures
        rounded_up(v, to) == (v - 1) - (v - 1) % to + to,
{
    vstd::arithmetic::div_mod::lemma_fundamental_div_mod(v - 1, to);
    vstd::arithmetic::div_mod::lemma_div_plus_one(v - 1, to);
    assert((v - 1) / to * to + to == ((v - 1) / to + 1) * to) by (nonlinear_arith);
    assert(to * ((v - 1) / to) == (v - 1) / to * to) by (nonlinear_arith);
    assert(v - 1 + to == v + to - 1);
}

/// Rounding up nothing gives nothing.
proof fn lemma_round_up_zero(to: int)
    requires
        to > 0,
    ensures
        rounded_up(0, to) == 0,
{
    vstd::arithmetic::div_mod::lemma_basic_div(to - 1, to);
    vstd::arithmetic::mul::lemma_mul_basics(to);
}

/// Rounding down, expressed through the remainder.
proof fn lemma_round_down(v: int, to: int)
    requires
        to > 0,
    ensures
        rounded_down(v, to) == v - v % to,
{
    vstd::arithmetic::div_mod::lemma_fundamental_div_mod(v, to);
    assert(to * (v / to) == v / to * to) by (nonlinear_arith);
}

impl Word for u32 {
    open spec fn value(self) -> int {
        self as int
    }

    open spec fn modulus() -> int {
        0x1_0000_0000
    }

    open spec fn clear_low(self, to: Self) -> Self {
        self & !((to - 1) as u32)
    }

    fn word_is_power_of_two(self) -> (r: bool) {
        proof {
            if self > 0 && self & ((self - 1) as u32) == 0 {
                lemma_single_bit_is_power(self as u64);
            }
            if is_power(self as int) {
                lemma_power_is_single_bit(self as u64, 0);
            }
        }
        self > 0 && self & (self - 1) == 0
    }

    fn word_align_down(self, to: Self) -> (r: Self) {
        let mask: u32 = to - 1;
        proof {
            if is_power(to as int) {
                lemma_power_is_single_bit(to as u64, self as u64);
                assert(self & !mask == self - (self & mask)) by (bit_vector);
                lemma_round_down(self as int, to as int);
            }
        }
        self & !mask
    }

    fn word_align_up(self, to: Self) -> (r: Self) {
        if self == 0 {
            proof {
                lemma_power_is_single_bit(to as u64, 0);
                lemma_round_up_zero(to as int);
            }
            return 0;
        }
        proof {
            lemma_power_is_single_bit(to as u64, (self - 1) as u64);
            lemma_round_up(self as int, to as int);
        }
        let low: u32 = self - 1;
        let mask: u32 = to - 1;
        assert(low | mask == low - (low & mask) + mask) by (bit_vector);
        (low | mask) + 1
    }

    fn word_shl_sector(self) -> (r: Self) {
        assert(self << 9u32 == (self * 512) % 0x1_0000_0000) by (bit_vector);
        self << SECTOR_SHIFT
    }

    fn word_shr_sector(self) -> (r: Self) {
        proof {
            lemma_shr_sector(self as u64);
        }
        self >> SECTOR_SHIFT
    }

    fn word_shl_mib(self) -> (r: Self) {
        assert(self << 11u32 == (self * 2048) % 0x1_0000_0000) by (bit_vector);
        self << (20 - SECTOR_SHIFT)
    }
}

impl Word for u64 {
    open spec fn value(self) -> int {
        self as int
    }

    open spec fn modulus() -> int {
        0x1_0000_0000_0000_0000
    }

    open spec fn clear_low(self, to: Self) -> Self {
        self & !((to - 1) as u64)
    }

    fn word_is_power_of_two(self) -> (r: bool) {
        proof {
            if self > 0 && self & ((self - 1) as u64) == 0 {
                lemma_single_bit_is_power(self);
            }
            if is_power(self as int) {
                lemma_power_is_single_bit(self, 0);
            }
        }
        self > 0 && self & (self - 1) == 0
    }

    fn word_align_down(self, to: Self) -> (r: Self) {
        let mask: u64 = to - 1;
        proof {
            if is_power(to as int) {
                lemma_power_is_single_bit(to, self);
                lemma_round_down(self as int, to as int);
            }
        }
        self & !mask
    }

    fn word_align_up(self, to: Self) -> (r: Self) {
        if self == 0 {
            proof {
                lemma_power_is_single_bit(to, 0);
                lemma_round_up_zero(to as int);
            }
            return 0;
        }
        proof {
            lemma_power_is_single_bit(to, (self - 1) as u64);
            lemma_round_up(self as int, to as int);
        }
        let low: u64 = self - 1;
        let mask: u64 = to - 1;
        assert(low | mask == low - (low & mask) + mask) by (bit_vector);
        (low | mask) + 1
    }

    fn word_shl_sector(self) -> (r: Self) {
        assert(self << 9u32 == (self * 512) % 0x1_0000_0000_0000_0000) by (bit_vector);
        self << SECTOR_SHIFT
    }

    fn word_shr_sector(self) -> (r: Self) {
        proof {
            lemma_shr_sector(self);
        }
        self >> SECTOR_SHIFT
    }

    fn word_shl_mib(self) -> (r: Self) {
        assert(self << 11u32 == (self * 2048) % 0x1_0000_0000_0000_0000) by (bit_vector);
        self << (20 - SECTOR_SHIFT)
    }
}

/// Returns true if `value` is a power of two.
pub fn is_power_of_two<T: Word>(value: T) -> (r: bool)
    ensures
        r == is_power(value.value()),
{
    value.word_is_power_of_two()
}

/// Rounds `value` down to the next multiple of `to`, which is meant to be a power of two; for any
/// other `to` the bits of `to - 1` are cleared.
pub fn align_down<T: Word>(value: T, to: T) -> (r: T)
    requires
        to.value() > 0,
    ensures
        r == value.clear_low(to),
        is_power(to.value()) ==> r.value() == rounded_down(value.value(), to.value()),
{
    value.word_align_down(to)
}

/// Rounds `value` up to the next multiple of `to`, which must be a power of two.
pub fn align_up<T: Word>(value: T, to: T) -> (r: T)
    requires
        is_power(to.value()),
        rounded_up(value.value(), to.value()) < T::modulus(),
    ensures
        r.value() == rounded_up(value.value(), to.value()),
{
    value.word_align_up(to)
}

/// Number of sectors in `mib` mebibytes, dropping the bits that leave the word.
pub fn mib_to_sectors<T: Word>(mib: T) -> (r: T)
    ensures
        r.value() == (mib.value() * 2048) % T::modulus(),
{
    mib.word_shl_mib()
}

/// Number of bytes in `sectors` sectors, dropping the bits that leave the word.
pub fn sectors_to_bytes<T: Word>(sectors: T) -> (r: T)
    ensures
        r.value() == (sectors.value() * 512) % T::modulus(),
{
    sectors.word_shl_sector()
}

/// Number of whole sectors in `bytes` bytes.
pub fn bytes_to_sectors<T: Word>(bytes: T) -> (r: T)
    ensures
        r.value() == bytes.value() / 512,
{
    bytes.word_shr_sector()
}

/// Rounding down gives the greatest multiple that is not above the value, rounding up the least
/// that is not below it, and both leave multiples alone.
pub proof fn lemma_rounding(n: int, to: int)
    requires
        n >= 0,
        to > 0,
    ensures
        rounded_down(n, to) <= n < rounded_down(n, to) + to,
        rounded_up(n, to) - to < n <= rounded_up(n, to),
        rounded_down(n, to) % to == 0,
        rounded_up(n, to) % to == 0,
        n % to == 0 ==> rounded_down(n, to) == n && rounded_up(n, to) == n,
{
    lemma_round_down(n, to);
    vstd::arithmetic::div_mod::lemma_mod_multiples_basic(n / to, to);
    vstd::arithmetic::div_mod::lemma_mod_multiples_basic((n + to - 1) / to, to);
    if n > 0 {
        lemma_round_up(n, to);
        vstd::arithmetic::div_mod::lemma_fundamental_div_mod(n, to);
        vstd::arithmetic::div_mod::lemma_fundamental_div_mod(n - 1, to);
        if n % to == 0 {
            let q: int = n / to;
            assert(n - 1 == (q - 1) * to + (to - 1)) by (nonlinear_arith)
                requires
                    n == to * q,
            ;
            vstd::arithmetic::div_mod::lemma_fundamental_div_mod_converse(
                n - 1,
                to,
                q - 1,
                to - 1,
            );
        }
    } else {
        vstd::arithmetic::div_mod::lemma_basic_div(to - 1, to);
    }
}

/// The number of sectors in the bytes of `sectors` sectors is `sectors`, where no bit leaves the
/// word.
pub proof fn lemma_sectors_round_trip(sectors: int, modulus: int)
    requires
        0 <= sectors,
        sectors * 512 < modulus,
    ensures
        ((sectors * 512) % modulus) / 512 == sectors,
{
    vstd::arithmetic::div_mod::lemma_small_mod((sectors * 512) as nat, modulus as nat);
}

/// Setting one bit sets that bit and no other.
pub proof fn lemma_single_bits(bits: u32, i: u32, j: u32)
    requires
        i < 32,
        j < 32,
    ensures
        (bits | (1u32 << i)) & (1u32 << i) == 1u32 << i,
        i != j ==> (bits | (1u32 << i)) & (1u32 << j) == bits & (1u32 << j),
        0u32 & (1u32 << i) != 1u32 << i,
{
    assert((bits | (1u32 << i)) & (1u32 << i) == 1u32 << i && 0u32 & (1u32 << i) != 1u32 << i && (i
        != j ==> (bits | (1u32 << i)) & (1u32 << j) == bits & (1u32 << j))) by (bit_vector)
        requires
            i < 32,
            j < 32,
    ;
}

/// Shifting right by the size of a sector divides by it.
pub proof fn lemma_shr_sector(x: u64)
    ensures
        x >> SECTOR_SHIFT == x / 512,
{
    assert(x >> 9u32 == x / 512) by (bit_vector);
}

/// The position of a sector in its page, in bytes.
pub proof fn lemma_offset_in_page(sector: u64)
    ensures
        sector & (SECTOR_MASK as u64) == sector % 8,
        (sector & (SECTOR_MASK as u64)) << SECTOR_SHIFT == (sector % 8) * 512,
{
    assert(sector & 7 == sector % 8 && (sector & 7) << 9u32 == (sector % 8) * 512) by (bit_vector);
}

} // verus!
