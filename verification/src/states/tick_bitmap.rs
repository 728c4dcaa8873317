//! Packed tick initialized state library.
//!
//! Stores a packed mapping of tick index to its initialized state.  Although ticks are stored as
//! i32, all tick values fit within 24 bits.  Therefore the mapping uses i16 for keys and there are
//! 256 (2^8) values per word.
//!
//! A word is held as four 64-bit limbs, least significant first.  Its operations (toggling a
//! bit, masking at or below or above a bit, the most and least significant set bit) are each
//! stated in a few lines over the word's bits (`word_bit`) and written over the limbs.
use crate::libraries::bit_math::{least_significant_bit, most_significant_bit};
use vstd::prelude::*;

verus! {

/// Stores info for a single bitmap word.
/// Each word represents 256 packed tick initialized boolean values.
///
/// PDA of `[BITMAP_SEED, token_0, token_1, fee, word_pos]`
#[derive(Clone, Copy, Debug)]
pub struct TickBitmapState {
    /// Bump to identify PDA
    pub bump: u8,
    /// The bitmap key. To find word position from a tick, divide the tick by tick spacing
    /// to get a 24 bit compressed result, then right shift to obtain the most significant 16 bits.
    pub word_pos: i16,
    /// Packed initialized state: a 256-bit word in four 64-bit limbs, least significant first.
    pub word: [u64; 4],
}

/// The position in the mapping where the initialized bit for a tick lives.
pub struct Position {
    /// The key in the mapping containing the word in which the bit is stored
    pub word_pos: i16,
    /// The bit position in the word where the flag is stored
    pub bit_pos: u8,
}

/// The next initialized bit.
pub struct NextBit {
    /// The relative position of the next initialized or uninitialized tick up to 256 ticks away
    /// from the current tick
    pub next: i32,
    /// Whether the next tick is initialized, as the function only searches within up to 256 ticks
    pub initialized: bool,
}

/// Bit `i` (for `0 <= i < 256`) of a 256-bit word held in four limbs, least significant first.
pub open spec fn word_bit(word: [u64; 4], i: int) -> bool {
    (word[i / 64] >> ((i % 64) as u64)) & 1 == 1
}

/// The word with bit `b` toggled.
pub open spec fn flip_bit(word: [u64; 4], b: int) -> [u64; 4] {
    [
        flip_limb(word, b, 0),
        flip_limb(word, b, 1),
        flip_limb(word, b, 2),
        flip_limb(word, b, 3),
    ]
}

/// Limb `l` of the word with bit `b` toggled.
pub open spec fn flip_limb(word: [u64; 4], b: int, l: int) -> u64 {
    if l == b / 64 {
        word[l] ^ (1u64 << ((b % 64) as u64))
    } else {
        word[l]
    }
}

/// The highest set bit of `word` at or below `p`, or -1 when there is none.
pub open spec fn highest_set_at_or_below(word: [u64; 4], p: int) -> int
    decreases p + 1,
{
    if p < 0 {
        -1
    } else if word_bit(word, p) {
        p
    } else {
        highest_set_at_or_below(word, p - 1)
    }
}

/// The lowest set bit of `word` at or above `p`, or 256 when there is none.
pub open spec fn lowest_set_at_or_above(word: [u64; 4], p: int) -> int
    decreases 256 - p,
{
    if p > 255 {
        256
    } else if word_bit(word, p) {
        p
    } else {
        lowest_set_at_or_above(word, p + 1)
    }
}

/// Computes the position in the mapping where the initialized bit for a tick lives: the word is
/// `floor(tick_by_spacing / 256)` (truncated to 16 bits) and the bit is
/// `tick_by_spacing mod 256`, which begins with 255 for negative numbers.
///
/// # Arguments
///
/// * `tick_by_spacing` - The tick for which to compute the position, divided by pool tick spacing
pub fn position(tick_by_spacing: i32) -> (pos: Position)
    ensures
        pos.word_pos == (tick_by_spacing as int / 256) as i16,
        pos.bit_pos == tick_by_spacing as int % 256,
{
    assert(tick_by_spacing >> 8u32 == tick_by_spacing / 256i32 && (tick_by_spacing & 0xff)
        == tick_by_spacing % 256i32) by (bit_vector);
    Position {
        word_pos: (tick_by_spacing >> 8) as i16,
        // begins with 255 for negative numbers
        bit_pos: (tick_by_spacing & 0xff) as u8,
    }
}

/// The bits of a limb `v` around its most significant bit `k`: bit `k` is set and the bits
/// above it are clear.
proof fn lemma_limb_msb_bits(v: u64, k: u64, j: u64)
    by (bit_vector)
    requires
        k < 64,
        j < 64,
        v >> k == 1,
    ensures
        j == k ==> (v >> j) & 1 == 1,
        j > k ==> (v >> j) & 1 == 0,
{
}

/// The bits of a limb `v` around its least significant bit `k`: bit `k` is set and the bits
/// below it are clear.
proof fn lemma_limb_lsb_bits(v: u64, k: u64, j: u64)
    by (bit_vector)
    requires
        k < 64,
        j < 64,
        (v >> k) & 1 == 1,
        (v >> k) << k == v,
    ensures
        j == k ==> (v >> j) & 1 == 1,
        j < k ==> (v >> j) & 1 == 0,
{
}

/// A zero limb has no set bit.
proof fn lemma_zero_limb_bits(j: u64)
    by (bit_vector)
    requires
        j < 64,
    ensures
        (0u64 >> j) & 1 == 0,
{
}

/// The index of the most significant set bit of a non-zero 256-bit word.
fn most_significant_bit_u256(x: [u64; 4]) -> (msb: u8)
    requires
        x[0] != 0 || x[1] != 0 || x[2] != 0 || x[3] != 0,
    ensures
        word_bit(x, msb as int),
        forall|j: int| msb < j < 256 ==> !word_bit(x, j),
{
    let (l, v): (usize, u64) = if x[3] != 0 {
        (3, x[3])
    } else if x[2] != 0 {
        (2, x[2])
    } else if x[1] != 0 {
        (1, x[1])
    } else {
        (0, x[0])
    };
    let k = most_significant_bit(v);
    let msb = (l as u8) * 64 + k;
    proof {
        lemma_limb_msb_bits(v, k as u64, k as u64);
        assert forall|j: int| msb < j < 256 implies !word_bit(x, j) by {
            let jl = j / 64;
            let jb = (j % 64) as u64;
            if jl == l {
                lemma_limb_msb_bits(v, k as u64, jb);
            } else {
                lemma_zero_limb_bits(jb);
            }
        }
    }
    msb
}

/// The index of the least significant set bit of a non-zero 256-bit word.
fn least_significant_bit_u256(x: [u64; 4]) -> (lsb: u8)
    requires
        x[0] != 0 || x[1] != 0 || x[2] != 0 || x[3] != 0,
    ensures
        word_bit(x, lsb as int),
        forall|j: int| 0 <= j < lsb ==> !word_bit(x, j),
{
    let (l, v): (usize, u64) = if x[0] != 0 {
        (0, x[0])
    } else if x[1] != 0 {
        (1, x[1])
    } else if x[2] != 0 {
        (2, x[2])
    } else {
        (3, x[3])
    };
    let k = least_significant_bit(v);
    let lsb = (l as u8) * 64 + k;
    proof {
        lemma_limb_lsb_bits(v, k as u64, k as u64);
        assert forall|j: int| 0 <= j < lsb implies !word_bit(x, j) by {
            let jl = j / 64;
            let jb = (j % 64) as u64;
            if jl == l {
                lemma_limb_lsb_bits(v, k as u64, jb);
            } else {
                lemma_zero_limb_bits(jb);
            }
        }
    }
    lsb
}

/// Masking a limb with the `b + 1` low ones keeps exactly its bits at or below `b`.
proof fn lemma_mask_at_or_below_bits(w: u64, b: u64, j: u64)
    by (bit_vector)
    requires
        b < 64,
        j < 64,
    ensures
        ((w & (((1u64 << b) - 1) as u64 + (1u64 << b)) as u64) >> j) & 1 == if j <= b {
            (w >> j) & 1
        } else {
            0
        },
{
}

/// Masking a limb with the complement of the `b` low ones keeps exactly its bits at or above `b`.
proof fn lemma_mask_at_or_above_bits(w: u64, b: u64, j: u64)
    by (bit_vector)
    requires
        b < 64,
        j < 64,
    ensures
        ((w & !(((1u64 << b) - 1) as u64)) >> j) & 1 == if j >= b {
            (w >> j) & 1
        } else {
            0
        },
{
}

/// Toggling bit `b` of a limb toggles exactly that bit.
proof fn lemma_xor_bit(w: u64, b: u64, j: u64)
    by (bit_vector)
    requires
        b < 64,
        j < 64,
    ensures
        j == b ==> (((w ^ (1u64 << b)) >> j) & 1 == 1) == ((w >> j) & 1 != 1),
        j != b ==> ((w ^ (1u64 << b)) >> j) & 1 == (w >> j) & 1,
{
}

/// The highest set bit at or below `p` is `k` when bit `k` is set and no bit in `(k, p]` is.
proof fn lemma_highest_set(word: [u64; 4], p: int, k: int)
    requires
        0 <= k <= p,
        word_bit(word, k),
        forall|j: int| k < j <= p ==> !word_bit(word, j),
    ensures
        highest_set_at_or_below(word, p) == k,
    decreases p - k,
{
    if p > k {
        lemma_highest_set(word, p - 1, k);
    }
}

/// With no set bit at or below `p`, the highest set bit at or below `p` is -1.
proof fn lemma_highest_none(word: [u64; 4], p: int)
    requires
        forall|j: int| 0 <= j <= p ==> !word_bit(word, j),
    ensures
        highest_set_at_or_below(word, p) == -1,
    decreases p + 1,
{
    if p >= 0 {
        lemma_highest_none(word, p - 1);
    }
}

/// The lowest set bit at or above `p` is `k` when bit `k` is set and no bit in `[p, k)` is.
proof fn lemma_lowest_set(word: [u64; 4], p: int, k: int)
    requires
        p <= k <= 255,
        word_bit(word, k),
        forall|j: int| p <= j < k ==> !word_bit(word, j),
    ensures
        lowest_set_at_or_above(word, p) == k,
    decreases k - p,
{
    if p < k {
        lemma_lowest_set(word, p + 1, k);
    }
}

/// With no set bit at or above `p`, the lowest set bit at or above `p` is 256.
proof fn lemma_lowest_none(word: [u64; 4], p: int)
    requires
        p >= 0,
        forall|j: int| p <= j < 256 ==> !word_bit(word, j),
    ensures
        lowest_set_at_or_above(word, p) == 256,
    decreases 256 - p,
{
    if p <= 255 {
        lemma_lowest_none(word, p + 1);
    }
}

/// The bits of `word` at or below `bit_pos`.
fn mask_at_or_below(word: [u64; 4], bit_pos: u8) -> (masked: [u64; 4])
    ensures
        forall|j: int| 0 <= j < 256 ==> word_bit(masked, j) == (word_bit(word, j) && j <= bit_pos),
{
    let l = (bit_pos / 64) as usize;
    let b = (bit_pos % 64) as u64;
    assert(1u64 << b >= 1 && ((1u64 << b) - 1) + (1u64 << b) <= u64::MAX) by (bit_vector)
        requires
            b < 64,
    ;
    // all the 1s at or to the right of the current bit position
    let mask = ((1u64 << b) - 1) + (1u64 << b);
    let masked = [
        if 0 < l { word[0] } else if 0 == l { word[0] & mask } else { 0 },
        if 1 < l { word[1] } else if 1 == l { word[1] & mask } else { 0 },
        if 2 < l { word[2] } else if 2 == l { word[2] & mask } else { 0 },
        if 3 == l { word[3] & mask } else { 0 },
    ];
    proof {
        assert forall|j: int| 0 <= j < 256 implies word_bit(masked, j) == (word_bit(word, j) && j
            <= bit_pos) by {
            let jb = (j % 64) as u64;
            lemma_mask_at_or_below_bits(word[j / 64], b, jb);
            lemma_zero_limb_bits(jb);
        }
    }
    masked
}

/// The bits of `word` at or above `bit_pos`.
fn mask_at_or_above(word: [u64; 4], bit_pos: u8) -> (masked: [u64; 4])
    ensures
        forall|j: int| 0 <= j < 256 ==> word_bit(masked, j) == (word_bit(word, j) && j >= bit_pos),
{
    let l = (bit_pos / 64) as usize;
    let b = (bit_pos % 64) as u64;
    assert(1u64 << b >= 1) by (bit_vector)
        requires
            b < 64,
    ;
    // all the 1s at or to the left of the bit position
    let mask = !((1u64 << b) - 1);
    let masked = [
        if 0 == l { word[0] & mask } else { 0 },
        if 1 > l { word[1] } else if 1 == l { word[1] & mask } else { 0 },
        if 2 > l { word[2] } else if 2 == l { word[2] & mask } else { 0 },
        if 3 > l { word[3] } else if 3 == l { word[3] & mask } else { 0 },
    ];
    proof {
        assert forall|j: int| 0 <= j < 256 implies word_bit(masked, j) == (word_bit(word, j) && j
            >= bit_pos) by {
            let jb = (j % 64) as u64;
            lemma_mask_at_or_above_bits(word[j / 64], b, jb);
            lemma_zero_limb_bits(jb);
        }
    }
    masked
}

impl TickBitmapState {
    /// The initialized flag of bit `i` of the word.
    pub open spec fn is_initialized(&self, i: int) -> bool {
        word_bit(self.word, i)
    }

    /// Flips the initialized state for a given tick from false to true, or vice versa.
    ///
    /// # Arguments
    ///
    /// * `self` - The bitmap state corresponding to the tick's word position
    /// * `bit_pos` - The rightmost 8 bits of the tick
    pub fn flip_tick(&mut self, bit_pos: u8)
        ensures
            final(self).word == flip_bit(old(self).word, bit_pos as int),
            final(self).bump == old(self).bump,
            final(self).word_pos == old(self).word_pos,
            forall|i: int|
                0 <= i < 256 ==> final(self).is_initialized(i) == if i == bit_pos {
                    !old(self).is_initialized(i)
                } else {
                    old(self).is_initialized(i)
                },
    {
        let limb = (bit_pos / 64) as usize;
        let mask = 1u64 << (bit_pos % 64);
        self.word[limb] = self.word[limb] ^ mask;
        proof {
            assert(self.word =~= flip_bit(old(self).word, bit_pos as int));
            assert forall|i: int| 0 <= i < 256 implies self.is_initialized(i) == if i == bit_pos {
                !old(self).is_initialized(i)
            } else {
                old(self).is_initialized(i)
            } by {
                lemma_xor_bit(old(self).word[i / 64], (bit_pos % 64) as u64, (i % 64) as u64);
            }
        }
    }

    /// Returns the bit position for the next initialized tick contained in the same word
    /// as the tick that is either to the left (less than or equal to) or right (greater than)
    /// of the given bit position.
    ///
    /// With `lte`, the search covers the bits at or below `bit_pos` and `next` is the offset
    /// (zero or negative) of the highest set one, or of bit 0 when none is set.  Otherwise the
    /// search covers the bits at or above `bit_pos` and `next` is one plus the offset of the
    /// lowest set one, or of bit 255 when none is set.
    ///
    /// # Arguments
    ///
    /// * `self` - The mapping in which to compute the next initialized tick
    /// * `bit_pos` - The starting bit position
    /// * `lte` - Whether to search for the next initialized tick to the left (less than or equal
    /// to the starting tick)
    pub fn next_initialized_bit(&self, bit_pos: u8, lte: bool) -> (next_bit: NextBit)
        ensures
            lte ==> ({
                let h = highest_set_at_or_below(self.word, bit_pos as int);
                &&& next_bit.initialized == (h >= 0)
                &&& next_bit.next == if h >= 0 {
                    h - bit_pos
                } else {
                    -bit_pos
                }
            }),
            !lte ==> ({
                let l = lowest_set_at_or_above(self.word, bit_pos as int);
                &&& next_bit.initialized == (l <= 255)
                &&& next_bit.next == 1 + if l <= 255 {
                    l - bit_pos
                } else {
                    255 - bit_pos
                }
            }),
    {
        let word = self.word;
        if lte {
            // all the 1s at or to the right of the current bit_pos
            let masked = mask_at_or_below(word, bit_pos);

            // if there are no initialized ticks to the right of or at the current tick, return
            // rightmost in the word
            let initialized = masked[0] != 0 || masked[1] != 0 || masked[2] != 0 || masked[3]
                != 0;

            // overflow/underflow is possible, but prevented externally by limiting both
            // tick_spacing and tick
            let next = -(if initialized {
                let msb = most_significant_bit_u256(masked);
                proof {
                    lemma_highest_set(word, bit_pos as int, msb as int);
                }
                bit_pos - msb
            } else {
                proof {
                    assert forall|j: int| 0 <= j <= bit_pos implies !word_bit(word, j) by {
                        lemma_zero_limb_bits((j % 64) as u64);
                        assert(!word_bit(masked, j));
                    }
                    lemma_highest_none(word, bit_pos as int);
                }
                bit_pos
            } as i32);

            NextBit { next, initialized }
        } else {
            // all the 1s at or to the left of the bit_pos
            let masked = mask_at_or_above(word, bit_pos);

            // if there are no initialized ticks to the left of the current tick, return leftmost
            // in the word
            let initialized = masked[0] != 0 || masked[1] != 0 || masked[2] != 0 || masked[3]
                != 0;

            // overflow/underflow is possible, but prevented externally by limiting both
            // tick_spacing and tick
            let next = 1 + if initialized {
                let lsb = least_significant_bit_u256(masked);
                proof {
                    lemma_lowest_set(word, bit_pos as int, lsb as int);
                }
                lsb - bit_pos
            } else {
                proof {
                    assert forall|j: int| bit_pos <= j < 256 implies !word_bit(word, j) by {
                        lemma_zero_limb_bits((j % 64) as u64);
                        assert(!word_bit(masked, j));
                    }
                    lemma_lowest_none(word, bit_pos as int);
                }
                u8::MAX - bit_pos
            } as i32;

            NextBit { next, initialized }
        }
    }
}

/// Flipping the same tick twice restores the bitmap word: `flip_tick` is its own inverse.
pub proof fn lemma_flip_tick_twice(word: [u64; 4], bit_pos: u8)
    ensures
        flip_bit(flip_bit(word, bit_pos as int), bit_pos as int) == word,
{
    let b = (bit_pos % 64) as u64;
    let l = bit_pos as int / 64;
    let w = word[l];
    assert((w ^ (1u64 << b)) ^ (1u64 << b) == w) by (bit_vector);
    assert(flip_bit(flip_bit(word, bit_pos as int), bit_pos as int) =~= word);
}

/// Flips of two bits commute.
pub proof fn lemma_flip_bits_commute(word: [u64; 4], a: u8, b: u8)
    ensures
        flip_bit(flip_bit(word, a as int), b as int) == flip_bit(flip_bit(word, b as int), a as int),
{
    let ba = (a % 64) as u64;
    let bb = (b % 64) as u64;
    assert forall|w: u64| ((w ^ (1u64 << ba)) ^ (1u64 << bb)) == ((w ^ (1u64 << bb)) ^ (1u64 << ba)) by {
        assert(((w ^ (1u64 << ba)) ^ (1u64 << bb)) == ((w ^ (1u64 << bb)) ^ (1u64 << ba)))
            by (bit_vector);
    }
    assert(flip_bit(flip_bit(word, a as int), b as int) =~= flip_bit(flip_bit(word, b as int), a as int));
}

/// A tick whose bit was just flipped on is found by the search for the next initialized tick
/// from its own position, in either direction.
pub proof fn lemma_flipped_on_bit_is_found(word: [u64; 4], bit_pos: u8)
    requires
        !word_bit(word, bit_pos as int),
    ensures
        highest_set_at_or_below(flip_bit(word, bit_pos as int), bit_pos as int) == bit_pos,
        lowest_set_at_or_above(flip_bit(word, bit_pos as int), bit_pos as int) == bit_pos,
{
    let b = bit_pos as int;
    lemma_xor_bit(word[b / 64], (b % 64) as u64, (b % 64) as u64);
    assert(word_bit(flip_bit(word, b), b));
}

/// Flipping bit `b` of a word toggles bit `b` and leaves every other bit as it was.
pub proof fn lemma_flip_bit_toggles_only(word: [u64; 4], b: int, i: int)
    requires
        0 <= b < 256,
        0 <= i < 256,
    ensures
        word_bit(flip_bit(word, b), i) == (if i == b {
            !word_bit(word, i)
        } else {
            word_bit(word, i)
        }),
{
    let l = i / 64;
    if l == b / 64 {
        lemma_xor_bit(word[l], (b % 64) as u64, (i % 64) as u64);
    }
}

} // verus!
