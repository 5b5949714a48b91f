//! Decomposing a change bitmask into the single-bit values it carries.
//!
//! A hierarchy-change notification packs several simultaneous changes into one
//! unsigned bitmask. The watcher reacts to each change separately, so the mask
//! is scanned from the most significant bit down and every set bit is yielded
//! on its own, as a cursor-driven step function rather than a prebuilt list.

use vstd::prelude::*;

verus! {

/// The bit of `v` at position `i`, kept in place: either `0` or `1 << i`.
pub open spec fn bit_at(v: u32, i: nat) -> u32 {
    v & (1u32 << (i as u32))
}

/// The decomposition of the low `w` bits of `v`: every set bit as a
/// single-bit mask value, ordered from the most significant down.
pub open spec fn decomposition(v: u32, w: nat) -> Seq<u32>
    decreases w,
{
    if w == 0 {
        Seq::empty()
    } else if bit_at(v, (w - 1) as nat) != 0 {
        seq![bit_at(v, (w - 1) as nat)] + decomposition(v, (w - 1) as nat)
    } else {
        decomposition(v, (w - 1) as nat)
    }
}

/// Bitwise OR over all elements of a sequence.
pub open spec fn or_all(s: Seq<u32>) -> u32
    decreases s.len(),
{
    if s.len() == 0 {
        0u32
    } else {
        s[0] | or_all(s.drop_first())
    }
}

/// How many of the low `w` bits of `v` are set.
pub open spec fn count_bits(v: u32, w: nat) -> nat
    decreases w,
{
    if w == 0 {
        0
    } else {
        count_bits(v, (w - 1) as nat) + if bit_at(v, (w - 1) as nat) != 0 {
            1nat
        } else {
            0nat
        }
    }
}

/// A mask with exactly one bit set.
pub open spec fn is_single_bit(m: u32) -> bool {
    m != 0 && m & ((m - 1) as u32) == 0
}

/// The mask with exactly the low `w` bits set.
pub open spec fn low_mask(w: nat) -> u32 {
    if w >= 32 {
        0xffff_ffffu32
    } else {
        ((1u32 << (w as u32)) - 1) as u32
    }
}

/// The cursor's starting mask for width `w`: the single bit at position
/// `w - 1`, or zero for an exhausted cursor.
pub open spec fn start_mask(w: nat) -> u32 {
    if w == 0 {
        0u32
    } else {
        1u32 << ((w - 1) as u32)
    }
}

proof fn lemma_low_mask_step(w: nat)
    requires
        0 < w <= 32,
    ensures
        low_mask(w) == low_mask((w - 1) as nat) | start_mask(w),
{
    let k = ((w - 1) as nat) as u32;
    if w == 32 {
        assert(0xffff_ffffu32 == (((1u32 << 31u32) - 1) as u32 | (1u32 << 31u32))) by (bit_vector);
    } else {
        assert(k < 31 ==> ((1u32 << ((k + 1) as u32)) - 1) as u32 == (((1u32 << k) - 1) as u32
            | (1u32 << k))) by (bit_vector);
    }
}

proof fn lemma_or_cons(b: u32, s: Seq<u32>)
    ensures
        or_all(seq![b] + s) == (b | or_all(s)),
{
    let t = seq![b] + s;
    assert(t[0] == b);
    assert(t.drop_first() =~= s);
}

proof fn lemma_decomposition_or_low(v: u32, w: nat)
    requires
        w <= 32,
    ensures
        or_all(decomposition(v, w)) == (v & low_mask(w)),
    decreases w,
{
    if w == 0 {
        assert((1u32 << 0u32) - 1 == 0 && (v & 0u32) == 0) by (bit_vector);
    } else {
        let k = (w - 1) as nat;
        let ku = k as u32;
        let lm = low_mask(k);
        lemma_decomposition_or_low(v, k);
        lemma_low_mask_step(w);
        if bit_at(v, k) != 0 {
            lemma_or_cons(bit_at(v, k), decomposition(v, k));
            assert(((v & (1u32 << ku)) | (v & lm)) == (v & (lm | (1u32 << ku)))) by (bit_vector);
        } else {
            assert(v & (1u32 << ku) == 0 ==> (v & lm) == (v & (lm | (1u32 << ku))))
                by (bit_vector);
        }
    }
}

/// Law: the decomposition is complete. OR-ing the yielded single-bit values
/// back together reconstitutes the decomposed value, for every value that
/// fits the width; in particular zero decomposes to an empty sequence.
pub proof fn lemma_decomposition_or(v: u32, w: nat)
    requires
        (w == 8 && v <= 0xff) || (w == 16 && v <= 0xffff) || w == 32,
    ensures
        or_all(decomposition(v, w)) == v,
{
    lemma_decomposition_or_low(v, w);
    assert(((1u32 << 8u32) - 1) as u32 == 0xffu32 && ((1u32 << 16u32) - 1) as u32 == 0xffffu32
        && (v <= 0xff ==> (v & 0xffu32) == v) && (v <= 0xffff ==> (v & 0xffffu32) == v) && (v
        & 0xffff_ffffu32) == v) by (bit_vector);
}

/// Law: the decomposition has one element per set bit: its length is the
/// population count of the low `w` bits of the value.
pub proof fn lemma_decomposition_count(v: u32, w: nat)
    requires
        w <= 32,
    ensures
        decomposition(v, w).len() == count_bits(v, w),
    decreases w,
{
    if w > 0 {
        lemma_decomposition_count(v, (w - 1) as nat);
    }
}

/// Law: decomposing zero yields the empty sequence, at any width.
pub proof fn lemma_decomposition_zero(w: nat)
    requires
        w <= 32,
    ensures
        decomposition(0u32, w) == Seq::<u32>::empty(),
    decreases w,
{
    if w > 0 {
        lemma_decomposition_zero((w - 1) as nat);
        let ku = ((w - 1) as nat) as u32;
        assert(0u32 & (1u32 << ku) == 0) by (bit_vector);
    }
}

proof fn lemma_decomposition_shape(v: u32, w: nat)
    requires
        w <= 32,
    ensures
        forall|i: int|
            0 <= i < decomposition(v, w).len() ==> is_single_bit(
                #[trigger] decomposition(v, w)[i],
            ) && (decomposition(v, w)[i] & v) == decomposition(v, w)[i] && decomposition(v, w)[i]
                <= start_mask(w),
        forall|i: int, j: int|
            0 <= i < j < decomposition(v, w).len() ==> decomposition(v, w)[i] > decomposition(
                v,
                w,
            )[j],
    decreases w,
{
    if w > 0 {
        let k = (w - 1) as nat;
        let ku = k as u32;
        lemma_decomposition_shape(v, k);
        let rest = decomposition(v, k);
        let s = decomposition(v, w);
        assert(ku < 32 ==> ((v & (1u32 << ku)) == 0 || ((v & (1u32 << ku)) == (1u32 << ku) && (1u32
            << ku) != 0 && ((1u32 << ku) & (((1u32 << ku) - 1) as u32)) == 0))) by (bit_vector);
        assert(((v & (1u32 << ku)) & v) == (v & (1u32 << ku))) by (bit_vector);
        assert(ku < 32 ==> 0u32 < (1u32 << ku)) by (bit_vector);
        assert(0 < ku < 32 ==> (1u32 << ((ku - 1) as u32)) < (1u32 << ku)) by (bit_vector);
        assert(start_mask(k) < (1u32 << ku));
        assert(start_mask(w) == (1u32 << ku));
        if bit_at(v, k) != 0 {
            let b = bit_at(v, k);
            assert(s == seq![b] + rest);
            assert(s[0] == b);
            assert(b == (1u32 << ku));
            assert forall|i: int|
                0 <= i < s.len() implies is_single_bit(s[i]) && (s[i] & v) == s[i] && s[i]
                <= start_mask(w) by {
                if i > 0 {
                    assert(s[i] == rest[i - 1]);
                    assert(rest[i - 1] <= start_mask(k));
                }
            }
            assert forall|i: int, j: int| 0 <= i < j < s.len() implies s[i] > s[j] by {
                assert(s[j] == rest[j - 1]);
                assert(rest[j - 1] <= start_mask(k));
                if i > 0 {
                    assert(s[i] == rest[i - 1]);
                }
            }
        } else {
            assert(s == rest);
            assert forall|i: int|
                0 <= i < s.len() implies is_single_bit(s[i]) && (s[i] & v) == s[i] && s[i]
                <= start_mask(w) by {
                assert(rest[i] <= start_mask(k));
            }
        }
    }
}

/// Law: each yielded element is a single set bit of the decomposed value.
pub proof fn lemma_decomposition_single_bits(v: u32, w: nat)
    requires
        w <= 32,
    ensures
        forall|i: int|
            0 <= i < decomposition(v, w).len() ==> is_single_bit(
                #[trigger] decomposition(v, w)[i],
            ) && (decomposition(v, w)[i] & v) == decomposition(v, w)[i],
{
    lemma_decomposition_shape(v, w);
}

/// Law: the decomposition is strictly descending, element by element; since
/// every element is a single bit, the order is descending by bit position.
pub proof fn lemma_decomposition_descending(v: u32, w: nat)
    requires
        w <= 32,
    ensures
        forall|i: int, j: int|
            0 <= i < j < decomposition(v, w).len() ==> #[trigger] decomposition(v, w)[i]
                > #[trigger] decomposition(v, w)[j],
{
    lemma_decomposition_shape(v, w);
}

proof fn lemma_single_bits_distinct_disjoint(a: u32, b: u32)
    by (bit_vector)
    requires
        a != 0,
        a & ((a - 1) as u32) == 0,
        b != 0,
        b & ((b - 1) as u32) == 0,
        a != b,
    ensures
        a & b == 0,
{
}

/// Law: distinct elements of one decomposition are pairwise disjoint: no two
/// of them share a bit.
pub proof fn lemma_decomposition_disjoint(v: u32, w: nat)
    requires
        w <= 32,
    ensures
        forall|i: int, j: int|
            0 <= i < decomposition(v, w).len() && 0 <= j < decomposition(v, w).len() && i != j
                ==> (#[trigger] decomposition(v, w)[i] & #[trigger] decomposition(v, w)[j]) == 0,
{
    lemma_decomposition_shape(v, w);
    let s = decomposition(v, w);
    assert forall|i: int, j: int|
        0 <= i < s.len() && 0 <= j < s.len() && i != j implies (s[i] & s[j]) == 0 by {
        if i < j {
            lemma_single_bits_distinct_disjoint(s[i], s[j]);
        } else {
            let a = s[i];
            let b = s[j];
            lemma_single_bits_distinct_disjoint(b, a);
            assert((b & a) == (a & b)) by (bit_vector);
        }
    }
}

proof fn lemma_start_mask_injective(w1: nat, w2: nat)
    requires
        w1 <= 32,
        w2 <= 32,
        start_mask(w1) == start_mask(w2),
    ensures
        w1 == w2,
{
    if w1 == 0 && w2 != 0 {
        let b = ((w2 - 1) as nat) as u32;
        assert(b < 32 ==> (1u32 << b) != 0) by (bit_vector);
    } else if w1 != 0 && w2 == 0 {
        let a = ((w1 - 1) as nat) as u32;
        assert(a < 32 ==> (1u32 << a) != 0) by (bit_vector);
    } else if w1 != 0 && w2 != 0 {
        let a = ((w1 - 1) as nat) as u32;
        let b = ((w2 - 1) as nat) as u32;
        assert(a < 32 && b < 32 && (1u32 << a) == (1u32 << b) ==> a == b) by (bit_vector);
    }
}

/// A bitmask together with a scanning cursor. Stepping it yields each set bit
/// of the mask as its own single-bit value, most significant first.
pub struct IterableMask {
    value: u32,
    curr_mask: u32,
}

impl IterableMask {
    /// The cursor stands at the top bit of some width, or is exhausted.
    pub closed spec fn wf(self) -> bool {
        exists|w: nat| w <= 32 && self.curr_mask == start_mask(w)
    }

    /// The width still to scan: bit positions below it remain to be visited.
    pub closed spec fn width(self) -> nat {
        choose|w: nat| w <= 32 && self.curr_mask == start_mask(w)
    }

    /// The single-bit values this mask will still yield, in order.
    pub closed spec fn remaining(self) -> Seq<u32> {
        decomposition(self.value, self.width())
    }

    /// Start scanning a 32-bit mask, from bit 31 down.
    pub fn from_u32(value: u32) -> (r: IterableMask)
        ensures
            r.wf(),
            r.remaining() == decomposition(value, 32),
    {
        let r = IterableMask { value, curr_mask: 0x8000_0000u32 };
        proof {
            assert(1u32 << 31u32 == 0x8000_0000u32) by (bit_vector);
            lemma_width_pins(r, 32);
        }
        r
    }

    /// Start scanning a 16-bit mask, from bit 15 down.
    pub fn from_u16(value: u16) -> (r: IterableMask)
        ensures
            r.wf(),
            r.remaining() == decomposition(value as u32, 16),
    {
        let r = IterableMask { value: value as u32, curr_mask: 0x8000u32 };
        proof {
            assert(1u32 << 15u32 == 0x8000u32) by (bit_vector);
            lemma_width_pins(r, 16);
        }
        r
    }

    /// Start scanning an 8-bit mask, from bit 7 down.
    pub fn from_u8(value: u8) -> (r: IterableMask)
        ensures
            r.wf(),
            r.remaining() == decomposition(value as u32, 8),
    {
        let r = IterableMask { value: value as u32, curr_mask: 0x80u32 };
        proof {
            assert(1u32 << 7u32 == 0x80u32) by (bit_vector);
            lemma_width_pins(r, 8);
        }
        r
    }

    /// Yield the next set bit of the mask, most significant first, advancing
    /// the cursor past it; `None` once no set bit is left.
    #[verifier::loop_isolation(false)]
    pub fn next(&mut self) -> (r: Option<u32>)
        requires
            old(self).wf(),
        ensures
            final(self).wf(),
            old(self).remaining().len() == 0 ==> r is None && final(self).remaining().len() == 0,
            old(self).remaining().len() > 0 ==> r == Some(old(self).remaining()[0])
                && final(self).remaining() == old(self).remaining().drop_first(),
    {
        let ghost pre = self.remaining();
        let ghost v0 = self.value;
        let ghost mut w: nat = self.width();
        proof {
            assert(exists|w0: nat| w0 <= 32 && self.curr_mask == start_mask(w0));
        }
        loop
            invariant
                self.value == v0,
                w <= 32,
                self.curr_mask == start_mask(w),
                decomposition(v0, w) == pre,
            decreases w,
        {
            let bit: u32 = self.curr_mask & self.value;
            self.curr_mask = self.curr_mask >> 1;
            proof {
                if w == 0 {
                    assert((0u32 & v0) == 0 && (0u32 >> 1u32) == 0) by (bit_vector);
                } else {
                    let ku = ((w - 1) as nat) as u32;
                    assert(ku < 32 ==> ((1u32 << ku) & v0) == (v0 & (1u32 << ku))) by (bit_vector);
                    assert(ku == 0 ==> ((1u32 << ku) >> 1u32) == 0u32) by (bit_vector);
                    assert(0 < ku < 32 ==> ((1u32 << ku) >> 1u32) == (1u32 << ((ku - 1) as u32))
                        && (1u32 << ((ku - 1) as u32)) != 0) by (bit_vector);
                    w = (w - 1) as nat;
                }
            }
            if bit != 0 {
                proof {
                    let rest = decomposition(v0, w);
                    assert(pre == seq![bit] + rest);
                    assert(pre[0] == bit);
                    assert(pre.drop_first() =~= rest);
                    lemma_width_pins(*self, w);
                }
                return Some(bit);
            }
            if self.curr_mask == 0 {
                proof {
                    if w != 0 {
                        let ku = ((w - 1) as nat) as u32;
                        assert(ku < 32 ==> (1u32 << ku) != 0) by (bit_vector);
                    }
                    assert(w == 0);
                    assert(pre.len() == 0);
                    lemma_width_pins(*self, 0);
                }
                return None;
            }
        }
    }

    /// Drain the cursor: every remaining single-bit value, in order.
    pub fn collect_remaining(&mut self) -> (out: Vec<u32>)
        requires
            old(self).wf(),
        ensures
            final(self).wf(),
            out@ == old(self).remaining(),
            final(self).remaining().len() == 0,
    {
        let ghost pre = self.remaining();
        let mut out: Vec<u32> = Vec::new();
        loop
            invariant
                self.wf(),
                pre == old(self).remaining(),
                out@ + self.remaining() == pre,
            ensures
                self.wf(),
                out@ + self.remaining() == pre,
                self.remaining().len() == 0,
            decreases self.remaining().len(),
        {
            match self.next() {
                Some(bit) => {
                    out.push(bit);
                    proof {
                        assert(out@ + self.remaining() =~= pre);
                    }
                },
                None => {
                    proof {
                        assert(out@ =~= pre);
                    }
                    break;
                },
            }
        }
        out
    }
}

/// A cursor standing exactly at the top bit for width `w` scans that width.
proof fn lemma_width_pins(m: IterableMask, w: nat)
    requires
        w <= 32,
        m.curr_mask == start_mask(w),
    ensures
        m.wf(),
        m.width() == w,
        m.remaining() == decomposition(m.value, w),
{
    assert(m.wf());
    let w0 = m.width();
    assert(w0 <= 32 && m.curr_mask == start_mask(w0));
    lemma_start_mask_injective(w0, w);
}

} // verus!
