use vstd::prelude::*;
use vstd::std_specs::bits::{u32_leading_zeros, axiom_u32_leading_zeros};

verus! {

/// Bit `j` of `m` is set.
pub open spec fn bit_at(m: u32, j: u32) -> bool {
    (m >> j) & 1u32 == 1u32
}

/// The highest set bit of `val`, which must not be 0.
pub fn first_set_bit(val: u32) -> (r: u32)
    requires
        val != 0,
    ensures
        r < 32,
        bit_at(val, r),
        forall|j: u32| r < j < 32 ==> !#[trigger] bit_at(val, j),
{
    proof {
        axiom_u32_leading_zeros(val);
        let lz = u32_leading_zeros(val);
        assert forall|j: u32| 31 - lz < j < 32 implies !#[trigger] bit_at(val, j) by {
            assert((val >> j) & 1u32 == 0u32);
        }
        let h = (31 - lz) as u32;
        assert((val >> h) & 1u32 != 0u32);
        assert((val >> h) & 1u32 != 0u32 ==> (val >> h) & 1u32 == 1u32) by (bit_vector);
    }
    31 - val.leading_zeros()
}

/// Clearing the set bit `h` of `m` clears just that bit and makes `m` smaller.
proof fn lemma_clear_bit(m: u32, h: u32)
    requires
        h < 32,
        bit_at(m, h),
    ensures
        (m ^ (1u32 << h)) < m,
        !bit_at(m ^ (1u32 << h), h),
        forall|j: u32| j < 32 && j != h ==> #[trigger] bit_at(m ^ (1u32 << h), j) == bit_at(m, j),
{
    assert((m ^ (1u32 << h)) < m) by (bit_vector) requires h < 32, (m >> h) & 1u32 == 1u32;
    assert(((m ^ (1u32 << h)) >> h) & 1u32 != 1u32) by (bit_vector) requires h < 32, (m >> h) & 1u32 == 1u32;
    assert forall|j: u32| j < 32 && j != h implies #[trigger] bit_at(m ^ (1u32 << h), j) == bit_at(m, j) by {
        assert((((m ^ (1u32 << h)) >> j) & 1u32 == 1u32) == (((m >> j) & 1u32) == 1u32)) by (bit_vector)
            requires h < 32, j < 32, j != h;
    }
}

/// The set bits of `mask`, highest first: the order in which the interrupt
/// handlers take the pending interrupts of one status register.
pub fn pending_bits(mask: u32) -> (r: Vec<u32>)
    ensures
        forall|k: int| 0 <= k < r@.len() ==> #[trigger] r@[k] < 32 && bit_at(mask, r@[k]),
        forall|k: int, l: int| 0 <= k < l < r@.len() ==> r@[k] > r@[l],
        forall|j: u32| j < 32 && bit_at(mask, j) ==> r@.contains(j),
{
    let mut m = mask;
    let mut r: Vec<u32> = Vec::new();
    while m != 0
        invariant
            forall|k: int| 0 <= k < r@.len() ==> #[trigger] r@[k] < 32 && bit_at(mask, r@[k]),
            forall|k: int, l: int| 0 <= k < l < r@.len() ==> r@[k] > r@[l],
            forall|k: int, j: u32| 0 <= k < r@.len() && j < 32 && bit_at(m, j) ==> r@[k] > j,
            forall|j: u32| j < 32 && bit_at(m, j) ==> bit_at(mask, j),
            forall|j: u32| j < 32 && bit_at(mask, j) && !bit_at(m, j) ==> r@.contains(j),
        decreases m,
    {
        let bit = first_set_bit(m);
        proof { lemma_clear_bit(m, bit); }
        let ghost old_r = r@;
        let ghost old_m = m;
        m = m ^ (1u32 << bit);
        r.push(bit);
        proof {
            assert forall|j: u32| j < 32 && bit_at(mask, j) && !bit_at(m, j) implies r@.contains(j) by {
                if j == bit {
                    assert(r@[r@.len() - 1] == j);
                } else {
                    assert(!bit_at(old_m, j));
                    let k = old_r.index_of(j);
                    assert(r@[k] == j);
                }
            }
            assert forall|k: int, j: u32| 0 <= k < r@.len() && j < 32 && bit_at(m, j) implies r@[k] > j by {
                assert(bit_at(old_m, j));
                if j > bit {
                    assert(!bit_at(old_m, j));
                }
            }
        }
    }
    proof {
        assert forall|j: u32| j < 32 implies !bit_at(m, j) by {
            assert((0u32 >> j) & 1u32 == 0u32) by (bit_vector);
        }
    }
    r
}

} // verus!
