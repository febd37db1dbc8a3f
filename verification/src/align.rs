//! Alignment arithmetic: rounding byte sizes up to a boundary, and the
//! page-size policy that places the data region of a mapped file.

use vstd::arithmetic::div_mod::{
    lemma_fundamental_div_mod, lemma_mod_bound, lemma_mod_multiples_basic,
};
use vstd::prelude::*;

verus! {

/// The host page size: every mapping offset must be a multiple of it.
pub const PAGE_SIZE: u64 = 4096;

/// The smallest multiple of `align` that is at least `val`.
pub open spec fn spec_align_up(val: int, align: int) -> int
    recommends
        1 <= align,
{
    ((val + align - 1) / align) * align
}

/// `spec_align_up` really is the smallest multiple of `align` at or above
/// `val`: it is a multiple, it is at least `val`, and it is less than one
/// whole `align` above `val`.
pub proof fn lemma_align_up_bounds(val: int, align: int)
    requires
        0 <= val,
        1 <= align,
    ensures
        spec_align_up(val, align) % align == 0,
        val <= spec_align_up(val, align) < val + align,
{
    let x = val + align - 1;
    let q = x / align;
    lemma_fundamental_div_mod(x, align);
    lemma_mod_bound(x, align);
    lemma_mod_multiples_basic(q, align);
    assert(align * q == q * align) by (nonlinear_arith);
    assert(spec_align_up(val, align) == x - x % align);
}

/// Round `val` up to the next multiple of `align`.
pub fn align_up(val: u64, align: u64) -> (r: u64)
    requires
        1 <= align,
        val + align - 1 <= u64::MAX,
    ensures
        r == spec_align_up(val as int, align as int),
        r % align == 0,
        val <= r < val + align,
{
    proof {
        lemma_align_up_bounds(val as int, align as int);
    }
    let x = val + (align - 1);
    (x / align) * align
}

/// Round a byte size up to the next page boundary.
pub fn page_align(val: u64) -> (r: u64)
    requires
        val <= u64::MAX - (PAGE_SIZE - 1),
    ensures
        r == spec_align_up(val as int, PAGE_SIZE as int),
        r % PAGE_SIZE == 0,
        val <= r < val + PAGE_SIZE,
{
    align_up(val, PAGE_SIZE)
}

} // verus!
