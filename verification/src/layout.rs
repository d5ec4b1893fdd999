//! Layouts, blocks and the arithmetic of alignment.

use vstd::prelude::*;
use vstd::arithmetic::power2::{
    is_pow2, is_pow2_equiv, is_pow2_exists, lemma_pow2, lemma_pow2_unfold, pow2,
};
use vstd::layout::{signed_int_min_max_values, unsigned_int_max_values};
use vstd::arithmetic::div_mod::{
    lemma_fundamental_div_mod, lemma_mod_multiples_vanish, lemma_small_mod,
};

verus! {

/// The single error of the allocator contract: the request cannot be satisfied.
#[derive(Clone, Copy, Debug, PartialEq, Eq, Structural)]
pub struct AllocError;

/// A size and alignment pair that is not a layout.
#[derive(Clone, Copy, Debug, PartialEq, Eq, Structural)]
pub struct LayoutError;

/// Whether `size` and `align` form a layout: `align` is a power of two and
/// `size`, rounded up to a multiple of `align`, does not exceed `isize::MAX`.
pub open spec fn valid_layout(size: int, align: int) -> bool {
    &&& is_pow2(align)
    &&& 0 <= size <= isize::MAX - (align - 1)
}

/// The distance from `addr` up to the next multiple of `align`.
pub open spec fn padding_for(addr: int, align: int) -> int {
    (align - addr % align) % align
}

/// `addr` rounded up to the next multiple of `align`.
pub open spec fn align_up(addr: int, align: int) -> int {
    addr + padding_for(addr, align)
}

/// A requested size and alignment.
#[derive(Clone, Copy, Debug, PartialEq, Eq, Structural)]
pub struct Layout {
    size: usize,
    align: usize,
}

/// An address range handed out by an allocator.
#[derive(Clone, Copy, Debug, PartialEq, Eq, Structural)]
pub struct Block {
    /// Address of the first byte.
    pub addr: usize,
    /// Number of usable bytes, at least the size that was asked for.
    pub size: usize,
}

/// The outcome of a successful `grow` or `shrink`.
#[derive(Clone, Copy, Debug, PartialEq, Eq, Structural)]
pub struct Resized {
    /// The block that now stands for the allocation.
    pub block: Block,
    /// Number of bytes that the caller still has to copy from the start of
    /// the old block to the start of `block`, which may overlap it; zero
    /// when the block stayed in place.
    pub copy: usize,
}

/// The step of the induction behind the bit test for powers of two.
proof fn lemma_clear_lowest_bit_step(x: usize)
    requires
        x > 1,
    ensures
        (x & ((x - 1) as usize)) == 0 <==> (x % 2 == 0 && ((x / 2) & ((x / 2 - 1) as usize)) == 0),
{
    assert((x & ((x - 1) as usize)) == 0 <==> (x % 2 == 0 && ((x / 2) & ((x / 2 - 1) as usize))
        == 0))
        by (bit_vector)
        requires
            x > 1,
    ;
}

/// A nonzero machine word is a power of two exactly if clearing its lowest
/// set bit leaves nothing.
pub proof fn lemma_power_of_two_bits(x: usize)
    ensures
        is_pow2(x as int) <==> (x != 0 && (x & ((x - 1) as usize)) == 0),
    decreases x,
{
    reveal(is_pow2);
    if x == 0 {
    } else if x == 1 {
        assert((1usize & 0usize) == 0) by (bit_vector);
    } else {
        lemma_power_of_two_bits(x / 2);
        lemma_clear_lowest_bit_step(x);
    }
}

/// A power of two below twice another power of two is at most that one.
proof fn lemma_power_of_two_gap(n: int, m: int)
    requires
        is_pow2(n),
        is_pow2(m),
        n < 2 * m,
    ensures
        n <= m,
    decreases m,
{
    reveal(is_pow2);
    if m != 1 && n != 1 {
        lemma_power_of_two_gap(n / 2, m / 2);
    }
}

/// A power of two that fits in a machine word is at least one and at most
/// `isize::MAX + 1`.
pub proof fn lemma_power_of_two_bound(x: usize)
    requires
        is_pow2(x as int),
    ensures
        1 <= x,
        x - 1 <= isize::MAX,
{
    let top = (isize::BITS - 1) as nat;
    signed_int_min_max_values();
    unsigned_int_max_values();
    lemma_pow2(top);
    lemma_pow2_unfold(usize::BITS as nat);
    assert(is_pow2_exists(pow2(top) as int));
    is_pow2_equiv(pow2(top) as int);
    lemma_power_of_two_gap(x as int, isize::MAX + 1);
    assert(1 <= x) by {
        reveal(is_pow2);
    }
}

/// Of two powers of two the smaller divides the larger.
pub proof fn lemma_power_of_two_divides(a: int, b: int)
    requires
        is_pow2(a),
        is_pow2(b),
        a <= b,
    ensures
        b % a == 0,
    decreases a,
{
    reveal(is_pow2);
    if a == 1 {
        assert(b % 1 == 0);
    } else {
        assert(b > 1);
        lemma_power_of_two_divides(a / 2, b / 2);
        let k = (b / 2) / (a / 2);
        lemma_fundamental_div_mod(b / 2, a / 2);
        assert(b / 2 == (a / 2) * k);
        assert(b == a * k) by (nonlinear_arith)
            requires
                b / 2 == (a / 2) * k,
                a == 2 * (a / 2),
                b == 2 * (b / 2),
        ;
        lemma_mod_multiples_vanish(k, 0, a);
        assert(a * k == k * a) by (nonlinear_arith);
    }
}

/// Sums and differences of multiples of `w` are multiples of `w`.
pub proof fn lemma_multiples(x: int, y: int, w: int)
    requires
        0 < w,
        x % w == 0,
        y % w == 0,
    ensures
        (x + y) % w == 0,
        (x - y) % w == 0,
{
    lemma_fundamental_div_mod(x, w);
    lemma_fundamental_div_mod(y, w);
    let p = x / w;
    let q = y / w;
    assert(x + y == (p + q) * w + 0 && x - y == (p - q) * w + 0) by (nonlinear_arith)
        requires
            x == w * p,
            y == w * q,
    ;
    lemma_mod_multiples_vanish(p + q, 0, w);
    lemma_mod_multiples_vanish(p - q, 0, w);
}

/// An address aligned to a power of two is aligned to every smaller one.
pub proof fn lemma_aligned_to_smaller(addr: int, small: int, large: int)
    requires
        is_pow2(small),
        is_pow2(large),
        small <= large,
        addr % large == 0,
    ensures
        addr % small == 0,
{
    reveal(is_pow2);
    lemma_power_of_two_divides(small, large);
    lemma_fundamental_div_mod(addr, large);
    lemma_fundamental_div_mod(large, small);
    let k = addr / large;
    let j = large / small;
    assert(addr == small * (j * k)) by (nonlinear_arith)
        requires
            addr == large * k,
            large == small * j,
    ;
    lemma_mod_multiples_vanish(j * k, 0, small);
    assert(small * (j * k) == (j * k) * small) by (nonlinear_arith);
}

/// Padding is smaller than the alignment and leads to an aligned address.
pub proof fn lemma_padding(addr: int, align: int)
    requires
        0 <= addr,
        0 < align,
    ensures
        0 <= padding_for(addr, align) < align,
        align_up(addr, align) % align == 0,
        addr % align == 0 ==> padding_for(addr, align) == 0,
        padding_for(addr, align) == 0 ==> addr % align == 0,
{
    let r = addr % align;
    lemma_fundamental_div_mod(addr, align);
    if r == 0 {
        assert((align - 0) % align == 0) by {
            lemma_mod_multiples_vanish(1, 0, align);
        }
    } else {
        lemma_small_mod((align - r) as nat, align as nat);
        assert(padding_for(addr, align) == align - r);
        let q = addr / align;
        assert(addr + (align - r) == (q + 1) * align + 0) by (nonlinear_arith)
            requires
                addr == align * q + r,
        ;
        lemma_mod_multiples_vanish(q + 1, 0, align);
    }
}

/// Whether `x` is a power of two.
pub fn is_power_of_two(x: usize) -> (r: bool)
    ensures
        r == is_pow2(x as int),
{
    proof {
        lemma_power_of_two_bits(x);
    }
    x != 0 && (x & (x - 1)) == 0
}

impl Layout {
    /// The layout invariant: see [`valid_layout`].
    #[verifier::type_invariant]
    pub open spec fn wf(self) -> bool {
        valid_layout(self.spec_size() as int, self.spec_align() as int)
    }

    /// The requested number of bytes.
    pub closed spec fn spec_size(&self) -> usize {
        self.size
    }

    /// The requested alignment.
    pub closed spec fn spec_align(&self) -> usize {
        self.align
    }

    /// The pair of `size` and `align` as a layout; it is one exactly if
    /// [`valid_layout`] holds of the two.
    pub closed spec fn of(size: usize, align: usize) -> Layout {
        Layout { size, align }
    }

    /// A layout is the pair of its size and its alignment.
    pub proof fn lemma_of(size: usize, align: usize)
        ensures
            Layout::of(size, align).spec_size() == size,
            Layout::of(size, align).spec_align() == align,
    {
    }

    /// Two layouts of one size and one alignment are the same.
    pub proof fn lemma_same(self, other: Layout)
        requires
            self.spec_size() == other.spec_size(),
            self.spec_align() == other.spec_align(),
        ensures
            self == other,
    {
    }

    /// The layout of `size` bytes aligned to `align`, if there is one.
    pub fn from_size_align(size: usize, align: usize) -> (r: Result<Layout, LayoutError>)
        ensures
            r is Ok <==> valid_layout(size as int, align as int),
            r matches Ok(l) ==> l == Layout::of(size, align) && l.spec_size() == size
                && l.spec_align() == align && l.wf(),
    {
        if !is_power_of_two(align) {
            return Err(LayoutError);
        }
        proof {
            lemma_power_of_two_bound(align);
        }
        if size > (isize::MAX as usize) - (align - 1) {
            return Err(LayoutError);
        }
        Ok(Layout { size, align })
    }

    /// The layout of `size` bytes aligned to `align`, for a pair that is
    /// known to form one.
    pub fn from_size_align_unchecked(size: usize, align: usize) -> (r: Layout)
        requires
            valid_layout(size as int, align as int),
        ensures
            r == Layout::of(size, align),
            r.spec_size() == size,
            r.spec_align() == align,
            r.wf(),
    {
        Layout { size, align }
    }

    /// The requested number of bytes.
    #[verifier::when_used_as_spec(spec_size)]
    pub fn size(&self) -> (r: usize)
        ensures
            r == self.spec_size(),
    {
        self.size
    }

    /// The requested alignment.
    #[verifier::when_used_as_spec(spec_align)]
    pub fn align(&self) -> (r: usize)
        ensures
            r == self.spec_align(),
    {
        self.align
    }
}

} // verus!
