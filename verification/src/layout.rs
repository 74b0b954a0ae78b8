//! Where the values of a record lie in its storage.
//!
//! Storage is a run of bytes addressed from zero. A value of type `T` starts at the first
//! multiple of `align_of::<T>()` that is not below the end of the value before it.

use vstd::prelude::*;

verus! {

/// The least multiple of `align` that is not below `at`.
pub open spec fn round_up(at: nat, align: nat) -> nat
    recommends
        0 < align,
{
    (((at + align - 1) as nat / align) * align) as nat
}

/// The offset at which a `T` starts that is placed at or after `at`.
pub open spec fn start_of<T>(at: nat) -> nat {
    round_up(at, vstd::layout::align_of::<T>())
}

/// The offset just behind a `T` that is placed at or after `at`.
pub open spec fn end_of<T>(at: nat) -> nat {
    start_of::<T>(at) + vstd::layout::size_of::<T>()
}

/// Rounding up gives a multiple of the alignment and moves by less than the alignment.
pub proof fn law_round_up(at: nat, align: nat)
    requires
        0 < align,
    ensures
        round_up(at, align) % align == 0,
        at <= round_up(at, align) < at + align,
{
    let y = at + align - 1;
    vstd::arithmetic::div_mod::lemma_fundamental_div_mod(y, align as int);
    vstd::arithmetic::mul::lemma_mul_is_commutative(y / align as int, align as int);
    vstd::arithmetic::div_mod::lemma_mod_multiples_basic(y / align as int, align as int);
    vstd::arithmetic::div_mod::lemma_mod_bound(y, align as int);
}

/// No multiple of the alignment lies between an offset and the offset rounded up.
pub proof fn law_round_up_is_least(at: nat, align: nat, multiple: nat)
    requires
        0 < align,
        at <= multiple,
        multiple % align == 0,
    ensures
        round_up(at, align) <= multiple,
{
    law_round_up(at, align);
    let a = align as int;
    let up = round_up(at, align) as int;
    vstd::arithmetic::div_mod::lemma_fundamental_div_mod(multiple as int, a);
    vstd::arithmetic::div_mod::lemma_fundamental_div_mod(up, a);
    if up > multiple {
        assert(up / a > multiple as int / a) by (nonlinear_arith)
            requires
                a * (up / a) > a * (multiple as int / a),
                a > 0,
        ;
        assert(a * (up / a) >= a * (multiple as int / a) + a) by (nonlinear_arith)
            requires
                up / a >= multiple as int / a + 1,
                a > 0,
        ;
    }
}

/// A value starts at a multiple of its alignment, no further on than it must be, and ends behind as
/// many bytes as its type has.
pub proof fn law_placed_value<T>(at: nat)
    ensures
        start_of::<T>(at) % vstd::layout::align_of::<T>() == 0,
        at <= start_of::<T>(at) < at + vstd::layout::align_of::<T>(),
        end_of::<T>(at) - start_of::<T>(at) == vstd::layout::size_of::<T>(),
{
    broadcast use vstd::layout::align_nonzero;

    law_round_up(at, vstd::layout::align_of::<T>());
}

/// A value that is placed at a multiple of its size needs no padding.
pub proof fn law_no_padding_at_multiple_of_size<T>(at: nat)
    requires
        0 < vstd::layout::size_of::<T>(),
        at % vstd::layout::size_of::<T>() == 0,
    ensures
        start_of::<T>(at) == at,
{
    broadcast use vstd::layout::align_properties, vstd::layout::align_nonzero;

    let size = vstd::layout::size_of::<T>() as int;
    let align = vstd::layout::align_of::<T>() as int;
    vstd::arithmetic::div_mod::lemma_fundamental_div_mod(size, align);
    vstd::arithmetic::div_mod::lemma_fundamental_div_mod(at as int, size);
    let times = (size / align) * (at as int / size);
    assert(at == times * align) by (nonlinear_arith)
        requires
            size == align * (size / align),
            at == size * (at as int / size),
            times == (size / align) * (at as int / size),
    ;
    vstd::arithmetic::div_mod::lemma_mod_multiples_basic(times, align);
    law_round_up(at, align as nat);
    law_round_up_is_least(at, align as nat, at);
}

/// Clearing the bits below a power of two rounds down to a multiple of it.
proof fn lemma_mask_rounds_down(y: usize, align: usize)
    requires
        vstd::arithmetic::power2::is_pow2(align as int),
    ensures
        align > 0,
        y & !((align - 1) as usize) == (y / align) * align,
        (usize::MAX + 1) % (align as int) == 0,
{
    vstd::arithmetic::power2::is_pow2_equiv(align as int);
    let n = choose|n: nat| vstd::arithmetic::power::pow(2, n) == align;
    vstd::arithmetic::power2::lemma_pow2(n);
    vstd::arithmetic::power2::lemma_pow2_pos(n);
    vstd::layout::unsigned_int_max_values();
    let bits = usize::BITS as nat;
    if n >= bits {
        if n > bits {
            vstd::arithmetic::power2::lemma_pow2_strictly_increases(bits, n);
        }
        assert(false);
    }
    vstd::bits::lemma_usize_low_bits_mask_is_mod(y, n);
    let m = (align - 1) as usize;
    assert(y & !m == y - (y & m)) by (bit_vector);
    vstd::arithmetic::div_mod::lemma_fundamental_div_mod(y as int, align as int);
    vstd::arithmetic::mul::lemma_mul_is_commutative(y as int / align as int, align as int);
    vstd::arithmetic::power2::lemma_pow2_adds((bits - n) as nat, n);
    vstd::arithmetic::div_mod::lemma_mod_multiples_basic(
        vstd::arithmetic::power2::pow2((bits - n) as nat) as int,
        align as int,
    );
}

/// Moves an offset forward to where a `T` can start.
pub fn adjust_alignment<T>(ptr: usize) -> (start: usize)
    requires
        start_of::<T>(ptr as nat) <= usize::MAX,
    ensures
        start == start_of::<T>(ptr as nat),
{
    let align = core::mem::align_of::<T>();
    proof {
        broadcast use vstd::layout::align_properties;

        lemma_mask_rounds_down(0, align);
        law_round_up(ptr as nat, align as nat);
        lemma_next_multiple_fits(start_of::<T>(ptr as nat), align);
        lemma_mask_rounds_down((ptr + (align - 1)) as usize, align);
    }
    (ptr + (align - 1)) & !(align - 1)
}

/// Behind a multiple of `align` that a `usize` can hold there is room for `align - 1` more.
proof fn lemma_next_multiple_fits(at: nat, align: usize)
    requires
        align > 0,
        at % (align as nat) == 0,
        at <= usize::MAX,
        (usize::MAX + 1) % (align as int) == 0,
    ensures
        at + align - 1 <= usize::MAX,
{
    let a = align as int;
    let top = usize::MAX + 1;
    vstd::arithmetic::div_mod::lemma_fundamental_div_mod(at as int, a);
    vstd::arithmetic::div_mod::lemma_fundamental_div_mod(top, a);
    assert(at as int / a < top / a) by (nonlinear_arith)
        requires
            a * (at as int / a) < a * (top / a),
            a > 0,
    ;
    assert(a * (at as int / a) + a <= a * (top / a)) by (nonlinear_arith)
        requires
            at as int / a + 1 <= top / a,
            a > 0,
    ;
}

/// Grows the size of a record's storage by one `T`, with the padding that its alignment asks for.
pub fn add_field_size<T>(size: &mut usize)
    requires
        end_of::<T>(*old(size) as nat) <= usize::MAX,
    ensures
        *final(size) == end_of::<T>(*old(size) as nat),
{
    // Align the start of the field
    *size = adjust_alignment::<T>(*size);
    *size += core::mem::size_of::<T>();
}

} // verus!
