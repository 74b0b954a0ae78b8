//! Numbers in storage.
//!
//! A number is stored as the bytes of an unsigned word of its own size, least significant byte
//! first, at an offset that its alignment divides.

use crate::layout;
use vstd::prelude::*;

verus! {

/// How many words of `width` bytes there are.
pub open spec fn capacity(width: nat) -> nat
    decreases width,
{
    if width == 0 {
        1
    } else {
        256 * capacity((width - 1) as nat)
    }
}

/// The word in the `width` bytes from `at` on.
pub open spec fn word_at(bytes: Seq<u8>, at: int, width: nat) -> nat
    decreases width,
{
    if width == 0 {
        0
    } else {
        bytes[at] as nat + 256 * word_at(bytes, at + 1, (width - 1) as nat)
    }
}

/// The number of type `T` that is stored at or after `at`.
pub open spec fn scalar_at<T: Scalar>(bytes: Seq<u8>, at: nat) -> T {
    T::of_word(
        word_at(bytes, layout::start_of::<T>(at) as int, vstd::layout::size_of::<T>()),
    )
}

/// A number that can be stored.
pub trait Scalar: Copy {
    /// The word that is stored for the number.
    spec fn word(self) -> nat;

    /// The number that a word stands for.
    spec fn of_word(word: nat) -> Self;

    /// A number of this type takes between one and sixteen bytes.
    proof fn lemma_width()
        ensures
            1 <= vstd::layout::size_of::<Self>() <= 16,
    ;

    /// The word of a number fits into the size of its type, and stands for that number.
    proof fn lemma_word(value: Self)
        ensures
            value.word() < capacity(vstd::layout::size_of::<Self>()),
            Self::of_word(value.word()) == value,
    ;

    /// Gives the word that is stored for the number.
    fn to_word(self) -> (word: u128)
        ensures
            word == self.word(),
    ;

    /// Gives the number that a word stands for.
    fn from_word(word: u128) -> (value: Self)
        ensures
            value == Self::of_word(word as nat),
    ;
}

/// How many words of the usual widths there are.
pub proof fn lemma_capacities()
    ensures
        capacity(1) == 0x100,
        capacity(4) == 0x1_0000_0000,
        capacity(8) == 0x1_0000_0000_0000_0000,
        capacity(16) == 0x1_0000_0000_0000_0000_0000_0000_0000_0000,
{
    reveal_with_fuel(capacity, 17);
}

impl Scalar for bool {
    open spec fn word(self) -> nat {
        if self {
            1
        } else {
            0
        }
    }

    open spec fn of_word(word: nat) -> bool {
        word != 0
    }

    proof fn lemma_width() {
        broadcast use vstd::layout::layout_of_primitives;

    }

    proof fn lemma_word(value: bool) {
        broadcast use vstd::layout::layout_of_primitives;

        lemma_capacities();
    }

    fn to_word(self) -> (word: u128) {
        if self {
            1
        } else {
            0
        }
    }

    fn from_word(word: u128) -> (value: bool) {
        word != 0
    }
}

impl Scalar for u32 {
    open spec fn word(self) -> nat {
        self as nat
    }

    open spec fn of_word(word: nat) -> u32 {
        word as u32
    }

    proof fn lemma_width() {
        broadcast use vstd::layout::layout_of_primitives;

    }

    proof fn lemma_word(value: u32) {
        broadcast use vstd::layout::layout_of_primitives;

        lemma_capacities();
    }

    fn to_word(self) -> (word: u128) {
        self as u128
    }

    fn from_word(word: u128) -> (value: u32) {
        word as u32
    }
}

impl Scalar for i32 {
    open spec fn word(self) -> nat {
        (self as u32) as nat
    }

    open spec fn of_word(word: nat) -> i32 {
        (word as u32) as i32
    }

    proof fn lemma_width() {
        broadcast use vstd::layout::layout_of_primitives;

    }

    proof fn lemma_word(value: i32) {
        broadcast use vstd::layout::layout_of_primitives;

        lemma_capacities();
        assert((value as u32) as i32 == value) by (bit_vector);
    }

    fn to_word(self) -> (word: u128) {
        (self as u32) as u128
    }

    fn from_word(word: u128) -> (value: i32) {
        (word as u32) as i32
    }
}

impl Scalar for u64 {
    open spec fn word(self) -> nat {
        self as nat
    }

    open spec fn of_word(word: nat) -> u64 {
        word as u64
    }

    proof fn lemma_width() {
        broadcast use vstd::layout::layout_of_primitives;

    }

    proof fn lemma_word(value: u64) {
        broadcast use vstd::layout::layout_of_primitives;

        lemma_capacities();
    }

    fn to_word(self) -> (word: u128) {
        self as u128
    }

    fn from_word(word: u128) -> (value: u64) {
        word as u64
    }
}

impl Scalar for i64 {
    open spec fn word(self) -> nat {
        (self as u64) as nat
    }

    open spec fn of_word(word: nat) -> i64 {
        (word as u64) as i64
    }

    proof fn lemma_width() {
        broadcast use vstd::layout::layout_of_primitives;

    }

    proof fn lemma_word(value: i64) {
        broadcast use vstd::layout::layout_of_primitives;

        lemma_capacities();
        assert((value as u64) as i64 == value) by (bit_vector);
    }

    fn to_word(self) -> (word: u128) {
        (self as u64) as u128
    }

    fn from_word(word: u128) -> (value: i64) {
        (word as u64) as i64
    }
}

impl Scalar for usize {
    open spec fn word(self) -> nat {
        self as nat
    }

    open spec fn of_word(word: nat) -> usize {
        word as usize
    }

    proof fn lemma_width() {
        broadcast use vstd::layout::layout_of_primitives;

    }

    proof fn lemma_word(value: usize) {
        broadcast use vstd::layout::layout_of_primitives;

        lemma_capacities();
        vstd::layout::unsigned_int_max_values();
        vstd::arithmetic::power2::lemma2_to64();
    }

    fn to_word(self) -> (word: u128) {
        self as u128
    }

    fn from_word(word: u128) -> (value: usize) {
        word as usize
    }
}

impl Scalar for u128 {
    open spec fn word(self) -> nat {
        self as nat
    }

    open spec fn of_word(word: nat) -> u128 {
        word as u128
    }

    proof fn lemma_width() {
        broadcast use vstd::layout::layout_of_primitives;

        assert(vstd::layout::size_of::<u64>() == 8);
    }

    proof fn lemma_word(value: u128) {
        broadcast use vstd::layout::layout_of_primitives;

        assert(vstd::layout::size_of::<u64>() == 8);
        lemma_capacities();
    }

    fn to_word(self) -> (word: u128) {
        self
    }

    fn from_word(word: u128) -> (value: u128) {
        word
    }
}

impl Scalar for i128 {
    open spec fn word(self) -> nat {
        (self as u128) as nat
    }

    open spec fn of_word(word: nat) -> i128 {
        (word as u128) as i128
    }

    proof fn lemma_width() {
        broadcast use vstd::layout::layout_of_primitives;

        assert(vstd::layout::size_of::<u64>() == 8);
    }

    proof fn lemma_word(value: i128) {
        broadcast use vstd::layout::layout_of_primitives;

        assert(vstd::layout::size_of::<u64>() == 8);
        lemma_capacities();
        assert((value as u128) as i128 == value) by (bit_vector);
    }

    fn to_word(self) -> (word: u128) {
        self as u128
    }

    fn from_word(word: u128) -> (value: i128) {
        word as i128
    }
}

/// A word is the sum of its bytes, each worth 256 times the one before it.
pub proof fn law_word_of_bytes(bytes: Seq<u8>, at: int, width: nat)
    ensures
        word_at(bytes, at, 0) == 0,
        word_at(bytes, at, width + 1) == bytes[at] + 256 * word_at(bytes, at + 1, width),
{
}

/// An unsigned number is stored as itself, a signed one modulo the number of words of its width,
/// and a truth value as one or zero.
pub proof fn law_words_of_numbers(
    truth: bool,
    small: u32,
    long: u64,
    size: usize,
    wide: u128,
    signed_small: i32,
    signed_long: i64,
    signed_wide: i128,
)
    ensures
        truth.word() == (if truth {
            1nat
        } else {
            0nat
        }),
        small.word() == small,
        long.word() == long,
        size.word() == size,
        wide.word() == wide,
        signed_small.word() == signed_small as int % 0x1_0000_0000,
        signed_long.word() == signed_long as int % 0x1_0000_0000_0000_0000,
        signed_wide.word() == signed_wide as int % 0x1_0000_0000_0000_0000_0000_0000_0000_0000int,
{
    assert(signed_small >= 0 ==> signed_small as u32 == signed_small) by (bit_vector);
    assert(signed_small < 0 ==> signed_small as u32 == signed_small + 0x1_0000_0000) by (bit_vector);
    assert(signed_long >= 0 ==> signed_long as u64 == signed_long) by (bit_vector);
    assert(signed_long < 0 ==> signed_long as u64 == signed_long + 0x1_0000_0000_0000_0000)
        by (bit_vector);
    assert(signed_wide >= 0 ==> signed_wide as u128 == signed_wide) by (bit_vector);
    assert(signed_wide < 0 ==> signed_wide as u128 == signed_wide
        + 0x1_0000_0000_0000_0000_0000_0000_0000_0000int) by (bit_vector);
}

/// A word is less than the number of words of its width.
pub proof fn lemma_word_bound(bytes: Seq<u8>, at: int, width: nat)
    ensures
        word_at(bytes, at, width) < capacity(width),
    decreases width,
{
    if width > 0 {
        lemma_word_bound(bytes, at + 1, (width - 1) as nat);
    }
}

/// No width up to sixteen bytes holds more words than `u128` has values.
proof fn lemma_capacity_bound(width: nat)
    requires
        width <= 16,
    ensures
        1 <= capacity(width) <= 0x1_0000_0000_0000_0000_0000_0000_0000_0000,
{
    reveal_with_fuel(capacity, 17);
}

/// A word depends on its own bytes only.
pub proof fn lemma_word_frame(before: Seq<u8>, after: Seq<u8>, at: int, width: nat)
    requires
        forall|i: int| at <= i < at + width ==> before[i] == after[i],
    ensures
        word_at(before, at, width) == word_at(after, at, width),
    decreases width,
{
    if width > 0 {
        lemma_word_frame(before, after, at + 1, (width - 1) as nat);
    }
}

/// A stored number lies between the offset that it is asked for at and its end.
pub proof fn lemma_scalar_extent<T: Scalar>(at: nat)
    ensures
        at <= layout::start_of::<T>(at),
        layout::start_of::<T>(at) < layout::end_of::<T>(at),
        layout::end_of::<T>(at) < at + 2 * vstd::layout::size_of::<T>(),
        layout::start_of::<T>(at) % vstd::layout::align_of::<T>() == 0,
{
    broadcast use vstd::layout::align_properties, vstd::layout::align_nonzero;

    T::lemma_width();
    let align = vstd::layout::align_of::<T>();
    let size = vstd::layout::size_of::<T>();
    layout::law_round_up(at, align);
    if align > size {
        vstd::arithmetic::div_mod::lemma_small_mod(size, align);
    }
}

/// Where a number starts, a number of the same type can start.
pub proof fn lemma_start_of_start<T: Scalar>(at: nat)
    ensures
        layout::start_of::<T>(layout::start_of::<T>(at)) == layout::start_of::<T>(at),
{
    broadcast use vstd::layout::align_nonzero;

    let align = vstd::layout::align_of::<T>();
    let start = layout::start_of::<T>(at);
    layout::law_round_up(at, align);
    layout::law_round_up(start, align);
    layout::law_round_up_is_least(start, align, start);
}

/// Of two numbers of one type, the second starts where the first ends.
pub proof fn lemma_scalars_adjacent<T: Scalar>(at: nat)
    ensures
        layout::start_of::<T>(layout::end_of::<T>(at)) == layout::end_of::<T>(at),
{
    broadcast use vstd::layout::align_properties, vstd::layout::align_nonzero;

    let align = vstd::layout::align_of::<T>();
    let size = vstd::layout::size_of::<T>();
    let start = layout::start_of::<T>(at);
    lemma_scalar_extent::<T>(at);
    vstd::arithmetic::div_mod::lemma_mod_adds(start as int, size as int, align as int);
    vstd::arithmetic::div_mod::lemma_small_mod(0, align);
    layout::law_round_up(start + size, align);
    layout::law_round_up_is_least(start + size, align, start + size);
}

/// A stored number depends on its own bytes only.
pub proof fn lemma_scalar_frame<T: Scalar>(before: Seq<u8>, after: Seq<u8>, at: nat)
    requires
        forall|i: int|
            layout::start_of::<T>(at) <= i < layout::end_of::<T>(at) ==> before[i] == after[i],
    ensures
        scalar_at::<T>(before, at) == scalar_at::<T>(after, at),
{
    lemma_scalar_extent::<T>(at);
    lemma_word_frame(
        before,
        after,
        layout::start_of::<T>(at) as int,
        vstd::layout::size_of::<T>(),
    );
}

/// Stores a word in the `width` bytes from `at` on.
pub(crate) fn write_word(bytes: &mut Vec<u8>, at: usize, width: usize, word: u128)
    requires
        at + width <= old(bytes)@.len(),
        word < capacity(width as nat),
    ensures
        final(bytes)@.len() == old(bytes)@.len(),
        word_at(final(bytes)@, at as int, width as nat) == word,
        forall|i: int|
            0 <= i < old(bytes)@.len() && !(at <= i < at + width) ==> final(bytes)@[i] == old(
                bytes,
            )@[i],
    decreases width,
{
    if width > 0 {
        assert(bytes@.len() == bytes.len());
        let low = (word % 256) as u8;
        bytes.set(at, low);
        write_word(bytes, at + 1, width - 1, word / 256);
    }
}

/// Reads the word in the `width` bytes from `at` on.
pub(crate) fn read_word(bytes: &[u8], at: usize, width: usize) -> (word: u128)
    requires
        at + width <= bytes@.len(),
        width <= 16,
    ensures
        word == word_at(bytes@, at as int, width as nat),
    decreases width,
{
    if width == 0 {
        0
    } else {
        proof {
            lemma_word_bound(bytes@, at as int, width as nat);
            lemma_capacity_bound(width as nat);
        }
        bytes[at] as u128 + 256 * read_word(bytes, at + 1, width - 1)
    }
}

/// Stores a number at or after `ptr`, and gives the offset behind it. The padding before the number
/// is left as it is.
pub fn write<T: Scalar>(bytes: &mut Vec<u8>, ptr: usize, value: T) -> (end: usize)
    requires
        layout::end_of::<T>(ptr as nat) <= old(bytes)@.len(),
    ensures
        end == layout::end_of::<T>(ptr as nat),
        ptr <= layout::start_of::<T>(ptr as nat) < end,
        final(bytes)@.len() == old(bytes)@.len(),
        scalar_at::<T>(final(bytes)@, ptr as nat) == value,
        forall|i: int|
            0 <= i < old(bytes)@.len() && !(layout::start_of::<T>(ptr as nat) <= i < end)
                ==> final(bytes)@[i] == old(bytes)@[i],
{
    proof {
        assert(bytes@.len() == bytes.len());
        lemma_scalar_extent::<T>(ptr as nat);
        T::lemma_word(value);
    }
    let start = layout::adjust_alignment::<T>(ptr);
    let width = core::mem::size_of::<T>();
    write_word(bytes, start, width, value.to_word());
    start + width
}

/// Reads the number at or after `ptr`, and gives the offset behind it.
pub fn read<T: Scalar>(bytes: &[u8], ptr: usize) -> (read: (usize, T))
    requires
        layout::end_of::<T>(ptr as nat) <= bytes@.len(),
    ensures
        read.0 == layout::end_of::<T>(ptr as nat),
        read.1 == scalar_at::<T>(bytes@, ptr as nat),
{
    proof {
        assert(bytes@.len() == bytes.len());
        lemma_scalar_extent::<T>(ptr as nat);
        T::lemma_width();
    }
    let start = layout::adjust_alignment::<T>(ptr);
    let width = core::mem::size_of::<T>();
    (start + width, T::from_word(read_word(bytes, start, width)))
}

} // verus!
