//! The slots of a record's fields.
//!
//! Every field that is not null has a slot in the record's storage. A slot is as wide as the value
//! that it is for. The slot of a plain value holds the value. A string takes the three machine
//! words of a `String`, and bytes take those of a `Vec<u8>`; the first of the words is an index
//! into a table of such values, and the other two are not used. The slot of a JSON value is one
//! machine word, an index into a table too. A duration takes what its seconds, its nanoseconds and
//! its unit take with the padding that the alignment of the seconds asks for. A null field has no
//! slot.
//!
//! A slot starts at a multiple of the alignment of the numbers in it, and is not rounded up. One
//! could give every value a slot of `align_of::<Field>()` bytes, and waste what a small value
//! leaves of it. But a `Field` can hold a `u128`, and on machines that align a `u128` to 16 bytes a
//! `u64` would then take 16. That a `u64` takes only 8 bytes, and a `u128` its 16, is what a packed
//! record is for. So this rule goes first, and a truth value takes one byte.

use crate::field::FieldType;
use crate::layout;
use crate::scalar;
use vstd::prelude::*;

verus! {

/// No slot, with the padding before it, takes more bytes than this.
pub const MAX_SLOT: usize = 32;

/// The offset at which the slot of a field starts that is placed at or after `at`.
pub open spec fn slot_start(ty: FieldType, at: nat) -> nat {
    match ty {
        FieldType::UInt => layout::start_of::<u64>(at),
        FieldType::U128 => layout::start_of::<u128>(at),
        FieldType::Int => layout::start_of::<i64>(at),
        FieldType::I128 => layout::start_of::<i128>(at),
        FieldType::Float => layout::start_of::<u64>(at),
        FieldType::Boolean => layout::start_of::<bool>(at),
        FieldType::String => layout::start_of::<usize>(at),
        FieldType::Text => layout::start_of::<usize>(at),
        FieldType::Binary => layout::start_of::<usize>(at),
        FieldType::Decimal => layout::start_of::<u32>(at),
        FieldType::Timestamp => layout::start_of::<u32>(at),
        FieldType::Date => layout::start_of::<i32>(at),
        FieldType::Json => layout::start_of::<usize>(at),
        FieldType::Point => layout::start_of::<u64>(at),
        FieldType::Duration => layout::start_of::<u64>(at),
    }
}

/// The offset just behind three machine words that are placed at or after `at`.
pub open spec fn words_end(at: nat) -> nat {
    layout::end_of::<usize>(layout::end_of::<usize>(layout::end_of::<usize>(at)))
}

/// Where the nanoseconds lie in the slot of a duration: behind the seconds.
pub const NANOS_AT: usize = 8;

/// Where the seconds and nanoseconds end in the slot of a duration.
pub const SPAN_END: usize = 12;

/// Where the unit lies in the slot of a duration: behind the padded seconds and nanoseconds.
pub open spec fn unit_at() -> nat {
    layout::start_of::<u64>(SPAN_END as nat)
}

/// How many bytes the slot of a duration takes: up to its unit, which is a byte, with padding.
pub open spec fn duration_width() -> nat {
    layout::start_of::<u64>(unit_at() + 1)
}

/// The offset just behind four half words that are placed at or after `at`.
pub open spec fn halves_end(at: nat) -> nat {
    layout::end_of::<u32>(
        layout::end_of::<u32>(layout::end_of::<u32>(layout::end_of::<u32>(at))),
    )
}

/// How many bytes the slot of a field takes, without the padding before it.
pub open spec fn slot_width(ty: FieldType) -> nat {
    match ty {
        FieldType::UInt => 8,
        FieldType::U128 => 16,
        FieldType::Int => 8,
        FieldType::I128 => 16,
        FieldType::Float => 8,
        FieldType::Boolean => 1,
        FieldType::String => 3 * vstd::layout::size_of::<usize>(),
        FieldType::Text => 3 * vstd::layout::size_of::<usize>(),
        FieldType::Binary => 3 * vstd::layout::size_of::<usize>(),
        FieldType::Decimal => 16,
        FieldType::Timestamp => 16,
        FieldType::Date => 4,
        FieldType::Json => vstd::layout::size_of::<usize>(),
        FieldType::Point => 16,
        FieldType::Duration => duration_width(),
    }
}

/// The offset just behind the slot of a field that is placed at or after `at`.
pub open spec fn slot_end(ty: FieldType, at: nat) -> nat {
    match ty {
        FieldType::UInt => layout::end_of::<u64>(at),
        FieldType::U128 => layout::end_of::<u128>(at),
        FieldType::Int => layout::end_of::<i64>(at),
        FieldType::I128 => layout::end_of::<i128>(at),
        FieldType::Float => layout::end_of::<u64>(at),
        FieldType::Boolean => layout::end_of::<bool>(at),
        FieldType::String => words_end(at),
        FieldType::Text => words_end(at),
        FieldType::Binary => words_end(at),
        FieldType::Decimal => halves_end(at),
        FieldType::Timestamp => halves_end(at),
        FieldType::Date => layout::end_of::<i32>(at),
        FieldType::Json => layout::end_of::<usize>(at),
        FieldType::Point => layout::end_of::<u64>(layout::end_of::<u64>(at)),
        FieldType::Duration => layout::start_of::<u64>(at) + duration_width(),
    }
}

/// The offset just behind the first `n` fields of a record.
pub open spec fn fields_end(types: Seq<Option<FieldType>>, n: nat) -> nat
    decreases n,
{
    if n == 0 {
        0
    } else {
        let before = fields_end(types, (n - 1) as nat);
        match types[n - 1] {
            Some(ty) => slot_end(ty, before),
            None => before,
        }
    }
}

/// How many bytes the slots of a record's fields take, with the padding between them.
pub open spec fn packed_size(types: Seq<Option<FieldType>>) -> nat {
    fields_end(types, types.len())
}

/// The parts of a duration lie one behind the other in its slot, which takes at most 24 bytes.
pub proof fn lemma_duration_width()
    ensures
        SPAN_END <= unit_at() <= 16,
        unit_at() < duration_width() <= 24,
{
    broadcast use vstd::layout::layout_of_primitives, vstd::layout::align_nonzero;

    let align = vstd::layout::align_of::<u64>();
    layout::law_no_padding_at_multiple_of_size::<u64>(16);
    layout::law_no_padding_at_multiple_of_size::<u64>(24);
    layout::law_round_up(16, align);
    layout::law_round_up(24, align);
    layout::law_round_up(SPAN_END as nat, align);
    layout::law_round_up_is_least(SPAN_END as nat, align, 16);
    layout::law_round_up(unit_at() + 1, align);
    layout::law_round_up_is_least(unit_at() + 1, align, 24);
}

/// A slot lies behind the offset at which it is placed, is as wide as its type asks for, and takes
/// at most `MAX_SLOT` bytes with its padding.
pub proof fn lemma_slot_extent(ty: FieldType, at: nat)
    ensures
        at <= slot_start(ty, at) < slot_end(ty, at) <= at + MAX_SLOT,
        slot_end(ty, at) == slot_start(ty, at) + slot_width(ty),
{
    broadcast use vstd::layout::layout_of_primitives;

    assert(vstd::layout::size_of::<u64>() == 8);
    assert(1 <= vstd::layout::size_of::<usize>() <= 8);
    match ty {
        FieldType::U128 => scalar::lemma_scalar_extent::<u128>(at),
        FieldType::Int => scalar::lemma_scalar_extent::<i64>(at),
        FieldType::I128 => scalar::lemma_scalar_extent::<i128>(at),
        FieldType::Boolean => scalar::lemma_scalar_extent::<bool>(at),
        FieldType::Decimal | FieldType::Timestamp => {
            let at1 = layout::end_of::<u32>(at);
            let at2 = layout::end_of::<u32>(at1);
            scalar::lemma_scalar_extent::<u32>(at);
            scalar::lemma_scalars_adjacent::<u32>(at);
            scalar::lemma_scalars_adjacent::<u32>(at1);
            scalar::lemma_scalars_adjacent::<u32>(at2);
        },
        FieldType::Date => scalar::lemma_scalar_extent::<i32>(at),
        FieldType::Point => {
            scalar::lemma_scalar_extent::<u64>(at);
            scalar::lemma_scalars_adjacent::<u64>(at);
        },
        FieldType::String | FieldType::Text | FieldType::Binary => {
            scalar::lemma_scalar_extent::<usize>(at);
            scalar::lemma_scalars_adjacent::<usize>(at);
            scalar::lemma_scalars_adjacent::<usize>(layout::end_of::<usize>(at));
        },
        FieldType::Json => scalar::lemma_scalar_extent::<usize>(at),
        FieldType::Duration => {
            scalar::lemma_scalar_extent::<u64>(at);
            lemma_duration_width();
        },
        _ => scalar::lemma_scalar_extent::<u64>(at),
    }
}

/// More fields never end earlier.
pub proof fn lemma_fields_end_grows(types: Seq<Option<FieldType>>, m: nat, n: nat)
    requires
        m <= n,
    ensures
        fields_end(types, m) <= fields_end(types, n),
    decreases n,
{
    if m < n {
        lemma_fields_end_grows(types, m, (n - 1) as nat);
        if let Some(ty) = types[n - 1] {
            lemma_slot_extent(ty, fields_end(types, (n - 1) as nat));
        }
    }
}

/// Where the first `n` fields end depends on their types only.
pub proof fn lemma_fields_end_prefix(a: Seq<Option<FieldType>>, b: Seq<Option<FieldType>>, n: nat)
    requires
        forall|i: int| 0 <= i < n ==> a[i] == b[i],
    ensures
        fields_end(a, n) == fields_end(b, n),
    decreases n,
{
    if n > 0 {
        lemma_fields_end_prefix(a, b, (n - 1) as nat);
    }
}

/// The storage of a record takes at most `MAX_SLOT` bytes for each field.
pub proof fn law_packed_size_bound(types: Seq<Option<FieldType>>, n: nat)
    ensures
        fields_end(types, n) <= n * MAX_SLOT,
    decreases n,
{
    if n > 0 {
        law_packed_size_bound(types, (n - 1) as nat);
        if let Some(ty) = types[n - 1] {
            lemma_slot_extent(ty, fields_end(types, (n - 1) as nat));
        }
    }
}

/// The slots of two fields do not overlap, stand in the order of the fields, and lie inside the
/// record's storage.
pub proof fn law_slots_disjoint(types: Seq<Option<FieldType>>, i: nat, j: nat)
    requires
        i < j < types.len(),
        types[i as int] is Some,
        types[j as int] is Some,
    ensures
        slot_end(types[i as int]->0, fields_end(types, i)) <= slot_start(
            types[j as int]->0,
            fields_end(types, j),
        ),
        slot_end(types[j as int]->0, fields_end(types, j)) <= packed_size(types),
{
    lemma_fields_end_grows(types, i + 1, j);
    lemma_fields_end_grows(types, j + 1, types.len());
    lemma_slot_extent(types[j as int]->0, fields_end(types, j));
}

/// Every slot starts at a multiple of the alignment of the number that it starts with.
pub proof fn law_slots_aligned(ty: FieldType, at: nat)
    ensures
        match ty {
            FieldType::U128 => slot_start(ty, at) % vstd::layout::align_of::<u128>() == 0,
            FieldType::Int => slot_start(ty, at) % vstd::layout::align_of::<i64>() == 0,
            FieldType::I128 => slot_start(ty, at) % vstd::layout::align_of::<i128>() == 0,
            FieldType::Boolean => slot_start(ty, at) % vstd::layout::align_of::<bool>() == 0,
            FieldType::Decimal => slot_start(ty, at) % vstd::layout::align_of::<u32>() == 0,
            FieldType::Timestamp => slot_start(ty, at) % vstd::layout::align_of::<u32>() == 0,
            FieldType::Date => slot_start(ty, at) % vstd::layout::align_of::<i32>() == 0,
            FieldType::String | FieldType::Text | FieldType::Binary | FieldType::Json => {
                slot_start(ty, at) % vstd::layout::align_of::<usize>() == 0
            },
            _ => slot_start(ty, at) % vstd::layout::align_of::<u64>() == 0,
        },
{
    scalar::lemma_scalar_extent::<u128>(at);
    scalar::lemma_scalar_extent::<i64>(at);
    scalar::lemma_scalar_extent::<i128>(at);
    scalar::lemma_scalar_extent::<bool>(at);
    scalar::lemma_scalar_extent::<u32>(at);
    scalar::lemma_scalar_extent::<i32>(at);
    scalar::lemma_scalar_extent::<usize>(at);
    scalar::lemma_scalar_extent::<u64>(at);
}

/// A slot that is placed where a slot of its type starts, starts there and ends at the same offset.
pub proof fn law_slot_starts_once(ty: FieldType, at: nat)
    ensures
        slot_start(ty, slot_start(ty, at)) == slot_start(ty, at),
        slot_end(ty, slot_start(ty, at)) == slot_end(ty, at),
{
    scalar::lemma_start_of_start::<u128>(at);
    scalar::lemma_start_of_start::<i64>(at);
    scalar::lemma_start_of_start::<i128>(at);
    scalar::lemma_start_of_start::<bool>(at);
    scalar::lemma_start_of_start::<u32>(at);
    scalar::lemma_start_of_start::<i32>(at);
    scalar::lemma_start_of_start::<usize>(at);
    scalar::lemma_start_of_start::<u64>(at);
}

/// A field takes the bytes that its type asks for, behind the padding: 8 for a 64-bit number, 16
/// for a number of 128 bits, three machine words for a string or bytes, one byte for a truth value.
/// Where a machine word has 64 bits, a string or bytes take 24 bytes; where a `u64` is aligned to 8
/// bytes, so does a duration.
pub proof fn law_slot_widths(ty: FieldType, at: nat)
    ensures
        slot_end(ty, at) == slot_start(ty, at) + slot_width(ty),
        usize::BITS == 64 ==> slot_width(FieldType::String) == 24,
        usize::BITS == 64 ==> slot_width(FieldType::Text) == 24,
        usize::BITS == 64 ==> slot_width(FieldType::Binary) == 24,
        vstd::layout::align_of::<u64>() == 8 ==> slot_width(FieldType::Duration) == 24,
{
    broadcast use vstd::layout::layout_of_primitives;

    lemma_slot_extent(ty, at);
}

/// How far a slot reaches: 8 bytes for a number of 64 bits, 16 for one of 128 bits and for a
/// decimal, a timestamp or a point, 4 for a day, 1 for a truth value, three machine words for a
/// string or bytes, and one for a JSON value. A duration takes 13 bytes at least and 24 at most, in
/// steps of the alignment of a `u64`.
pub proof fn law_slot_reach(ty: FieldType, at: nat)
    ensures
        at <= slot_start(ty, at),
        match ty {
            FieldType::UInt | FieldType::Int | FieldType::Float => slot_end(ty, at)
                == slot_start(ty, at) + 8,
            FieldType::U128 | FieldType::I128 => slot_end(ty, at) == slot_start(ty, at) + 16,
            FieldType::Boolean => slot_end(ty, at) == slot_start(ty, at) + 1,
            FieldType::String | FieldType::Text | FieldType::Binary => slot_end(ty, at)
                == slot_start(ty, at) + 3 * vstd::layout::size_of::<usize>(),
            FieldType::Decimal | FieldType::Timestamp | FieldType::Point => slot_end(ty, at)
                == slot_start(ty, at) + 16,
            FieldType::Date => slot_end(ty, at) == slot_start(ty, at) + 4,
            FieldType::Json => slot_end(ty, at) == slot_start(ty, at)
                + vstd::layout::size_of::<usize>(),
            FieldType::Duration => {
                &&& slot_start(ty, at) + 13 <= slot_end(ty, at) <= slot_start(ty, at) + 24
                &&& (slot_end(ty, at) - slot_start(ty, at)) % (vstd::layout::align_of::<
                    u64,
                >() as int) == 0
                &&& vstd::layout::align_of::<u64>() == 8 ==> slot_end(ty, at) == slot_start(ty, at)
                    + 24
            },
        },
{
    broadcast use vstd::layout::align_nonzero;

    lemma_slot_extent(ty, at);
    lemma_duration_width();
    layout::law_round_up(unit_at() + 1, vstd::layout::align_of::<u64>());
}

/// A record without fields takes no storage.
pub proof fn law_empty_takes_no_storage()
    ensures
        packed_size(Seq::empty()) == 0,
{
}

/// A field grows the storage to where its slot ends that is placed behind the fields before it.
pub proof fn law_field_grows_storage(types: Seq<Option<FieldType>>, ty: FieldType)
    ensures
        packed_size(types.push(Some(ty))) == slot_end(ty, packed_size(types)),
{
    lemma_fields_end_prefix(types.push(Some(ty)), types, types.len());
}

/// A null field takes no storage.
pub proof fn law_null_takes_no_storage(types: Seq<Option<FieldType>>)
    ensures
        packed_size(types.push(None)) == packed_size(types),
{
    lemma_fields_end_prefix(types.push(None), types, types.len());
}

/// How many bytes the slots of the given fields take. The strings, bytes and JSON values that slots
/// refer to are not counted.
pub fn size(fields: &[Option<FieldType>]) -> (size: usize)
    requires
        packed_size(fields@) <= usize::MAX,
    ensures
        size == packed_size(fields@),
{
    let mut size: usize = 0;
    let mut i: usize = 0;
    while i < fields.len()
        invariant
            i <= fields@.len(),
            size == fields_end(fields@, i as nat),
            packed_size(fields@) <= usize::MAX,
        decreases fields@.len() - i,
    {
        if let Some(field) = fields[i] {
            proof {
                lemma_fields_end_grows(fields@, (i + 1) as nat, fields@.len());
            }
            add_slot_size(field, &mut size);
        }
        i += 1;
    }
    size
}

/// Grows the size of a record's storage by the slot of one field.
pub(crate) fn add_slot_size(field: FieldType, size: &mut usize)
    requires
        slot_end(field, *old(size) as nat) <= usize::MAX,
    ensures
        *final(size) == slot_end(field, *old(size) as nat),
{
    proof {
        lemma_parts_fit(field, *size as nat);
    }
    match field {
        FieldType::UInt => layout::add_field_size::<u64>(size),
        FieldType::U128 => layout::add_field_size::<u128>(size),
        FieldType::Int => layout::add_field_size::<i64>(size),
        FieldType::I128 => layout::add_field_size::<i128>(size),
        FieldType::Float => layout::add_field_size::<u64>(size),
        FieldType::Boolean => layout::add_field_size::<bool>(size),
        FieldType::String => add_words(size),
        FieldType::Text => add_words(size),
        FieldType::Binary => add_words(size),
        FieldType::Decimal => add_halves(size),
        FieldType::Timestamp => add_halves(size),
        FieldType::Date => layout::add_field_size::<i32>(size),
        FieldType::Json => layout::add_field_size::<usize>(size),
        FieldType::Point => {
            layout::add_field_size::<u64>(size);
            layout::add_field_size::<u64>(size);
        },
        FieldType::Duration => {
            *size = layout::adjust_alignment::<u64>(*size);
            *size += width_of_duration();
        },
    }
}

/// Gives the offset of the unit in the slot of a duration.
pub(crate) fn offset_of_unit() -> (offset: usize)
    ensures
        offset == unit_at(),
{
    proof {
        lemma_duration_width();
    }
    layout::adjust_alignment::<u64>(SPAN_END)
}

/// Gives how many bytes the slot of a duration takes.
fn width_of_duration() -> (width: usize)
    ensures
        width == duration_width(),
{
    proof {
        lemma_duration_width();
    }
    layout::adjust_alignment::<u64>(offset_of_unit() + 1)
}

/// Grows the size of a record's storage by three machine words.
fn add_words(size: &mut usize)
    requires
        words_end(*old(size) as nat) <= usize::MAX,
    ensures
        *final(size) == words_end(*old(size) as nat),
{
    proof {
        lemma_parts_fit(FieldType::String, *size as nat);
    }
    layout::add_field_size::<usize>(size);
    layout::add_field_size::<usize>(size);
    layout::add_field_size::<usize>(size);
}

/// Grows the size of a record's storage by four half words.
fn add_halves(size: &mut usize)
    requires
        halves_end(*old(size) as nat) <= usize::MAX,
    ensures
        *final(size) == halves_end(*old(size) as nat),
{
    proof {
        lemma_parts_fit(FieldType::Decimal, *size as nat);
    }
    layout::add_field_size::<u32>(size);
    layout::add_field_size::<u32>(size);
    layout::add_field_size::<u32>(size);
    layout::add_field_size::<u32>(size);
}

/// Each part of a slot ends no later than the slot.
pub proof fn lemma_parts_fit(ty: FieldType, at: nat)
    ensures
        match ty {
            FieldType::Decimal | FieldType::Timestamp => {
                let at1 = layout::end_of::<u32>(at);
                let at2 = layout::end_of::<u32>(at1);
                let at3 = layout::end_of::<u32>(at2);
                at <= at1 <= at2 <= at3 <= slot_end(ty, at)
            },
            FieldType::Point => at <= layout::end_of::<u64>(at) <= slot_end(ty, at),
            FieldType::String | FieldType::Text | FieldType::Binary => {
                let at1 = layout::end_of::<usize>(at);
                let at2 = layout::end_of::<usize>(at1);
                at <= at1 <= at2 <= slot_end(ty, at)
            },
            FieldType::Duration => {
                &&& layout::end_of::<u64>(at) == slot_start(ty, at) + NANOS_AT
                &&& SPAN_END <= unit_at() < duration_width() <= 24
            },
            _ => true,
        },
{
    match ty {
        FieldType::Decimal | FieldType::Timestamp => {
            let at1 = layout::end_of::<u32>(at);
            let at2 = layout::end_of::<u32>(at1);
            let at3 = layout::end_of::<u32>(at2);
            scalar::lemma_scalar_extent::<u32>(at);
            scalar::lemma_scalar_extent::<u32>(at1);
            scalar::lemma_scalar_extent::<u32>(at2);
            scalar::lemma_scalar_extent::<u32>(at3);
        },
        FieldType::Point => {
            scalar::lemma_scalar_extent::<u64>(at);
            scalar::lemma_scalar_extent::<u64>(layout::end_of::<u64>(at));
        },
        FieldType::String | FieldType::Text | FieldType::Binary => {
            let at1 = layout::end_of::<usize>(at);
            scalar::lemma_scalar_extent::<usize>(at);
            scalar::lemma_scalar_extent::<usize>(at1);
            scalar::lemma_scalar_extent::<usize>(layout::end_of::<usize>(at1));
        },
        FieldType::Duration => {
            broadcast use vstd::layout::layout_of_primitives;

            lemma_duration_width();
        },
        _ => {},
    }
}

} // verus!
