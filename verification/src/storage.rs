//! The storage of a record.

use crate::decimal::{Decimal, DecimalView};
use crate::field;
use crate::field::{DozerPoint, Field, FieldRef, FieldType, FieldValue};
use crate::float::Float64;
use crate::json::JsonValue;
use crate::layout;
use crate::scalar;
use crate::slots;
use crate::time::{Date, DozerDuration, Duration, TimeUnit, Timestamp};
use vstd::prelude::*;

verus! {

/// The values of a record: the slots of its fields, packed, and the strings, bytes and JSON values
/// that slots refer to by index.
#[derive(Debug)]
pub struct RecordData {
    bytes: Vec<u8>,
    strings: Vec<String>,
    binaries: Vec<Vec<u8>>,
    documents: Vec<JsonValue>,
}

/// The table entry that a slot refers to.
pub enum Entry {
    /// An entry of the table of strings.
    Text(usize),
    /// An entry of the table of bytes.
    Binary(usize),
    /// An entry of the table of JSON values.
    Document(usize),
}

/// The decimal in four words, if the scale is one that a decimal can have.
pub open spec fn decimal_of_words(lo: u32, mid: u32, hi: u32, flags: u32) -> Option<DecimalView> {
    let scale = ((flags as int % 0x8000_0000) / 0x1_0000) as u32;
    if scale <= crate::decimal::MAX_SCALE {
        Some(DecimalView { lo, mid, hi, negative: flags >= 0x8000_0000, scale })
    } else {
        None
    }
}

/// The timestamp in four words: the low and the high half of its seconds, its nanoseconds and its
/// offset.
pub open spec fn timestamp_of_words(low: u32, high: u32, nanos: u32, offset: u32) -> Timestamp {
    Timestamp {
        secs: ((low + 0x1_0000_0000 * high) as u64) as i64,
        nanos,
        offset: offset as i32,
    }
}

/// The duration in three words: its seconds, its nanoseconds and its unit.
pub open spec fn duration_of_words(secs: u64, nanos: nat, unit: nat) -> DozerDuration {
    DozerDuration {
        duration: Duration { secs, nanos: nanos as u32 },
        unit: TimeUnit::from_tag(unit as u8),
    }
}

/// The value that the owned read of a field gives: a text comes out as the string that it is.
pub open spec fn owned_value(value: FieldValue) -> FieldValue {
    match value {
        FieldValue::Text(text) => FieldValue::String(text),
        _ => value,
    }
}

impl RecordData {
    /// How many bytes the slots take.
    pub closed spec fn len(self) -> nat {
        self.bytes@.len()
    }

    /// The table entry that the slot at or after `at` refers to, if a field of the type has one.
    pub closed spec fn entry_at(self, ty: FieldType, at: nat) -> Option<Entry> {
        let index = scalar::scalar_at::<usize>(self.bytes@, at);
        match ty {
            FieldType::String => Some(Entry::Text(index)),
            FieldType::Text => Some(Entry::Text(index)),
            FieldType::Binary => Some(Entry::Binary(index)),
            FieldType::Json => Some(Entry::Document(index)),
            _ => None,
        }
    }

    /// The field in the slot at or after `at`, if such a slot holds a field of the type.
    pub closed spec fn field_at(self, ty: FieldType, at: nat) -> Option<FieldValue> {
        let bytes = self.bytes@;
        if slots::slot_end(ty, at) > bytes.len() {
            None
        } else {
            match ty {
                FieldType::UInt => Some(FieldValue::UInt(scalar::scalar_at::<u64>(bytes, at))),
                FieldType::U128 => Some(FieldValue::U128(scalar::scalar_at::<u128>(bytes, at))),
                FieldType::Int => Some(FieldValue::Int(scalar::scalar_at::<i64>(bytes, at))),
                FieldType::I128 => Some(FieldValue::I128(scalar::scalar_at::<i128>(bytes, at))),
                FieldType::Float => Some(
                    FieldValue::Float(Float64 { bits: scalar::scalar_at::<u64>(bytes, at) }),
                ),
                FieldType::Boolean => Some(
                    FieldValue::Boolean(scalar::scalar_at::<bool>(bytes, at)),
                ),
                FieldType::String => {
                    let index = scalar::scalar_at::<usize>(bytes, at);
                    if index < self.strings@.len() {
                        Some(FieldValue::String(self.strings@[index as int]@))
                    } else {
                        None
                    }
                },
                FieldType::Text => {
                    let index = scalar::scalar_at::<usize>(bytes, at);
                    if index < self.strings@.len() {
                        Some(FieldValue::Text(self.strings@[index as int]@))
                    } else {
                        None
                    }
                },
                FieldType::Binary => {
                    let index = scalar::scalar_at::<usize>(bytes, at);
                    if index < self.binaries@.len() {
                        Some(FieldValue::Binary(self.binaries@[index as int]@))
                    } else {
                        None
                    }
                },
                FieldType::Decimal => {
                    let at1 = layout::end_of::<u32>(at);
                    let at2 = layout::end_of::<u32>(at1);
                    let at3 = layout::end_of::<u32>(at2);
                    match decimal_of_words(
                        scalar::scalar_at::<u32>(bytes, at),
                        scalar::scalar_at::<u32>(bytes, at1),
                        scalar::scalar_at::<u32>(bytes, at2),
                        scalar::scalar_at::<u32>(bytes, at3),
                    ) {
                        Some(value) => Some(FieldValue::Decimal(value)),
                        None => None,
                    }
                },
                FieldType::Timestamp => {
                    let at1 = layout::end_of::<u32>(at);
                    let at2 = layout::end_of::<u32>(at1);
                    let at3 = layout::end_of::<u32>(at2);
                    Some(
                        FieldValue::Timestamp(
                            timestamp_of_words(
                                scalar::scalar_at::<u32>(bytes, at),
                                scalar::scalar_at::<u32>(bytes, at1),
                                scalar::scalar_at::<u32>(bytes, at2),
                                scalar::scalar_at::<u32>(bytes, at3),
                            ),
                        ),
                    )
                },
                FieldType::Date => Some(
                    FieldValue::Date(Date { days: scalar::scalar_at::<i32>(bytes, at) }),
                ),
                FieldType::Json => {
                    let index = scalar::scalar_at::<usize>(bytes, at);
                    if index < self.documents@.len() {
                        Some(FieldValue::Json(self.documents@[index as int]@))
                    } else {
                        None
                    }
                },
                FieldType::Point => {
                    let at1 = layout::end_of::<u64>(at);
                    Some(
                        FieldValue::Point(
                            DozerPoint {
                                x: Float64 { bits: scalar::scalar_at::<u64>(bytes, at) },
                                y: Float64 { bits: scalar::scalar_at::<u64>(bytes, at1) },
                            },
                        ),
                    )
                },
                FieldType::Duration => {
                    let start = slots::slot_start(ty, at) as int;
                    Some(
                        FieldValue::Duration(
                            duration_of_words(
                                scalar::scalar_at::<u64>(bytes, at),
                                scalar::word_at(bytes, start + slots::NANOS_AT, 4),
                                scalar::word_at(bytes, start + slots::unit_at(), 1),
                            ),
                        ),
                    )
                },
            }
        }
    }

    /// Field `i` of a record with fields of the given types.
    pub open spec fn field(self, types: Seq<Option<FieldType>>, i: nat) -> Option<FieldValue> {
        match types[i as int] {
            Some(ty) => self.field_at(ty, slots::fields_end(types, i)),
            None => Some(FieldValue::Null),
        }
    }

    /// The table entry of field `i` of a record with fields of the given types.
    pub open spec fn entry(self, types: Seq<Option<FieldType>>, i: nat) -> Option<Entry> {
        match types[i as int] {
            Some(ty) => self.entry_at(ty, slots::fields_end(types, i)),
            None => None,
        }
    }

    /// Whether no two of the first `n` fields share a table entry.
    pub open spec fn owns_entries(self, types: Seq<Option<FieldType>>, n: nat) -> bool {
        forall|i: nat, j: nat|
            i < j < n && #[trigger] self.entry(types, i) is Some ==> self.entry(types, i)
                != #[trigger] self.entry(types, j)
    }

    /// Whether the storage is that of a whole record with fields of the given types.
    pub open spec fn complete(self, types: Seq<Option<FieldType>>) -> bool {
        &&& self.len() == slots::packed_size(types)
        &&& forall|i: nat| i < types.len() ==> #[trigger] self.field(types, i) is Some
        &&& self.owns_entries(types, types.len())
    }

    /// The fields of a record with fields of the given types.
    pub open spec fn values(self, types: Seq<Option<FieldType>>) -> Seq<FieldValue> {
        Seq::new(types.len(), |i: int| self.field(types, i as nat)->0)
    }

    /// Whether the storage holds the given values in the slots of the first fields of a record with
    /// fields of the given types.
    pub open spec fn holds(
        self,
        types: Seq<Option<FieldType>>,
        values: Seq<FieldValue>,
    ) -> bool {
        &&& values.len() <= types.len()
        &&& self.len() == slots::packed_size(types)
        &&& forall|i: nat| i < values.len() ==> #[trigger] self.field(types, i) == Some(
            values[i as int],
        )
    }
}

/// A slot gives back a field of the type that it is read as.
pub proof fn law_field_has_slot_type(data: RecordData, ty: FieldType, at: nat)
    requires
        data.field_at(ty, at) is Some,
    ensures
        data.field_at(ty, at)->0.ty() == Some(ty),
        slots::slot_end(ty, at) <= data.len(),
{
}

/// What is taken out of a slot is what the slot holds, but that a text comes out as a string with
/// the same characters.
pub proof fn law_taken_out(value: FieldValue)
    ensures
        match value {
            FieldValue::Text(text) => owned_value(value) == FieldValue::String(text),
            _ => owned_value(value) == value,
        },
{
}

/// What a read gives depends only on where the slot starts.
pub proof fn law_read_goes_by_slot_start(data: RecordData, ty: FieldType, at: nat)
    ensures
        data.field_at(ty, at) == data.field_at(ty, slots::slot_start(ty, at)),
        data.entry_at(ty, at) == data.entry_at(ty, slots::slot_start(ty, at)),
{
    slots::law_slot_starts_once(ty, at);
}

/// The types of a record are the types of its fields.
pub proof fn law_types_describe_fields(data: RecordData, types: Seq<Option<FieldType>>)
    requires
        data.complete(types),
    ensures
        field::types_of(data.values(types)) == types,
{
    assert forall|i: int| 0 <= i < types.len() implies field::types_of(data.values(types))[i]
        == types[i] by {
        assert(data.field(types, i as nat) is Some);
    }
    assert(field::types_of(data.values(types)) =~= types);
}

/// A field in storage depends only on the bytes of its slot and on the entries of the tables.
proof fn lemma_field_frame(before: RecordData, after: RecordData, ty: FieldType, at: nat)
    requires
        before.bytes@.len() == after.bytes@.len(),
        forall|i: int|
            slots::slot_start(ty, at) <= i < slots::slot_end(ty, at) ==> before.bytes@[i]
                == after.bytes@[i],
        before.field_at(ty, at) is Some,
        before.strings@.len() <= after.strings@.len(),
        before.binaries@.len() <= after.binaries@.len(),
        before.documents@.len() <= after.documents@.len(),
        forall|i: int|
            0 <= i < before.strings@.len() && before.entry_at(ty, at) == Some(Entry::Text(i as usize))
                ==> before.strings@[i] == after.strings@[i],
        forall|i: int|
            0 <= i < before.binaries@.len() && before.entry_at(ty, at) == Some(
                Entry::Binary(i as usize),
            ) ==> before.binaries@[i] == after.binaries@[i],
        forall|i: int|
            0 <= i < before.documents@.len() && before.entry_at(ty, at) == Some(
                Entry::Document(i as usize),
            ) ==> before.documents@[i] == after.documents@[i],
    ensures
        after.field_at(ty, at) == before.field_at(ty, at),
        after.entry_at(ty, at) == before.entry_at(ty, at),
{
    let a = before.bytes@;
    let b = after.bytes@;
    slots::lemma_parts_fit(ty, at);
    match ty {
        FieldType::U128 => scalar::lemma_scalar_frame::<u128>(a, b, at),
        FieldType::Int => scalar::lemma_scalar_frame::<i64>(a, b, at),
        FieldType::I128 => scalar::lemma_scalar_frame::<i128>(a, b, at),
        FieldType::Boolean => scalar::lemma_scalar_frame::<bool>(a, b, at),
        FieldType::Decimal | FieldType::Timestamp => {
            let at1 = layout::end_of::<u32>(at);
            let at2 = layout::end_of::<u32>(at1);
            let at3 = layout::end_of::<u32>(at2);
            scalar::lemma_scalar_frame::<u32>(a, b, at);
            scalar::lemma_scalar_frame::<u32>(a, b, at1);
            scalar::lemma_scalar_frame::<u32>(a, b, at2);
            scalar::lemma_scalar_frame::<u32>(a, b, at3);
        },
        FieldType::Date => scalar::lemma_scalar_frame::<i32>(a, b, at),
        FieldType::Point => {
            scalar::lemma_scalar_frame::<u64>(a, b, at);
            scalar::lemma_scalar_frame::<u64>(a, b, layout::end_of::<u64>(at));
        },
        FieldType::Duration => {
            let start = slots::slot_start(ty, at) as int;
            scalar::lemma_scalar_frame::<u64>(a, b, at);
            scalar::lemma_word_frame(a, b, start + slots::NANOS_AT, 4);
            scalar::lemma_word_frame(a, b, start + slots::unit_at(), 1);
        },
        FieldType::String | FieldType::Text | FieldType::Binary | FieldType::Json => {
            scalar::lemma_scalar_frame::<usize>(a, b, at)
        },
        _ => scalar::lemma_scalar_frame::<u64>(a, b, at),
    }
}

impl RecordData {
    /// Storage with room for slots of the given size, and with nothing in it.
    fn with_size(size: usize) -> (data: RecordData)
        ensures
            data.len() == size,
    {
        RecordData {
            bytes: vec![0u8; size],
            strings: Vec::new(),
            binaries: Vec::new(),
            documents: Vec::new(),
        }
    }

    /// Puts a field into the slot at or after `ptr`, and gives the offset behind the slot.
    ///
    /// Fields whose slots lie before or behind the new slot keep their values, and the new slot
    /// shares no table entry with any field.
    pub fn write_field(&mut self, ptr: usize, field: Field) -> (end: usize)
        requires
            field@.ty() matches Some(ty) ==> slots::slot_end(ty, ptr as nat) <= old(self).len(),
        ensures
            final(self).len() == old(self).len(),
            match field@.ty() {
                Some(ty) => {
                    &&& end == slots::slot_end(ty, ptr as nat)
                    &&& final(self).field_at(ty, ptr as nat) == Some(field@)
                    &&& forall|other: FieldType, at: nat|
                        old(self).field_at(other, at) is Some && old(self).entry_at(other, at) is Some
                            ==> #[trigger] old(self).entry_at(other, at)
                            != final(self).entry_at(ty, ptr as nat)
                },
                None => end == ptr && *final(self) == *old(self),
            },
            forall|other: FieldType, at: nat|
                old(self).field_at(other, at) is Some && (field@.ty() matches Some(ty)
                    ==> slots::slot_end(other, at) <= slots::slot_start(ty, ptr as nat)
                    || slots::slot_start(other, at) >= end) ==> {
                    &&& #[trigger] final(self).field_at(other, at) == old(self).field_at(other, at)
                    &&& final(self).entry_at(other, at) == old(self).entry_at(other, at)
                },
    {
        assert(self.bytes@.len() == self.bytes.len());
        let ghost before = *self;
        let ghost field_type = field@.ty();
        proof {
            if let Some(ty) = field_type {
                slots::lemma_parts_fit(ty, ptr as nat);
                slots::lemma_slot_extent(ty, ptr as nat);
            }
        }
        let end = match field {
            Field::UInt(v) => scalar::write::<u64>(&mut self.bytes, ptr, v),
            Field::U128(v) => scalar::write::<u128>(&mut self.bytes, ptr, v),
            Field::Int(v) => scalar::write::<i64>(&mut self.bytes, ptr, v),
            Field::I128(v) => scalar::write::<i128>(&mut self.bytes, ptr, v),
            Field::Float(v) => scalar::write::<u64>(&mut self.bytes, ptr, v.bits),
            Field::Boolean(v) => scalar::write::<bool>(&mut self.bytes, ptr, v),
            Field::String(v) => {
                let index = self.strings.len();
                self.strings.push(v);
                self.write_index(ptr, index)
            },
            Field::Text(v) => {
                let index = self.strings.len();
                self.strings.push(v);
                self.write_index(ptr, index)
            },
            Field::Binary(v) => {
                let index = self.binaries.len();
                self.binaries.push(v);
                self.write_index(ptr, index)
            },
            Field::Decimal(v) => self.write_decimal(ptr, v),
            Field::Timestamp(v) => self.write_timestamp(ptr, v),
            Field::Date(v) => scalar::write::<i32>(&mut self.bytes, ptr, v.days),
            Field::Json(v) => {
                let index = self.documents.len();
                self.documents.push(v);
                scalar::write::<usize>(&mut self.bytes, ptr, index)
            },
            Field::Point(v) => self.write_point(ptr, v),
            Field::Duration(v) => self.write_duration(ptr, v),
            Field::Null => ptr,
        };
        proof {
            assert forall|other: FieldType, at: nat|
                before.field_at(other, at) is Some && (field_type matches Some(ty)
                    ==> slots::slot_end(other, at) <= slots::slot_start(ty, ptr as nat)
                    || slots::slot_start(other, at) >= end) implies {
                &&& #[trigger] self.field_at(other, at) == before.field_at(other, at)
                &&& self.entry_at(other, at) == before.entry_at(other, at)
            } by {
                lemma_field_frame(before, *self, other, at);
            }
        }
        end
    }

    /// Puts an index into the slot of a string or of bytes at or after `ptr`.
    fn write_index(&mut self, ptr: usize, index: usize) -> (end: usize)
        requires
            slots::words_end(ptr as nat) <= old(self).len(),
        ensures
            end == slots::words_end(ptr as nat),
            scalar::scalar_at::<usize>(final(self).bytes@, ptr as nat) == index,
            old(self).only_slots_differ(
                *final(self),
                slots::slot_start(FieldType::String, ptr as nat) as int,
                end as int,
            ),
    {
        assert(self.bytes@.len() == self.bytes.len());
        proof {
            slots::lemma_parts_fit(FieldType::String, ptr as nat);
            scalar::lemma_scalar_extent::<usize>(ptr as nat);
        }
        let mut end = ptr;
        slots::add_slot_size(FieldType::String, &mut end);
        scalar::write::<usize>(&mut self.bytes, ptr, index);
        end
    }

    /// Puts a decimal into the slot at or after `ptr`.
    fn write_decimal(&mut self, ptr: usize, value: Decimal) -> (end: usize)
        requires
            slots::slot_end(FieldType::Decimal, ptr as nat) <= old(self).len(),
        ensures
            end == slots::slot_end(FieldType::Decimal, ptr as nat),
            final(self).field_at(FieldType::Decimal, ptr as nat) == Some(
                FieldValue::Decimal(value@),
            ),
            old(self).only_slots_differ(
                *final(self),
                slots::slot_start(FieldType::Decimal, ptr as nat) as int,
                end as int,
            ),
    {
        assert(self.bytes@.len() == self.bytes.len());
        proof {
            slots::lemma_parts_fit(FieldType::Decimal, ptr as nat);
        }
        let sign: u32 = if value.is_sign_negative() {
            0x8000_0000
        } else {
            0
        };
        let flags: u32 = value.scale() * 0x1_0000 + sign;
        let ptr1 = scalar::write::<u32>(&mut self.bytes, ptr, value.lo());
        let ghost bytes1 = self.bytes@;
        let ptr2 = scalar::write::<u32>(&mut self.bytes, ptr1, value.mid());
        let ghost bytes2 = self.bytes@;
        let ptr3 = scalar::write::<u32>(&mut self.bytes, ptr2, value.hi());
        let ghost bytes3 = self.bytes@;
        let end = scalar::write::<u32>(&mut self.bytes, ptr3, flags);
        proof {
            scalar::lemma_scalar_frame::<u32>(bytes1, self.bytes@, ptr as nat);
            scalar::lemma_scalar_frame::<u32>(bytes2, self.bytes@, ptr1 as nat);
            scalar::lemma_scalar_frame::<u32>(bytes3, self.bytes@, ptr2 as nat);
        }
        end
    }

    /// Puts a timestamp into the slot at or after `ptr`.
    fn write_timestamp(&mut self, ptr: usize, value: Timestamp) -> (end: usize)
        requires
            slots::slot_end(FieldType::Timestamp, ptr as nat) <= old(self).len(),
        ensures
            end == slots::slot_end(FieldType::Timestamp, ptr as nat),
            final(self).field_at(FieldType::Timestamp, ptr as nat) == Some(
                FieldValue::Timestamp(value),
            ),
            old(self).only_slots_differ(
                *final(self),
                slots::slot_start(FieldType::Timestamp, ptr as nat) as int,
                end as int,
            ),
    {
        assert(self.bytes@.len() == self.bytes.len());
        proof {
            slots::lemma_parts_fit(FieldType::Timestamp, ptr as nat);
        }
        let secs = value.secs as u64;
        let low = (secs % 0x1_0000_0000) as u32;
        let high = (secs / 0x1_0000_0000) as u32;
        let ptr1 = scalar::write::<u32>(&mut self.bytes, ptr, low);
        let ghost bytes1 = self.bytes@;
        let ptr2 = scalar::write::<u32>(&mut self.bytes, ptr1, high);
        let ghost bytes2 = self.bytes@;
        let ptr3 = scalar::write::<u32>(&mut self.bytes, ptr2, value.nanos);
        let ghost bytes3 = self.bytes@;
        let end = scalar::write::<u32>(&mut self.bytes, ptr3, value.offset as u32);
        proof {
            scalar::lemma_scalar_frame::<u32>(bytes1, self.bytes@, ptr as nat);
            scalar::lemma_scalar_frame::<u32>(bytes2, self.bytes@, ptr1 as nat);
            scalar::lemma_scalar_frame::<u32>(bytes3, self.bytes@, ptr2 as nat);
            let secs = value.secs;
            let offset = value.offset;
            assert((secs as u64) as i64 == secs) by (bit_vector);
            assert((offset as u32) as i32 == offset) by (bit_vector);
        }
        end
    }

    /// Puts a point into the slot at or after `ptr`.
    fn write_point(&mut self, ptr: usize, value: DozerPoint) -> (end: usize)
        requires
            slots::slot_end(FieldType::Point, ptr as nat) <= old(self).len(),
        ensures
            end == slots::slot_end(FieldType::Point, ptr as nat),
            final(self).field_at(FieldType::Point, ptr as nat) == Some(FieldValue::Point(value)),
            old(self).only_slots_differ(
                *final(self),
                slots::slot_start(FieldType::Point, ptr as nat) as int,
                end as int,
            ),
    {
        assert(self.bytes@.len() == self.bytes.len());
        proof {
            slots::lemma_parts_fit(FieldType::Point, ptr as nat);
        }
        let ptr1 = scalar::write::<u64>(&mut self.bytes, ptr, value.x.bits);
        let ghost bytes1 = self.bytes@;
        let end = scalar::write::<u64>(&mut self.bytes, ptr1, value.y.bits);
        proof {
            scalar::lemma_scalar_frame::<u64>(bytes1, self.bytes@, ptr as nat);
        }
        end
    }

    /// Puts a duration into the slot at or after `ptr`.
    fn write_duration(&mut self, ptr: usize, value: DozerDuration) -> (end: usize)
        requires
            slots::slot_end(FieldType::Duration, ptr as nat) <= old(self).len(),
        ensures
            end == slots::slot_end(FieldType::Duration, ptr as nat),
            final(self).field_at(FieldType::Duration, ptr as nat) == Some(
                FieldValue::Duration(value),
            ),
            old(self).only_slots_differ(
                *final(self),
                slots::slot_start(FieldType::Duration, ptr as nat) as int,
                end as int,
            ),
    {
        assert(self.bytes@.len() == self.bytes.len());
        proof {
            slots::lemma_parts_fit(FieldType::Duration, ptr as nat);
        }
        let nanos_at = scalar::write::<u64>(&mut self.bytes, ptr, value.duration.secs);
        let start = nanos_at - slots::NANOS_AT;
        let unit_at = start + slots::offset_of_unit();
        let mut end = ptr;
        slots::add_slot_size(FieldType::Duration, &mut end);
        let ghost bytes1 = self.bytes@;
        proof {
            scalar::lemma_capacities();
        }
        scalar::write_word(&mut self.bytes, nanos_at, 4, value.duration.nanos as u128);
        let ghost bytes2 = self.bytes@;
        scalar::write_word(&mut self.bytes, unit_at, 1, value.unit.to_byte() as u128);
        proof {
            scalar::lemma_scalar_frame::<u64>(bytes1, self.bytes@, ptr as nat);
            scalar::lemma_word_frame(bytes2, self.bytes@, nanos_at as int, 4);
        }
        end
    }

    /// Whether the two differ at most in the bytes from `start` to `end`.
    closed spec fn only_slots_differ(self, other: RecordData, start: int, end: int) -> bool {
        &&& self.strings == other.strings
        &&& self.binaries == other.binaries
        &&& self.documents == other.documents
        &&& self.bytes@.len() == other.bytes@.len()
        &&& forall|i: int|
            0 <= i < self.bytes@.len() && !(start <= i < end) ==> self.bytes@[i] == other.bytes@[i]
    }
}

impl RecordData {
    /// Every index into a table is a `usize`.
    proof fn lemma_tables_addressable(self)
        ensures
            self.strings@.len() <= usize::MAX,
            self.binaries@.len() <= usize::MAX,
            self.documents@.len() <= usize::MAX,
    {
        assert(self.strings@.len() == self.strings.len());
        assert(self.binaries@.len() == self.binaries.len());
        assert(self.documents@.len() == self.documents.len());
    }

    /// Reads the decimal in the slot at or after `ptr`, and gives the offset behind the slot.
    fn read_decimal(&self, ptr: usize) -> (read: (usize, Decimal))
        requires
            self.field_at(FieldType::Decimal, ptr as nat) is Some,
        ensures
            read.0 == slots::slot_end(FieldType::Decimal, ptr as nat),
            self.field_at(FieldType::Decimal, ptr as nat) == Some(FieldValue::Decimal(read.1@)),
    {
        proof {
            slots::lemma_parts_fit(FieldType::Decimal, ptr as nat);
        }
        let (ptr, lo) = scalar::read::<u32>(self.bytes.as_slice(), ptr);
        let (ptr, mid) = scalar::read::<u32>(self.bytes.as_slice(), ptr);
        let (ptr, hi) = scalar::read::<u32>(self.bytes.as_slice(), ptr);
        let (ptr, flags) = scalar::read::<u32>(self.bytes.as_slice(), ptr);
        let negative = flags >= 0x8000_0000;
        let scale = (flags % 0x8000_0000) / 0x1_0000;
        (ptr, Decimal::from_parts(lo, mid, hi, negative, scale))
    }

    /// Reads the timestamp in the slot at or after `ptr`, and gives the offset behind the slot.
    fn read_timestamp(&self, ptr: usize) -> (read: (usize, Timestamp))
        requires
            self.field_at(FieldType::Timestamp, ptr as nat) is Some,
        ensures
            read.0 == slots::slot_end(FieldType::Timestamp, ptr as nat),
            self.field_at(FieldType::Timestamp, ptr as nat) == Some(FieldValue::Timestamp(read.1)),
    {
        proof {
            slots::lemma_parts_fit(FieldType::Timestamp, ptr as nat);
        }
        let (ptr, low) = scalar::read::<u32>(self.bytes.as_slice(), ptr);
        let (ptr, high) = scalar::read::<u32>(self.bytes.as_slice(), ptr);
        let (ptr, nanos) = scalar::read::<u32>(self.bytes.as_slice(), ptr);
        let (ptr, offset) = scalar::read::<u32>(self.bytes.as_slice(), ptr);
        let secs = (low as u64 + 0x1_0000_0000 * (high as u64)) as i64;
        (ptr, Timestamp { secs, nanos, offset: offset as i32 })
    }

    /// Reads the point in the slot at or after `ptr`, and gives the offset behind the slot.
    fn read_point(&self, ptr: usize) -> (read: (usize, DozerPoint))
        requires
            self.field_at(FieldType::Point, ptr as nat) is Some,
        ensures
            read.0 == slots::slot_end(FieldType::Point, ptr as nat),
            self.field_at(FieldType::Point, ptr as nat) == Some(FieldValue::Point(read.1)),
    {
        proof {
            slots::lemma_parts_fit(FieldType::Point, ptr as nat);
        }
        let (ptr, x) = scalar::read::<u64>(self.bytes.as_slice(), ptr);
        let (ptr, y) = scalar::read::<u64>(self.bytes.as_slice(), ptr);
        (ptr, DozerPoint { x: Float64 { bits: x }, y: Float64 { bits: y } })
    }

    /// Reads the duration in the slot at or after `ptr`, and gives the offset behind the slot.
    fn read_duration(&self, ptr: usize) -> (read: (usize, DozerDuration))
        requires
            self.field_at(FieldType::Duration, ptr as nat) is Some,
        ensures
            read.0 == slots::slot_end(FieldType::Duration, ptr as nat),
            self.field_at(FieldType::Duration, ptr as nat) == Some(FieldValue::Duration(read.1)),
    {
        assert(self.bytes@.len() == self.bytes.len());
        proof {
            slots::lemma_parts_fit(FieldType::Duration, ptr as nat);
        }
        let mut end = ptr;
        slots::add_slot_size(FieldType::Duration, &mut end);
        let (nanos_at, secs) = scalar::read::<u64>(self.bytes.as_slice(), ptr);
        let unit_at = nanos_at - slots::NANOS_AT + slots::offset_of_unit();
        let nanos = scalar::read_word(self.bytes.as_slice(), nanos_at, 4);
        let unit = scalar::read_word(self.bytes.as_slice(), unit_at, 1);
        let duration = Duration { secs, nanos: nanos as u32 };
        (end, DozerDuration { duration, unit: TimeUnit::from_byte(unit as u8) })
    }

    /// Reads the index in the slot of a string or of bytes at or after `ptr`, and gives the offset
    /// behind the slot.
    fn read_index(&self, ptr: usize) -> (read: (usize, usize))
        requires
            slots::words_end(ptr as nat) <= self.len(),
        ensures
            read.0 == slots::words_end(ptr as nat),
            read.1 == scalar::scalar_at::<usize>(self.bytes@, ptr as nat),
    {
        assert(self.bytes@.len() == self.bytes.len());
        proof {
            slots::lemma_parts_fit(FieldType::String, ptr as nat);
        }
        let mut end = ptr;
        slots::add_slot_size(FieldType::String, &mut end);
        (end, scalar::read::<usize>(self.bytes.as_slice(), ptr).1)
    }

    /// Reads the field in the slot at or after `ptr`, and gives the offset behind the slot.
    ///
    /// The string or bytes of the field stay in the storage.
    pub fn read_field_ref<'a>(&'a self, ptr: usize, field_type: FieldType) -> (read: (
        usize,
        FieldRef<'a>,
    ))
        requires
            self.field_at(field_type, ptr as nat) is Some,
        ensures
            read.0 == slots::slot_end(field_type, ptr as nat),
            self.field_at(field_type, ptr as nat) == Some(read.1@),
    {
        let bytes = self.bytes.as_slice();
        match field_type {
            FieldType::UInt => {
                let (ptr, value) = scalar::read::<u64>(bytes, ptr);
                (ptr, FieldRef::UInt(value))
            },
            FieldType::U128 => {
                let (ptr, value) = scalar::read::<u128>(bytes, ptr);
                (ptr, FieldRef::U128(value))
            },
            FieldType::Int => {
                let (ptr, value) = scalar::read::<i64>(bytes, ptr);
                (ptr, FieldRef::Int(value))
            },
            FieldType::I128 => {
                let (ptr, value) = scalar::read::<i128>(bytes, ptr);
                (ptr, FieldRef::I128(value))
            },
            FieldType::Float => {
                let (ptr, bits) = scalar::read::<u64>(bytes, ptr);
                (ptr, FieldRef::Float(Float64 { bits }))
            },
            FieldType::Boolean => {
                let (ptr, value) = scalar::read::<bool>(bytes, ptr);
                (ptr, FieldRef::Boolean(value))
            },
            FieldType::String => {
                let (ptr, index) = self.read_index(ptr);
                (ptr, FieldRef::String(self.strings[index].as_str()))
            },
            FieldType::Text => {
                let (ptr, index) = self.read_index(ptr);
                (ptr, FieldRef::Text(self.strings[index].as_str()))
            },
            FieldType::Binary => {
                let (ptr, index) = self.read_index(ptr);
                (ptr, FieldRef::Binary(self.binaries[index].as_slice()))
            },
            FieldType::Decimal => {
                let (ptr, value) = self.read_decimal(ptr);
                (ptr, FieldRef::Decimal(value))
            },
            FieldType::Timestamp => {
                let (ptr, value) = self.read_timestamp(ptr);
                (ptr, FieldRef::Timestamp(value))
            },
            FieldType::Date => {
                let (ptr, days) = scalar::read::<i32>(bytes, ptr);
                (ptr, FieldRef::Date(Date { days }))
            },
            FieldType::Json => {
                let (ptr, index) = scalar::read::<usize>(bytes, ptr);
                (ptr, FieldRef::Json(self.documents[index].clone()))
            },
            FieldType::Point => {
                let (ptr, value) = self.read_point(ptr);
                (ptr, FieldRef::Point(value))
            },
            FieldType::Duration => {
                let (ptr, value) = self.read_duration(ptr);
                (ptr, FieldRef::Duration(value))
            },
        }
    }

    /// Takes the field out of the slot at or after `ptr`, and gives the offset behind the slot. A
    /// text is taken out as a string.
    ///
    /// A field that shares no table entry with the one taken keeps its value.
    pub fn read_field(&mut self, ptr: usize, field_type: FieldType) -> (read: (usize, Field))
        requires
            old(self).field_at(field_type, ptr as nat) is Some,
        ensures
            final(self).len() == old(self).len(),
            read.0 == slots::slot_end(field_type, ptr as nat),
            read.1@ == owned_value(old(self).field_at(field_type, ptr as nat)->0),
            forall|other: FieldType, at: nat|
                old(self).field_at(other, at) is Some && (old(self).entry_at(other, at) is None
                    || old(self).entry_at(other, at) != old(self).entry_at(field_type, ptr as nat))
                    ==> {
                    &&& #[trigger] final(self).field_at(other, at) == old(self).field_at(other, at)
                    &&& final(self).entry_at(other, at) == old(self).entry_at(other, at)
                },
    {
        let ghost before = *self;
        proof {
            self.lemma_tables_addressable();
        }
        let read = match field_type {
            FieldType::UInt => {
                let (ptr, value) = scalar::read::<u64>(self.bytes.as_slice(), ptr);
                (ptr, Field::UInt(value))
            },
            FieldType::U128 => {
                let (ptr, value) = scalar::read::<u128>(self.bytes.as_slice(), ptr);
                (ptr, Field::U128(value))
            },
            FieldType::Int => {
                let (ptr, value) = scalar::read::<i64>(self.bytes.as_slice(), ptr);
                (ptr, Field::Int(value))
            },
            FieldType::I128 => {
                let (ptr, value) = scalar::read::<i128>(self.bytes.as_slice(), ptr);
                (ptr, Field::I128(value))
            },
            FieldType::Float => {
                let (ptr, bits) = scalar::read::<u64>(self.bytes.as_slice(), ptr);
                (ptr, Field::Float(Float64 { bits }))
            },
            FieldType::Boolean => {
                let (ptr, value) = scalar::read::<bool>(self.bytes.as_slice(), ptr);
                (ptr, Field::Boolean(value))
            },
            FieldType::String => {
                let (ptr, index) = self.read_index(ptr);
                let mut value = String::new();
                core::mem::swap(&mut self.strings[index], &mut value);
                (ptr, Field::String(value))
            },
            FieldType::Text => {
                let (ptr, index) = self.read_index(ptr);
                let mut value = String::new();
                core::mem::swap(&mut self.strings[index], &mut value);
                (ptr, Field::String(value))
            },
            FieldType::Binary => {
                let (ptr, index) = self.read_index(ptr);
                let mut value: Vec<u8> = Vec::new();
                core::mem::swap(&mut self.binaries[index], &mut value);
                (ptr, Field::Binary(value))
            },
            FieldType::Decimal => {
                let (ptr, value) = self.read_decimal(ptr);
                (ptr, Field::Decimal(value))
            },
            FieldType::Timestamp => {
                let (ptr, value) = self.read_timestamp(ptr);
                (ptr, Field::Timestamp(value))
            },
            FieldType::Date => {
                let (ptr, days) = scalar::read::<i32>(self.bytes.as_slice(), ptr);
                (ptr, Field::Date(Date { days }))
            },
            FieldType::Json => {
                let (ptr, index) = scalar::read::<usize>(self.bytes.as_slice(), ptr);
                let mut value = JsonValue::Null;
                core::mem::swap(&mut self.documents[index], &mut value);
                (ptr, Field::Json(value))
            },
            FieldType::Point => {
                let (ptr, value) = self.read_point(ptr);
                (ptr, Field::Point(value))
            },
            FieldType::Duration => {
                let (ptr, value) = self.read_duration(ptr);
                (ptr, Field::Duration(value))
            },
        };
        proof {
            assert forall|other: FieldType, at: nat|
                before.field_at(other, at) is Some && (before.entry_at(other, at) is None
                    || before.entry_at(other, at) != before.entry_at(
                    field_type,
                    ptr as nat,
                )) implies {
                &&& #[trigger] self.field_at(other, at) == before.field_at(other, at)
                &&& self.entry_at(other, at) == before.entry_at(other, at)
            } by {
                lemma_field_frame(before, *self, other, at);
            }
        }
        read
    }
}

impl RecordData {
    /// Packs fields into storage, and gives their types with it.
    pub fn pack(fields: Vec<Field>) -> (packed: (RecordData, Vec<Option<FieldType>>))
        requires
            fields@.len() * slots::MAX_SLOT <= isize::MAX,
        ensures
            packed.1@ == field::types_of(field::field_values(fields@)),
            packed.0.complete(packed.1@),
            packed.0.values(packed.1@) == field::field_values(fields@),
            packed.1@.len() == fields@.len(),
            forall|i: nat|
                i < fields@.len() ==> #[trigger] packed.0.field(packed.1@, i) == Some(
                    fields@[i as int]@,
                ),
    {
        let ghost values = field::field_values(fields@);
        let mut field_types: Vec<Option<FieldType>> = Vec::with_capacity(fields.len());
        let mut i: usize = 0;
        while i < fields.len()
            invariant
                i <= fields@.len(),
                field_types@.len() == i,
                forall|j: int| 0 <= j < i ==> field_types@[j] == (#[trigger] fields@[j])@.ty(),
            decreases fields@.len() - i,
        {
            field_types.push(fields[i].ty());
            i += 1;
        }
        let ghost types = field_types@;
        proof {
            assert(types =~= field::types_of(values));
            slots::law_packed_size_bound(types, types.len());
        }
        let size = slots::size(field_types.as_slice());
        let mut data = RecordData::with_size(size);
        let mut ptr: usize = 0;
        for field in it: fields
            invariant
                it.seq() == fields@,
                types.len() == values.len() == fields@.len(),
                types == field::types_of(values),
                values == field::field_values(fields@),
                ptr == slots::fields_end(types, it.index() as nat),
                data.holds(types, values.take(it.index() as int)),
                data.owns_entries(types, it.index() as nat),
        {
            let ghost n = it.index() as nat;
            let ghost before = data;
            proof {
                assert(field == fields@[n as int]);
                slots::lemma_fields_end_grows(types, n + 1, types.len());
            }
            ptr = data.write_field(ptr, field);
            proof {
                lemma_field_written(before, data, types, values, n);
            }
        }
        proof {
            assert(values.take(values.len() as int) =~= values);
            assert(data.values(types) =~= values) by {
                assert forall|i: int| 0 <= i < values.len() implies data.values(types)[i]
                    == values[i] by {
                    assert(data.field(types, i as nat) == Some(values[i]));
                }
            }
        }
        (data, field_types)
    }

    /// Takes the storage apart and hands every value over, each exactly once, in the order of the
    /// fields. A text comes out as a string.
    pub fn into_fields(self, field_types: &[Option<FieldType>]) -> (fields: Vec<Field>)
        requires
            self.complete(field_types@),
        ensures
            field::field_values(fields@) == self.values(field_types@).map_values(
                |value: FieldValue| owned_value(value),
            ),
            fields@.len() == field_types@.len(),
            forall|i: nat|
                i < field_types@.len() ==> (#[trigger] fields@[i as int])@ == owned_value(
                    self.field(field_types@, i)->0,
                ),
    {
        let ghost types = field_types@;
        let mut data = self;
        let mut fields: Vec<Field> = Vec::with_capacity(field_types.len());
        let mut ptr: usize = 0;
        let mut i: usize = 0;
        while i < field_types.len()
            invariant
                types == field_types@,
                i <= types.len(),
                ptr == slots::fields_end(types, i as nat),
                self.complete(types),
                fields@.len() == i,
                forall|j: nat|
                    j < i ==> (#[trigger] fields@[j as int])@ == owned_value(
                        self.field(types, j)->0,
                    ),
                forall|j: nat|
                    i <= j < types.len() ==> #[trigger] data.field(types, j) == self.field(types, j)
                        && data.entry(types, j) == self.entry(types, j),
            decreases types.len() - i,
        {
            let ghost before = data;
            let field = match field_types[i] {
                Some(field_type) => {
                    assert(before.field(types, i as nat) == self.field(types, i as nat));
                    let (end, field) = data.read_field(ptr, field_type);
                    ptr = end;
                    field
                },
                None => Field::Null,
            };
            proof {
                assert forall|j: nat| i < j < types.len() implies #[trigger] data.field(types, j)
                    == self.field(types, j) && data.entry(types, j) == self.entry(types, j) by {
                    assert(before.field(types, j) == self.field(types, j));
                    assert(self.entry(types, i as nat) is Some ==> self.entry(types, i as nat)
                        != self.entry(types, j));
                }
            }
            fields.push(field);
            i += 1;
        }
        proof {
            let owned = self.values(types).map_values(|value: FieldValue| owned_value(value));
            assert(field::field_values(fields@) =~= owned) by {
                assert forall|j: int| 0 <= j < types.len() implies field::field_values(fields@)[j]
                    == owned[j] by {
                    assert(fields@[j as nat as int]@ == owned_value(self.field(types, j as nat)->0));
                }
            }
        }
        fields
    }
}

/// Writing field `n` behind the fields before it keeps them, and adds the field.
proof fn lemma_field_written(
    before: RecordData,
    after: RecordData,
    types: Seq<Option<FieldType>>,
    values: Seq<FieldValue>,
    n: nat,
)
    requires
        n < values.len() == types.len(),
        types == field::types_of(values),
        before.holds(types, values.take(n as int)),
        before.owns_entries(types, n),
        after.len() == before.len(),
        match types[n as int] {
            Some(ty) => {
                let at = slots::fields_end(types, n);
                &&& after.field_at(ty, at) == Some(values[n as int])
                &&& forall|other: FieldType, at2: nat|
                    before.field_at(other, at2) is Some && before.entry_at(other, at2) is Some
                        ==> #[trigger] before.entry_at(other, at2) != after.entry_at(ty, at)
            },
            None => after == before,
        },
        forall|other: FieldType, at: nat|
            before.field_at(other, at) is Some && (types[n as int] matches Some(ty)
                ==> slots::slot_end(other, at) <= slots::slot_start(ty, slots::fields_end(types, n)))
                ==> {
                &&& #[trigger] after.field_at(other, at) == before.field_at(other, at)
                &&& after.entry_at(other, at) == before.entry_at(other, at)
            },
    ensures
        after.holds(types, values.take((n + 1) as int)),
        after.owns_entries(types, n + 1),
{
    assert forall|i: nat| i < n implies #[trigger] after.field(types, i) == Some(values[i as int])
        && after.entry(types, i) == before.entry(types, i) && before.field(types, i) == Some(
        values[i as int],
    ) by {
        assert(before.field(types, i) == Some(values.take(n as int)[i as int]));
        slots::lemma_fields_end_grows(types, i + 1, n);
        if let Some(ty) = types[n as int] {
            slots::lemma_slot_extent(ty, slots::fields_end(types, n));
        }
    }
    assert forall|i: nat| i < n + 1 implies #[trigger] after.field(types, i) == Some(
        values.take((n + 1) as int)[i as int],
    ) by {
        if i == n && types[n as int] is None {
            assert(values[n as int].ty() is None);
        }
    }
    assert forall|i: nat, j: nat|
        i < j < n + 1 && #[trigger] after.entry(types, i) is Some implies after.entry(types, i)
        != #[trigger] after.entry(types, j) by {
        assert(after.field(types, i) == Some(values[i as int]));
        if j < n {
            assert(after.field(types, j) == Some(values[j as int]));
            assert(before.entry(types, i) != before.entry(types, j));
        } else {
            assert(before.entry_at(types[i as int]->0, slots::fields_end(types, i)) is Some);
        }
    }
}

} // verus!
