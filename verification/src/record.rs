//! Records.

use crate::field;
use crate::field::{Field, FieldRef, FieldType, FieldValue};
use crate::shared;
use crate::slots;
use crate::storage::RecordData;
use triomphe::{Arc, HeaderSlice};
use vstd::prelude::*;

verus! {

/// A compact, shared list of fields.
///
/// The types of the fields stand side by side, a byte for each, and the values are packed in slots
/// of their own sizes. Cloning a `RecordRef` makes another reference to the same list.
#[derive(Debug)]
pub struct RecordRef {
    /// The types and the storage of the fields.
    shared: Arc<HeaderSlice<RecordData, [Option<FieldType>]>>,
    /// Where `shared` points. The list does not move while a reference to it is alive.
    address: usize,
}

impl View for RecordRef {
    type V = Seq<FieldValue>;

    /// The values of the fields.
    closed spec fn view(&self) -> Seq<FieldValue> {
        shared::shared_data(self.shared).values(shared::shared_types(self.shared))
    }
}

impl RecordRef {
    #[verifier::type_invariant]
    spec fn well_formed(self) -> bool {
        &&& shared::shared_data(self.shared).complete(shared::shared_types(self.shared))
        &&& self.address != 0
        &&& self.lies_at(self.address)
    }

    /// Whether the number is one that the shared list itself gives for its address.
    pub closed spec fn lies_at(self, address: usize) -> bool {
        call_ensures(shared::address, (&self.shared,), address)
    }

    /// Where the list of fields lies in memory.
    pub closed spec fn address(self) -> usize {
        self.address
    }

    /// Stores the given fields.
    ///
    /// A `Field` takes no less memory than the largest slot, so every vector of fields that fits
    /// into memory is short enough.
    pub fn new(fields: Vec<Field>) -> (record: RecordRef)
        requires
            fields@.len() * slots::MAX_SLOT <= isize::MAX,
        ensures
            record@ == field::field_values(fields@),
            record@.len() == fields@.len(),
            forall|i: int| 0 <= i < fields@.len() ==> (#[trigger] record@[i]) == fields@[i]@,
            record.lies_at(record.address()),
    {
        let (data, field_types) = RecordData::pack(fields);
        let shared = shared::from_header_and_slice(data, field_types.as_slice());
        let address = shared::locate(shared::address, &shared);
        RecordRef { shared, address }
    }

    /// Stores copies of the given fields. As for `new`, every slice that fits into memory is short
    /// enough.
    pub fn from_field_refs(fields: &[FieldRef<'_>]) -> (record: RecordRef)
        requires
            fields@.len() * slots::MAX_SLOT <= isize::MAX,
        ensures
            record@ == field::field_ref_values(fields@),
            record@.len() == fields@.len(),
            forall|i: int| 0 <= i < fields@.len() ==> (#[trigger] record@[i]) == fields@[i]@,
            record.lies_at(record.address()),
    {
        let mut owned_fields: Vec<Field> = Vec::with_capacity(fields.len());
        let mut i: usize = 0;
        while i < fields.len()
            invariant
                i <= fields@.len(),
                owned_fields@.len() == i,
                forall|j: int| 0 <= j < i ==> (#[trigger] owned_fields@[j])@ == fields@[j]@,
            decreases fields@.len() - i,
        {
            owned_fields.push(fields[i].cloned());
            i += 1;
        }
        assert(field::field_values(owned_fields@) =~= field::field_ref_values(fields@));
        RecordRef::new(owned_fields)
    }

    /// The fields, in the order in which they were stored.
    pub fn load(&self) -> (fields: Vec<FieldRef<'_>>)
        ensures
            field::field_ref_values(fields@) == self@,
            fields@.len() == self@.len(),
            forall|i: int| 0 <= i < self@.len() ==> (#[trigger] fields@[i])@ == self@[i],
    {
        proof {
            use_type_invariant(self);
        }
        let data = self.data();
        let field_types = self.field_types();
        let ghost types = field_types@;
        let mut fields: Vec<FieldRef<'_>> = Vec::with_capacity(field_types.len());
        let mut ptr: usize = 0;
        let mut i: usize = 0;
        while i < field_types.len()
            invariant
                types == field_types@,
                i <= types.len(),
                ptr == slots::fields_end(types, i as nat),
                data.complete(types),
                fields@.len() == i,
                forall|j: int|
                    0 <= j < i ==> (#[trigger] fields@[j])@ == data.values(types)[j],
            decreases types.len() - i,
        {
            let field = match field_types[i] {
                Some(field_type) => {
                    assert(data.field(types, i as nat) is Some);
                    let (end, field) = data.read_field_ref(ptr, field_type);
                    ptr = end;
                    field
                },
                None => FieldRef::Null,
            };
            fields.push(field);
            i += 1;
        }
        assert(field::field_ref_values(fields@) =~= data.values(types));
        fields
    }

    /// A number that tells this list of fields from every other list that is alive: the address of
    /// its storage. A clone has the number of what it was cloned from.
    pub fn id(&self) -> (id: usize)
        ensures
            id == self.address(),
            id != 0,
            self.lies_at(id),
    {
        proof {
            use_type_invariant(self);
        }
        self.address
    }

    /// The types of the fields.
    fn field_types(&self) -> (field_types: &[Option<FieldType>])
        ensures
            field_types@ == shared::shared_types(self.shared),
    {
        shared::contents(&self.shared).1
    }

    /// The storage of the fields.
    fn data(&self) -> (data: &RecordData)
        ensures
            *data == shared::shared_data(self.shared),
    {
        shared::contents(&self.shared).0
    }
}

impl Clone for RecordRef {
    fn clone(&self) -> (record: Self)
        ensures
            record@ == self@,
            record.address() == self.address(),
            record == *self,
            record.lies_at(record.address()),
    {
        proof {
            use_type_invariant(self);
        }
        RecordRef { shared: shared::another(&self.shared), address: self.address }
    }
}

impl PartialEq for RecordRef {
    fn eq(&self, other: &Self) -> (equal: bool) {
        same_fields(&self.load(), &other.load())
    }
}

impl vstd::std_specs::cmp::PartialEqSpecImpl for RecordRef {
    open spec fn obeys_eq_spec() -> bool {
        true
    }

    open spec fn eq_spec(&self, other: &Self) -> bool {
        field::same_values(self@, other@)
    }
}

impl Eq for RecordRef {

}

/// Whether two lists of fields are equal, field by field.
fn same_fields(a: &Vec<FieldRef<'_>>, b: &Vec<FieldRef<'_>>) -> (equal: bool)
    ensures
        equal == field::same_values(field::field_ref_values(a@), field::field_ref_values(b@)),
{
    if a.len() != b.len() {
        return false;
    }
    let mut i: usize = 0;
    while i < a.len()
        invariant
            i <= a@.len() == b@.len(),
            forall|j: int| 0 <= j < i ==> field::same_value((#[trigger] a@[j])@, b@[j]@),
        decreases a@.len() - i,
    {
        if a[i] != b[i] {
            assert(!field::same_value(
                field::field_ref_values(a@)[i as int],
                field::field_ref_values(b@)[i as int],
            ));
            return false;
        }
        i += 1;
    }
    true
}

/// Where a record lies is what its shared list gives as its address, and nothing else.
proof fn law_lies_where_its_list_does(record: RecordRef, address: usize)
    ensures
        record.lies_at(address) <==> call_ensures(shared::address, (&record.shared,), address),
{
}

/// No record lies at zero.
pub proof fn law_lies_not_at_zero(record: RecordRef, address: usize)
    requires
        record.lies_at(address),
    ensures
        address != 0,
{
}

/// What is stored is what is loaded: copies of the fields that a record was loaded as hold, field
/// by field, what the record was made from.
pub proof fn law_load_gives_back_what_was_stored(
    stored: Seq<Field>,
    record: RecordRef,
    loaded: Seq<FieldRef<'_>>,
    copies: Seq<Field>,
)
    requires
        record@ == field::field_values(stored),
        field::field_ref_values(loaded) == record@,
        copies.len() == loaded.len(),
        forall|i: int| 0 <= i < loaded.len() ==> (#[trigger] copies[i])@ == loaded[i]@,
    ensures
        field::field_values(copies) == field::field_values(stored),
{
    let values = field::field_values(stored);
    assert(loaded.len() == values.len());
    assert forall|i: int| 0 <= i < values.len() implies field::field_values(copies)[i]
        == values[i] by {
        assert(field::field_ref_values(loaded)[i] == values[i]);
        assert(copies[i]@ == loaded[i]@);
    }
    assert(field::field_values(copies) =~= values);
}

/// A record made from the fields that another was loaded as equals the other.
pub proof fn law_stored_again_is_equal(
    record: RecordRef,
    loaded: Seq<FieldRef<'_>>,
    again: RecordRef,
)
    requires
        field::field_ref_values(loaded) == record@,
        again@ == field::field_ref_values(loaded),
    ensures
        again@ == record@,
        field::same_values(again@, record@),
{
    field::law_fields_equality(record@, record@, record@);
}

} // verus!
