//! Records behind a reference count.
//!
//! A record's storage and the types of its fields share one allocation of `triomphe`: the storage
//! is its header, the field types are its slice.

use crate::field::FieldType;
use crate::slots;
use crate::storage::RecordData;
use triomphe::{Arc, HeaderSlice};
use vstd::prelude::*;

verus! {

/// `triomphe::Arc`, a reference-counted pointer to a value that does not change.
#[verifier::external_type_specification]
#[verifier::external_body]
#[verifier::reject_recursive_types(T)]
pub struct ExArc<T: ?Sized>(Arc<T>);

/// `triomphe::HeaderSlice`, a header and a slice in one allocation.
#[verifier::external_type_specification]
#[verifier::external_body]
#[verifier::reject_recursive_types(H)]
#[verifier::reject_recursive_types(T)]
pub struct ExHeaderSlice<H, T: ?Sized>(HeaderSlice<H, T>);

/// The slice of a shared record: the types of its fields.
pub uninterp spec fn shared_types(
    record: Arc<HeaderSlice<RecordData, [Option<FieldType>]>>,
) -> Seq<Option<FieldType>>;

/// The header of a shared record: its storage.
pub uninterp spec fn shared_data(
    record: Arc<HeaderSlice<RecordData, [Option<FieldType>]>>,
) -> RecordData;

/// Makes a shared record with `triomphe::Arc::from_header_and_slice`.
///
/// The header is moved and the items are copied, unchanged, into the allocation. The function
/// panics where header and items, at a byte for each item, are too large for an allocation.
#[verifier::external_body]
pub(crate) fn from_header_and_slice(
    header: RecordData,
    items: &[Option<FieldType>],
) -> (record: Arc<HeaderSlice<RecordData, [Option<FieldType>]>>)
    requires
        items@.len() * slots::MAX_SLOT <= isize::MAX,
    ensures
        shared_data(record) == header,
        shared_types(record) == items@,
{
    Arc::from_header_and_slice(header, items)
}

/// Borrows the header and the slice of a shared record through the `Deref` of `triomphe::Arc`.
#[verifier::external_body]
pub(crate) fn contents(
    record: &Arc<HeaderSlice<RecordData, [Option<FieldType>]>>,
) -> (contents: (&RecordData, &[Option<FieldType>]))
    ensures
        *contents.0 == shared_data(*record),
        contents.1@ == shared_types(*record),
{
    (&record.header, &record.slice)
}

/// Makes another reference to a shared record with the `Clone` of `triomphe::Arc`, which copies the
/// pointer: it is the same value, and points at the same header and slice.
#[verifier::external_body]
pub(crate) fn another(
    record: &Arc<HeaderSlice<RecordData, [Option<FieldType>]>>,
) -> (other: Arc<HeaderSlice<RecordData, [Option<FieldType>]>>)
    ensures
        other == *record,
        shared_data(other) == shared_data(*record),
        shared_types(other) == shared_types(*record),
{
    record.clone()
}

/// The address of a shared record's header, from `triomphe::Arc::as_ptr`.
///
/// The address is that of a live value, so it is not zero. Which one it is, the allocator decides:
/// that no other live record has it is not stated.
#[verifier::external_body]
pub(crate) fn address(
    record: &Arc<HeaderSlice<RecordData, [Option<FieldType>]>>,
) -> (address: usize)
    ensures
        address != 0,
{
    record.as_ptr().addr()
}

/// Asks for the address of a shared record's header.
pub(crate) fn locate<F: Fn(&Arc<HeaderSlice<RecordData, [Option<FieldType>]>>) -> usize>(
    ask: F,
    record: &Arc<HeaderSlice<RecordData, [Option<FieldType>]>>,
) -> (address: usize)
    requires
        call_requires(ask, (record,)),
    ensures
        call_ensures(ask, (record,), address),
{
    ask(record)
}

} // verus!
