//! Records as processors pass them on.

use crate::field;
use crate::record::RecordRef;
use crate::time;
use crate::time::Lifetime;
use vstd::prelude::*;

verus! {

/// A list of records that together make up one, with a lifetime.
#[derive(Debug)]
pub struct ProcessorRecord {
    /// The fields of the record, grouped into shared lists of fields.
    ///
    /// A boxed slice saves the capacity that a `Vec` would store.
    values: Box<[RecordRef]>,
    /// The time that the record lives. A record without one never expires.
    lifetime: Option<Box<Lifetime>>,
}

/// Turns a vector into a boxed slice with `Vec::into_boxed_slice`, which keeps the items and their
/// order.
#[verifier::external_body]
fn into_boxed_slice(values: Vec<RecordRef>) -> (boxed: Box<[RecordRef]>)
    ensures
        boxed@ == values@,
{
    values.into_boxed_slice()
}

/// Whether two lists of records are equal, record by record.
pub open spec fn same_records(a: Seq<RecordRef>, b: Seq<RecordRef>) -> bool {
    a.len() == b.len() && forall|i: int|
        0 <= i < a.len() ==> field::same_values((#[trigger] a[i])@, b[i]@)
}

/// Whether two lifetimes are equal, where each may be missing.
pub open spec fn same_lifetimes(a: Option<Lifetime>, b: Option<Lifetime>) -> bool {
    match (a, b) {
        (Some(x), Some(y)) => time::same_lifetime(x, y),
        (None, None) => true,
        _ => false,
    }
}

/// Whether two records have equal lists of fields and equal lifetimes.
pub open spec fn same_record(a: ProcessorRecord, b: ProcessorRecord) -> bool {
    same_records(a.records(), b.records()) && same_lifetimes(a.lifetime(), b.lifetime())
}

impl ProcessorRecord {
    /// The lists of fields.
    pub closed spec fn records(self) -> Seq<RecordRef> {
        self.values@
    }

    /// The lifetime, if there is one.
    pub closed spec fn lifetime(self) -> Option<Lifetime> {
        match self.lifetime {
            Some(lifetime) => Some(*lifetime),
            None => None,
        }
    }

    /// A record with the given lists of fields, which never expires.
    pub fn new(values: Box<[RecordRef]>) -> (record: ProcessorRecord)
        ensures
            record.records() == values@,
            record.lifetime() is None,
    {
        ProcessorRecord { values, lifetime: None }
    }

    /// The lifetime, if there is one.
    pub fn get_lifetime(&self) -> (lifetime: Option<Lifetime>)
        ensures
            lifetime == self.lifetime(),
    {
        match &self.lifetime {
            Some(lifetime) => Some(**lifetime),
            None => None,
        }
    }

    /// Sets the lifetime, or takes it away.
    pub fn set_lifetime(&mut self, lifetime: Option<Lifetime>)
        ensures
            final(self).lifetime() == lifetime,
            final(self).records() == old(self).records(),
    {
        self.lifetime = match lifetime {
            Some(lifetime) => Some(Box::new(lifetime)),
            None => None,
        };
    }

    /// The lists of fields.
    pub fn values(&self) -> (values: &[RecordRef])
        ensures
            values@ == self.records(),
    {
        &self.values
    }

    /// A record with the lists of fields of an existing one and one more behind them. It never
    /// expires, whatever the lifetime of the existing one.
    pub fn appended(existing: &ProcessorRecord, additional: RecordRef) -> (record: ProcessorRecord)
        ensures
            record.records().len() == existing.records().len() + 1,
            forall|i: int|
                0 <= i < existing.records().len() ==> (#[trigger] record.records()[i])@
                    == existing.records()[i]@ && record.records()[i].address()
                    == existing.records()[i].address(),
            record.records().last() == additional,
            record.records() == existing.records().push(additional),
            record.lifetime() is None,
    {
        let mut values: Vec<RecordRef> = Vec::with_capacity(
            existing.values().len().saturating_add(1),
        );
        values.extend_from_slice(existing.values());
        values.push(additional);
        Self::new(into_boxed_slice(values))
    }
}

impl Default for ProcessorRecord {
    fn default() -> (record: Self)
        ensures
            record.records() == Seq::<RecordRef>::empty(),
            record.lifetime() is None,
    {
        Self::new(into_boxed_slice(Vec::new()))
    }
}

impl Clone for ProcessorRecord {
    fn clone(&self) -> (copy: Self)
        ensures
            copy.records().len() == self.records().len(),
            forall|i: int|
                0 <= i < self.records().len() ==> (#[trigger] copy.records()[i])@
                    == self.records()[i]@ && copy.records()[i].address()
                    == self.records()[i].address(),
            copy.records() == self.records(),
            copy.lifetime() == self.lifetime(),
    {
        let mut values: Vec<RecordRef> = Vec::with_capacity(self.values().len());
        values.extend_from_slice(self.values());
        let mut copy = Self::new(into_boxed_slice(values));
        copy.set_lifetime(self.get_lifetime());
        copy
    }
}

impl PartialEq for ProcessorRecord {
    fn eq(&self, other: &Self) -> (equal: bool) {
        let lifetimes = match (self.get_lifetime(), other.get_lifetime()) {
            (Some(a), Some(b)) => a == b,
            (None, None) => true,
            _ => false,
        };
        equal_records(self.values(), other.values()) && lifetimes
    }
}

impl vstd::std_specs::cmp::PartialEqSpecImpl for ProcessorRecord {
    open spec fn obeys_eq_spec() -> bool {
        true
    }

    open spec fn eq_spec(&self, other: &Self) -> bool {
        same_record(*self, *other)
    }
}

impl Eq for ProcessorRecord {

}

/// Whether two lists of records are equal, record by record.
fn equal_records(a: &[RecordRef], b: &[RecordRef]) -> (equal: bool)
    ensures
        equal == same_records(a@, b@),
{
    if a.len() != b.len() {
        return false;
    }
    let mut i: usize = 0;
    while i < a.len()
        invariant
            i <= a@.len() == b@.len(),
            forall|j: int| 0 <= j < i ==> field::same_values((#[trigger] a@[j])@, b@[j]@),
        decreases a@.len() - i,
    {
        if a[i] != b[i] {
            return false;
        }
        i += 1;
    }
    true
}

/// Equality of processor records is an equivalence.
pub proof fn law_processor_record_equality(
    a: ProcessorRecord,
    b: ProcessorRecord,
    c: ProcessorRecord,
)
    ensures
        same_record(a, a),
        same_record(a, b) == same_record(b, a),
        same_record(a, b) && same_record(b, c) ==> same_record(a, c),
{
    let x = a.records();
    let y = b.records();
    let z = c.records();
    assert forall|i: int| 0 <= i < x.len() implies field::same_values((#[trigger] x[i])@, x[i]@) by {
        field::law_fields_equality(x[i]@, x[i]@, x[i]@);
    }
    if x.len() == y.len() {
        assert forall|i: int| 0 <= i < x.len() implies field::same_values(
            (#[trigger] x[i])@,
            y[i]@,
        ) == field::same_values(y[i]@, x[i]@) by {
            field::law_fields_equality(x[i]@, y[i]@, y[i]@);
        }
        if same_records(y, x) {
            assert forall|i: int| 0 <= i < x.len() implies field::same_values(
                (#[trigger] x[i])@,
                y[i]@,
            ) by {
                assert(field::same_values(y[i]@, x[i]@));
            }
        }
    }
    if same_records(x, y) && same_records(y, z) {
        assert forall|i: int| 0 <= i < x.len() implies field::same_values(
            (#[trigger] x[i])@,
            z[i]@,
        ) by {
            assert(field::same_values(y[i]@, z[i]@));
            field::law_fields_equality(x[i]@, y[i]@, z[i]@);
        }
    }
}

} // verus!
