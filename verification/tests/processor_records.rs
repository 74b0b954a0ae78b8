use dozer_recordstore::{Duration, Field, Lifetime, ProcessorRecord, RecordRef, Timestamp};

fn record(value: i64) -> RecordRef {
    RecordRef::new(vec![Field::Int(value)])
}

fn lifetime() -> Lifetime {
    Lifetime {
        reference: Timestamp {
            secs: 10,
            nanos: 0,
            offset: 0,
        },
        duration: Duration { secs: 60, nanos: 0 },
    }
}

#[test]
fn a_new_record_never_expires() {
    let processor_record = ProcessorRecord::new(vec![record(1), record(2)].into_boxed_slice());
    assert_eq!(processor_record.get_lifetime(), None);
    assert_eq!(processor_record.values(), &[record(1), record(2)]);
    assert_eq!(ProcessorRecord::default().values().len(), 0);
    assert_eq!(ProcessorRecord::default().get_lifetime(), None);
}

#[test]
fn the_lifetime_can_be_set_and_taken_away() {
    let mut processor_record = ProcessorRecord::new(vec![record(1)].into_boxed_slice());
    processor_record.set_lifetime(Some(lifetime()));
    assert_eq!(processor_record.get_lifetime(), Some(lifetime()));
    assert_eq!(processor_record.values(), &[record(1)]);
    processor_record.set_lifetime(None);
    assert_eq!(processor_record.get_lifetime(), None);
}

#[test]
fn appending_adds_behind_and_forgets_the_lifetime() {
    let first = record(1);
    let mut existing = ProcessorRecord::new(vec![first.clone()].into_boxed_slice());
    existing.set_lifetime(Some(lifetime()));
    let added = record(2);
    let added_id = added.id();
    let appended = ProcessorRecord::appended(&existing, added);
    assert_eq!(appended.values(), &[record(1), record(2)]);
    assert_eq!(appended.get_lifetime(), None);
    assert_eq!(appended.values()[0].id(), first.id());
    assert_eq!(appended.values()[1].id(), added_id);
    // The existing record stays as it was.
    assert_eq!(existing.values(), &[record(1)]);
    assert_eq!(existing.get_lifetime(), Some(lifetime()));
    let twice = ProcessorRecord::appended(&appended, record(3));
    assert_eq!(twice.values(), &[record(1), record(2), record(3)]);
}

#[test]
fn equality_covers_fields_and_lifetime() {
    let a = ProcessorRecord::new(vec![record(1), record(2)].into_boxed_slice());
    let mut b = a.clone();
    assert_eq!(a, b);
    assert_eq!(a.values()[0].id(), b.values()[0].id());
    b.set_lifetime(Some(lifetime()));
    assert_ne!(a, b);
    assert_eq!(b, b.clone());
    assert_ne!(a, ProcessorRecord::new(vec![record(1)].into_boxed_slice()));
    assert_ne!(
        a,
        ProcessorRecord::new(vec![record(1), record(3)].into_boxed_slice())
    );
}
