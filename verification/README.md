# dozer-recordstore

A compact representation of records, verified with Verus.

A `RecordRef` is a shared list of fields. The types of the fields are packed at a byte each, and the
values are packed into slots of their own sizes. Strings, bytes and JSON values are kept in tables
beside the slots. What a record is made from is what it is loaded as, field by field; this and the
layout that it rests on are proved.

- `src/layout.rs`, `src/scalar.rs`, `src/slots.rs`: where values lie in storage, and how numbers are
  stored there.
- `src/storage.rs`: the storage of a record, with writing, reading and taking apart.
- `src/shared.rs`, `src/record.rs`: records behind a reference count of `triomphe`.
- `src/processor.rs`: lists of records with a lifetime.
- `src/field.rs`, `src/decimal.rs`, `src/float.rs`, `src/json.rs`, `src/time.rs`: fields and their
  values.
- `src/hashing.rs`: what a hasher is fed for a record, with days as `chrono` feeds them.
- `app/`: records in serde formats, and conversions to `chrono`, `ordered_float` and `rust_decimal`.
