//! A compact representation of records.
//!
//! A [`RecordRef`] is a shared list of [`Field`]s. It differs from a `[Field]` in two ways:
//!
//!  1. The types of the fields and their values are stored apart. The types are packed at a byte for
//!     each field, where a [`Field`] takes a full word to tell its variant.
//!  2. The values are stored packed. In a `[Field]`, every field takes as much space as the largest
//!     variant. Here each value has a slot of its own size: a `u64` takes 8 bytes, and a `u128` can
//!     still use its 16. A null field takes no slot.
//!
//! This saves space on plain values and on nulls. Strings, bytes and JSON values gain nothing by
//! it: beside its slot, each has an entry in a table of the record, which holds the value.
//!
//! A [`ProcessorRecord`] strings such lists together and can give them a [`Lifetime`].
//!
//! The modules, from the bottom up: [`layout`] places values in storage, [`scalar`] stores numbers,
//! [`slots`] says where the fields of a record lie, [`storage`] holds their values, and [`shared`]
//! puts them behind a reference count. What `==` means is stated in [`equality`], and how far a
//! hasher tells values apart in [`telling`].

pub mod decimal;
pub mod equality;
pub mod field;
pub mod float;
pub mod hashing;
pub mod json;
pub mod layout;
pub mod processor;
pub mod record;
pub mod scalar;
pub mod shared;
pub mod slots;
pub mod storage;
pub mod telling;
pub mod time;

pub use decimal::Decimal;
pub use field::{DozerPoint, Field, FieldRef, FieldType};
pub use float::Float64;
pub use json::JsonValue;
pub use processor::ProcessorRecord;
pub use record::RecordRef;
pub use time::{Date, DozerDuration, Duration, Lifetime, TimeUnit, Timestamp};
