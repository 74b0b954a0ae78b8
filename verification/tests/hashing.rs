use chrono::{DateTime, Datelike, FixedOffset, NaiveDate};
use dozer_recordstore::hashing::{Piece, FIRST_DAY, LAST_DAY};
use dozer_recordstore::{
    Date, Decimal, DozerDuration, DozerPoint, Duration, Field, FieldRef, Float64, JsonValue,
    Lifetime, ProcessorRecord, RecordRef, TimeUnit, Timestamp,
};
use ordered_float::OrderedFloat;
use std::collections::hash_map::DefaultHasher;
use std::collections::{BTreeMap, HashSet};
use std::hash::{Hash, Hasher};

fn float(value: f64) -> Float64 {
    Float64 {
        bits: value.to_bits(),
    }
}

fn hash_of<T: Hash>(value: &T) -> u64 {
    let mut hasher = DefaultHasher::new();
    value.hash(&mut hasher);
    hasher.finish()
}

fn timestamp(offset: i32) -> Timestamp {
    Timestamp {
        secs: -7,
        nanos: 8,
        offset,
    }
}

fn first() -> RecordRef {
    RecordRef::new(vec![
        Field::Float(float(f64::NAN)),
        Field::Float(float(0.0)),
        Field::Decimal(Decimal::from_parts(3100, 0, 0, true, 3)),
        Field::Timestamp(timestamp(0)),
        Field::Json(JsonValue::Array(vec![JsonValue::Number(float(-0.0))])),
        Field::Decimal(Decimal::from_parts(0, 0, 0, true, 2)),
    ])
}

fn second() -> RecordRef {
    RecordRef::new(vec![
        Field::Float(Float64 { bits: u64::MAX }),
        Field::Float(float(-0.0)),
        Field::Decimal(Decimal::from_parts(31, 0, 0, true, 1)),
        Field::Timestamp(timestamp(3600)),
        Field::Json(JsonValue::Array(vec![JsonValue::Number(float(0.0))])),
        Field::Decimal(Decimal::from_parts(0, 0, 0, false, 0)),
    ])
}

/// A hasher that keeps the bytes it is fed.
#[derive(Default)]
struct Tape(Vec<u8>);

impl Hasher for Tape {
    fn write(&mut self, bytes: &[u8]) {
        self.0.extend_from_slice(bytes);
    }

    fn finish(&self) -> u64 {
        self.0.len() as u64
    }
}

fn fed<T: Hash + ?Sized>(value: &T) -> Vec<u8> {
    let mut tape = Tape::default();
    value.hash(&mut tape);
    tape.0
}

/// The bytes that pieces are fed as.
fn bytes_of(pieces: Vec<Piece>) -> Vec<u8> {
    let mut tape = Tape::default();
    for piece in pieces {
        match piece {
            Piece::Variant(v) => v.hash(&mut tape),
            Piece::Length(v) => v.hash(&mut tape),
            Piece::Bool(v) => v.hash(&mut tape),
            Piece::U32(v) => v.hash(&mut tape),
            Piece::U64(v) => v.hash(&mut tape),
            Piece::U128(v) => v.hash(&mut tape),
            Piece::I64(v) => v.hash(&mut tape),
            Piece::I128(v) => v.hash(&mut tape),
            Piece::Text(v) => v.hash(&mut tape),
            Piece::Bytes(v) => v.hash(&mut tape),
            Piece::Day(v) => match NaiveDate::from_num_days_from_ce_opt(v as i32) {
                Some(date) => date.hash(&mut tape),
                None => v.hash(&mut tape),
            },
        }
    }
    tape.0
}

/// The fields of a record with values of the crates that work with them, hashed as derived.
#[derive(Hash)]
#[allow(dead_code)]
enum Plain {
    UInt(u64),
    U128(u128),
    Int(i64),
    I128(i128),
    Float(OrderedFloat<f64>),
    Boolean(bool),
    String(&'static str),
    Text(&'static str),
    Binary(&'static [u8]),
    Decimal(rust_decimal::Decimal),
    Timestamp(DateTime<FixedOffset>),
    Date(NaiveDate),
    Json(PlainJson),
    Point(PlainPoint),
    Duration(PlainDuration),
    Null,
}

#[derive(Hash)]
#[allow(dead_code)]
enum PlainJson {
    Null,
    Bool(bool),
    Number(OrderedFloat<f64>),
    String(String),
    Array(Vec<PlainJson>),
    Object(BTreeMap<String, PlainJson>),
}

#[derive(Hash)]
struct PlainPoint(OrderedFloat<f64>, OrderedFloat<f64>);

#[derive(Hash)]
struct PlainDuration(std::time::Duration, PlainUnit);

#[derive(Hash)]
#[allow(dead_code)]
enum PlainUnit {
    Seconds,
    Milliseconds,
    Microseconds,
    Nanoseconds,
}

#[derive(Hash)]
struct PlainLifetime {
    reference: DateTime<FixedOffset>,
    duration: std::time::Duration,
}

fn plain_timestamp(value: Timestamp) -> DateTime<FixedOffset> {
    DateTime::from_timestamp(value.secs, value.nanos)
        .unwrap()
        .with_timezone(&FixedOffset::east_opt(value.offset).unwrap())
}

const FLOATS: [f64; 14] = [
    0.0,
    -0.0,
    1.0,
    -1.0,
    1.5e300,
    -2.5e-300,
    5e-324,
    -5e-324,
    2.0e-308,
    f64::MIN_POSITIVE,
    f64::MAX,
    f64::INFINITY,
    f64::NEG_INFINITY,
    f64::NAN,
];

fn pairs() -> Vec<(FieldRef<'static>, Plain)> {
    let mut pairs = vec![
        (FieldRef::UInt(7), Plain::UInt(7)),
        (FieldRef::U128(1 << 90), Plain::U128(1 << 90)),
        (FieldRef::Int(-3), Plain::Int(-3)),
        (FieldRef::I128(-2), Plain::I128(-2)),
        (FieldRef::Boolean(true), Plain::Boolean(true)),
        (FieldRef::Boolean(false), Plain::Boolean(false)),
        (FieldRef::String("日本"), Plain::String("日本")),
        (FieldRef::Text(""), Plain::Text("")),
        (FieldRef::Binary(&[9, 0]), Plain::Binary(&[9, 0])),
        (
            FieldRef::Decimal(Decimal::from_parts(3100, 1, 2, true, 3)),
            Plain::Decimal(rust_decimal::Decimal::from_parts(3100, 1, 2, true, 3)),
        ),
        (
            FieldRef::Decimal(Decimal::from_parts(0, 0, 0, true, 9)),
            Plain::Decimal(rust_decimal::Decimal::from_parts(0, 0, 0, true, 9)),
        ),
        (
            FieldRef::Json(JsonValue::Object(vec![
                (
                    "k".to_owned(),
                    JsonValue::Array(vec![JsonValue::Null, JsonValue::Number(float(-0.0))]),
                ),
                ("l".to_owned(), JsonValue::Bool(false)),
                ("m".to_owned(), JsonValue::String("x".to_owned())),
            ])),
            Plain::Json(PlainJson::Object(BTreeMap::from([
                ("m".to_owned(), PlainJson::String("x".to_owned())),
                ("l".to_owned(), PlainJson::Bool(false)),
                (
                    "k".to_owned(),
                    PlainJson::Array(vec![PlainJson::Null, PlainJson::Number(OrderedFloat(-0.0))]),
                ),
            ]))),
        ),
        (
            FieldRef::Point(DozerPoint {
                x: float(1.25),
                y: float(-0.0),
            }),
            Plain::Point(PlainPoint(OrderedFloat(1.25), OrderedFloat(-0.0))),
        ),
        (
            FieldRef::Duration(DozerDuration {
                duration: Duration { secs: 5, nanos: 6 },
                unit: TimeUnit::Nanoseconds,
            }),
            Plain::Duration(PlainDuration(
                std::time::Duration::new(5, 6),
                PlainUnit::Nanoseconds,
            )),
        ),
        (FieldRef::Null, Plain::Null),
    ];
    for value in FLOATS {
        pairs.push((
            FieldRef::Float(float(value)),
            Plain::Float(OrderedFloat(value)),
        ));
    }
    for secs in [0, 1, -1, 86_399, 86_400, -86_400, -86_401, 1_700_000_000] {
        let value = Timestamp {
            secs,
            nanos: 12,
            offset: -3600,
        };
        pairs.push((
            FieldRef::Timestamp(value),
            Plain::Timestamp(plain_timestamp(value)),
        ));
    }
    for days in [1, 0, -1, 730_000, FIRST_DAY, LAST_DAY] {
        pairs.push((
            FieldRef::Date(Date { days }),
            Plain::Date(NaiveDate::from_num_days_from_ce_opt(days).unwrap()),
        ));
    }
    pairs
}

#[test]
fn a_field_is_hashed_as_its_variant_and_its_value() {
    for (field, plain) in pairs() {
        assert_eq!(fed(&field), fed(&plain), "{field:?}");
        assert_eq!(fed(&field), bytes_of(field.hash_pieces()), "{field:?}");
        assert_eq!(hash_of(&field), hash_of(&plain), "{field:?}");
    }
}

#[test]
fn days_that_have_a_date() {
    assert_eq!(NaiveDate::MIN.num_days_from_ce(), FIRST_DAY);
    assert_eq!(NaiveDate::MAX.num_days_from_ce(), LAST_DAY);
    for days in [FIRST_DAY - 1, LAST_DAY + 1, i32::MIN, i32::MAX] {
        assert_eq!(NaiveDate::from_num_days_from_ce_opt(days), None);
        let mut tape = Tape::default();
        11_isize.hash(&mut tape);
        (days as i64).hash(&mut tape);
        assert_eq!(fed(&FieldRef::Date(Date { days })), tape.0);
    }
}

#[test]
fn a_record_is_hashed_as_the_list_of_its_fields() {
    for record in [first(), second(), RecordRef::new(vec![])] {
        assert_eq!(fed(&record), fed(&record.load()));
        assert_eq!(fed(&record), fed(record.load().as_slice()));
        assert_eq!(hash_of(&record), hash_of(&record.load()));
        assert_eq!(fed(&record), bytes_of(record.hash_pieces()));
    }
    let (fields, plains): (Vec<FieldRef<'static>>, Vec<Plain>) = pairs().into_iter().unzip();
    let record = RecordRef::from_field_refs(&fields);
    assert_eq!(fed(&record), fed(&plains));
    assert_eq!(hash_of(&record), hash_of(&plains));
    let record = RecordRef::new(vec![Field::Int(3), Field::Null]);
    assert_eq!(
        record.hash_pieces(),
        vec![
            Piece::Length(2),
            Piece::Variant(2),
            Piece::I64(3),
            Piece::Variant(15)
        ]
    );
}

#[test]
fn a_processor_record_is_hashed_as_its_lists_and_its_lifetime() {
    let plains = vec![vec![Plain::Int(3), Plain::Null], vec![]];
    let lists = vec![
        RecordRef::new(vec![Field::Int(3), Field::Null]),
        RecordRef::new(vec![]),
    ];
    let mut record = ProcessorRecord::new(lists.into_boxed_slice());
    assert_eq!(fed(&record), fed(&(&plains, None::<PlainLifetime>)));
    assert_eq!(fed(&record), bytes_of(record.hash_pieces()));
    record.set_lifetime(Some(Lifetime {
        reference: timestamp(0),
        duration: Duration { secs: 1, nanos: 2 },
    }));
    let lifetime = PlainLifetime {
        reference: plain_timestamp(timestamp(60)),
        duration: std::time::Duration::new(1, 2),
    };
    assert_eq!(fed(&record), fed(&(&plains, Some(lifetime))));
    assert_eq!(fed(&record), bytes_of(record.hash_pieces()));
}

#[test]
fn equal_records_hash_alike() {
    assert_eq!(first(), second());
    assert_eq!(first().hash_pieces(), second().hash_pieces());
    assert_eq!(hash_of(&first()), hash_of(&second()));
    let mut seen = HashSet::new();
    assert!(seen.insert(first()));
    assert!(!seen.insert(second()));
    assert!(seen.insert(RecordRef::new(vec![Field::Null])));
}

#[test]
fn equal_processor_records_hash_alike() {
    let mut a = ProcessorRecord::new(vec![first(), second()].into_boxed_slice());
    let mut b = ProcessorRecord::new(vec![second(), first()].into_boxed_slice());
    assert_eq!(a, b);
    assert_eq!(hash_of(&a), hash_of(&b));
    a.set_lifetime(Some(Lifetime {
        reference: timestamp(0),
        duration: Duration { secs: 1, nanos: 2 },
    }));
    assert_ne!(a.hash_pieces(), b.hash_pieces());
    b.set_lifetime(Some(Lifetime {
        reference: timestamp(60),
        duration: Duration { secs: 1, nanos: 2 },
    }));
    assert_eq!(a, b);
    assert_eq!(hash_of(&a), hash_of(&b));
    assert_eq!(
        ProcessorRecord::new(vec![RecordRef::new(vec![Field::Null])].into_boxed_slice())
            .hash_pieces(),
        vec![
            Piece::Length(1),
            Piece::Length(1),
            Piece::Variant(15),
            Piece::Variant(0)
        ]
    );
}

#[test]
fn pieces_of_fields() {
    assert_eq!(
        FieldRef::UInt(7).hash_pieces(),
        vec![Piece::Variant(0), Piece::U64(7)]
    );
    assert_eq!(
        FieldRef::Float(float(-f64::NAN)).hash_pieces(),
        vec![Piece::Variant(4), Piece::U64(0x7ff8_0000_0000_0000)]
    );
    assert_eq!(float(0.0).to_word(), 0xbcd0_0000_0000_0000);
    assert_eq!(float(-0.0).to_word(), 0xbcd0_0000_0000_0000);
    assert_eq!(float(1.0).to_word(), 0xfcc0_0000_0000_0000);
    assert_eq!(float(5e-324).to_word(), 0xbcd0_0000_0000_0002);
    assert_eq!(
        FieldRef::String("ab").hash_pieces(),
        vec![Piece::Variant(6), Piece::Text("ab".to_owned())]
    );
    assert_eq!(
        FieldRef::Decimal(Decimal::from_parts(3100, 0, 0, true, 3)).hash_pieces(),
        vec![
            Piece::Variant(9),
            Piece::U32(31),
            Piece::U32(0),
            Piece::U32(0),
            Piece::U32(0x8001_0000)
        ]
    );
    assert_eq!(
        FieldRef::Timestamp(timestamp(5)).hash_pieces(),
        vec![
            Piece::Variant(10),
            Piece::Day(719_162),
            Piece::U32(86_393),
            Piece::U32(8)
        ]
    );
    assert_ne!(hash_of(&FieldRef::Int(3)), hash_of(&FieldRef::UInt(3)));
}

#[test]
fn decimals_lose_needless_digits() {
    let parts = |value: Decimal| {
        (
            value.lo(),
            value.mid(),
            value.hi(),
            value.is_sign_negative(),
            value.scale(),
        )
    };
    let normal = Decimal::from_parts(3100, 0, 0, true, 3).normalize();
    assert_eq!(parts(normal), (31, 0, 0, true, 1));
    assert_eq!(
        parts(Decimal::from_parts(100, 0, 0, false, 0).normalize()),
        (100, 0, 0, false, 0)
    );
    assert_eq!(
        parts(Decimal::from_parts(100, 0, 0, false, 1).normalize()),
        (10, 0, 0, false, 0)
    );
    assert_eq!(
        parts(Decimal::from_parts(0, 0, 0, true, 9).normalize()),
        (0, 0, 0, false, 0)
    );
    // 10^28 at scale 28
    assert_eq!(
        parts(Decimal::from_parts(0x1000_0000, 0x3e25_0261, 0x204f_ce5e, false, 28).normalize()),
        (1, 0, 0, false, 0)
    );
}
