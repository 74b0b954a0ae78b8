use dozer_recordstore::storage::RecordData;
use dozer_recordstore::{
    Date, Decimal, DozerDuration, DozerPoint, Duration, Field, FieldRef, FieldType, Float64,
    JsonValue, RecordRef, TimeUnit, Timestamp,
};

fn float(value: f64) -> Float64 {
    Float64 {
        bits: value.to_bits(),
    }
}

fn one_of_each() -> Vec<Field> {
    vec![
        Field::Boolean(true),
        Field::UInt(u64::MAX),
        Field::Boolean(false),
        Field::U128(u128::MAX - 1),
        Field::Null,
        Field::Int(i64::MIN),
        Field::I128(i128::MIN),
        Field::Float(float(-2.5)),
        Field::String("héllo".to_owned()),
        Field::Text("日本".to_owned()),
        Field::Binary(vec![0, 255, 7]),
        Field::Decimal(Decimal::from_parts(1, 2, u32::MAX, true, 28)),
        Field::Timestamp(Timestamp {
            secs: -1,
            nanos: 999_999_999,
            offset: -3600,
        }),
        Field::Date(Date { days: -719_162 }),
        Field::Json(JsonValue::Object(vec![
            ("a".to_owned(), JsonValue::Array(vec![JsonValue::Null, JsonValue::Bool(true)])),
            ("b".to_owned(), JsonValue::Number(float(1.5))),
        ])),
        Field::Point(DozerPoint {
            x: float(0.25),
            y: float(-0.0),
        }),
        Field::Duration(DozerDuration {
            duration: Duration {
                secs: 5,
                nanos: 17,
            },
            unit: TimeUnit::Microseconds,
        }),
        Field::Boolean(true),
        Field::Null,
    ]
}

fn reload(record: &RecordRef) -> Vec<Field> {
    record.load().into_iter().map(|field| field.cloned()).collect()
}

#[test]
fn test_store_load() {
    let fields = vec![
        Field::String("asdf".to_owned()),
        Field::Int(23),
        Field::Null,
        Field::U128(234),
    ];

    let record = RecordRef::new(fields.clone());
    let loaded_fields: Vec<_> = record
        .load()
        .into_iter()
        .map(|field| field.cloned())
        .collect();
    assert_eq!(&fields, &loaded_fields);
}

#[test]
fn test_ser_de() {
    let fields = vec![
        Field::String("asdf".to_owned()),
        Field::Int(23),
        Field::Null,
        Field::U128(234),
    ];

    let record = RecordRef::new(fields.clone());

    let written: Vec<Option<(Option<String>, Option<i64>, Option<u128>)>> = record
        .load()
        .iter()
        .map(|field| match field {
            FieldRef::String(v) => Some((Some(v.to_string()), None, None)),
            FieldRef::Int(v) => Some((None, Some(*v), None)),
            FieldRef::U128(v) => Some((None, None, Some(*v))),
            FieldRef::Null => None,
            other => panic!("{:?}", other),
        })
        .collect();
    let bytes = bincode::serialize(&written).unwrap();
    let read: Vec<Option<(Option<String>, Option<i64>, Option<u128>)>> =
        bincode::deserialize(&bytes).unwrap();
    let field_refs: Vec<FieldRef<'_>> = read
        .iter()
        .map(|field| match field {
            Some((Some(v), None, None)) => FieldRef::String(v),
            Some((None, Some(v), None)) => FieldRef::Int(*v),
            Some((None, None, Some(v))) => FieldRef::U128(*v),
            None => FieldRef::Null,
            other => panic!("{:?}", other),
        })
        .collect();
    let deserialized = RecordRef::from_field_refs(&field_refs);
    let loaded_fields: Vec<_> = deserialized
        .load()
        .into_iter()
        .map(|field| field.cloned())
        .collect();
    assert_eq!(&fields, &loaded_fields);
    assert_eq!(record, deserialized);
}

fn can_cross_threads<T: Send + Sync>(_: &T) {}

#[test]
fn records_can_cross_threads() {
    can_cross_threads(&RecordRef::new(one_of_each()));
}

#[test]
fn every_type_comes_back() {
    let fields = one_of_each();
    let record = RecordRef::new(fields.clone());
    assert_eq!(reload(&record), fields);
    // A second load reads the same fields.
    assert_eq!(reload(&record), fields);
}

#[test]
fn loaded_fields_borrow_their_strings_and_bytes() {
    let record = RecordRef::new(vec![
        Field::Text("t".to_owned()),
        Field::Binary(vec![9]),
        Field::String("s".to_owned()),
    ]);
    let fields = record.load();
    assert!(matches!(fields[0], FieldRef::Text("t")));
    assert!(matches!(fields[1], FieldRef::Binary([9])));
    assert!(matches!(fields[2], FieldRef::String("s")));
}

#[test]
fn float_bits_are_kept() {
    let nan = 0x7ff0_0000_dead_beef_u64;
    let record = RecordRef::new(vec![Field::Float(Float64 { bits: nan }), Field::Float(float(-0.0))]);
    let fields = record.load();
    assert!(matches!(fields[0], FieldRef::Float(value) if value.bits == nan));
    assert!(matches!(fields[1], FieldRef::Float(value) if value.bits == 1 << 63));
}

#[test]
fn negative_zero_decimal_keeps_its_sign() {
    let record = RecordRef::new(vec![Field::Decimal(Decimal::from_parts(0, 0, 0, true, 3))]);
    match &record.load()[0] {
        FieldRef::Decimal(value) => {
            assert!(value.is_sign_negative());
            assert_eq!(value.scale(), 3);
            assert_eq!((value.lo(), value.mid(), value.hi()), (0, 0, 0));
        }
        other => panic!("{:?}", other),
    }
}

#[test]
fn records_without_values() {
    assert_eq!(reload(&RecordRef::new(vec![])), vec![]);
    let nulls = vec![Field::Null, Field::Null, Field::Null];
    assert_eq!(reload(&RecordRef::new(nulls.clone())), nulls);
}

#[test]
fn clones_share_the_id() {
    let a = RecordRef::new(vec![Field::Int(1)]);
    let b = RecordRef::new(vec![Field::Int(1)]);
    let c = a.clone();
    assert_ne!(a.id(), 0);
    assert_eq!(a.id(), c.id());
    assert_ne!(a.id(), b.id());
    assert_eq!(a, b);
    assert_eq!(a, c);
    drop(a);
    assert_eq!(reload(&c), vec![Field::Int(1)]);
}

#[test]
fn records_compare_field_by_field() {
    let record = RecordRef::new(one_of_each());
    assert_eq!(record, RecordRef::new(one_of_each()));
    for i in 0..one_of_each().len() {
        let mut fields = one_of_each();
        fields[i] = Field::UInt(77);
        assert_ne!(record, RecordRef::new(fields));
    }
    let mut longer = one_of_each();
    longer.push(Field::Null);
    assert_ne!(record, RecordRef::new(longer));
    // The type counts, not only the value.
    assert_ne!(
        RecordRef::new(vec![Field::Text("a".to_owned())]),
        RecordRef::new(vec![Field::String("a".to_owned())])
    );
}

#[test]
fn records_compare_numbers_as_numbers() {
    let a = RecordRef::new(vec![
        Field::Float(float(f64::NAN)),
        Field::Float(float(0.0)),
        Field::Decimal(Decimal::from_parts(10, 0, 0, false, 1)),
        Field::Timestamp(Timestamp {
            secs: 5,
            nanos: 6,
            offset: 0,
        }),
        Field::Point(DozerPoint {
            x: float(0.0),
            y: float(1.0),
        }),
    ]);
    let b = RecordRef::new(vec![
        Field::Float(float(-f64::NAN)),
        Field::Float(float(-0.0)),
        Field::Decimal(Decimal::from_parts(1000, 0, 0, false, 3)),
        Field::Timestamp(Timestamp {
            secs: 5,
            nanos: 6,
            offset: 7200,
        }),
        Field::Point(DozerPoint {
            x: float(-0.0),
            y: float(1.0),
        }),
    ]);
    assert_eq!(a, b);
    assert_eq!(b, a);
}

#[test]
fn copies_of_loaded_fields_make_an_equal_record() {
    let record = RecordRef::new(one_of_each());
    let again = RecordRef::from_field_refs(&record.load());
    assert_eq!(record, again);
    assert_eq!(reload(&again), one_of_each());
    assert_ne!(record.id(), again.id());
}

#[test]
fn storage_hands_every_value_over() {
    let (data, field_types) = RecordData::pack(one_of_each());
    let expected_types: Vec<Option<FieldType>> =
        one_of_each().iter().map(|field| field.ty()).collect();
    assert_eq!(field_types, expected_types);
    let fields = data.into_fields(&field_types);
    let mut expected = one_of_each();
    expected[9] = Field::String("日本".to_owned());
    assert_eq!(fields, expected);
}

#[test]
fn reading_a_field_gives_the_offset_behind_its_slot() {
    let string = std::mem::size_of::<String>();
    let (mut data, _) = RecordData::pack(vec![
        Field::Text("日本".to_owned()),
        Field::Binary(vec![1, 2]),
        Field::Boolean(true),
    ]);
    assert_eq!(
        data.read_field_ref(0, FieldType::Text),
        (string, FieldRef::Text("日本"))
    );
    assert_eq!(
        data.read_field_ref(string, FieldType::Binary),
        (2 * string, FieldRef::Binary(&[1, 2]))
    );
    assert_eq!(
        data.read_field(0, FieldType::Text),
        (string, Field::String("日本".to_owned()))
    );
    assert_eq!(
        data.read_field(string, FieldType::Binary),
        (2 * string, Field::Binary(vec![1, 2]))
    );
    assert_eq!(
        data.read_field(2 * string, FieldType::Boolean),
        (2 * string + 1, Field::Boolean(true))
    );
}

#[test]
fn a_write_keeps_the_fields_before_and_behind_it() {
    let (mut data, _) = RecordData::pack(vec![
        Field::Boolean(true),
        Field::String("a".to_owned()),
        Field::UInt(7),
        Field::Duration(DozerDuration {
            duration: Duration { secs: 1, nanos: 2 },
            unit: TimeUnit::Microseconds,
        }),
    ]);
    let (at_number, _) = data.read_field_ref(1, FieldType::String);
    let (at_duration, _) = data.read_field_ref(at_number, FieldType::UInt);
    assert_eq!(data.write_field(at_number, Field::UInt(8)), at_duration);
    assert_eq!(data.read_field_ref(0, FieldType::Boolean).1, FieldRef::Boolean(true));
    assert_eq!(data.read_field_ref(1, FieldType::String).1, FieldRef::String("a"));
    assert_eq!(data.read_field_ref(at_number, FieldType::UInt).1, FieldRef::UInt(8));
    assert_eq!(
        data.read_field_ref(at_duration, FieldType::Duration).1,
        FieldRef::Duration(DozerDuration {
            duration: Duration { secs: 1, nanos: 2 },
            unit: TimeUnit::Microseconds,
        })
    );
}

#[test]
fn a_read_goes_by_where_the_slot_starts() {
    let (data, _) = RecordData::pack(vec![Field::Boolean(true), Field::UInt(7)]);
    let start = std::mem::align_of::<u64>();
    for at in 1..=start {
        assert_eq!(
            data.read_field_ref(at, FieldType::UInt),
            (start + 8, FieldRef::UInt(7))
        );
    }
}

#[test]
fn field_types_take_a_byte_each() {
    assert_eq!(std::mem::size_of::<Option<FieldType>>(), 1);
}

#[test]
fn a_field_is_as_large_as_a_slot_can_be() {
    assert!(std::mem::size_of::<Field>() >= dozer_recordstore::slots::MAX_SLOT);
    assert!(std::mem::size_of::<FieldRef<'_>>() >= dozer_recordstore::slots::MAX_SLOT);
}

#[test]
fn types_of_fields() {
    let types: Vec<Option<FieldType>> = one_of_each().iter().map(|field| field.ty()).collect();
    assert_eq!(
        types,
        vec![
            Some(FieldType::Boolean),
            Some(FieldType::UInt),
            Some(FieldType::Boolean),
            Some(FieldType::U128),
            None,
            Some(FieldType::Int),
            Some(FieldType::I128),
            Some(FieldType::Float),
            Some(FieldType::String),
            Some(FieldType::Text),
            Some(FieldType::Binary),
            Some(FieldType::Decimal),
            Some(FieldType::Timestamp),
            Some(FieldType::Date),
            Some(FieldType::Json),
            Some(FieldType::Point),
            Some(FieldType::Duration),
            Some(FieldType::Boolean),
            None,
        ]
    );
}
