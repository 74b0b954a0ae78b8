use dozer_recordstore::{
    Date, Decimal, DozerDuration, DozerPoint, Duration, FieldRef, Float64, JsonValue, Lifetime,
    TimeUnit, Timestamp,
};

fn float(value: f64) -> Float64 {
    Float64 {
        bits: value.to_bits(),
    }
}

#[test]
fn floats_have_total_equality() {
    assert_eq!(float(f64::NAN), float(f64::NAN));
    assert_eq!(float(f64::NAN), Float64 { bits: 0xffff_ffff_ffff_ffff });
    assert_eq!(float(0.0), float(-0.0));
    assert_eq!(float(1.5), float(1.5));
    assert_ne!(float(1.5), float(-1.5));
    assert_ne!(float(f64::INFINITY), float(f64::NAN));
    assert_ne!(float(f64::NAN), float(f64::INFINITY));
    assert_ne!(float(f64::INFINITY), float(f64::NEG_INFINITY));
    assert_ne!(float(f64::MIN_POSITIVE), float(0.0));
    for bits in [0, 1, 1 << 63, 0x7ff0_0000_0000_0000, 0x7ff0_0000_0000_0001, u64::MAX] {
        assert_eq!(Float64 { bits }.is_nan(), f64::from_bits(bits).is_nan());
    }
}

#[test]
fn decimals_compare_as_numbers() {
    let one = Decimal::from_parts(1, 0, 0, false, 0);
    assert_eq!(one, Decimal::from_parts(10, 0, 0, false, 1));
    // 10^28 at scale 28
    assert_eq!(
        one,
        Decimal::from_parts(0x1000_0000, 0x3e25_0261, 0x204f_ce5e, false, 28)
    );
    assert_ne!(one, Decimal::from_parts(1, 0, 0, true, 0));
    assert_ne!(one, Decimal::from_parts(1, 0, 0, false, 1));
    assert_ne!(one, Decimal::from_parts(11, 0, 0, false, 1));
    assert_ne!(one, Decimal::from_parts(1, 1, 0, false, 0));
    assert_eq!(
        Decimal::from_parts(0, 0, 0, true, 5),
        Decimal::from_parts(0, 0, 0, false, 0)
    );
    // The larger one cannot be brought to the other's scale in 96 bits.
    assert_ne!(
        Decimal::from_parts(u32::MAX, u32::MAX, u32::MAX, false, 0),
        Decimal::from_parts(u32::MAX, u32::MAX, u32::MAX, false, 28)
    );
}

#[test]
fn timestamps_compare_as_instants() {
    let a = Timestamp {
        secs: 1,
        nanos: 2,
        offset: 3,
    };
    assert_eq!(a, Timestamp { offset: -3, ..a });
    assert_ne!(a, Timestamp { secs: 2, ..a });
    assert_ne!(a, Timestamp { nanos: 3, ..a });
}

#[test]
fn lifetimes_compare_reference_and_duration() {
    let a = Lifetime {
        reference: Timestamp {
            secs: 1,
            nanos: 2,
            offset: 3,
        },
        duration: Duration { secs: 4, nanos: 5 },
    };
    let mut b = a;
    b.reference.offset = 0;
    assert_eq!(a, b);
    b.duration.nanos = 6;
    assert_ne!(a, b);
}

#[test]
fn units_have_bytes_of_their_own() {
    let units = [
        TimeUnit::Seconds,
        TimeUnit::Milliseconds,
        TimeUnit::Microseconds,
        TimeUnit::Nanoseconds,
    ];
    for (byte, unit) in units.iter().enumerate() {
        assert_eq!(unit.to_byte(), byte as u8);
        assert_eq!(TimeUnit::from_byte(byte as u8), *unit);
    }
}

#[test]
fn json_values_compare_by_shape() {
    let value = JsonValue::Array(vec![
        JsonValue::Null,
        JsonValue::Bool(true),
        JsonValue::Number(float(0.0)),
        JsonValue::String("s".to_owned()),
        JsonValue::Object(vec![("k".to_owned(), JsonValue::Number(float(f64::NAN)))]),
    ]);
    assert_eq!(value, value.clone());
    let other = JsonValue::Array(vec![
        JsonValue::Null,
        JsonValue::Bool(true),
        JsonValue::Number(float(-0.0)),
        JsonValue::String("s".to_owned()),
        JsonValue::Object(vec![("k".to_owned(), JsonValue::Number(float(f64::NAN)))]),
    ]);
    assert_eq!(value, other);
    assert_ne!(value, JsonValue::Array(vec![]));
    assert_ne!(JsonValue::Null, JsonValue::Bool(false));
    assert_ne!(
        JsonValue::Object(vec![("a".to_owned(), JsonValue::Null)]),
        JsonValue::Object(vec![("b".to_owned(), JsonValue::Null)])
    );
    assert_ne!(
        JsonValue::Object(vec![("a".to_owned(), JsonValue::Null)]),
        JsonValue::Object(vec![("a".to_owned(), JsonValue::Bool(true))])
    );
}

#[test]
fn borrowed_fields_compare_by_type_and_value() {
    assert_eq!(FieldRef::String("a"), FieldRef::String("a"));
    assert_ne!(FieldRef::String("a"), FieldRef::String("b"));
    assert_ne!(FieldRef::String("a"), FieldRef::String("aa"));
    assert_ne!(FieldRef::String("a"), FieldRef::Text("a"));
    assert_eq!(FieldRef::Binary(&[1, 2]), FieldRef::Binary(&[1, 2]));
    assert_ne!(FieldRef::Binary(&[1, 2]), FieldRef::Binary(&[1, 3]));
    assert_ne!(FieldRef::UInt(1), FieldRef::Int(1));
    assert_eq!(FieldRef::Null, FieldRef::Null);
    assert_ne!(FieldRef::Null, FieldRef::Boolean(false));
    assert_eq!(
        FieldRef::Date(Date { days: 1 }),
        FieldRef::Date(Date { days: 1 })
    );
    assert_eq!(
        FieldRef::Point(DozerPoint {
            x: float(f64::NAN),
            y: float(2.0)
        }),
        FieldRef::Point(DozerPoint {
            x: float(f64::NAN),
            y: float(2.0)
        })
    );
    let duration = Duration { secs: 1, nanos: 0 };
    assert_ne!(
        FieldRef::Duration(DozerDuration {
            duration,
            unit: TimeUnit::Seconds
        }),
        FieldRef::Duration(DozerDuration {
            duration,
            unit: TimeUnit::Milliseconds
        })
    );
}

#[test]
fn objects_with_sorted_keys_are_compared_as_maps() {
    let object = |members: &[(&str, bool)]| {
        JsonValue::Object(
            members
                .iter()
                .map(|(key, value)| (key.to_string(), JsonValue::Bool(*value)))
                .collect(),
        )
    };
    let a = object(&[("a", true), ("ab", false), ("b", true)]);
    assert_eq!(a, object(&[("a", true), ("ab", false), ("b", true)]));
    assert_ne!(a, object(&[("a", true), ("ab", false)]));
    assert_ne!(a, object(&[("a", true), ("ab", true), ("b", true)]));
    assert_ne!(a, object(&[("a", true), ("ac", false), ("b", true)]));
}
