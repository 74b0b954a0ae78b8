//! What `==` means.
//!
//! Each law says when the `==` of a type holds, in terms of what the two values are made of.

use crate::decimal::{Decimal, DecimalView, MAX_SCALE};
use crate::field::{DozerPoint, Field, FieldRef};
use crate::float::Float64;
use crate::json::JsonValue;
use crate::processor::ProcessorRecord;
use crate::record::RecordRef;
use crate::time::{Lifetime, Timestamp};
use vstd::arithmetic::power::{lemma_pow_adds, lemma_pow_positive, pow};
use vstd::prelude::*;
use vstd::std_specs::cmp::PartialEqSpec;

verus! {

/// Two floating-point numbers are equal when both are NaN, or when neither is and they have the
/// same bits or are both zero.
pub proof fn law_float_eq(a: Float64, b: Float64)
    ensures
        <Float64 as PartialEqSpec>::obeys_eq_spec(),
        a.eq_spec(&b) <==> {
            let (x, y) = (a.bits % 0x8000_0000_0000_0000, b.bits % 0x8000_0000_0000_0000);
            ||| x > 0x7ff0_0000_0000_0000 && y > 0x7ff0_0000_0000_0000
            ||| x <= 0x7ff0_0000_0000_0000 && a.bits == b.bits
            ||| x == 0 && y == 0
        },
{
}

/// Two timestamps are equal when they have the same seconds and nanoseconds, whatever their
/// offsets.
pub proof fn law_timestamp_eq(a: Timestamp, b: Timestamp)
    ensures
        <Timestamp as PartialEqSpec>::obeys_eq_spec(),
        a.eq_spec(&b) <==> a.secs == b.secs && a.nanos == b.nanos,
{
}

/// Two lifetimes are equal when they start at the same instant and last equally long.
pub proof fn law_lifetime_eq(a: Lifetime, b: Lifetime)
    ensures
        <Lifetime as PartialEqSpec>::obeys_eq_spec(),
        a.eq_spec(&b) <==> {
            &&& a.reference.secs == b.reference.secs
            &&& a.reference.nanos == b.reference.nanos
            &&& a.duration.secs == b.duration.secs
            &&& a.duration.nanos == b.duration.nanos
        },
{
}

/// Two points are equal when both coordinates are.
pub proof fn law_point_eq(a: DozerPoint, b: DozerPoint)
    ensures
        <DozerPoint as PartialEqSpec>::obeys_eq_spec(),
        a.eq_spec(&b) <==> a.x.eq_spec(&b.x) && a.y.eq_spec(&b.y),
{
}

/// The integer of a decimal, with its sign.
pub open spec fn signed_integer(value: DecimalView) -> int {
    let integer = value.lo + 0x1_0000_0000 * value.mid + 0x1_0000_0000_0000_0000 * value.hi;
    if value.negative {
        -integer
    } else {
        integer
    }
}

/// Two decimals are equal when they are the same number, brought to one number of digits behind the
/// point.
pub proof fn law_decimal_eq(a: Decimal, b: Decimal)
    requires
        a@.scale <= MAX_SCALE,
        b@.scale <= MAX_SCALE,
    ensures
        <Decimal as PartialEqSpec>::obeys_eq_spec(),
        a.eq_spec(&b) <==> signed_integer(a@) * pow(10, b@.scale as nat) == signed_integer(b@)
            * pow(10, a@.scale as nat),
{
    lemma_brought_to_one_scale(a@, b@);
}

proof fn lemma_brought_to_one_scale(a: DecimalView, b: DecimalView)
    requires
        a.scale <= MAX_SCALE,
        b.scale <= MAX_SCALE,
    ensures
        crate::decimal::same_decimal(a, b) <==> signed_integer(a) * pow(10, b.scale as nat)
            == signed_integer(b) * pow(10, a.scale as nat),
{
    let (m, n) = (signed_integer(a), signed_integer(b));
    let p = pow(10, (MAX_SCALE - a.scale) as nat);
    let q = pow(10, (MAX_SCALE - b.scale) as nat);
    let s = pow(10, a.scale as nat);
    let t = pow(10, b.scale as nat);
    let whole = pow(10, MAX_SCALE as nat);
    lemma_pow_adds(10, (MAX_SCALE - a.scale) as nat, a.scale as nat);
    lemma_pow_adds(10, (MAX_SCALE - b.scale) as nat, b.scale as nat);
    lemma_pow_positive(10, MAX_SCALE as nat);
    lemma_pow_positive(10, a.scale as nat);
    lemma_pow_positive(10, b.scale as nat);
    assert(a.units() == m * p) by (nonlinear_arith)
        requires
            m == (if a.negative { -a.mantissa() } else { a.mantissa() }),
            a.units() == (if a.negative { -(a.mantissa() * p) } else { a.mantissa() * p }),
    ;
    assert(b.units() == n * q) by (nonlinear_arith)
        requires
            n == (if b.negative { -b.mantissa() } else { b.mantissa() }),
            b.units() == (if b.negative { -(b.mantissa() * q) } else { b.mantissa() * q }),
    ;
    assert(m * p == n * q ==> m * t == n * s) by (nonlinear_arith)
        requires
            p * s == whole,
            q * t == whole,
            whole > 0,
    {
        if m * p == n * q {
            assert((m * t) * whole == (m * p) * (s * t));
            assert((n * s) * whole == (n * q) * (s * t));
        }
    }
    assert(m * t == n * s ==> m * p == n * q) by (nonlinear_arith)
        requires
            p * s == whole,
            q * t == whole,
            whole > 0,
            s > 0,
            t > 0,
    {
        if m * t == n * s {
            assert((m * p) * (s * t) == (m * t) * whole);
            assert((n * q) * (s * t) == (n * s) * whole);
        }
    }
}

/// Two JSON values are equal when they are of one kind and hold the same truth value, equal
/// numbers, the same characters, as many items that are equal in turn, or as many members that have
/// the same keys and equal values in turn.
pub proof fn law_json_eq(a: JsonValue, b: JsonValue)
    ensures
        <JsonValue as PartialEqSpec>::obeys_eq_spec(),
        a.eq_spec(&b) <==> match (a, b) {
            (JsonValue::Null, JsonValue::Null) => true,
            (JsonValue::Bool(x), JsonValue::Bool(y)) => x == y,
            (JsonValue::Number(x), JsonValue::Number(y)) => x.eq_spec(&y),
            (JsonValue::String(x), JsonValue::String(y)) => x@ == y@,
            (JsonValue::Array(x), JsonValue::Array(y)) => {
                &&& x@.len() == y@.len()
                &&& forall|i: int| 0 <= i < x@.len() ==> (#[trigger] x@[i]).eq_spec(&y@[i])
            },
            (JsonValue::Object(x), JsonValue::Object(y)) => {
                &&& x@.len() == y@.len()
                &&& forall|i: int|
                    0 <= i < x@.len() ==> (#[trigger] x@[i]).0@ == y@[i].0@ && x@[i].1.eq_spec(
                        &y@[i].1,
                    )
            },
            _ => false,
        },
{
    match (a, b) {
        (JsonValue::Array(x), JsonValue::Array(y)) => {
            let (v, w) = (a@->Array_0, b@->Array_0);
            assert(forall|i: int| 0 <= i < x@.len() ==> #[trigger] v[i] == x@[i]@);
            assert(forall|i: int| 0 <= i < y@.len() ==> #[trigger] w[i] == y@[i]@);
            if a.eq_spec(&b) {
                assert forall|i: int| 0 <= i < x@.len() implies (#[trigger] x@[i]).eq_spec(
                    &y@[i],
                ) by {
                    assert(crate::json::same_json(v[i], w[i]));
                }
            }
        },
        (JsonValue::Object(x), JsonValue::Object(y)) => {
            let (v, w) = (a@->Object_0, b@->Object_0);
            assert(forall|i: int| 0 <= i < x@.len() ==> #[trigger] v[i] == (x@[i].0@, x@[i].1@));
            assert(forall|i: int| 0 <= i < y@.len() ==> #[trigger] w[i] == (y@[i].0@, y@[i].1@));
            if a.eq_spec(&b) {
                assert forall|i: int| 0 <= i < x@.len() implies (#[trigger] x@[i]).0@ == y@[i].0@
                    && x@[i].1.eq_spec(&y@[i].1) by {
                    assert(v[i].0 == w[i].0 && crate::json::same_json(v[i].1, w[i].1));
                }
            }
        },
        _ => {},
    }
}

/// Two borrowed fields are equal when they are of one type and hold the same number, truth value,
/// characters, bytes, day or span of time, or an equal value of a type with an `==` of its own.
pub proof fn law_field_ref_eq(a: FieldRef<'_>, b: FieldRef<'_>)
    ensures
        <FieldRef<'_> as PartialEqSpec>::obeys_eq_spec(),
        a.eq_spec(&b) <==> match (a, b) {
            (FieldRef::UInt(x), FieldRef::UInt(y)) => x == y,
            (FieldRef::U128(x), FieldRef::U128(y)) => x == y,
            (FieldRef::Int(x), FieldRef::Int(y)) => x == y,
            (FieldRef::I128(x), FieldRef::I128(y)) => x == y,
            (FieldRef::Float(x), FieldRef::Float(y)) => x.eq_spec(&y),
            (FieldRef::Boolean(x), FieldRef::Boolean(y)) => x == y,
            (FieldRef::String(x), FieldRef::String(y)) => x@ == y@,
            (FieldRef::Text(x), FieldRef::Text(y)) => x@ == y@,
            (FieldRef::Binary(x), FieldRef::Binary(y)) => x@ == y@,
            (FieldRef::Decimal(x), FieldRef::Decimal(y)) => x.eq_spec(&y),
            (FieldRef::Timestamp(x), FieldRef::Timestamp(y)) => x.eq_spec(&y),
            (FieldRef::Date(x), FieldRef::Date(y)) => x.days == y.days,
            (FieldRef::Json(x), FieldRef::Json(y)) => x.eq_spec(&y),
            (FieldRef::Point(x), FieldRef::Point(y)) => x.eq_spec(&y),
            (FieldRef::Duration(x), FieldRef::Duration(y)) => {
                &&& x.duration.secs == y.duration.secs
                &&& x.duration.nanos == y.duration.nanos
                &&& x.unit == y.unit
            },
            (FieldRef::Null, FieldRef::Null) => true,
            _ => false,
        },
{
}

/// Two owned fields are equal when they are of one type and hold the same number, truth value,
/// characters, bytes, day or span of time, or an equal value of a type with an `==` of its own.
pub proof fn law_field_eq(a: Field, b: Field)
    ensures
        <Field as PartialEqSpec>::obeys_eq_spec(),
        a.eq_spec(&b) <==> match (a, b) {
            (Field::UInt(x), Field::UInt(y)) => x == y,
            (Field::U128(x), Field::U128(y)) => x == y,
            (Field::Int(x), Field::Int(y)) => x == y,
            (Field::I128(x), Field::I128(y)) => x == y,
            (Field::Float(x), Field::Float(y)) => x.eq_spec(&y),
            (Field::Boolean(x), Field::Boolean(y)) => x == y,
            (Field::String(x), Field::String(y)) => x@ == y@,
            (Field::Text(x), Field::Text(y)) => x@ == y@,
            (Field::Binary(x), Field::Binary(y)) => x@ == y@,
            (Field::Decimal(x), Field::Decimal(y)) => x.eq_spec(&y),
            (Field::Timestamp(x), Field::Timestamp(y)) => x.eq_spec(&y),
            (Field::Date(x), Field::Date(y)) => x.days == y.days,
            (Field::Json(x), Field::Json(y)) => x.eq_spec(&y),
            (Field::Point(x), Field::Point(y)) => x.eq_spec(&y),
            (Field::Duration(x), Field::Duration(y)) => {
                &&& x.duration.secs == y.duration.secs
                &&& x.duration.nanos == y.duration.nanos
                &&& x.unit == y.unit
            },
            (Field::Null, Field::Null) => true,
            _ => false,
        },
{
}

/// Two records are equal when they load as equally many fields that are equal in turn.
pub proof fn law_record_eq(
    a: RecordRef,
    b: RecordRef,
    loaded_a: Seq<FieldRef<'_>>,
    loaded_b: Seq<FieldRef<'_>>,
)
    requires
        loaded_a.len() == a@.len(),
        loaded_b.len() == b@.len(),
        forall|i: int| 0 <= i < a@.len() ==> (#[trigger] loaded_a[i])@ == a@[i],
        forall|i: int| 0 <= i < b@.len() ==> (#[trigger] loaded_b[i])@ == b@[i],
    ensures
        <RecordRef as PartialEqSpec>::obeys_eq_spec(),
        a.eq_spec(&b) <==> {
            &&& loaded_a.len() == loaded_b.len()
            &&& forall|i: int|
                0 <= i < loaded_a.len() ==> (#[trigger] loaded_a[i]).eq_spec(&loaded_b[i])
        },
{
    if a.eq_spec(&b) {
        assert forall|i: int| 0 <= i < loaded_a.len() implies (#[trigger] loaded_a[i]).eq_spec(
            &loaded_b[i],
        ) by {
            assert(crate::field::same_value(a@[i], b@[i]));
        }
    }
    if a@.len() == b@.len() && forall|i: int|
        0 <= i < loaded_a.len() ==> (#[trigger] loaded_a[i]).eq_spec(&loaded_b[i]) {
        assert forall|i: int| 0 <= i < a@.len() implies crate::field::same_value(
            #[trigger] a@[i],
            b@[i],
        ) by {
            assert(loaded_a[i].eq_spec(&loaded_b[i]));
        }
    }
}

/// Two processor records are equal when they have equally many lists of fields, every list equals
/// the one at its place in the other, and both have no lifetime or equal ones.
pub proof fn law_processor_record_eq(a: ProcessorRecord, b: ProcessorRecord)
    ensures
        <ProcessorRecord as PartialEqSpec>::obeys_eq_spec(),
        a.eq_spec(&b) <==> {
            &&& a.records().len() == b.records().len()
            &&& forall|i: int|
                0 <= i < a.records().len() ==> (#[trigger] a.records()[i]).eq_spec(
                    &b.records()[i],
                )
            &&& match (a.lifetime(), b.lifetime()) {
                (Some(x), Some(y)) => x.eq_spec(&y),
                (None, None) => true,
                _ => false,
            }
        },
{
}

} // verus!
