//! The fields of a record.

use crate::decimal::{Decimal, DecimalView};
use crate::float::Float64;
use crate::json::{JsonValue, JsonView};
use crate::time::{Date, DozerDuration, Timestamp};
use vstd::prelude::*;

verus! {

/// The type of a field that is not null.
#[derive(Debug, Clone, Copy, PartialEq, Eq, Hash, Structural)]
pub enum FieldType {
    UInt,
    U128,
    Int,
    I128,
    Float,
    Boolean,
    String,
    Text,
    Binary,
    Decimal,
    Timestamp,
    Date,
    Json,
    Point,
    Duration,
}

/// A point in the plane.
#[derive(Debug, Clone, Copy)]
pub struct DozerPoint {
    pub x: Float64,
    pub y: Float64,
}

/// A field that owns its value.
#[derive(Debug)]
pub enum Field {
    UInt(u64),
    U128(u128),
    Int(i64),
    I128(i128),
    Float(Float64),
    Boolean(bool),
    String(String),
    Text(String),
    Binary(Vec<u8>),
    Decimal(Decimal),
    Timestamp(Timestamp),
    Date(Date),
    Json(JsonValue),
    Point(DozerPoint),
    Duration(DozerDuration),
    Null,
}

/// A field whose string or bytes are borrowed from the record that it was loaded from.
#[derive(Debug)]
pub enum FieldRef<'a> {
    UInt(u64),
    U128(u128),
    Int(i64),
    I128(i128),
    Float(Float64),
    Boolean(bool),
    String(&'a str),
    Text(&'a str),
    Binary(&'a [u8]),
    Decimal(Decimal),
    Timestamp(Timestamp),
    Date(Date),
    Json(JsonValue),
    Point(DozerPoint),
    Duration(DozerDuration),
    Null,
}

/// What a field holds, owned or borrowed.
pub enum FieldValue {
    UInt(u64),
    U128(u128),
    Int(i64),
    I128(i128),
    Float(Float64),
    Boolean(bool),
    String(Seq<char>),
    Text(Seq<char>),
    Binary(Seq<u8>),
    Decimal(DecimalView),
    Timestamp(Timestamp),
    Date(Date),
    Json(JsonView),
    Point(DozerPoint),
    Duration(DozerDuration),
    Null,
}

impl FieldValue {
    /// The type of the field, if it is not null.
    pub open spec fn ty(self) -> Option<FieldType> {
        match self {
            FieldValue::UInt(_) => Some(FieldType::UInt),
            FieldValue::U128(_) => Some(FieldType::U128),
            FieldValue::Int(_) => Some(FieldType::Int),
            FieldValue::I128(_) => Some(FieldType::I128),
            FieldValue::Float(_) => Some(FieldType::Float),
            FieldValue::Boolean(_) => Some(FieldType::Boolean),
            FieldValue::String(_) => Some(FieldType::String),
            FieldValue::Text(_) => Some(FieldType::Text),
            FieldValue::Binary(_) => Some(FieldType::Binary),
            FieldValue::Decimal(_) => Some(FieldType::Decimal),
            FieldValue::Timestamp(_) => Some(FieldType::Timestamp),
            FieldValue::Date(_) => Some(FieldType::Date),
            FieldValue::Json(_) => Some(FieldType::Json),
            FieldValue::Point(_) => Some(FieldType::Point),
            FieldValue::Duration(_) => Some(FieldType::Duration),
            FieldValue::Null => None,
        }
    }
}

/// The types of the fields of a record, with `None` for null.
pub open spec fn types_of(values: Seq<FieldValue>) -> Seq<Option<FieldType>> {
    values.map_values(|value: FieldValue| value.ty())
}

/// What a list of owned fields holds.
pub open spec fn field_values(fields: Seq<Field>) -> Seq<FieldValue> {
    fields.map_values(|field: Field| field@)
}

/// What a list of borrowed fields holds.
pub open spec fn field_ref_values(fields: Seq<FieldRef<'_>>) -> Seq<FieldValue> {
    fields.map_values(|field: FieldRef<'_>| field@)
}

impl View for Field {
    type V = FieldValue;

    open spec fn view(&self) -> FieldValue {
        match *self {
            Field::UInt(v) => FieldValue::UInt(v),
            Field::U128(v) => FieldValue::U128(v),
            Field::Int(v) => FieldValue::Int(v),
            Field::I128(v) => FieldValue::I128(v),
            Field::Float(v) => FieldValue::Float(v),
            Field::Boolean(v) => FieldValue::Boolean(v),
            Field::String(v) => FieldValue::String(v@),
            Field::Text(v) => FieldValue::Text(v@),
            Field::Binary(v) => FieldValue::Binary(v@),
            Field::Decimal(v) => FieldValue::Decimal(v@),
            Field::Timestamp(v) => FieldValue::Timestamp(v),
            Field::Date(v) => FieldValue::Date(v),
            Field::Json(v) => FieldValue::Json(v@),
            Field::Point(v) => FieldValue::Point(v),
            Field::Duration(v) => FieldValue::Duration(v),
            Field::Null => FieldValue::Null,
        }
    }
}

impl View for FieldRef<'_> {
    type V = FieldValue;

    open spec fn view(&self) -> FieldValue {
        match *self {
            FieldRef::UInt(v) => FieldValue::UInt(v),
            FieldRef::U128(v) => FieldValue::U128(v),
            FieldRef::Int(v) => FieldValue::Int(v),
            FieldRef::I128(v) => FieldValue::I128(v),
            FieldRef::Float(v) => FieldValue::Float(v),
            FieldRef::Boolean(v) => FieldValue::Boolean(v),
            FieldRef::String(v) => FieldValue::String(v@),
            FieldRef::Text(v) => FieldValue::Text(v@),
            FieldRef::Binary(v) => FieldValue::Binary(v@),
            FieldRef::Decimal(v) => FieldValue::Decimal(v@),
            FieldRef::Timestamp(v) => FieldValue::Timestamp(v),
            FieldRef::Date(v) => FieldValue::Date(v),
            FieldRef::Json(v) => FieldValue::Json(v@),
            FieldRef::Point(v) => FieldValue::Point(v),
            FieldRef::Duration(v) => FieldValue::Duration(v),
            FieldRef::Null => FieldValue::Null,
        }
    }
}

/// Whether two points have equal coordinates.
pub open spec fn same_point(a: DozerPoint, b: DozerPoint) -> bool {
    crate::float::same_float(a.x, b.x) && crate::float::same_float(a.y, b.y)
}

/// Whether two fields are equal: of one type, with values that the type holds equal.
pub open spec fn same_value(a: FieldValue, b: FieldValue) -> bool {
    match (a, b) {
        (FieldValue::Float(x), FieldValue::Float(y)) => crate::float::same_float(x, y),
        (FieldValue::Decimal(x), FieldValue::Decimal(y)) => crate::decimal::same_decimal(x, y),
        (FieldValue::Timestamp(x), FieldValue::Timestamp(y)) => crate::time::same_instant(x, y),
        (FieldValue::Json(x), FieldValue::Json(y)) => crate::json::same_json(x, y),
        (FieldValue::Point(x), FieldValue::Point(y)) => same_point(x, y),
        _ => a == b,
    }
}

/// Whether two lists of fields are equal, field by field.
pub open spec fn same_values(a: Seq<FieldValue>, b: Seq<FieldValue>) -> bool {
    a.len() == b.len() && forall|i: int| 0 <= i < a.len() ==> same_value(#[trigger] a[i], b[i])
}

impl PartialEq for DozerPoint {
    fn eq(&self, other: &Self) -> (equal: bool) {
        self.x == other.x && self.y == other.y
    }
}

impl vstd::std_specs::cmp::PartialEqSpecImpl for DozerPoint {
    open spec fn obeys_eq_spec() -> bool {
        true
    }

    open spec fn eq_spec(&self, other: &Self) -> bool {
        same_point(*self, *other)
    }
}

impl Eq for DozerPoint {

}

impl Field {
    /// The type of the field, if it is not null.
    pub fn ty(&self) -> (ty: Option<FieldType>)
        ensures
            ty == self@.ty(),
    {
        match self {
            Field::UInt(_) => Some(FieldType::UInt),
            Field::U128(_) => Some(FieldType::U128),
            Field::Int(_) => Some(FieldType::Int),
            Field::I128(_) => Some(FieldType::I128),
            Field::Float(_) => Some(FieldType::Float),
            Field::Boolean(_) => Some(FieldType::Boolean),
            Field::String(_) => Some(FieldType::String),
            Field::Text(_) => Some(FieldType::Text),
            Field::Binary(_) => Some(FieldType::Binary),
            Field::Decimal(_) => Some(FieldType::Decimal),
            Field::Timestamp(_) => Some(FieldType::Timestamp),
            Field::Date(_) => Some(FieldType::Date),
            Field::Json(_) => Some(FieldType::Json),
            Field::Point(_) => Some(FieldType::Point),
            Field::Duration(_) => Some(FieldType::Duration),
            Field::Null => None,
        }
    }

    /// The field with its string or bytes borrowed.
    pub fn borrowed(&self) -> (field: FieldRef<'_>)
        ensures
            field@ == self@,
    {
        match self {
            Field::UInt(v) => FieldRef::UInt(*v),
            Field::U128(v) => FieldRef::U128(*v),
            Field::Int(v) => FieldRef::Int(*v),
            Field::I128(v) => FieldRef::I128(*v),
            Field::Float(v) => FieldRef::Float(*v),
            Field::Boolean(v) => FieldRef::Boolean(*v),
            Field::String(v) => FieldRef::String(v.as_str()),
            Field::Text(v) => FieldRef::Text(v.as_str()),
            Field::Binary(v) => FieldRef::Binary(v.as_slice()),
            Field::Decimal(v) => FieldRef::Decimal(*v),
            Field::Timestamp(v) => FieldRef::Timestamp(*v),
            Field::Date(v) => FieldRef::Date(*v),
            Field::Json(v) => FieldRef::Json(v.clone()),
            Field::Point(v) => FieldRef::Point(*v),
            Field::Duration(v) => FieldRef::Duration(*v),
            Field::Null => FieldRef::Null,
        }
    }
}

impl Clone for Field {
    fn clone(&self) -> (copy: Self)
        ensures
            copy@ == self@,
    {
        self.borrowed().cloned()
    }
}

impl PartialEq for Field {
    fn eq(&self, other: &Self) -> (equal: bool) {
        self.borrowed() == other.borrowed()
    }
}

impl vstd::std_specs::cmp::PartialEqSpecImpl for Field {
    open spec fn obeys_eq_spec() -> bool {
        true
    }

    open spec fn eq_spec(&self, other: &Self) -> bool {
        same_value(self@, other@)
    }
}

impl Eq for Field {

}

/// Copies borrowed bytes.
pub(crate) fn bytes_to_vec(bytes: &[u8]) -> (copy: Vec<u8>)
    ensures
        copy@ == bytes@,
{
    let mut copy: Vec<u8> = Vec::with_capacity(bytes.len());
    copy.extend_from_slice(bytes);
    assert(copy@ =~= bytes@);
    copy
}

/// Whether two runs of bytes are equal.
fn same_bytes(a: &[u8], b: &[u8]) -> (equal: bool)
    ensures
        equal == (a@ == b@),
{
    if a.len() != b.len() {
        return false;
    }
    let mut i: usize = 0;
    while i < a.len()
        invariant
            i <= a@.len() == b@.len(),
            forall|j: int| 0 <= j < i ==> a@[j] == b@[j],
        decreases a@.len() - i,
    {
        if a[i] != b[i] {
            return false;
        }
        i += 1;
    }
    assert(a@ =~= b@);
    true
}

/// Whether two strings are equal.
fn same_str(a: &str, b: &str) -> (equal: bool)
    ensures
        equal == (a@ == b@),
{
    proof {
        vstd::utf8::encode_utf8_decode_utf8(a@);
        vstd::utf8::encode_utf8_decode_utf8(b@);
    }
    same_bytes(a.as_bytes(), b.as_bytes())
}

impl FieldRef<'_> {
    /// A field of its own with the same type and value.
    pub fn cloned(&self) -> (field: Field)
        ensures
            field@ == self@,
    {
        match self {
            FieldRef::UInt(v) => Field::UInt(*v),
            FieldRef::U128(v) => Field::U128(*v),
            FieldRef::Int(v) => Field::Int(*v),
            FieldRef::I128(v) => Field::I128(*v),
            FieldRef::Float(v) => Field::Float(*v),
            FieldRef::Boolean(v) => Field::Boolean(*v),
            FieldRef::String(v) => Field::String((*v).to_owned()),
            FieldRef::Text(v) => Field::Text((*v).to_owned()),
            FieldRef::Binary(v) => Field::Binary(bytes_to_vec(v)),
            FieldRef::Decimal(v) => Field::Decimal(*v),
            FieldRef::Timestamp(v) => Field::Timestamp(*v),
            FieldRef::Date(v) => Field::Date(*v),
            FieldRef::Json(v) => Field::Json(v.clone()),
            FieldRef::Point(v) => Field::Point(*v),
            FieldRef::Duration(v) => Field::Duration(*v),
            FieldRef::Null => Field::Null,
        }
    }
}

impl PartialEq for FieldRef<'_> {
    fn eq(&self, other: &Self) -> (equal: bool) {
        match (self, other) {
            (FieldRef::UInt(x), FieldRef::UInt(y)) => *x == *y,
            (FieldRef::U128(x), FieldRef::U128(y)) => *x == *y,
            (FieldRef::Int(x), FieldRef::Int(y)) => *x == *y,
            (FieldRef::I128(x), FieldRef::I128(y)) => *x == *y,
            (FieldRef::Float(x), FieldRef::Float(y)) => *x == *y,
            (FieldRef::Boolean(x), FieldRef::Boolean(y)) => *x == *y,
            (FieldRef::String(x), FieldRef::String(y)) => same_str(x, y),
            (FieldRef::Text(x), FieldRef::Text(y)) => same_str(x, y),
            (FieldRef::Binary(x), FieldRef::Binary(y)) => same_bytes(x, y),
            (FieldRef::Decimal(x), FieldRef::Decimal(y)) => *x == *y,
            (FieldRef::Timestamp(x), FieldRef::Timestamp(y)) => *x == *y,
            (FieldRef::Date(x), FieldRef::Date(y)) => *x == *y,
            (FieldRef::Json(x), FieldRef::Json(y)) => *x == *y,
            (FieldRef::Point(x), FieldRef::Point(y)) => *x == *y,
            (FieldRef::Duration(x), FieldRef::Duration(y)) => *x == *y,
            (FieldRef::Null, FieldRef::Null) => true,
            _ => false,
        }
    }
}

impl vstd::std_specs::cmp::PartialEqSpecImpl for FieldRef<'_> {
    open spec fn obeys_eq_spec() -> bool {
        true
    }

    open spec fn eq_spec(&self, other: &Self) -> bool {
        same_value(self@, other@)
    }
}

impl Eq for FieldRef<'_> {

}

/// Equality of fields is an equivalence.
pub proof fn law_field_equality(a: FieldValue, b: FieldValue, c: FieldValue)
    ensures
        same_value(a, a),
        same_value(a, b) == same_value(b, a),
        same_value(a, b) && same_value(b, c) ==> same_value(a, c),
{
    if let FieldValue::Json(x) = a {
        let y = if let FieldValue::Json(y) = b {
            y
        } else {
            x
        };
        let z = if let FieldValue::Json(z) = c {
            z
        } else {
            x
        };
        crate::json::law_json_equality(x, y, z);
    }
}

/// Equality of lists of fields, and so of records, is an equivalence.
pub proof fn law_fields_equality(a: Seq<FieldValue>, b: Seq<FieldValue>, c: Seq<FieldValue>)
    ensures
        same_values(a, a),
        same_values(a, b) == same_values(b, a),
        same_values(a, b) && same_values(b, c) ==> same_values(a, c),
{
    assert forall|i: int| 0 <= i < a.len() implies same_value(#[trigger] a[i], a[i]) by {
        law_field_equality(a[i], a[i], a[i]);
    }
    if a.len() == b.len() {
        assert forall|i: int| 0 <= i < a.len() implies same_value(#[trigger] a[i], b[i])
            == same_value(b[i], a[i]) by {
            law_field_equality(a[i], b[i], b[i]);
        }
        if same_values(b, a) {
            assert forall|i: int| 0 <= i < a.len() implies same_value(#[trigger] a[i], b[i]) by {
                assert(same_value(b[i], a[i]));
            }
        }
    }
    if same_values(a, b) && same_values(b, c) {
        assert forall|i: int| 0 <= i < a.len() implies same_value(#[trigger] a[i], c[i]) by {
            assert(same_value(b[i], c[i]));
            law_field_equality(a[i], b[i], c[i]);
        }
    }
}

/// Equal fields have one type.
pub proof fn law_equal_fields_have_one_type(a: FieldValue, b: FieldValue)
    requires
        same_value(a, b),
    ensures
        a.ty() == b.ty(),
{
}

/// Where equality is not that of numbers or instants, equal fields are the same: two integers,
/// truth values, strings, texts, runs of bytes, days, durations or nulls are equal only when they
/// are identical, and none of them equals a field of another type.
pub proof fn law_plain_equality_is_identity(a: FieldValue, b: FieldValue)
    requires
        !(a is Float && b is Float),
        !(a is Decimal && b is Decimal),
        !(a is Timestamp && b is Timestamp),
        !(a is Json && b is Json),
        !(a is Point && b is Point),
    ensures
        same_value(a, b) <==> a == b,
{
}

/// Lists of fields are equal exactly when they are equally long and the fields at every place are
/// equal.
pub proof fn law_lists_equal_by_place(a: Seq<FieldValue>, b: Seq<FieldValue>)
    ensures
        same_values(a, b) <==> {
            &&& a.len() == b.len()
            &&& forall|i: int| 0 <= i < a.len() ==> same_value(#[trigger] a[i], b[i])
        },
{
}

/// An owned and a borrowed field hold the same exactly when they are of one variant with the same
/// contents, bit for bit.
pub proof fn law_owned_and_borrowed_hold_the_same(a: Field, b: FieldRef<'_>)
    ensures
        a@ == b@ <==> match (a, b) {
            (Field::UInt(x), FieldRef::UInt(y)) => x == y,
            (Field::U128(x), FieldRef::U128(y)) => x == y,
            (Field::Int(x), FieldRef::Int(y)) => x == y,
            (Field::I128(x), FieldRef::I128(y)) => x == y,
            (Field::Float(x), FieldRef::Float(y)) => x == y,
            (Field::Boolean(x), FieldRef::Boolean(y)) => x == y,
            (Field::String(x), FieldRef::String(y)) => x@ == y@,
            (Field::Text(x), FieldRef::Text(y)) => x@ == y@,
            (Field::Binary(x), FieldRef::Binary(y)) => x@ == y@,
            (Field::Decimal(x), FieldRef::Decimal(y)) => x@ == y@,
            (Field::Timestamp(x), FieldRef::Timestamp(y)) => x == y,
            (Field::Date(x), FieldRef::Date(y)) => x == y,
            (Field::Json(x), FieldRef::Json(y)) => x@ == y@,
            (Field::Point(x), FieldRef::Point(y)) => x == y,
            (Field::Duration(x), FieldRef::Duration(y)) => x == y,
            (Field::Null, FieldRef::Null) => true,
            _ => false,
        },
{
}

/// Two borrowed fields hold the same exactly when they are of one variant with the same contents,
/// bit for bit.
pub proof fn law_borrowed_hold_the_same(a: FieldRef<'_>, b: FieldRef<'_>)
    ensures
        a@ == b@ <==> match (a, b) {
            (FieldRef::UInt(x), FieldRef::UInt(y)) => x == y,
            (FieldRef::U128(x), FieldRef::U128(y)) => x == y,
            (FieldRef::Int(x), FieldRef::Int(y)) => x == y,
            (FieldRef::I128(x), FieldRef::I128(y)) => x == y,
            (FieldRef::Float(x), FieldRef::Float(y)) => x == y,
            (FieldRef::Boolean(x), FieldRef::Boolean(y)) => x == y,
            (FieldRef::String(x), FieldRef::String(y)) => x@ == y@,
            (FieldRef::Text(x), FieldRef::Text(y)) => x@ == y@,
            (FieldRef::Binary(x), FieldRef::Binary(y)) => x@ == y@,
            (FieldRef::Decimal(x), FieldRef::Decimal(y)) => x@ == y@,
            (FieldRef::Timestamp(x), FieldRef::Timestamp(y)) => x == y,
            (FieldRef::Date(x), FieldRef::Date(y)) => x == y,
            (FieldRef::Json(x), FieldRef::Json(y)) => x@ == y@,
            (FieldRef::Point(x), FieldRef::Point(y)) => x == y,
            (FieldRef::Duration(x), FieldRef::Duration(y)) => x == y,
            (FieldRef::Null, FieldRef::Null) => true,
            _ => false,
        },
{
}

/// What a list of fields holds is what each of its fields holds, in turn.
pub proof fn law_lists_hold_their_fields(owned: Seq<Field>, borrowed: Seq<FieldRef<'_>>)
    ensures
        field_values(owned).len() == owned.len(),
        forall|i: int| 0 <= i < owned.len() ==> #[trigger] field_values(owned)[i] == owned[i]@,
        field_ref_values(borrowed).len() == borrowed.len(),
        forall|i: int|
            0 <= i < borrowed.len() ==> #[trigger] field_ref_values(borrowed)[i] == borrowed[i]@,
{
}

/// The type of a field tells its variant.
pub proof fn law_type_tells_variant(value: FieldValue)
    ensures
        match value.ty() {
            Some(FieldType::UInt) => value is UInt,
            Some(FieldType::U128) => value is U128,
            Some(FieldType::Int) => value is Int,
            Some(FieldType::I128) => value is I128,
            Some(FieldType::Float) => value is Float,
            Some(FieldType::Boolean) => value is Boolean,
            Some(FieldType::String) => value is String,
            Some(FieldType::Text) => value is Text,
            Some(FieldType::Binary) => value is Binary,
            Some(FieldType::Decimal) => value is Decimal,
            Some(FieldType::Timestamp) => value is Timestamp,
            Some(FieldType::Date) => value is Date,
            Some(FieldType::Json) => value is Json,
            Some(FieldType::Point) => value is Point,
            Some(FieldType::Duration) => value is Duration,
            None => value is Null,
        },
{
}

} // verus!
