//! What a hasher is fed.
//!
//! A hasher is fed a value piece by piece. A field is fed as the number of its variant, and then as
//! its value is. A record is fed as the list of its fields: how many there are, then each. Values
//! that are equal have the same pieces, so equal records feed a hasher the same.

use crate::decimal::{Decimal, DecimalView};
use crate::field;
use crate::field::{FieldRef, FieldValue};
use crate::float;
use crate::json;
use crate::json::{JsonValue, JsonView};
use crate::processor::ProcessorRecord;
use crate::record::RecordRef;
use crate::time::{Lifetime, TimeUnit, Timestamp};
use core::hash::{Hash, Hasher};
use vstd::prelude::*;

verus! {

/// One piece of what a hasher is fed.
#[derive(Debug, Clone, PartialEq, Eq)]
pub enum Piece {
    /// The number of a variant, from zero on in the order of their declaration.
    Variant(isize),
    /// The length of a list.
    Length(usize),
    Bool(bool),
    U32(u32),
    U64(u64),
    U128(u128),
    I64(i64),
    I128(i128),
    /// A string, as `str` feeds it.
    Text(String),
    /// A run of bytes with its length, as `[u8]` feeds it.
    Bytes(Vec<u8>),
    /// A day, counted from 0001-01-01, which is day 1, as `chrono::NaiveDate` feeds it. A day that
    /// `chrono` has no date for is fed as its number.
    Day(i64),
}

/// What a [`Piece`] holds.
pub enum PieceView {
    Variant(int),
    Length(nat),
    Bool(bool),
    U32(u32),
    U64(u64),
    U128(u128),
    I64(i64),
    I128(i128),
    Text(Seq<char>),
    Bytes(Seq<u8>),
    Day(int),
}

impl View for Piece {
    type V = PieceView;

    open spec fn view(&self) -> PieceView {
        match *self {
            Piece::Variant(v) => PieceView::Variant(v as int),
            Piece::Length(v) => PieceView::Length(v as nat),
            Piece::Bool(v) => PieceView::Bool(v),
            Piece::U32(v) => PieceView::U32(v),
            Piece::U64(v) => PieceView::U64(v),
            Piece::U128(v) => PieceView::U128(v),
            Piece::I64(v) => PieceView::I64(v),
            Piece::I128(v) => PieceView::I128(v),
            Piece::Text(v) => PieceView::Text(v@),
            Piece::Bytes(v) => PieceView::Bytes(v@),
            Piece::Day(v) => PieceView::Day(v as int),
        }
    }
}

/// What a list of pieces holds.
pub open spec fn views(pieces: Seq<Piece>) -> Seq<PieceView> {
    pieces.map_values(|piece: Piece| piece@)
}

/// The piece of a floating-point number.
pub open spec fn float_piece(value: float::Float64) -> PieceView {
    PieceView::U64(float::float_word(value))
}

/// The pieces of a decimal that is in its form without needless digits: its three words, and its
/// scale and sign in one word.
pub open spec fn normal_pieces(normal: DecimalView) -> Seq<PieceView> {
    let sign: int = if normal.negative {
        0x8000_0000
    } else {
        0
    };
    seq![
        PieceView::U32(normal.lo),
        PieceView::U32(normal.mid),
        PieceView::U32(normal.hi),
        PieceView::U32((0x1_0000 * normal.scale + sign) as u32),
    ]
}

/// How many seconds a day has.
pub const DAY_SECS: u64 = 86_400;

/// The number of the day 1970-01-01, counted from 0001-01-01, which is day 1.
pub const EPOCH_DAY: i64 = 719_163;

/// The pieces of a timestamp: the day, the second of the day and the nanoseconds of its instant.
pub open spec fn instant_pieces(value: Timestamp) -> Seq<PieceView> {
    seq![
        PieceView::Day(value.secs as int / DAY_SECS as int + EPOCH_DAY),
        PieceView::U32((value.secs as int % DAY_SECS as int) as u32),
        PieceView::U32(value.nanos),
    ]
}

/// The pieces of a JSON value.
pub open spec fn json_pieces(value: JsonView) -> Seq<PieceView>
    decreases value, 0nat,
{
    match value {
        JsonView::Null => seq![PieceView::Variant(0)],
        JsonView::Bool(b) => seq![PieceView::Variant(1), PieceView::Bool(b)],
        JsonView::Number(n) => seq![PieceView::Variant(2), float_piece(n)],
        JsonView::String(s) => seq![PieceView::Variant(3), PieceView::Text(s)],
        JsonView::Array(items) => seq![PieceView::Variant(4), PieceView::Length(items.len())]
            + items_pieces(items, items.len()),
        JsonView::Object(members) => seq![PieceView::Variant(5), PieceView::Length(members.len())]
            + members_pieces(members, members.len()),
    }
}

/// The pieces of the first `n` items of a JSON array.
pub open spec fn items_pieces(items: Seq<JsonView>, n: nat) -> Seq<PieceView>
    decreases items, n,
{
    if n == 0 || n > items.len() {
        Seq::empty()
    } else {
        items_pieces(items, (n - 1) as nat) + json_pieces(items[n - 1])
    }
}

/// The pieces of the first `n` members of a JSON object.
pub open spec fn members_pieces(members: Seq<(Seq<char>, JsonView)>, n: nat) -> Seq<PieceView>
    decreases members, n,
{
    if n == 0 || n > members.len() {
        Seq::empty()
    } else {
        members_pieces(members, (n - 1) as nat) + seq![PieceView::Text(members[n - 1].0)]
            + json_pieces(members[n - 1].1)
    }
}

/// The pieces of a field: the number of its variant, and those of its value.
pub open spec fn value_pieces(value: FieldValue) -> Seq<PieceView> {
    match value {
        FieldValue::UInt(v) => seq![PieceView::Variant(0), PieceView::U64(v)],
        FieldValue::U128(v) => seq![PieceView::Variant(1), PieceView::U128(v)],
        FieldValue::Int(v) => seq![PieceView::Variant(2), PieceView::I64(v)],
        FieldValue::I128(v) => seq![PieceView::Variant(3), PieceView::I128(v)],
        FieldValue::Float(v) => seq![PieceView::Variant(4), float_piece(v)],
        FieldValue::Boolean(v) => seq![PieceView::Variant(5), PieceView::Bool(v)],
        FieldValue::String(v) => seq![PieceView::Variant(6), PieceView::Text(v)],
        FieldValue::Text(v) => seq![PieceView::Variant(7), PieceView::Text(v)],
        FieldValue::Binary(v) => seq![PieceView::Variant(8), PieceView::Bytes(v)],
        FieldValue::Decimal(v) => seq![PieceView::Variant(9)] + normal_pieces(v.normal_form()),
        FieldValue::Timestamp(v) => seq![PieceView::Variant(10)] + instant_pieces(v),
        FieldValue::Date(v) => seq![PieceView::Variant(11), PieceView::Day(v.days as int)],
        FieldValue::Json(v) => seq![PieceView::Variant(12)] + json_pieces(v),
        FieldValue::Point(v) => seq![PieceView::Variant(13), float_piece(v.x), float_piece(v.y)],
        FieldValue::Duration(v) => seq![
            PieceView::Variant(14),
            PieceView::U64(v.duration.secs),
            PieceView::U32(v.duration.nanos),
            PieceView::Variant(v.unit.tag() as int),
        ],
        FieldValue::Null => seq![PieceView::Variant(15)],
    }
}

/// The pieces of the first `n` fields of a record.
pub open spec fn values_pieces(values: Seq<FieldValue>, n: nat) -> Seq<PieceView>
    decreases n,
{
    if n == 0 {
        Seq::empty()
    } else {
        values_pieces(values, (n - 1) as nat) + value_pieces(values[n - 1])
    }
}

/// The pieces of a record: how many fields it has, then those of each field.
pub open spec fn record_pieces(values: Seq<FieldValue>) -> Seq<PieceView> {
    seq![PieceView::Length(values.len())] + values_pieces(values, values.len())
}

/// The pieces of the first `n` of a list of records.
pub open spec fn records_pieces(records: Seq<RecordRef>, n: nat) -> Seq<PieceView>
    decreases n,
{
    if n == 0 {
        Seq::empty()
    } else {
        records_pieces(records, (n - 1) as nat) + record_pieces(records[n - 1]@)
    }
}

/// The pieces of a lifetime that may be missing.
pub open spec fn lifetime_pieces(lifetime: Option<Lifetime>) -> Seq<PieceView> {
    match lifetime {
        None => seq![PieceView::Variant(0)],
        Some(lifetime) => seq![PieceView::Variant(1)] + instant_pieces(lifetime.reference) + seq![
            PieceView::U64(lifetime.duration.secs),
            PieceView::U32(lifetime.duration.nanos),
        ],
    }
}

/// The pieces of a processor record: how many lists of fields it has, those of each list, and those
/// of its lifetime.
pub open spec fn processor_record_pieces(record: ProcessorRecord) -> Seq<PieceView> {
    seq![PieceView::Length(record.records().len())] + records_pieces(
        record.records(),
        record.records().len(),
    ) + lifetime_pieces(record.lifetime())
}

/// Equal JSON values have the same pieces.
pub proof fn law_equal_json_same_pieces(a: JsonView, b: JsonView)
    requires
        json::same_json(a, b),
    ensures
        json_pieces(a) == json_pieces(b),
    decreases a, 0nat,
{
    match (a, b) {
        (JsonView::Number(x), JsonView::Number(y)) => float::law_float_word(x, y),
        (JsonView::Array(x), JsonView::Array(y)) => lemma_same_items(x, y, x.len()),
        (JsonView::Object(x), JsonView::Object(y)) => lemma_same_members(x, y, x.len()),
        _ => {},
    }
}

proof fn lemma_same_items(x: Seq<JsonView>, y: Seq<JsonView>, n: nat)
    requires
        n <= x.len() == y.len(),
        forall|i: int| 0 <= i < x.len() ==> json::same_json(#[trigger] x[i], y[i]),
    ensures
        items_pieces(x, n) == items_pieces(y, n),
    decreases x, n,
{
    if n > 0 {
        lemma_same_items(x, y, (n - 1) as nat);
        law_equal_json_same_pieces(x[n - 1], y[n - 1]);
    }
}

proof fn lemma_same_members(
    x: Seq<(Seq<char>, JsonView)>,
    y: Seq<(Seq<char>, JsonView)>,
    n: nat,
)
    requires
        n <= x.len() == y.len(),
        forall|i: int|
            0 <= i < x.len() ==> (#[trigger] x[i]).0 == y[i].0 && json::same_json(x[i].1, y[i].1),
    ensures
        members_pieces(x, n) == members_pieces(y, n),
    decreases x, n,
{
    if n > 0 {
        lemma_same_members(x, y, (n - 1) as nat);
        assert(x[n - 1].0 == y[n - 1].0);
        law_equal_json_same_pieces(x[n - 1].1, y[n - 1].1);
    }
}

/// Equal fields have the same pieces.
pub proof fn law_equal_fields_same_pieces(a: FieldValue, b: FieldValue)
    requires
        field::same_value(a, b),
    ensures
        value_pieces(a) == value_pieces(b),
{
    match (a, b) {
        (FieldValue::Float(x), FieldValue::Float(y)) => float::law_float_word(x, y),
        (FieldValue::Json(x), FieldValue::Json(y)) => law_equal_json_same_pieces(x, y),
        (FieldValue::Point(x), FieldValue::Point(y)) => {
            float::law_float_word(x.x, y.x);
            float::law_float_word(x.y, y.y);
        },
        _ => {},
    }
}

/// Equal records have the same pieces, so they feed a hasher the same.
pub proof fn law_equal_records_same_pieces(a: Seq<FieldValue>, b: Seq<FieldValue>)
    requires
        field::same_values(a, b),
    ensures
        record_pieces(a) == record_pieces(b),
{
    lemma_same_values(a, b, a.len());
}

proof fn lemma_same_values(a: Seq<FieldValue>, b: Seq<FieldValue>, n: nat)
    requires
        field::same_values(a, b),
        n <= a.len(),
    ensures
        values_pieces(a, n) == values_pieces(b, n),
    decreases n,
{
    if n > 0 {
        lemma_same_values(a, b, (n - 1) as nat);
        law_equal_fields_same_pieces(a[n - 1], b[n - 1]);
    }
}

/// Equal processor records have the same pieces, so they feed a hasher the same.
pub proof fn law_equal_processor_records_same_pieces(a: ProcessorRecord, b: ProcessorRecord)
    requires
        crate::processor::same_record(a, b),
    ensures
        processor_record_pieces(a) == processor_record_pieces(b),
{
    lemma_same_record_lists(a.records(), b.records(), a.records().len());
}

proof fn lemma_same_record_lists(a: Seq<RecordRef>, b: Seq<RecordRef>, n: nat)
    requires
        crate::processor::same_records(a, b),
        n <= a.len(),
    ensures
        records_pieces(a, n) == records_pieces(b, n),
    decreases n,
{
    if n > 0 {
        lemma_same_record_lists(a, b, (n - 1) as nat);
        law_equal_records_same_pieces(a[n - 1]@, b[n - 1]@);
    }
}

/// A piece is viewed as what it holds, and a list of pieces as what each of them holds in turn.
pub proof fn law_piece_views(piece: Piece, pieces: Seq<Piece>)
    ensures
        match piece {
            Piece::Variant(v) => piece@ == PieceView::Variant(v as int),
            Piece::Length(v) => piece@ == PieceView::Length(v as nat),
            Piece::Bool(v) => piece@ == PieceView::Bool(v),
            Piece::U32(v) => piece@ == PieceView::U32(v),
            Piece::U64(v) => piece@ == PieceView::U64(v),
            Piece::U128(v) => piece@ == PieceView::U128(v),
            Piece::I64(v) => piece@ == PieceView::I64(v),
            Piece::I128(v) => piece@ == PieceView::I128(v),
            Piece::Text(v) => piece@ == PieceView::Text(v@),
            Piece::Bytes(v) => piece@ == PieceView::Bytes(v@),
            Piece::Day(v) => piece@ == PieceView::Day(v as int),
        },
        views(pieces).len() == pieces.len(),
        forall|i: int| 0 <= i < pieces.len() ==> #[trigger] views(pieces)[i] == pieces[i]@,
{
}

/// A timestamp is fed as a day and a second of that day that make up its seconds since 1970, and as
/// its nanoseconds.
pub proof fn law_instant_pieces(value: Timestamp)
    ensures
        instant_pieces(value).len() == 3,
        instant_pieces(value)[0] matches PieceView::Day(day)
            && instant_pieces(value)[1] matches PieceView::U32(second) && second < 86_400
            && value.secs == (day - 719_163) * 86_400 + second,
        instant_pieces(value)[2] == PieceView::U32(value.nanos),
{
}

/// A field is fed as the number of its variant in the order of their declaration, and then as what
/// it holds: a number in its own width, characters, bytes, a decimal in its normal form, a
/// timestamp by its instant, a day, both coordinates, or the seconds, nanoseconds and unit of a
/// duration.
pub proof fn law_field_pieces(field: FieldRef<'_>)
    ensures
        match field {
            FieldRef::UInt(v) => value_pieces(field@) == seq![
                PieceView::Variant(0),
                PieceView::U64(v),
            ],
            FieldRef::U128(v) => value_pieces(field@) == seq![
                PieceView::Variant(1),
                PieceView::U128(v),
            ],
            FieldRef::Int(v) => value_pieces(field@) == seq![
                PieceView::Variant(2),
                PieceView::I64(v),
            ],
            FieldRef::I128(v) => value_pieces(field@) == seq![
                PieceView::Variant(3),
                PieceView::I128(v),
            ],
            FieldRef::Float(v) => value_pieces(field@) == seq![
                PieceView::Variant(4),
                PieceView::U64(float::float_word(v)),
            ],
            FieldRef::Boolean(v) => value_pieces(field@) == seq![
                PieceView::Variant(5),
                PieceView::Bool(v),
            ],
            FieldRef::String(v) => value_pieces(field@) == seq![
                PieceView::Variant(6),
                PieceView::Text(v@),
            ],
            FieldRef::Text(v) => value_pieces(field@) == seq![
                PieceView::Variant(7),
                PieceView::Text(v@),
            ],
            FieldRef::Binary(v) => value_pieces(field@) == seq![
                PieceView::Variant(8),
                PieceView::Bytes(v@),
            ],
            FieldRef::Decimal(v) => {
                let normal = v@.normal_form();
                let sign: int = if normal.negative {
                    0x8000_0000
                } else {
                    0
                };
                value_pieces(field@) == seq![
                    PieceView::Variant(9),
                    PieceView::U32(normal.lo),
                    PieceView::U32(normal.mid),
                    PieceView::U32(normal.hi),
                    PieceView::U32((sign + normal.scale * 0x1_0000) as u32),
                ]
            },
            FieldRef::Timestamp(v) => value_pieces(field@) == seq![PieceView::Variant(10)]
                + instant_pieces(v),
            FieldRef::Date(v) => value_pieces(field@) == seq![
                PieceView::Variant(11),
                PieceView::Day(v.days as int),
            ],
            FieldRef::Json(v) => value_pieces(field@) == seq![PieceView::Variant(12)]
                + json_pieces(v@),
            FieldRef::Point(v) => value_pieces(field@) == seq![
                PieceView::Variant(13),
                PieceView::U64(float::float_word(v.x)),
                PieceView::U64(float::float_word(v.y)),
            ],
            FieldRef::Duration(v) => {
                let unit: int = match v.unit {
                    TimeUnit::Seconds => 0,
                    TimeUnit::Milliseconds => 1,
                    TimeUnit::Microseconds => 2,
                    TimeUnit::Nanoseconds => 3,
                };
                value_pieces(field@) == seq![
                    PieceView::Variant(14),
                    PieceView::U64(v.duration.secs),
                    PieceView::U32(v.duration.nanos),
                    PieceView::Variant(unit),
                ]
            },
            FieldRef::Null => value_pieces(field@) == seq![PieceView::Variant(15)],
        },
{
    match field {
        FieldRef::Decimal(v) => {
            let normal = v@.normal_form();
            assert(value_pieces(field@) =~= seq![
                PieceView::Variant(9),
                PieceView::U32(normal.lo),
                PieceView::U32(normal.mid),
                PieceView::U32(normal.hi),
                normal_pieces(normal)[3],
            ]);
        },
        _ => {},
    }
}

/// A JSON value is fed as the number of its variant in the order of their declaration, and then as
/// what it holds: an array as how many items it has, and each item; an object as how many members
/// it has, and the key and the value of each.
pub proof fn law_json_pieces(
    value: JsonView,
    items: Seq<JsonView>,
    members: Seq<(Seq<char>, JsonView)>,
    key: Seq<char>,
)
    ensures
        match value {
            JsonView::Null => json_pieces(value) == seq![PieceView::Variant(0)],
            JsonView::Bool(v) => json_pieces(value) == seq![
                PieceView::Variant(1),
                PieceView::Bool(v),
            ],
            JsonView::Number(v) => json_pieces(value) == seq![
                PieceView::Variant(2),
                PieceView::U64(float::float_word(v)),
            ],
            JsonView::String(v) => json_pieces(value) == seq![
                PieceView::Variant(3),
                PieceView::Text(v),
            ],
            JsonView::Array(v) => json_pieces(value).take(2) == seq![
                PieceView::Variant(4),
                PieceView::Length(v.len()),
            ],
            JsonView::Object(v) => json_pieces(value).take(2) == seq![
                PieceView::Variant(5),
                PieceView::Length(v.len()),
            ],
        },
        json_pieces(JsonView::Array(Seq::empty())).len() == 2,
        json_pieces(JsonView::Object(Seq::empty())).len() == 2,
        json_pieces(JsonView::Array(items.push(value))).skip(2) == json_pieces(
            JsonView::Array(items),
        ).skip(2) + json_pieces(value),
        json_pieces(JsonView::Object(members.push((key, value)))).skip(2) == json_pieces(
            JsonView::Object(members),
        ).skip(2) + seq![PieceView::Text(key)] + json_pieces(value),
{
    if let JsonView::Array(v) = value {
        assert(json_pieces(value).take(2) =~= seq![
            PieceView::Variant(4),
            PieceView::Length(v.len()),
        ]);
    }
    if let JsonView::Object(v) = value {
        assert(json_pieces(value).take(2) =~= seq![
            PieceView::Variant(5),
            PieceView::Length(v.len()),
        ]);
    }
    let (x, y) = (items, items.push(value));
    lemma_items_prefix(x, y, x.len());
    assert(json_pieces(JsonView::Array(x)).skip(2) =~= items_pieces(x, x.len()));
    assert(json_pieces(JsonView::Array(y)).skip(2) =~= items_pieces(y, y.len()));
    let (x, y) = (members, members.push((key, value)));
    lemma_members_prefix(x, y, x.len());
    assert(json_pieces(JsonView::Object(x)).skip(2) =~= members_pieces(x, x.len()));
    assert(json_pieces(JsonView::Object(y)).skip(2) =~= members_pieces(y, y.len()));
}

proof fn lemma_items_prefix(x: Seq<JsonView>, y: Seq<JsonView>, n: nat)
    requires
        n <= x.len() <= y.len(),
        forall|i: int| 0 <= i < x.len() ==> x[i] == y[i],
    ensures
        items_pieces(x, n) == items_pieces(y, n),
    decreases n,
{
    if n > 0 {
        lemma_items_prefix(x, y, (n - 1) as nat);
    }
}

proof fn lemma_members_prefix(
    x: Seq<(Seq<char>, JsonView)>,
    y: Seq<(Seq<char>, JsonView)>,
    n: nat,
)
    requires
        n <= x.len() <= y.len(),
        forall|i: int| 0 <= i < x.len() ==> x[i] == y[i],
    ensures
        members_pieces(x, n) == members_pieces(y, n),
    decreases n,
{
    if n > 0 {
        lemma_members_prefix(x, y, (n - 1) as nat);
    }
}

/// A record is fed as how many fields it has, and then as each of its fields in turn: a field more
/// adds its pieces behind those of the fields before it.
pub proof fn law_record_pieces(values: Seq<FieldValue>, value: FieldValue)
    ensures
        record_pieces(values)[0] == PieceView::Length(values.len()),
        record_pieces(Seq::empty()).len() == 1,
        record_pieces(values.push(value)).skip(1) == record_pieces(values).skip(1) + value_pieces(
            value,
        ),
{
    let more = values.push(value);
    lemma_values_prefix(values, more, values.len());
    assert(record_pieces(values).skip(1) =~= values_pieces(values, values.len()));
    assert(record_pieces(more).skip(1) =~= values_pieces(more, more.len()));
}

proof fn lemma_values_prefix(x: Seq<FieldValue>, y: Seq<FieldValue>, n: nat)
    requires
        n <= x.len() <= y.len(),
        forall|i: int| 0 <= i < x.len() ==> x[i] == y[i],
    ensures
        values_pieces(x, n) == values_pieces(y, n),
    decreases n,
{
    if n > 0 {
        lemma_values_prefix(x, y, (n - 1) as nat);
    }
}

/// A processor record is fed as how many lists it has, as each of its lists in turn, and as its
/// lifetime: one list more adds its pieces behind those of the lists before it. A lifetime is fed
/// as whether there is one, and as its instant, its seconds and its nanoseconds.
pub proof fn law_processor_record_pieces(
    record: ProcessorRecord,
    longer: ProcessorRecord,
    list: RecordRef,
)
    requires
        longer.records() == record.records().push(list),
    ensures
        processor_record_pieces(record)[0] == PieceView::Length(record.records().len()),
        record.records().len() == 0 ==> processor_record_pieces(record).skip(1) == lifetime_pieces(
            record.lifetime(),
        ),
        exists|pieces: Seq<PieceView>|
            processor_record_pieces(record).skip(1) == #[trigger] (pieces + lifetime_pieces(
                record.lifetime(),
            )) && processor_record_pieces(longer).skip(1) == pieces + record_pieces(list@)
                + lifetime_pieces(longer.lifetime()),
        match record.lifetime() {
            None => lifetime_pieces(record.lifetime()) == seq![PieceView::Variant(0)],
            Some(v) => lifetime_pieces(record.lifetime()) == seq![PieceView::Variant(1)]
                + instant_pieces(v.reference) + seq![
                PieceView::U64(v.duration.secs),
                PieceView::U32(v.duration.nanos),
            ],
        },
{
    let (x, y) = (record.records(), longer.records());
    let pieces = records_pieces(x, x.len());
    lemma_records_prefix(x, y, x.len());
    assert(processor_record_pieces(record).skip(1) =~= pieces + lifetime_pieces(record.lifetime()));
    assert(processor_record_pieces(longer).skip(1) =~= pieces + record_pieces(list@)
        + lifetime_pieces(longer.lifetime()));
}

proof fn lemma_records_prefix(x: Seq<RecordRef>, y: Seq<RecordRef>, n: nat)
    requires
        n <= x.len() <= y.len(),
        forall|i: int| 0 <= i < x.len() ==> x[i] == y[i],
    ensures
        records_pieces(x, n) == records_pieces(y, n),
    decreases n,
{
    if n > 0 {
        lemma_records_prefix(x, y, (n - 1) as nat);
    }
}

/// Adds one piece.
fn put(pieces: &mut Vec<Piece>, piece: Piece)
    ensures
        views(final(pieces)@) == views(old(pieces)@).push(piece@),
{
    pieces.push(piece);
    assert(views(pieces@) =~= views(old(pieces)@).push(piece@));
}

/// Adds the pieces of a decimal.
fn put_decimal(pieces: &mut Vec<Piece>, value: &Decimal)
    ensures
        views(final(pieces)@) == views(old(pieces)@) + normal_pieces(value@.normal_form()),
{
    let normal = value.normalize();
    let sign: u32 = if normal.is_sign_negative() {
        0x8000_0000
    } else {
        0
    };
    put(pieces, Piece::U32(normal.lo()));
    put(pieces, Piece::U32(normal.mid()));
    put(pieces, Piece::U32(normal.hi()));
    put(pieces, Piece::U32(0x1_0000 * normal.scale() + sign));
}

/// Adds the pieces of a timestamp.
fn put_instant(pieces: &mut Vec<Piece>, value: &Timestamp)
    ensures
        views(final(pieces)@) == views(old(pieces)@) + instant_pieces(*value),
{
    let secs = value.secs;
    if secs >= 0 {
        let forth = secs as u64;
        put(pieces, Piece::Day((forth / DAY_SECS) as i64 + EPOCH_DAY));
        put(pieces, Piece::U32((forth % DAY_SECS) as u32));
    } else {
        let back = (-(secs + 1)) as u64;
        put(pieces, Piece::Day(EPOCH_DAY - 1 - (back / DAY_SECS) as i64));
        put(pieces, Piece::U32((DAY_SECS - 1 - back % DAY_SECS) as u32));
    }
    put(pieces, Piece::U32(value.nanos));
}

/// Adds the pieces of a JSON value.
fn put_json(pieces: &mut Vec<Piece>, value: &JsonValue)
    ensures
        views(final(pieces)@) == views(old(pieces)@) + json_pieces(value@),
    decreases value,
{
    let ghost before = views(pieces@);
    match value {
        JsonValue::Null => put(pieces, Piece::Variant(0)),
        JsonValue::Bool(b) => {
            put(pieces, Piece::Variant(1));
            put(pieces, Piece::Bool(*b));
        },
        JsonValue::Number(n) => {
            put(pieces, Piece::Variant(2));
            put(pieces, Piece::U64(n.to_word()));
        },
        JsonValue::String(s) => {
            put(pieces, Piece::Variant(3));
            put(pieces, Piece::Text(s.clone()));
        },
        JsonValue::Array(items) => {
            put(pieces, Piece::Variant(4));
            put(pieces, Piece::Length(items.len()));
            let ghost all = value@->Array_0;
            let ghost start = views(pieces@);
            let mut i: usize = 0;
            while i < items.len()
                invariant
                    value matches JsonValue::Array(list) && list == items,
                    all == value@->Array_0,
                    i <= items@.len() == all.len(),
                    views(pieces@) == start + items_pieces(all, i as nat),
                decreases items@.len() - i,
            {
                put_json(pieces, &items[i]);
                assert(all[i as int] == items@[i as int]@);
                i += 1;
                assert(views(pieces@) =~= start + items_pieces(all, i as nat));
            }
        },
        JsonValue::Object(members) => {
            put(pieces, Piece::Variant(5));
            put(pieces, Piece::Length(members.len()));
            let ghost all = value@->Object_0;
            let ghost start = views(pieces@);
            let mut i: usize = 0;
            while i < members.len()
                invariant
                    value matches JsonValue::Object(list) && list == members,
                    all == value@->Object_0,
                    i <= members@.len() == all.len(),
                    views(pieces@) == start + members_pieces(all, i as nat),
                decreases members@.len() - i,
            {
                put(pieces, Piece::Text(members[i].0.clone()));
                put_json(pieces, &members[i].1);
                assert(all[i as int] == (members@[i as int].0@, members@[i as int].1@));
                i += 1;
                assert(views(pieces@) =~= start + members_pieces(all, i as nat));
            }
        },
    }
    assert(views(pieces@) =~= before + json_pieces(value@));
}

/// Adds the pieces of a field.
fn put_field(pieces: &mut Vec<Piece>, field: &FieldRef<'_>)
    ensures
        views(final(pieces)@) == views(old(pieces)@) + value_pieces(field@),
{
    let ghost before = views(pieces@);
    match field {
        FieldRef::UInt(v) => {
            put(pieces, Piece::Variant(0));
            put(pieces, Piece::U64(*v));
        },
        FieldRef::U128(v) => {
            put(pieces, Piece::Variant(1));
            put(pieces, Piece::U128(*v));
        },
        FieldRef::Int(v) => {
            put(pieces, Piece::Variant(2));
            put(pieces, Piece::I64(*v));
        },
        FieldRef::I128(v) => {
            put(pieces, Piece::Variant(3));
            put(pieces, Piece::I128(*v));
        },
        FieldRef::Float(v) => {
            put(pieces, Piece::Variant(4));
            put(pieces, Piece::U64(v.to_word()));
        },
        FieldRef::Boolean(v) => {
            put(pieces, Piece::Variant(5));
            put(pieces, Piece::Bool(*v));
        },
        FieldRef::String(v) => {
            put(pieces, Piece::Variant(6));
            put(pieces, Piece::Text((*v).to_owned()));
        },
        FieldRef::Text(v) => {
            put(pieces, Piece::Variant(7));
            put(pieces, Piece::Text((*v).to_owned()));
        },
        FieldRef::Binary(v) => {
            put(pieces, Piece::Variant(8));
            put(pieces, Piece::Bytes(field::bytes_to_vec(v)));
        },
        FieldRef::Decimal(v) => {
            put(pieces, Piece::Variant(9));
            put_decimal(pieces, v);
        },
        FieldRef::Timestamp(v) => {
            put(pieces, Piece::Variant(10));
            put_instant(pieces, v);
        },
        FieldRef::Date(v) => {
            put(pieces, Piece::Variant(11));
            put(pieces, Piece::Day(v.days as i64));
        },
        FieldRef::Json(v) => {
            put(pieces, Piece::Variant(12));
            put_json(pieces, v);
        },
        FieldRef::Point(v) => {
            put(pieces, Piece::Variant(13));
            put(pieces, Piece::U64(v.x.to_word()));
            put(pieces, Piece::U64(v.y.to_word()));
        },
        FieldRef::Duration(v) => {
            put(pieces, Piece::Variant(14));
            put(pieces, Piece::U64(v.duration.secs));
            put(pieces, Piece::U32(v.duration.nanos));
            put(pieces, Piece::Variant(v.unit.to_byte() as isize));
        },
        FieldRef::Null => put(pieces, Piece::Variant(15)),
    }
    assert(views(pieces@) =~= before + value_pieces(field@));
}

/// Adds the pieces of a record.
fn put_record(pieces: &mut Vec<Piece>, record: &RecordRef)
    ensures
        views(final(pieces)@) == views(old(pieces)@) + record_pieces(record@),
{
    let ghost before = views(pieces@);
    let fields = record.load();
    put(pieces, Piece::Length(fields.len()));
    let ghost start = views(pieces@);
    let mut i: usize = 0;
    while i < fields.len()
        invariant
            fields@.len() == record@.len(),
            forall|j: int| 0 <= j < record@.len() ==> (#[trigger] fields@[j])@ == record@[j],
            i <= fields@.len(),
            views(pieces@) == start + values_pieces(record@, i as nat),
        decreases fields@.len() - i,
    {
        put_field(pieces, &fields[i]);
        i += 1;
        assert(views(pieces@) =~= start + values_pieces(record@, i as nat));
    }
    assert(views(pieces@) =~= before + record_pieces(record@));
}

/// Adds the pieces of a lifetime that may be missing.
fn put_lifetime(pieces: &mut Vec<Piece>, lifetime: Option<Lifetime>)
    ensures
        views(final(pieces)@) == views(old(pieces)@) + lifetime_pieces(lifetime),
{
    let ghost before = views(pieces@);
    match lifetime {
        None => put(pieces, Piece::Variant(0)),
        Some(lifetime) => {
            put(pieces, Piece::Variant(1));
            put_instant(pieces, &lifetime.reference);
            put(pieces, Piece::U64(lifetime.duration.secs));
            put(pieces, Piece::U32(lifetime.duration.nanos));
        },
    }
    assert(views(pieces@) =~= before + lifetime_pieces(lifetime));
}

impl FieldRef<'_> {
    /// The pieces that a hasher is fed for the field.
    pub fn hash_pieces(&self) -> (pieces: Vec<Piece>)
        ensures
            views(pieces@) == value_pieces(self@),
    {
        let mut pieces: Vec<Piece> = Vec::new();
        put_field(&mut pieces, self);
        assert(views(pieces@) =~= value_pieces(self@));
        pieces
    }
}

impl RecordRef {
    /// The pieces that a hasher is fed for the record.
    pub fn hash_pieces(&self) -> (pieces: Vec<Piece>)
        ensures
            views(pieces@) == record_pieces(self@),
    {
        let mut pieces: Vec<Piece> = Vec::new();
        put_record(&mut pieces, self);
        assert(views(pieces@) =~= record_pieces(self@));
        pieces
    }
}

impl ProcessorRecord {
    /// The pieces that a hasher is fed for the record.
    pub fn hash_pieces(&self) -> (pieces: Vec<Piece>)
        ensures
            views(pieces@) == processor_record_pieces(*self),
    {
        let mut pieces: Vec<Piece> = Vec::new();
        let values = self.values();
        put(&mut pieces, Piece::Length(values.len()));
        let ghost start = views(pieces@);
        let mut i: usize = 0;
        while i < values.len()
            invariant
                values@ == self.records(),
                i <= values@.len(),
                views(pieces@) == start + records_pieces(values@, i as nat),
            decreases values@.len() - i,
        {
            put_record(&mut pieces, &values[i]);
            i += 1;
            assert(views(pieces@) =~= start + records_pieces(values@, i as nat));
        }
        put_lifetime(&mut pieces, self.get_lifetime());
        assert(views(pieces@) =~= processor_record_pieces(*self));
        pieces
    }
}

/// Feeds a value to a hasher with the value's own `Hash`. What the hasher makes of it is its own
/// affair, so nothing is claimed of it.
#[verifier::external_body]
pub(crate) fn feed<T: Hash + ?Sized, H: Hasher>(value: &T, state: &mut H) {
    value.hash(state)
}

/// The first day that `chrono` has a date for, which is January 1 of the year -262143.
pub const FIRST_DAY: i32 = -95_746_129;

/// The last day that `chrono` has a date for, which is December 31 of the year 262142.
pub const LAST_DAY: i32 = 95_745_399;

/// Feeds a day to a hasher with the `Hash` of `chrono::NaiveDate`, made by
/// `chrono::NaiveDate::from_num_days_from_ce_opt`, and tells whether `chrono` has a date for it.
/// Where it has none, the hasher is fed nothing. What the hasher makes of a date is its own affair,
/// so nothing is claimed of it.
#[verifier::external_body]
pub(crate) fn feed_date<H: Hasher>(days: i32, state: &mut H) -> (fed: bool)
    ensures
        fed == (FIRST_DAY <= days <= LAST_DAY),
{
    match chrono::NaiveDate::from_num_days_from_ce_opt(days) {
        Some(date) => {
            date.hash(state);
            true
        },
        None => false,
    }
}

/// Calls a function that feeds a hasher.
fn apply<A, R, H: Hasher, F: Fn(A, &mut H) -> R>(f: F, input: A, state: &mut H) -> (result: R)
    requires
        forall|s: &mut H| #[trigger] call_requires(f, (input, s)),
    ensures
        exists|s: &mut H|
            *s == *old(state) && *final(s) == *final(state) && #[trigger] call_ensures(
                f,
                (input, s),
                result,
            ),
{
    f(input, state)
}

/// Feeds a day to a hasher: as the date that `chrono` has for it, or else as its number.
fn feed_day<H: Hasher>(days: i64, state: &mut H)
    ensures
        FIRST_DAY <= days <= LAST_DAY ==> exists|s: &mut H|
            *s == *old(state) && *final(s) == *final(state) && #[trigger] call_ensures(
                feed_date::<H>,
                (days as i32, s),
                true,
            ),
        !(FIRST_DAY <= days <= LAST_DAY) ==> exists|s: &mut H|
            *s == *old(state) && *final(s) == *final(state) && #[trigger] call_ensures(
                feed::<i64, H>,
                (&days, s),
                (),
            ),
{
    if FIRST_DAY as i64 <= days && days <= LAST_DAY as i64 {
        apply(feed_date::<H>, days as i32, state);
    } else {
        apply(feed::<i64, H>, &days, state)
    }
}

/// Feeds a piece to a hasher: what the piece holds, with the `Hash` of its type.
pub(crate) fn feed_piece<H: Hasher>(piece: &Piece, state: &mut H)
    ensures
        match *piece {
            Piece::Variant(v) => exists|s: &mut H|
                    *s == *old(state) && *final(s) == *final(state)
                        && #[trigger] call_ensures(feed::<isize, H>, (&v, s), ()),
            Piece::Length(v) => exists|s: &mut H|
                    *s == *old(state) && *final(s) == *final(state)
                        && #[trigger] call_ensures(feed::<usize, H>, (&v, s), ()),
            Piece::Bool(v) => exists|s: &mut H|
                    *s == *old(state) && *final(s) == *final(state)
                        && #[trigger] call_ensures(feed::<bool, H>, (&v, s), ()),
            Piece::U32(v) => exists|s: &mut H|
                    *s == *old(state) && *final(s) == *final(state)
                        && #[trigger] call_ensures(feed::<u32, H>, (&v, s), ()),
            Piece::U64(v) => exists|s: &mut H|
                    *s == *old(state) && *final(s) == *final(state)
                        && #[trigger] call_ensures(feed::<u64, H>, (&v, s), ()),
            Piece::U128(v) => exists|s: &mut H|
                    *s == *old(state) && *final(s) == *final(state)
                        && #[trigger] call_ensures(feed::<u128, H>, (&v, s), ()),
            Piece::I64(v) => exists|s: &mut H|
                    *s == *old(state) && *final(s) == *final(state)
                        && #[trigger] call_ensures(feed::<i64, H>, (&v, s), ()),
            Piece::I128(v) => exists|s: &mut H|
                    *s == *old(state) && *final(s) == *final(state)
                        && #[trigger] call_ensures(feed::<i128, H>, (&v, s), ()),
            Piece::Text(v) => exists|text: &str, s: &mut H|
                    text@ == v@ && *s == *old(state) && *final(s) == *final(state)
                        && #[trigger] call_ensures(feed::<str, H>, (text, s), ()),
            Piece::Bytes(v) => exists|bytes: &[u8], s: &mut H|
                    bytes@ == v@ && *s == *old(state) && *final(s) == *final(state)
                        && #[trigger] call_ensures(feed::<[u8], H>, (bytes, s), ()),
            Piece::Day(v) if FIRST_DAY <= v <= LAST_DAY => exists|s: &mut H|
                    *s == *old(state) && *final(s) == *final(state)
                        && #[trigger] call_ensures(feed_date::<H>, (v as i32, s), true),
            Piece::Day(v) => exists|s: &mut H|
                    *s == *old(state) && *final(s) == *final(state)
                        && #[trigger] call_ensures(feed::<i64, H>, (&v, s), ()),
        },
{
    match piece {
        Piece::Variant(v) => apply(feed::<isize, H>, v, state),
        Piece::Length(v) => apply(feed::<usize, H>, v, state),
        Piece::Bool(v) => apply(feed::<bool, H>, v, state),
        Piece::U32(v) => apply(feed::<u32, H>, v, state),
        Piece::U64(v) => apply(feed::<u64, H>, v, state),
        Piece::U128(v) => apply(feed::<u128, H>, v, state),
        Piece::I64(v) => apply(feed::<i64, H>, v, state),
        Piece::I128(v) => apply(feed::<i128, H>, v, state),
        Piece::Text(v) => apply(feed::<str, H>, v.as_str(), state),
        Piece::Bytes(v) => apply(feed::<[u8], H>, v.as_slice(), state),
        Piece::Day(v) => feed_day(*v, state),
    }
}

/// Whether feeding a piece to a hasher can be what turns the state that `s` has into the one that
/// it has in the end.
pub closed spec fn feeds<H: Hasher>(piece: &Piece, s: &mut H) -> bool {
    call_ensures(feed_piece::<H>, (piece, s), ())
}

/// A hasher is fed a piece with the `Hash` of what the piece holds: of the number, truth value,
/// string or slice of bytes, or of the date of a day that `chrono` has a date for.
pub(crate) proof fn law_feeding_a_piece<H: Hasher>(piece: &Piece, s: &mut H)
    requires
        feeds::<H>(piece, s),
    ensures
        match *piece {
            Piece::Variant(v) => exists|r: &mut H|
                    *r == *old(s) && *final(r) == *final(s)
                        && #[trigger] call_ensures(feed::<isize, H>, (&v, r), ()),
            Piece::Length(v) => exists|r: &mut H|
                    *r == *old(s) && *final(r) == *final(s)
                        && #[trigger] call_ensures(feed::<usize, H>, (&v, r), ()),
            Piece::Bool(v) => exists|r: &mut H|
                    *r == *old(s) && *final(r) == *final(s)
                        && #[trigger] call_ensures(feed::<bool, H>, (&v, r), ()),
            Piece::U32(v) => exists|r: &mut H|
                    *r == *old(s) && *final(r) == *final(s)
                        && #[trigger] call_ensures(feed::<u32, H>, (&v, r), ()),
            Piece::U64(v) => exists|r: &mut H|
                    *r == *old(s) && *final(r) == *final(s)
                        && #[trigger] call_ensures(feed::<u64, H>, (&v, r), ()),
            Piece::U128(v) => exists|r: &mut H|
                    *r == *old(s) && *final(r) == *final(s)
                        && #[trigger] call_ensures(feed::<u128, H>, (&v, r), ()),
            Piece::I64(v) => exists|r: &mut H|
                    *r == *old(s) && *final(r) == *final(s)
                        && #[trigger] call_ensures(feed::<i64, H>, (&v, r), ()),
            Piece::I128(v) => exists|r: &mut H|
                    *r == *old(s) && *final(r) == *final(s)
                        && #[trigger] call_ensures(feed::<i128, H>, (&v, r), ()),
            Piece::Text(v) => exists|text: &str, r: &mut H|
                    text@ == v@ && *r == *old(s) && *final(r) == *final(s)
                        && #[trigger] call_ensures(feed::<str, H>, (text, r), ()),
            Piece::Bytes(v) => exists|bytes: &[u8], r: &mut H|
                    bytes@ == v@ && *r == *old(s) && *final(r) == *final(s)
                        && #[trigger] call_ensures(feed::<[u8], H>, (bytes, r), ()),
            Piece::Day(v) if FIRST_DAY <= v <= LAST_DAY => exists|r: &mut H|
                    *r == *old(s) && *final(r) == *final(s)
                        && #[trigger] call_ensures(feed_date::<H>, (v as i32, r), true),
            Piece::Day(v) => exists|r: &mut H|
                    *r == *old(s) && *final(r) == *final(s)
                        && #[trigger] call_ensures(feed::<i64, H>, (&v, r), ()),
        },
{
}

/// Whether the states are those before, between and behind the pieces, by steps that relate the
/// states before and behind a piece.
pub open spec fn is_trace<H>(
    step: spec_fn(PieceView, H, H) -> bool,
    pieces: Seq<PieceView>,
    states: Seq<H>,
) -> bool {
    &&& states.len() == pieces.len() + 1
    &&& forall|i: int|
        0 <= i < pieces.len() ==> step(#[trigger] pieces[i], states[i], states[i + 1])
}

/// Whether pieces lead from one state to another, each by a step and none left out.
pub open spec fn leads<H>(
    step: spec_fn(PieceView, H, H) -> bool,
    pieces: Seq<PieceView>,
    before: H,
    after: H,
) -> bool {
    exists|states: Seq<H>| #[trigger]
        is_trace(step, pieces, states) && states.first() == before && states.last() == after
}

/// A step more leads on by one piece.
proof fn lemma_leads_on<H>(
    step: spec_fn(PieceView, H, H) -> bool,
    pieces: Seq<PieceView>,
    piece: PieceView,
    before: H,
    between: H,
    after: H,
)
    requires
        leads(step, pieces, before, between),
        step(piece, between, after),
    ensures
        leads(step, pieces.push(piece), before, after),
{
    let states = choose|states: Seq<H>| #[trigger]
        is_trace(step, pieces, states) && states.first() == before && states.last() == between;
    let more = states.push(after);
    assert forall|i: int| 0 <= i < pieces.push(piece).len() implies step(
        #[trigger] pieces.push(piece)[i],
        more[i],
        more[i + 1],
    ) by {
        if i < pieces.len() {
            assert(step(pieces[i], states[i], states[i + 1]));
        }
    }
    assert(is_trace(step, pieces.push(piece), more));
}

/// Feeds pieces to a hasher, one after the other.
fn feed_pieces<H: Hasher>(pieces: &[Piece], state: &mut H)
    ensures
        forall|step: spec_fn(PieceView, H, H) -> bool|
            (forall|piece: &Piece, s: &mut H| #[trigger]
                feeds::<H>(piece, s) ==> step(piece@, *s, *final(s)))
                ==> #[trigger] leads(step, views(pieces@), *old(state), *final(state)),
{
    let mut i: usize = 0;
    proof {
        assert forall|step: spec_fn(PieceView, H, H) -> bool| #[trigger]
            leads(step, views(pieces@.take(0)), *old(state), *state) by {
            assert(is_trace(step, views(pieces@.take(0)), seq![*state]));
        }
    }
    while i < pieces.len()
        invariant
            i <= pieces@.len(),
            forall|step: spec_fn(PieceView, H, H) -> bool|
                (forall|piece: &Piece, s: &mut H| #[trigger]
                    feeds::<H>(piece, s) ==> step(piece@, *s, *final(s)))
                    ==> #[trigger] leads(step, views(pieces@.take(i as int)), *old(state), *state),
        decreases pieces@.len() - i,
    {
        let ghost between = *state;
        apply(feed_piece::<H>, &pieces[i], state);
        i += 1;
        proof {
            let piece = &pieces@[i - 1];
            let fed = views(pieces@.take(i - 1));
            assert(views(pieces@.take(i as int)) =~= fed.push(piece@));
            let s = choose|s: &mut H|
                *s == between && *final(s) == *state && #[trigger] call_ensures(
                    feed_piece::<H>,
                    (piece, s),
                    (),
                );
            assert(feeds::<H>(piece, s));
            assert forall|step: spec_fn(PieceView, H, H) -> bool|
                (forall|piece: &Piece, s: &mut H| #[trigger]
                    feeds::<H>(piece, s) ==> step(piece@, *s, *final(s)))
                implies #[trigger] leads(
                step,
                views(pieces@.take(i as int)),
                *old(state),
                *state,
            ) by {
                assert(leads(step, fed, *old(state), between));
                lemma_leads_on(step, fed, piece@, *old(state), between, *state);
            }
        }
    }
    assert(pieces@.take(i as int) =~= pieces@);
}

/// Equal records lead a hasher from one state to the same states, whatever its steps are.
pub proof fn law_equal_records_feed_alike<H>(
    step: spec_fn(PieceView, H, H) -> bool,
    a: RecordRef,
    b: RecordRef,
    before: H,
    after: H,
)
    requires
        a@.len() == b@.len(),
        forall|i: int| 0 <= i < a@.len() ==> field::same_value(#[trigger] a@[i], b@[i]),
    ensures
        leads(step, record_pieces(a@), before, after) <==> leads(
            step,
            record_pieces(b@),
            before,
            after,
        ),
{
    law_equal_records_same_pieces(a@, b@);
}

/// Pieces lead from one state to another one step at a time: no pieces lead nowhere else, and one
/// piece more is one step more.
pub proof fn law_leads<H>(
    step: spec_fn(PieceView, H, H) -> bool,
    pieces: Seq<PieceView>,
    piece: PieceView,
    before: H,
    after: H,
)
    ensures
        leads(step, Seq::empty(), before, after) <==> before == after,
        leads(step, pieces.push(piece), before, after) <==> exists|between: H| #[trigger]
            leads(step, pieces, before, between) && step(piece, between, after),
{
    if before == after {
        assert(is_trace(step, Seq::empty(), seq![before]));
    }
    if leads(step, pieces.push(piece), before, after) {
        let more = pieces.push(piece);
        let states = choose|states: Seq<H>| #[trigger]
            is_trace(step, more, states) && states.first() == before && states.last() == after;
        let between = states[pieces.len() as int];
        assert forall|i: int| 0 <= i < pieces.len() implies step(
            #[trigger] pieces[i],
            states.drop_last()[i],
            states.drop_last()[i + 1],
        ) by {
            assert(step(more[i], states[i], states[i + 1]));
        }
        assert(is_trace(step, pieces, states.drop_last()));
        assert(step(more[pieces.len() as int], between, after));
        assert(leads(step, pieces, before, between));
    }
    if exists|between: H| #[trigger]
        leads(step, pieces, before, between) && step(piece, between, after) {
        let between = choose|between: H| #[trigger]
            leads(step, pieces, before, between) && step(piece, between, after);
        lemma_leads_on(step, pieces, piece, before, between, after);
    }
}

impl Hash for FieldRef<'_> {
    fn hash<H: Hasher>(&self, state: &mut H)
        ensures
            forall|step: spec_fn(PieceView, H, H) -> bool|
                (forall|piece: &Piece, s: &mut H| #[trigger]
                    feeds::<H>(piece, s) ==> step(piece@, *s, *final(s)))
                    ==> #[trigger] leads(step, value_pieces(self@), *old(state), *final(state)),
    {
        feed_pieces(self.hash_pieces().as_slice(), state)
    }
}

impl Hash for RecordRef {
    fn hash<H: Hasher>(&self, state: &mut H)
        ensures
            forall|step: spec_fn(PieceView, H, H) -> bool|
                (forall|piece: &Piece, s: &mut H| #[trigger]
                    feeds::<H>(piece, s) ==> step(piece@, *s, *final(s)))
                    ==> #[trigger] leads(step, record_pieces(self@), *old(state), *final(state)),
    {
        feed_pieces(self.hash_pieces().as_slice(), state)
    }
}

impl Hash for ProcessorRecord {
    fn hash<H: Hasher>(&self, state: &mut H)
        ensures
            forall|step: spec_fn(PieceView, H, H) -> bool|
                (forall|piece: &Piece, s: &mut H| #[trigger]
                    feeds::<H>(piece, s) ==> step(piece@, *s, *final(s)))
                    ==> #[trigger] leads(step, processor_record_pieces(*self), *old(state), *final(state)),
    {
        feed_pieces(self.hash_pieces().as_slice(), state)
    }
}

} // verus!
