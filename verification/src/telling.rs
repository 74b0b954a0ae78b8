//! How far a hasher can tell values apart.
//!
//! What a hasher is fed for a value determines the value up to equality. Numbers with a floating
//! point are the exception: a NaN and some other number have one word, and so have numbers whose
//! exponent bits are zero.

use crate::decimal;
use crate::field;
use crate::field::FieldValue;
use crate::float;
use crate::float::Float64;
use crate::hashing;
use crate::hashing::PieceView;
use crate::json;
use crate::json::JsonView;
use crate::processor;
use crate::processor::ProcessorRecord;
use crate::record::RecordRef;
use crate::time;
use vstd::prelude::*;

verus! {

/// Whether a number has a word that no unequal number of this sort has: it is no NaN, and its
/// exponent bits are not zero unless it is.
pub open spec fn sharp_float(value: Float64) -> bool {
    let magnitude = value.bits % 0x8000_0000_0000_0000;
    magnitude == 0 || 0x10_0000_0000_0000 <= magnitude <= 0x7ff0_0000_0000_0000
}

/// Whether all numbers in a JSON value are sharp.
pub open spec fn sharp_json(value: JsonView) -> bool
    decreases value,
{
    match value {
        JsonView::Number(n) => sharp_float(n),
        JsonView::Array(items) => forall|i: int|
            0 <= i < items.len() ==> sharp_json(#[trigger] items[i]),
        JsonView::Object(members) => forall|i: int|
            0 <= i < members.len() ==> sharp_json((#[trigger] members[i]).1),
        _ => true,
    }
}

/// Whether all numbers with a floating point in a field are sharp, and a decimal has a scale that
/// decimals can have.
pub open spec fn sharp_value(value: FieldValue) -> bool {
    match value {
        FieldValue::Float(v) => sharp_float(v),
        FieldValue::Point(v) => sharp_float(v.x) && sharp_float(v.y),
        FieldValue::Json(v) => sharp_json(v),
        FieldValue::Decimal(v) => v.scale <= decimal::MAX_SCALE,
        _ => true,
    }
}

/// Whether all fields of a record are sharp.
pub open spec fn sharp_values(values: Seq<FieldValue>) -> bool {
    forall|i: int| 0 <= i < values.len() ==> sharp_value(#[trigger] values[i])
}

/// Sharp numbers with one word are equal.
pub proof fn law_word_tells_floats_apart(a: Float64, b: Float64)
    requires
        sharp_float(a),
        sharp_float(b),
        float::float_word(a) == float::float_word(b),
    ensures
        float::same_float(a, b),
{
}

/// JSON values at the start of the same pieces are equal, and what follows them is the same.
#[verifier::rlimit(40)]
#[verifier::spinoff_prover]
proof fn lemma_json_first(a: JsonView, b: JsonView, s: Seq<PieceView>, t: Seq<PieceView>)
    requires
        sharp_json(a),
        sharp_json(b),
        hashing::json_pieces(a) + s == hashing::json_pieces(b) + t,
    ensures
        json::same_json(a, b),
        s == t,
    decreases a, 0nat,
{
    let x = hashing::json_pieces(a);
    let y = hashing::json_pieces(b);
    assert((x + s)[0] == x[0]);
    assert((y + t)[0] == y[0]);
    match (a, b) {
        (JsonView::Array(v), JsonView::Array(w)) => {
            assert((x + s)[1] == x[1]);
            assert((y + t)[1] == y[1]);
            assert(v.len() == w.len());
            assert((x + s).skip(2) =~= hashing::items_pieces(v, v.len()) + s);
            assert((y + t).skip(2) =~= hashing::items_pieces(w, w.len()) + t);
            lemma_items_first(v, w, v.len(), s, t);
        },
        (JsonView::Object(v), JsonView::Object(w)) => {
            assert((x + s)[1] == x[1]);
            assert((y + t)[1] == y[1]);
            assert(v.len() == w.len());
            assert((x + s).skip(2) =~= hashing::members_pieces(v, v.len()) + s);
            assert((y + t).skip(2) =~= hashing::members_pieces(w, w.len()) + t);
            lemma_members_first(v, w, v.len(), s, t);
        },
        (JsonView::Null, JsonView::Null) => {
            lemma_rest(x, y, s, t);
        },
        _ => {
            assert((x + s)[1] == x[1] || x.len() == 1);
            assert((y + t)[1] == y[1] || y.len() == 1);
            lemma_rest(x, y, s, t);
            if let (JsonView::Number(v), JsonView::Number(w)) = (a, b) {
                law_word_tells_floats_apart(v, w);
            }
        },
    }
}

/// Behind equally many pieces the rest is the same.
proof fn lemma_rest(x: Seq<PieceView>, y: Seq<PieceView>, s: Seq<PieceView>, t: Seq<PieceView>)
    requires
        x + s == y + t,
        x.len() == y.len(),
    ensures
        x == y,
        s == t,
{
    assert((x + s).take(x.len() as int) =~= x);
    assert((y + t).take(y.len() as int) =~= y);
    assert((x + s).skip(x.len() as int) =~= s);
    assert((y + t).skip(y.len() as int) =~= t);
}

proof fn lemma_items_first(
    x: Seq<JsonView>,
    y: Seq<JsonView>,
    n: nat,
    s: Seq<PieceView>,
    t: Seq<PieceView>,
)
    requires
        n <= x.len() == y.len(),
        forall|i: int| 0 <= i < x.len() ==> sharp_json(#[trigger] x[i]),
        forall|i: int| 0 <= i < y.len() ==> sharp_json(#[trigger] y[i]),
        hashing::items_pieces(x, n) + s == hashing::items_pieces(y, n) + t,
    ensures
        forall|i: int| 0 <= i < n ==> json::same_json(#[trigger] x[i], y[i]),
        s == t,
    decreases x, n,
{
    if n == 0 {
        assert(hashing::items_pieces(x, n) + s =~= s);
        assert(hashing::items_pieces(y, n) + t =~= t);
    } else {
        let m = (n - 1) as nat;
        let (v, w) = (hashing::json_pieces(x[n - 1]), hashing::json_pieces(y[n - 1]));
        assert(hashing::items_pieces(x, n) + s =~= hashing::items_pieces(x, m) + (v + s));
        assert(hashing::items_pieces(y, n) + t =~= hashing::items_pieces(y, m) + (w + t));
        lemma_items_first(x, y, m, v + s, w + t);
        lemma_json_first(x[n - 1], y[n - 1], s, t);
    }
}

proof fn lemma_members_first(
    x: Seq<(Seq<char>, JsonView)>,
    y: Seq<(Seq<char>, JsonView)>,
    n: nat,
    s: Seq<PieceView>,
    t: Seq<PieceView>,
)
    requires
        n <= x.len() == y.len(),
        forall|i: int| 0 <= i < x.len() ==> sharp_json((#[trigger] x[i]).1),
        forall|i: int| 0 <= i < y.len() ==> sharp_json((#[trigger] y[i]).1),
        hashing::members_pieces(x, n) + s == hashing::members_pieces(y, n) + t,
    ensures
        forall|i: int|
            0 <= i < n ==> (#[trigger] x[i]).0 == y[i].0 && json::same_json(x[i].1, y[i].1),
        s == t,
    decreases x, n,
{
    if n == 0 {
        assert(hashing::members_pieces(x, n) + s =~= s);
        assert(hashing::members_pieces(y, n) + t =~= t);
    } else {
        let m = (n - 1) as nat;
        let (j, k) = (seq![PieceView::Text(x[n - 1].0)], seq![PieceView::Text(y[n - 1].0)]);
        let (v, w) = (hashing::json_pieces(x[n - 1].1), hashing::json_pieces(y[n - 1].1));
        assert(hashing::members_pieces(x, n) + s =~= hashing::members_pieces(x, m) + (j + (v + s)));
        assert(hashing::members_pieces(y, n) + t =~= hashing::members_pieces(y, m) + (k + (w + t)));
        lemma_members_first(x, y, m, j + (v + s), k + (w + t));
        lemma_rest(j, k, v + s, w + t);
        assert(j[0] == k[0]);
        lemma_json_first(x[n - 1].1, y[n - 1].1, s, t);
    }
}

/// Timestamps with the same pieces are the same instant.
proof fn lemma_instant(a: time::Timestamp, b: time::Timestamp)
    requires
        hashing::instant_pieces(a) == hashing::instant_pieces(b),
    ensures
        time::same_instant(a, b),
{
    let (x, y) = (hashing::instant_pieces(a), hashing::instant_pieces(b));
    assert(x[0] == y[0]);
    assert(x[1] == y[1]);
    assert(x[2] == y[2]);
}

/// Decimals in normal form with the same pieces are the same.
proof fn lemma_normal(a: decimal::DecimalView, b: decimal::DecimalView)
    requires
        a.is_normal(),
        b.is_normal(),
        hashing::normal_pieces(a) == hashing::normal_pieces(b),
    ensures
        a == b,
{
    let (x, y) = (hashing::normal_pieces(a), hashing::normal_pieces(b));
    assert(x[0] == y[0]);
    assert(x[1] == y[1]);
    assert(x[2] == y[2]);
    assert(x[3] == y[3]);
}

/// The number of a field's variant.
spec fn variant_number(value: FieldValue) -> int {
    match value {
        FieldValue::UInt(_) => 0,
        FieldValue::U128(_) => 1,
        FieldValue::Int(_) => 2,
        FieldValue::I128(_) => 3,
        FieldValue::Float(_) => 4,
        FieldValue::Boolean(_) => 5,
        FieldValue::String(_) => 6,
        FieldValue::Text(_) => 7,
        FieldValue::Binary(_) => 8,
        FieldValue::Decimal(_) => 9,
        FieldValue::Timestamp(_) => 10,
        FieldValue::Date(_) => 11,
        FieldValue::Json(_) => 12,
        FieldValue::Point(_) => 13,
        FieldValue::Duration(_) => 14,
        FieldValue::Null => 15,
    }
}

/// The pieces of a field start with the number of its variant, and there are as many as the variant
/// has, but for JSON values.
proof fn lemma_head(value: FieldValue)
    ensures
        hashing::value_pieces(value).len() > 0,
        hashing::value_pieces(value)[0] == PieceView::Variant(variant_number(value)),
        match value {
            FieldValue::Json(_) => true,
            FieldValue::Decimal(_) => hashing::value_pieces(value).len() == 5,
            FieldValue::Timestamp(_) => hashing::value_pieces(value).len() == 4,
            FieldValue::Duration(_) => hashing::value_pieces(value).len() == 4,
            FieldValue::Point(_) => hashing::value_pieces(value).len() == 3,
            FieldValue::Null => hashing::value_pieces(value).len() == 1,
            _ => hashing::value_pieces(value).len() == 2,
        },
{
}

/// Fields of one variant with the same pieces are equal.
#[verifier::rlimit(40)]
#[verifier::spinoff_prover]
proof fn lemma_same_pieces(a: FieldValue, b: FieldValue)
    requires
        sharp_value(a),
        sharp_value(b),
        !(a is Json),
        variant_number(a) == variant_number(b),
        hashing::value_pieces(a) == hashing::value_pieces(b),
    ensures
        field::same_value(a, b),
{
    let x = hashing::value_pieces(a);
    let y = hashing::value_pieces(b);
    match (a, b) {
        (FieldValue::UInt(v), FieldValue::UInt(w)) => {
            assert(x[1] == y[1]);
        },
        (FieldValue::U128(v), FieldValue::U128(w)) => {
            assert(x[1] == y[1]);
        },
        (FieldValue::Int(v), FieldValue::Int(w)) => {
            assert(x[1] == y[1]);
        },
        (FieldValue::I128(v), FieldValue::I128(w)) => {
            assert(x[1] == y[1]);
        },
        (FieldValue::Boolean(v), FieldValue::Boolean(w)) => {
            assert(x[1] == y[1]);
        },
        (FieldValue::String(v), FieldValue::String(w)) => {
            assert(x[1] == y[1]);
        },
        (FieldValue::Text(v), FieldValue::Text(w)) => {
            assert(x[1] == y[1]);
        },
        (FieldValue::Binary(v), FieldValue::Binary(w)) => {
            assert(x[1] == y[1]);
        },
        (FieldValue::Date(v), FieldValue::Date(w)) => {
            assert(x[1] == y[1]);
        },
        (FieldValue::Decimal(v), FieldValue::Decimal(w)) => {
            decimal::law_normal_form_exists(v);
            decimal::law_normal_form_exists(w);
            assert(x.skip(1) =~= hashing::normal_pieces(v.normal_form()));
            assert(y.skip(1) =~= hashing::normal_pieces(w.normal_form()));
            lemma_normal(v.normal_form(), w.normal_form());
            decimal::law_normal_form(v, w);
        },
        (FieldValue::Timestamp(v), FieldValue::Timestamp(w)) => {
            assert(x.skip(1) =~= hashing::instant_pieces(v));
            assert(y.skip(1) =~= hashing::instant_pieces(w));
            lemma_instant(v, w);
        },
        (FieldValue::Float(v), FieldValue::Float(w)) => {
            assert(x[1] == y[1]);
            law_word_tells_floats_apart(v, w);
        },
        (FieldValue::Point(v), FieldValue::Point(w)) => {
            assert(x[1] == y[1]);
            assert(x[2] == y[2]);
            law_word_tells_floats_apart(v.x, w.x);
            law_word_tells_floats_apart(v.y, w.y);
        },
        (FieldValue::Duration(v), FieldValue::Duration(w)) => {
            assert(x[1] == y[1]);
            assert(x[2] == y[2]);
            assert(x[3] == y[3]);
        },
        _ => {},
    }
}

/// Fields at the start of the same pieces are equal, and what follows them is the same.
#[verifier::rlimit(40)]
#[verifier::spinoff_prover]
proof fn lemma_value_first(a: FieldValue, b: FieldValue, s: Seq<PieceView>, t: Seq<PieceView>)
    requires
        sharp_value(a),
        sharp_value(b),
        hashing::value_pieces(a) + s == hashing::value_pieces(b) + t,
    ensures
        field::same_value(a, b),
        s == t,
{
    let x = hashing::value_pieces(a);
    let y = hashing::value_pieces(b);
    lemma_head(a);
    lemma_head(b);
    assert((x + s)[0] == x[0]);
    assert((y + t)[0] == y[0]);
    assert(variant_number(a) == variant_number(b));
    if let (FieldValue::Json(v), FieldValue::Json(w)) = (a, b) {
        assert((x + s).skip(1) =~= hashing::json_pieces(v) + s);
        assert((y + t).skip(1) =~= hashing::json_pieces(w) + t);
        lemma_json_first(v, w, s, t);
    } else {
        assert(x.len() == y.len());
        lemma_rest(x, y, s, t);
        lemma_same_pieces(a, b);
    }
}

proof fn lemma_values_first(
    a: Seq<FieldValue>,
    b: Seq<FieldValue>,
    n: nat,
    s: Seq<PieceView>,
    t: Seq<PieceView>,
)
    requires
        n <= a.len(),
        n <= b.len(),
        sharp_values(a),
        sharp_values(b),
        hashing::values_pieces(a, n) + s == hashing::values_pieces(b, n) + t,
    ensures
        forall|i: int| 0 <= i < n ==> field::same_value(#[trigger] a[i], b[i]),
        s == t,
    decreases n,
{
    if n == 0 {
        assert(hashing::values_pieces(a, n) + s =~= s);
        assert(hashing::values_pieces(b, n) + t =~= t);
    } else {
        let m = (n - 1) as nat;
        let (v, w) = (hashing::value_pieces(a[n - 1]), hashing::value_pieces(b[n - 1]));
        assert(hashing::values_pieces(a, n) + s =~= hashing::values_pieces(a, m) + (v + s));
        assert(hashing::values_pieces(b, n) + t =~= hashing::values_pieces(b, m) + (w + t));
        lemma_values_first(a, b, m, v + s, w + t);
        lemma_value_first(a[n - 1], b[n - 1], s, t);
    }
}

/// Records at the start of the same pieces are equal, and what follows them is the same.
proof fn lemma_record_first(
    a: Seq<FieldValue>,
    b: Seq<FieldValue>,
    s: Seq<PieceView>,
    t: Seq<PieceView>,
)
    requires
        sharp_values(a),
        sharp_values(b),
        hashing::record_pieces(a) + s == hashing::record_pieces(b) + t,
    ensures
        field::same_values(a, b),
        s == t,
{
    let x = hashing::record_pieces(a);
    let y = hashing::record_pieces(b);
    assert((x + s)[0] == x[0]);
    assert((y + t)[0] == y[0]);
    assert((x + s).skip(1) =~= hashing::values_pieces(a, a.len()) + s);
    assert((y + t).skip(1) =~= hashing::values_pieces(b, b.len()) + t);
    lemma_values_first(a, b, a.len(), s, t);
}

proof fn lemma_records_first(
    a: Seq<RecordRef>,
    b: Seq<RecordRef>,
    n: nat,
    s: Seq<PieceView>,
    t: Seq<PieceView>,
)
    requires
        n <= a.len(),
        n <= b.len(),
        forall|i: int| 0 <= i < a.len() ==> sharp_values((#[trigger] a[i])@),
        forall|i: int| 0 <= i < b.len() ==> sharp_values((#[trigger] b[i])@),
        hashing::records_pieces(a, n) + s == hashing::records_pieces(b, n) + t,
    ensures
        forall|i: int| 0 <= i < n ==> field::same_values((#[trigger] a[i])@, b[i]@),
        s == t,
    decreases n,
{
    if n == 0 {
        assert(hashing::records_pieces(a, n) + s =~= s);
        assert(hashing::records_pieces(b, n) + t =~= t);
    } else {
        let m = (n - 1) as nat;
        let (v, w) = (hashing::record_pieces(a[n - 1]@), hashing::record_pieces(b[n - 1]@));
        assert(hashing::records_pieces(a, n) + s =~= hashing::records_pieces(a, m) + (v + s));
        assert(hashing::records_pieces(b, n) + t =~= hashing::records_pieces(b, m) + (w + t));
        lemma_records_first(a, b, m, v + s, w + t);
        lemma_record_first(a[n - 1]@, b[n - 1]@, s, t);
    }
}

/// Fields with the same pieces are of one type.
pub proof fn law_pieces_tell_types_apart(a: FieldValue, b: FieldValue)
    requires
        hashing::value_pieces(a) == hashing::value_pieces(b),
    ensures
        a.ty() == b.ty(),
{
    lemma_head(a);
    lemma_head(b);
}

/// Sharp fields have the same pieces exactly when they are equal.
pub proof fn law_pieces_tell_fields_apart(a: FieldValue, b: FieldValue)
    requires
        sharp_value(a),
        sharp_value(b),
    ensures
        hashing::value_pieces(a) == hashing::value_pieces(b) <==> field::same_value(a, b),
{
    if hashing::value_pieces(a) == hashing::value_pieces(b) {
        lemma_value_first(a, b, Seq::empty(), Seq::empty());
    }
    if field::same_value(a, b) {
        hashing::law_equal_fields_same_pieces(a, b);
    }
}

/// Records with sharp fields have the same pieces exactly when they are equal.
pub proof fn law_pieces_tell_records_apart(a: Seq<FieldValue>, b: Seq<FieldValue>)
    requires
        sharp_values(a),
        sharp_values(b),
    ensures
        hashing::record_pieces(a) == hashing::record_pieces(b) <==> {
            &&& a.len() == b.len()
            &&& forall|i: int| 0 <= i < a.len() ==> field::same_value(#[trigger] a[i], b[i])
        },
{
    if hashing::record_pieces(a) == hashing::record_pieces(b) {
        lemma_record_first(a, b, Seq::empty(), Seq::empty());
    }
    if field::same_values(a, b) {
        hashing::law_equal_records_same_pieces(a, b);
    }
}

/// Processor records with sharp fields have the same pieces exactly when they have equally many
/// lists, each list equals the one at its place in the other, and the lifetimes are equal.
pub proof fn law_pieces_tell_processor_records_apart(a: ProcessorRecord, b: ProcessorRecord)
    requires
        forall|i: int| 0 <= i < a.records().len() ==> sharp_values((#[trigger] a.records()[i])@),
        forall|i: int| 0 <= i < b.records().len() ==> sharp_values((#[trigger] b.records()[i])@),
    ensures
        hashing::processor_record_pieces(a) == hashing::processor_record_pieces(b) <==> {
            &&& a.records().len() == b.records().len()
            &&& forall|i: int|
                0 <= i < a.records().len() ==> field::same_values(
                    (#[trigger] a.records()[i])@,
                    b.records()[i]@,
                )
            &&& processor::same_lifetimes(a.lifetime(), b.lifetime())
        },
{
    let x = hashing::processor_record_pieces(a);
    let y = hashing::processor_record_pieces(b);
    let (v, w) = (hashing::lifetime_pieces(a.lifetime()), hashing::lifetime_pieces(b.lifetime()));
    if x == y {
        assert(x[0] == y[0]);
        let n = a.records().len();
        assert(x.skip(1) =~= hashing::records_pieces(a.records(), n) + v);
        assert(y.skip(1) =~= hashing::records_pieces(b.records(), n) + w);
        lemma_records_first(a.records(), b.records(), n, v, w);
        assert(v[0] == w[0]);
        if let (Some(l), Some(m)) = (a.lifetime(), b.lifetime()) {
            assert(v.subrange(1, 4) =~= hashing::instant_pieces(l.reference));
            assert(w.subrange(1, 4) =~= hashing::instant_pieces(m.reference));
            lemma_instant(l.reference, m.reference);
            assert(v[4] == w[4]);
            assert(v[5] == w[5]);
        }
    }
    if processor::same_record(a, b) {
        hashing::law_equal_processor_records_same_pieces(a, b);
    }
}

} // verus!
