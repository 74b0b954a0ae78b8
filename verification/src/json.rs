//! JSON values.

use crate::float::Float64;
use vstd::prelude::*;

verus! {

/// A JSON value.
///
/// The members of an object are a list, and two objects are equal when the lists are. Objects whose
/// members are sorted by key, with each key once, are thereby compared as maps.
#[derive(Debug)]
pub enum JsonValue {
    Null,
    Bool(bool),
    Number(Float64),
    String(String),
    Array(Vec<JsonValue>),
    Object(Vec<(String, JsonValue)>),
}

/// What a [`JsonValue`] holds.
pub enum JsonView {
    Null,
    Bool(bool),
    Number(Float64),
    String(Seq<char>),
    Array(Seq<JsonView>),
    Object(Seq<(Seq<char>, JsonView)>),
}

/// The contents of a JSON value.
pub open spec fn json_view(value: JsonValue) -> JsonView
    decreases value,
{
    match value {
        JsonValue::Null => JsonView::Null,
        JsonValue::Bool(b) => JsonView::Bool(b),
        JsonValue::Number(n) => JsonView::Number(n),
        JsonValue::String(s) => JsonView::String(s@),
        JsonValue::Array(items) => JsonView::Array(
            Seq::new(
                items@.len(),
                |i: int|
                    if 0 <= i < items@.len() {
                        json_view(items@[i])
                    } else {
                        JsonView::Null
                    },
            ),
        ),
        JsonValue::Object(members) => JsonView::Object(
            Seq::new(
                members@.len(),
                |i: int|
                    if 0 <= i < members@.len() {
                        (members@[i].0@, json_view(members@[i].1))
                    } else {
                        (Seq::empty(), JsonView::Null)
                    },
            ),
        ),
    }
}

impl View for JsonValue {
    type V = JsonView;

    open spec fn view(&self) -> JsonView {
        json_view(*self)
    }
}

/// Whether two JSON values are equal: the same shape, with numbers compared as numbers.
pub open spec fn same_json(a: JsonView, b: JsonView) -> bool
    decreases a,
{
    match (a, b) {
        (JsonView::Null, JsonView::Null) => true,
        (JsonView::Bool(x), JsonView::Bool(y)) => x == y,
        (JsonView::Number(x), JsonView::Number(y)) => crate::float::same_float(x, y),
        (JsonView::String(x), JsonView::String(y)) => x == y,
        (JsonView::Array(x), JsonView::Array(y)) => {
            &&& x.len() == y.len()
            &&& forall|i: int| 0 <= i < x.len() ==> same_json(#[trigger] x[i], y[i])
        },
        (JsonView::Object(x), JsonView::Object(y)) => {
            &&& x.len() == y.len()
            &&& forall|i: int|
                0 <= i < x.len() ==> (#[trigger] x[i]).0 == y[i].0 && same_json(x[i].1, y[i].1)
        },
        _ => false,
    }
}

impl JsonValue {
    /// A value with the same contents.
    fn duplicate(&self) -> (copy: JsonValue)
        ensures
            copy@ == self@,
        decreases self,
    {
        match self {
            JsonValue::Null => JsonValue::Null,
            JsonValue::Bool(b) => JsonValue::Bool(*b),
            JsonValue::Number(n) => JsonValue::Number(*n),
            JsonValue::String(s) => JsonValue::String(s.clone()),
            JsonValue::Array(items) => {
                let mut copies: Vec<JsonValue> = Vec::new();
                let mut i: usize = 0;
                while i < items.len()
                    invariant
                        self matches JsonValue::Array(all) && all == items,
                        i <= items@.len(),
                        copies@.len() == i,
                        forall|j: int| 0 <= j < i ==> (#[trigger] copies@[j])@ == items@[j]@,
                    decreases items@.len() - i,
                {
                    copies.push(items[i].duplicate());
                    i += 1;
                }
                let copy = JsonValue::Array(copies);
                assert(copy@->Array_0 =~= self@->Array_0);
                copy
            },
            JsonValue::Object(members) => {
                let mut copies: Vec<(String, JsonValue)> = Vec::new();
                let mut i: usize = 0;
                while i < members.len()
                    invariant
                        self matches JsonValue::Object(all) && all == members,
                        i <= members@.len(),
                        copies@.len() == i,
                        forall|j: int|
                            0 <= j < i ==> (#[trigger] copies@[j]).0@ == members@[j].0@
                                && copies@[j].1@ == members@[j].1@,
                    decreases members@.len() - i,
                {
                    copies.push((members[i].0.clone(), members[i].1.duplicate()));
                    i += 1;
                }
                let copy = JsonValue::Object(copies);
                assert(copy@->Object_0 =~= self@->Object_0);
                copy
            },
        }
    }

    /// Whether the two values are equal.
    fn same(&self, other: &JsonValue) -> (equal: bool)
        ensures
            equal == same_json(self@, other@),
        decreases self,
    {
        match (self, other) {
            (JsonValue::Null, JsonValue::Null) => true,
            (JsonValue::Bool(x), JsonValue::Bool(y)) => *x == *y,
            (JsonValue::Number(x), JsonValue::Number(y)) => *x == *y,
            (JsonValue::String(x), JsonValue::String(y)) => *x == *y,
            (JsonValue::Array(x), JsonValue::Array(y)) => {
                if x.len() != y.len() {
                    return false;
                }
                let mut i: usize = 0;
                while i < x.len()
                    invariant
                        self matches JsonValue::Array(all) && all == x,
                        other matches JsonValue::Array(all) && all == y,
                        i <= x@.len() == y@.len(),
                        forall|j: int| 0 <= j < i ==> same_json((#[trigger] x@[j])@, y@[j]@),
                    decreases x@.len() - i,
                {
                    if !x[i].same(&y[i]) {
                        assert(!same_json(self@->Array_0[i as int], other@->Array_0[i as int]));
                        return false;
                    }
                    i += 1;
                }
                assert(forall|j: int|
                    0 <= j < x@.len() ==> #[trigger] self@->Array_0[j] == x@[j]@);
                true
            },
            (JsonValue::Object(x), JsonValue::Object(y)) => {
                if x.len() != y.len() {
                    return false;
                }
                let mut i: usize = 0;
                while i < x.len()
                    invariant
                        self matches JsonValue::Object(all) && all == x,
                        other matches JsonValue::Object(all) && all == y,
                        i <= x@.len() == y@.len(),
                        forall|j: int|
                            0 <= j < i ==> (#[trigger] x@[j]).0@ == y@[j].0@ && same_json(
                                x@[j].1@,
                                y@[j].1@,
                            ),
                    decreases x@.len() - i,
                {
                    if x[i].0 != y[i].0 || !x[i].1.same(&y[i].1) {
                        assert(self@->Object_0[i as int] == (x@[i as int].0@, x@[i as int].1@));
                        return false;
                    }
                    i += 1;
                }
                assert(forall|j: int|
                    0 <= j < x@.len() ==> #[trigger] self@->Object_0[j] == (x@[j].0@, x@[j].1@));
                true
            },
            _ => false,
        }
    }
}

impl Clone for JsonValue {
    fn clone(&self) -> (copy: Self)
        ensures
            copy@ == self@,
    {
        self.duplicate()
    }
}

impl PartialEq for JsonValue {
    fn eq(&self, other: &Self) -> (equal: bool) {
        self.same(other)
    }
}

impl vstd::std_specs::cmp::PartialEqSpecImpl for JsonValue {
    open spec fn obeys_eq_spec() -> bool {
        true
    }

    open spec fn eq_spec(&self, other: &Self) -> bool {
        same_json(self@, other@)
    }
}

impl Eq for JsonValue {

}

/// Equality of JSON values is an equivalence.
pub proof fn law_json_equality(a: JsonView, b: JsonView, c: JsonView)
    ensures
        same_json(a, a),
        same_json(a, b) == same_json(b, a),
        same_json(a, b) && same_json(b, c) ==> same_json(a, c),
    decreases a,
{
    match a {
        JsonView::Array(x) => {
            assert forall|i: int| 0 <= i < x.len() implies same_json(#[trigger] x[i], x[i]) by {
                law_json_equality(x[i], x[i], x[i]);
            }
            if let JsonView::Array(y) = b {
                if x.len() == y.len() {
                    assert forall|i: int| 0 <= i < x.len() implies same_json(#[trigger] x[i], y[i])
                        == same_json(y[i], x[i]) by {
                        law_json_equality(x[i], y[i], y[i]);
                    }
                }
                if same_json(a, b) && same_json(b, c) {
                    let z = c->Array_0;
                    assert forall|i: int| 0 <= i < x.len() implies same_json(
                        #[trigger] x[i],
                        z[i],
                    ) by {
                        assert(same_json(y[i], z[i]));
                        law_json_equality(x[i], y[i], z[i]);
                    }
                }
            }
        },
        JsonView::Object(x) => {
            assert forall|i: int| 0 <= i < x.len() implies same_json(
                (#[trigger] x[i]).1,
                x[i].1,
            ) by {
                law_json_equality(x[i].1, x[i].1, x[i].1);
            }
            if let JsonView::Object(y) = b {
                if x.len() == y.len() {
                    assert forall|i: int| 0 <= i < x.len() implies same_json(
                        (#[trigger] x[i]).1,
                        y[i].1,
                    ) == same_json(y[i].1, x[i].1) by {
                        law_json_equality(x[i].1, y[i].1, y[i].1);
                    }
                }
                if same_json(a, b) && same_json(b, c) {
                    let z = c->Object_0;
                    assert forall|i: int| 0 <= i < x.len() implies (#[trigger] x[i]).0 == z[i].0
                        && same_json(x[i].1, z[i].1) by {
                        assert(y[i].0 == z[i].0 && same_json(y[i].1, z[i].1));
                        law_json_equality(x[i].1, y[i].1, z[i].1);
                    }
                }
            }
        },
        _ => {},
    }
}

/// Whether a key comes before another one in the order of strings, which is that of their first
/// characters that differ.
pub open spec fn key_before(a: Seq<char>, b: Seq<char>) -> bool
    decreases a.len(),
{
    if b.len() == 0 {
        false
    } else if a.len() == 0 {
        true
    } else if a[0] == b[0] {
        key_before(a.drop_first(), b.drop_first())
    } else {
        a[0] < b[0]
    }
}

/// Whether the members of an object are sorted by key, with each key once.
pub open spec fn keys_sorted(members: Seq<(Seq<char>, JsonView)>) -> bool {
    forall|i: int, j: int|
        0 <= i < j < members.len() ==> key_before((#[trigger] members[i]).0, (#[trigger] members[j]).0)
}

/// Whether a member has the given key.
pub open spec fn has_key(members: Seq<(Seq<char>, JsonView)>, key: Seq<char>) -> bool {
    exists|i: int| 0 <= i < members.len() && (#[trigger] members[i]).0 == key
}

/// The members of an object as a map from keys to values.
pub open spec fn members_map(members: Seq<(Seq<char>, JsonView)>) -> Map<Seq<char>, JsonView> {
    Map::new(
        |key: Seq<char>| has_key(members, key),
        |key: Seq<char>|
            members[choose|i: int| 0 <= i < members.len() && (#[trigger] members[i]).0 == key].1,
    )
}

/// The order of keys is total: of two keys, one comes before the other unless they are the same,
/// and no key comes before itself.
proof fn lemma_keys_ordered(a: Seq<char>, b: Seq<char>)
    ensures
        !key_before(a, a),
        !(key_before(a, b) && key_before(b, a)),
        a == b || key_before(a, b) || key_before(b, a),
    decreases a.len(),
{
    if a.len() > 0 {
        if b.len() > 0 {
            lemma_keys_ordered(a.drop_first(), b.drop_first());
            if a[0] == b[0] && a.drop_first() == b.drop_first() {
                assert(a =~= seq![a[0]] + a.drop_first());
                assert(b =~= seq![b[0]] + b.drop_first());
            }
        } else {
            lemma_keys_ordered(a.drop_first(), a.drop_first());
        }
    } else if b.len() == 0 {
        assert(a =~= b);
    }
}

/// What a key is before comes behind every key that the key is behind.
proof fn lemma_key_order_transitive(a: Seq<char>, b: Seq<char>, c: Seq<char>)
    requires
        key_before(a, b),
        key_before(b, c),
    ensures
        key_before(a, c),
    decreases a.len(),
{
    if a.len() > 0 && a[0] == b[0] && b[0] == c[0] {
        lemma_key_order_transitive(a.drop_first(), b.drop_first(), c.drop_first());
    }
}

/// The first `n` keys are the same where two objects with sorted keys have the same keys.
proof fn lemma_sorted_keys_agree(
    x: Seq<(Seq<char>, JsonView)>,
    y: Seq<(Seq<char>, JsonView)>,
    n: nat,
)
    requires
        keys_sorted(x),
        keys_sorted(y),
        n <= x.len(),
        n <= y.len(),
        forall|i: int| 0 <= i < x.len() ==> has_key(y, (#[trigger] x[i]).0),
        forall|i: int| 0 <= i < y.len() ==> has_key(x, (#[trigger] y[i]).0),
    ensures
        forall|i: int| 0 <= i < n ==> (#[trigger] x[i]).0 == y[i].0,
    decreases n,
{
    if n > 0 {
        let m = n - 1;
        lemma_sorted_keys_agree(x, y, m as nat);
        lemma_keys_ordered(x[m].0, y[m].0);
        if key_before(x[m].0, y[m].0) {
            lemma_key_missing(x, y, m);
        } else if key_before(y[m].0, x[m].0) {
            lemma_key_missing(y, x, m);
        }
    }
}

/// Where the keys of two objects agree up to `m`, and the first object then has the smaller key,
/// the second object does not have that key.
proof fn lemma_key_missing(x: Seq<(Seq<char>, JsonView)>, y: Seq<(Seq<char>, JsonView)>, m: int)
    requires
        keys_sorted(x),
        keys_sorted(y),
        0 <= m < x.len(),
        m <= y.len(),
        m < y.len() ==> key_before(x[m].0, y[m].0),
        forall|i: int| 0 <= i < m ==> (#[trigger] x[i]).0 == y[i].0,
    ensures
        !has_key(y, x[m].0),
{
    assert forall|j: int| 0 <= j < y.len() implies (#[trigger] y[j]).0 != x[m].0 by {
        if j < m {
            assert(x[j].0 == y[j].0);
        } else if j > m {
            lemma_key_order_transitive(x[m].0, y[m].0, y[j].0);
        }
        lemma_keys_ordered(x[m].0, y[j].0);
    }
}

/// In an object with sorted keys the map gives a member's value for its key.
proof fn lemma_member_in_map(members: Seq<(Seq<char>, JsonView)>, i: int)
    requires
        keys_sorted(members),
        0 <= i < members.len(),
    ensures
        members_map(members).dom().contains(members[i].0),
        members_map(members)[members[i].0] == members[i].1,
{
    let key = members[i].0;
    let j = choose|j: int| 0 <= j < members.len() && (#[trigger] members[j]).0 == key;
    lemma_keys_ordered(key, key);
    assert(has_key(members, key));
    assert(i == j);
}

/// Objects whose members are sorted by key, with each key once, are equal exactly when they are
/// equal as maps: they have the same keys, and equal values for each key.
pub proof fn law_sorted_objects_equal_as_maps(
    x: Seq<(Seq<char>, JsonView)>,
    y: Seq<(Seq<char>, JsonView)>,
)
    requires
        keys_sorted(x),
        keys_sorted(y),
    ensures
        same_json(JsonView::Object(x), JsonView::Object(y)) <==> {
            &&& members_map(x).dom() == members_map(y).dom()
            &&& forall|key: Seq<char>| #[trigger]
                members_map(x).dom().contains(key) ==> same_json(
                    members_map(x)[key],
                    members_map(y)[key],
                )
        },
{
    let a = members_map(x);
    let b = members_map(y);
    if same_json(JsonView::Object(x), JsonView::Object(y)) {
        assert forall|key: Seq<char>| #[trigger] a.dom().contains(key) implies b.dom().contains(key)
            && same_json(a[key], b[key]) by {
            let i = choose|i: int| 0 <= i < x.len() && (#[trigger] x[i]).0 == key;
            assert(x[i].0 == y[i].0);
            lemma_member_in_map(x, i);
            lemma_member_in_map(y, i);
        }
        assert forall|key: Seq<char>| #[trigger] b.dom().contains(key) implies a.dom().contains(
            key,
        ) by {
            let i = choose|i: int| 0 <= i < y.len() && (#[trigger] y[i]).0 == key;
            assert(x[i].0 == y[i].0);
        }
        assert(a.dom() =~= b.dom());
    } else if a.dom() == b.dom() && forall|key: Seq<char>| #[trigger]
        a.dom().contains(key) ==> same_json(a[key], b[key]) {
        assert forall|i: int| 0 <= i < x.len() implies has_key(y, (#[trigger] x[i]).0) by {
            lemma_member_in_map(x, i);
            assert(b.dom().contains(x[i].0));
        }
        assert forall|i: int| 0 <= i < y.len() implies has_key(x, (#[trigger] y[i]).0) by {
            lemma_member_in_map(y, i);
            assert(a.dom().contains(y[i].0));
        }
        let n = if x.len() <= y.len() {
            x.len()
        } else {
            y.len()
        };
        lemma_sorted_keys_agree(x, y, n);
        if n < x.len() {
            lemma_key_missing(x, y, n as int);
        }
        if n < y.len() {
            lemma_key_missing(y, x, n as int);
        }
        assert forall|i: int| 0 <= i < x.len() implies (#[trigger] x[i]).0 == y[i].0 && same_json(
            x[i].1,
            y[i].1,
        ) by {
            lemma_member_in_map(x, i);
            lemma_member_in_map(y, i);
        }
    }
}

/// A JSON value is viewed as what it holds: an array as its items in turn, an object as the keys
/// and values of its members in turn.
pub proof fn law_json_view(value: JsonValue)
    ensures
        match value {
            JsonValue::Null => value@ is Null,
            JsonValue::Bool(b) => value@ == JsonView::Bool(b),
            JsonValue::Number(n) => value@ == JsonView::Number(n),
            JsonValue::String(s) => value@ == JsonView::String(s@),
            JsonValue::Array(items) => value@ matches JsonView::Array(views) && views.len()
                == items@.len() && forall|i: int|
                0 <= i < items@.len() ==> #[trigger] views[i] == items@[i]@,
            JsonValue::Object(members) => value@ matches JsonView::Object(views) && views.len()
                == members@.len() && forall|i: int|
                0 <= i < members@.len() ==> #[trigger] views[i] == (members@[i].0@, members@[i].1@),
        },
{
}

} // verus!
