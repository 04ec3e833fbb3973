use crate::number::{lemma_lt_asymmetric, num_eq, num_equal, Number};
use vstd::prelude::*;

verus! {

broadcast use vstd::std_specs::vec::group_vec_axioms;

/// A parsed JSON value. An object is held as its entries in document order;
/// a parser gives each key once.
#[derive(Debug)]
pub enum JsonValue {
    Null,
    Bool(bool),
    Number(Number),
    String(String),
    Array(Vec<JsonValue>),
    Object(Vec<(String, JsonValue)>),
}

/// The object's entries hold the key `k`.
pub open spec fn has_key(entries: Seq<(String, JsonValue)>, k: Seq<char>) -> bool {
    exists|j: int| 0 <= j < entries.len() && (#[trigger] entries[j]).0@ == k
}

/// Structural equality of JSON values: numbers by exact value whatever their
/// native forms, arrays element by element in order, objects entry by entry,
/// each side's entries found in the other, whatever the order of their keys.
pub open spec fn json_eq(a: JsonValue, b: JsonValue) -> bool
    decreases a,
{
    match (a, b) {
        (JsonValue::Null, JsonValue::Null) => true,
        (JsonValue::Bool(x), JsonValue::Bool(y)) => x == y,
        (JsonValue::Number(x), JsonValue::Number(y)) => num_eq(x, y),
        (JsonValue::String(x), JsonValue::String(y)) => x@ == y@,
        (JsonValue::Array(xs), JsonValue::Array(ys)) => {
            &&& xs@.len() == ys@.len()
            &&& forall|i: int| 0 <= i < xs@.len() ==> json_eq(#[trigger] xs@[i], ys@[i])
        },
        (JsonValue::Object(xs), JsonValue::Object(ys)) => {
            &&& xs@.len() == ys@.len()
            &&& forall|i: int| 0 <= i < xs@.len() ==> entry_found(#[trigger] xs@[i], ys@)
            &&& forall|j: int| 0 <= j < ys@.len() ==> entry_covered(#[trigger] ys@[j], xs@)
        },
        _ => false,
    }
}

/// Some entry of `entries` has the key of `e` and a value to which `e`'s
/// value is equal.
pub open spec fn entry_covered(e: (String, JsonValue), entries: Seq<(String, JsonValue)>) -> bool
    decreases entries,
{
    exists|k: int|
        0 <= k < entries.len() && (#[trigger] entries[k]).0@ == e.0@ && json_eq(entries[k].1, e.1)
}

/// Some entry of `entries` has the key of `e` and a value equal to its value.
pub open spec fn entry_found(e: (String, JsonValue), entries: Seq<(String, JsonValue)>) -> bool
    decreases e,
{
    exists|j: int|
        0 <= j < entries.len() && e.0@ == (#[trigger] entries[j]).0@ && json_eq(e.1, entries[j].1)
}

/// `a` and `b` are the same value, part for part, in the same native forms
/// and the same order.
pub open spec fn same(a: JsonValue, b: JsonValue) -> bool
    decreases a,
{
    match (a, b) {
        (JsonValue::Null, JsonValue::Null) => true,
        (JsonValue::Bool(x), JsonValue::Bool(y)) => x == y,
        (JsonValue::Number(x), JsonValue::Number(y)) => x == y,
        (JsonValue::String(x), JsonValue::String(y)) => x@ == y@,
        (JsonValue::Array(xs), JsonValue::Array(ys)) => {
            &&& xs@.len() == ys@.len()
            &&& forall|i: int| 0 <= i < xs@.len() ==> same(#[trigger] xs@[i], ys@[i])
        },
        (JsonValue::Object(xs), JsonValue::Object(ys)) => {
            &&& xs@.len() == ys@.len()
            &&& forall|i: int|
                0 <= i < xs@.len() ==> (#[trigger] xs@[i]).0@ == ys@[i].0@ && same(
                    xs@[i].1,
                    ys@[i].1,
                )
        },
        _ => false,
    }
}

impl JsonValue {
    /// A copy of the value, equal to it in every part.
    #[verifier::loop_isolation(false)]
    pub fn deep_copy(&self) -> (r: JsonValue)
        ensures
            same(r, *self),
        decreases self,
    {
        match self {
            JsonValue::Null => JsonValue::Null,
            JsonValue::Bool(b) => JsonValue::Bool(*b),
            JsonValue::Number(n) => JsonValue::Number(*n),
            JsonValue::String(s) => JsonValue::String(s.clone()),
            JsonValue::Array(xs) => {
                let mut out: Vec<JsonValue> = Vec::new();
                let mut i: usize = 0;
                while i < xs.len()
                    invariant
                        i <= xs.len(),
                        out@.len() == i,
                        forall|t: int| 0 <= t < i ==> same(#[trigger] out@[t], xs@[t]),
                    decreases xs.len() - i,
                {
                    proof {
                        assert(decreases_to!(*self => *xs));
                        assert(decreases_to!(*xs => xs[i as int]));
                    }
                    out.push(xs[i].deep_copy());
                    i = i + 1;
                }
                JsonValue::Array(out)
            },
            JsonValue::Object(es) => {
                let mut out: Vec<(String, JsonValue)> = Vec::new();
                let mut i: usize = 0;
                while i < es.len()
                    invariant
                        i <= es.len(),
                        out@.len() == i,
                        forall|t: int|
                            0 <= t < i ==> (#[trigger] out@[t]).0@ == es@[t].0@ && same(
                                out@[t].1,
                                es@[t].1,
                            ),
                    decreases es.len() - i,
                {
                    proof {
                        assert(decreases_to!(*self => *es));
                        assert(decreases_to!(*es => es[i as int]));
                    }
                    let k = es[i].0.clone();
                    let v = es[i].1.deep_copy();
                    out.push((k, v));
                    i = i + 1;
                }
                JsonValue::Object(out)
            },
        }
    }
}

impl Clone for JsonValue {
    fn clone(&self) -> Self {
        self.deep_copy()
    }
}

/// Whether `k` is a key of the object's entries.
pub fn contains_key(entries: &Vec<(String, JsonValue)>, k: &String) -> (r: bool)
    ensures
        r == has_key(entries@, k@),
{
    let mut j: usize = 0;
    while j < entries.len()
        invariant
            j <= entries.len(),
            forall|t: int| 0 <= t < j ==> (#[trigger] entries@[t]).0@ != k@,
        decreases entries.len() - j,
    {
        if entries[j].0 == *k {
            return true;
        }
        j = j + 1;
    }
    false
}

/// Decides `json_eq(a, b)`.
#[verifier::loop_isolation(false)]
pub fn json_equal(a: &JsonValue, b: &JsonValue) -> (r: bool)
    ensures
        r == json_eq(*a, *b),
    decreases a,
{
    match (a, b) {
        (JsonValue::Null, JsonValue::Null) => true,
        (JsonValue::Bool(x), JsonValue::Bool(y)) => *x == *y,
        (JsonValue::Number(x), JsonValue::Number(y)) => num_equal(x, y),
        (JsonValue::String(x), JsonValue::String(y)) => *x == *y,
        (JsonValue::Array(xs), JsonValue::Array(ys)) => {
            if xs.len() != ys.len() {
                return false;
            }
            let mut i: usize = 0;
            while i < xs.len()
                invariant
                    i <= xs.len() == ys.len(),
                    forall|t: int| 0 <= t < i ==> json_eq(#[trigger] xs@[t], ys@[t]),
                decreases xs.len() - i,
            {
                proof {
                    assert(decreases_to!(*a => *xs));
                    assert(decreases_to!(*xs => xs[i as int]));
                }
                if !json_equal(&xs[i], &ys[i]) {
                    proof {
                        assert(!json_eq(xs@[i as int], ys@[i as int]));
                    }
                    return false;
                }
                i = i + 1;
            }
            proof {
                assert(json_eq(*a, *b));
            }
            true
        },
        (JsonValue::Object(xs), JsonValue::Object(ys)) => {
            if xs.len() != ys.len() {
                return false;
            }
            let ghost mut witness: Seq<int> = Seq::empty();
            let mut i: usize = 0;
            while i < xs.len()
                invariant
                    i <= xs.len() == ys.len(),
                    witness.len() == i,
                    forall|t: int|
                        0 <= t < i ==> 0 <= #[trigger] witness[t] < ys.len() && xs@[t].0@
                            == ys@[witness[t]].0@ && json_eq(xs@[t].1, ys@[witness[t]].1),
                decreases xs.len() - i,
            {
                let mut j: usize = 0;
                let mut found = false;
                while j < ys.len() && !found
                    invariant
                        i < xs.len(),
                        j <= ys.len(),
                        found ==> j < ys.len() && xs@[i as int].0@ == ys@[j as int].0@ && json_eq(
                            xs@[i as int].1,
                            ys@[j as int].1,
                        ),
                        !found ==> forall|u: int|
                            0 <= u < j ==> !(xs@[i as int].0@ == (#[trigger] ys@[u]).0@
                                && json_eq(xs@[i as int].1, ys@[u].1)),
                    decreases ys.len() - j + if found { 0int } else { 1int },
                {
                    proof {
                        assert(decreases_to!(*a => *xs));
                        assert(decreases_to!(*xs => xs[i as int]));
                    }
                    if xs[i].0 == ys[j].0 && json_equal(&xs[i].1, &ys[j].1) {
                        found = true;
                    } else {
                        j = j + 1;
                    }
                }
                if !found {
                    proof {
                        assert(!entry_found(xs@[i as int], ys@));
                    }
                    return false;
                }
                proof {
                    witness = witness.push(j as int);
                }
                i = i + 1;
            }
            proof {
                assert forall|t: int| 0 <= t < xs@.len() implies entry_found(
                    #[trigger] xs@[t],
                    ys@,
                ) by {
                    let j = witness[t];
                    assert(ys@[j] == ys@[j]);
                }
            }
            let ghost mut back: Seq<int> = Seq::empty();
            let mut j: usize = 0;
            while j < ys.len()
                invariant
                    j <= ys.len() == xs.len(),
                    back.len() == j,
                    forall|t: int| 0 <= t < xs@.len() ==> entry_found(#[trigger] xs@[t], ys@),
                    forall|t: int|
                        0 <= t < j ==> 0 <= #[trigger] back[t] < xs.len() && xs@[back[t]].0@
                            == ys@[t].0@ && json_eq(xs@[back[t]].1, ys@[t].1),
                decreases ys.len() - j,
            {
                let mut k: usize = 0;
                let mut found = false;
                while k < xs.len() && !found
                    invariant
                        j < ys.len(),
                        k <= xs.len(),
                        found ==> k < xs.len() && xs@[k as int].0@ == ys@[j as int].0@ && json_eq(
                            xs@[k as int].1,
                            ys@[j as int].1,
                        ),
                        !found ==> forall|u: int|
                            0 <= u < k ==> !((#[trigger] xs@[u]).0@ == ys@[j as int].0@
                                && json_eq(xs@[u].1, ys@[j as int].1)),
                    decreases xs.len() - k + if found { 0int } else { 1int },
                {
                    proof {
                        assert(decreases_to!(*a => *xs));
                        assert(decreases_to!(*xs => xs[k as int]));
                    }
                    if xs[k].0 == ys[j].0 && json_equal(&xs[k].1, &ys[j].1) {
                        found = true;
                    } else {
                        k = k + 1;
                    }
                }
                if !found {
                    proof {
                        assert(!entry_covered(ys@[j as int], xs@));
                    }
                    return false;
                }
                proof {
                    back = back.push(k as int);
                }
                j = j + 1;
            }
            proof {
                assert forall|t: int| 0 <= t < ys@.len() implies entry_covered(
                    #[trigger] ys@[t],
                    xs@,
                ) by {
                    let k = back[t];
                    assert(xs@[k] == xs@[k]);
                }
            }
            true
        },
        _ => false,
    }
}

/// Every value is structurally equal to itself.
pub proof fn lemma_json_eq_reflexive(a: JsonValue)
    ensures
        json_eq(a, a),
    decreases a,
{
    match a {
        JsonValue::Number(x) => {
            lemma_lt_asymmetric(x, x);
        },
        JsonValue::Array(xs) => {
            assert forall|i: int| 0 <= i < xs@.len() implies json_eq(
                #[trigger] xs@[i],
                xs@[i],
            ) by {
                assert(decreases_to!(a => xs));
                assert(decreases_to!(xs => xs[i]));
                lemma_json_eq_reflexive(xs@[i]);
            }
        },
        JsonValue::Object(es) => {
            assert forall|i: int| 0 <= i < es@.len() implies entry_found(
                #[trigger] es@[i],
                es@,
            ) by {
                assert(decreases_to!(a => es));
                assert(decreases_to!(es => es[i]));
                lemma_json_eq_reflexive(es@[i].1);
                assert(es@[i] == es@[i]);
            }
            assert forall|i: int| 0 <= i < es@.len() implies entry_covered(
                #[trigger] es@[i],
                es@,
            ) by {
                assert(decreases_to!(a => es));
                assert(decreases_to!(es => es[i]));
                lemma_json_eq_reflexive(es@[i].1);
                assert(es@[i] == es@[i]);
            }
        },
        _ => {},
    }
}

/// The order of an object's keys does not matter: two objects of as many
/// entries, each holding every entry of the other, are equal.
pub proof fn lemma_object_order_irrelevant(xs: Vec<(String, JsonValue)>, ys: Vec<(String, JsonValue)>)
    requires
        xs@.len() == ys@.len(),
        forall|i: int|
            0 <= i < xs@.len() ==> exists|j: int| 0 <= j < ys@.len() && ys@[j] == #[trigger] xs@[i],
        forall|j: int|
            0 <= j < ys@.len() ==> exists|i: int| 0 <= i < xs@.len() && xs@[i] == #[trigger] ys@[j],
    ensures
        json_eq(JsonValue::Object(xs), JsonValue::Object(ys)),
{
    assert forall|j: int| 0 <= j < ys@.len() implies entry_covered(#[trigger] ys@[j], xs@) by {
        let i = choose|i: int| 0 <= i < xs@.len() && xs@[i] == ys@[j];
        lemma_json_eq_reflexive(ys@[j].1);
        assert(xs@[i] == xs@[i]);
    }
    assert forall|i: int| 0 <= i < xs@.len() implies entry_found(#[trigger] xs@[i], ys@) by {
        let j = choose|j: int| 0 <= j < ys@.len() && ys@[j] == xs@[i];
        lemma_json_eq_reflexive(xs@[i].1);
        assert(ys@[j] == ys@[j]);
    }
}

/// Matching against a copy is matching against the original.
pub proof fn lemma_json_eq_same(a: JsonValue, b: JsonValue, c: JsonValue)
    requires
        same(b, c),
    ensures
        json_eq(a, b) == json_eq(a, c),
    decreases a,
{
    match (a, b, c) {
        (JsonValue::Array(xs), JsonValue::Array(ys), JsonValue::Array(zs)) => {
            assert forall|i: int| 0 <= i < xs@.len() && i < ys@.len() implies json_eq(
                #[trigger] xs@[i],
                ys@[i],
            ) == json_eq(xs@[i], zs@[i]) by {
                assert(decreases_to!(a => xs));
                assert(decreases_to!(xs => xs[i]));
                lemma_json_eq_same(xs@[i], ys@[i], zs@[i]);
            }
        },
        (JsonValue::Object(xs), JsonValue::Object(ys), JsonValue::Object(zs)) => {
            assert forall|i: int| 0 <= i < xs@.len() implies entry_found(#[trigger] xs@[i], ys@)
                == entry_found(xs@[i], zs@) by {
                assert(decreases_to!(a => xs));
                assert(decreases_to!(xs => xs[i]));
                if entry_found(xs@[i], ys@) {
                    let j = choose|j: int|
                        0 <= j < ys@.len() && xs@[i].0@ == (#[trigger] ys@[j]).0@ && json_eq(
                            xs@[i].1,
                            ys@[j].1,
                        );
                    lemma_json_eq_same(xs@[i].1, ys@[j].1, zs@[j].1);
                    assert(zs@[j] == zs@[j]);
                }
                if entry_found(xs@[i], zs@) {
                    let j = choose|j: int|
                        0 <= j < zs@.len() && xs@[i].0@ == (#[trigger] zs@[j]).0@ && json_eq(
                            xs@[i].1,
                            zs@[j].1,
                        );
                    assert(ys@[j] == ys@[j]);
                    lemma_json_eq_same(xs@[i].1, ys@[j].1, zs@[j].1);
                }
            }
            assert forall|j: int|
                #![trigger ys@[j]]
                #![trigger zs@[j]]
                0 <= j < ys@.len() implies entry_covered(ys@[j], xs@) == entry_covered(
                    zs@[j],
                    xs@,
                ) by {
                if entry_covered(ys@[j], xs@) {
                    let k = choose|k: int|
                        0 <= k < xs@.len() && (#[trigger] xs@[k]).0@ == ys@[j].0@ && json_eq(
                            xs@[k].1,
                            ys@[j].1,
                        );
                    assert(decreases_to!(a => xs));
                    assert(decreases_to!(xs => xs[k]));
                    lemma_json_eq_same(xs@[k].1, ys@[j].1, zs@[j].1);
                }
                if entry_covered(zs@[j], xs@) {
                    let k = choose|k: int|
                        0 <= k < xs@.len() && (#[trigger] xs@[k]).0@ == zs@[j].0@ && json_eq(
                            xs@[k].1,
                            zs@[j].1,
                        );
                    assert(decreases_to!(a => xs));
                    assert(decreases_to!(xs => xs[k]));
                    lemma_json_eq_same(xs@[k].1, ys@[j].1, zs@[j].1);
                }
            }
        },
        _ => {},
    }
}

} // verus!
