//! JSON values, as the `.qnet` format carries them in its extension slot.
use vstd::prelude::*;

use crate::binary64::Binary64;

verus! {

/// A JSON number: an integer that fits in 64 bits, or a binary64 number.
#[derive(Clone, Copy, Debug)]
pub enum JsonNumber {
    PosInt(u64),
    NegInt(i64),
    Float(Binary64),
}

/// A JSON value. The members of an object are kept in ascending key order.
#[derive(Debug)]
pub enum JsonValue {
    Null,
    Bool(bool),
    Number(JsonNumber),
    String(String),
    Array(Vec<JsonValue>),
    Object(Vec<(String, JsonValue)>),
}

/// Equality of JSON numbers: integers compare as integers of the same kind,
/// binary64 numbers as binary64 numbers, and different kinds are unequal.
pub open spec fn number_eq(a: JsonNumber, b: JsonNumber) -> bool {
    match (a, b) {
        (JsonNumber::PosInt(x), JsonNumber::PosInt(y)) => x == y,
        (JsonNumber::NegInt(x), JsonNumber::NegInt(y)) => x == y,
        (JsonNumber::Float(x), JsonNumber::Float(y)) => x.same_value(y),
        _ => false,
    }
}

/// Equality of JSON values: same kind and equal contents; arrays and objects
/// compare element by element, in order.
pub open spec fn json_eq(a: JsonValue, b: JsonValue) -> bool
    decreases a, 0int,
{
    match a {
        JsonValue::Null => b is Null,
        JsonValue::Bool(x) => b matches JsonValue::Bool(y) && x == y,
        JsonValue::Number(x) => b matches JsonValue::Number(y) && number_eq(x, y),
        JsonValue::String(x) => b matches JsonValue::String(y) && x@ == y@,
        JsonValue::Array(xs) => match b {
            JsonValue::Array(ys) => xs@.len() == ys@.len() && elements_eq(
                xs@,
                ys@,
                xs@.len() as int,
            ),
            _ => false,
        },
        JsonValue::Object(xs) => match b {
            JsonValue::Object(ys) => xs@.len() == ys@.len() && members_eq(
                xs@,
                ys@,
                xs@.len() as int,
            ),
            _ => false,
        },
    }
}

/// The first `n` elements of two arrays are pairwise equal.
pub open spec fn elements_eq(xs: Seq<JsonValue>, ys: Seq<JsonValue>, n: int) -> bool
    decreases xs, n,
{
    if n <= 0 || n > xs.len() || n > ys.len() {
        true
    } else {
        elements_eq(xs, ys, n - 1) && json_eq(xs[n - 1], ys[n - 1])
    }
}

/// The first `n` members of two objects have equal keys and equal values.
pub open spec fn members_eq(xs: Seq<(String, JsonValue)>, ys: Seq<(String, JsonValue)>, n: int) -> bool
    decreases xs, n,
{
    if n <= 0 || n > xs.len() || n > ys.len() {
        true
    } else {
        members_eq(xs, ys, n - 1) && xs[n - 1].0@ == ys[n - 1].0@ && json_eq(xs[n - 1].1, ys[n - 1].1)
    }
}

/// No binary64 number inside `v` is a NaN.
pub open spec fn json_nan_free(v: JsonValue) -> bool
    decreases v, 0int,
{
    match v {
        JsonValue::Number(JsonNumber::Float(x)) => !x.nan(),
        JsonValue::Array(xs) => elements_nan_free(xs@, xs@.len() as int),
        JsonValue::Object(xs) => members_nan_free(xs@, xs@.len() as int),
        _ => true,
    }
}

/// The first `n` elements are free of NaNs.
pub open spec fn elements_nan_free(xs: Seq<JsonValue>, n: int) -> bool
    decreases xs, n,
{
    if n <= 0 || n > xs.len() {
        true
    } else {
        elements_nan_free(xs, n - 1) && json_nan_free(xs[n - 1])
    }
}

/// The first `n` member values are free of NaNs.
pub open spec fn members_nan_free(xs: Seq<(String, JsonValue)>, n: int) -> bool
    decreases xs, n,
{
    if n <= 0 || n > xs.len() {
        true
    } else {
        members_nan_free(xs, n - 1) && json_nan_free(xs[n - 1].1)
    }
}

/// A JSON value without NaNs equals itself.
pub proof fn lemma_json_eq_reflexive(v: JsonValue)
    requires
        json_nan_free(v),
    ensures
        json_eq(v, v),
    decreases v, 0int,
{
    match v {
        JsonValue::Array(xs) => {
            lemma_elements_reflexive(xs@, xs@.len() as int);
        },
        JsonValue::Object(xs) => {
            lemma_members_reflexive(xs@, xs@.len() as int);
        },
        _ => {},
    }
}

/// The first `n` elements of a NaN-free array equal themselves.
proof fn lemma_elements_reflexive(xs: Seq<JsonValue>, n: int)
    requires
        elements_nan_free(xs, n),
    ensures
        elements_eq(xs, xs, n),
    decreases xs, n,
{
    if 0 < n <= xs.len() {
        lemma_elements_reflexive(xs, n - 1);
        lemma_json_eq_reflexive(xs[n - 1]);
    }
}

/// The first `n` members of a NaN-free object equal themselves.
proof fn lemma_members_reflexive(xs: Seq<(String, JsonValue)>, n: int)
    requires
        members_nan_free(xs, n),
    ensures
        members_eq(xs, xs, n),
    decreases xs, n,
{
    if 0 < n <= xs.len() {
        lemma_members_reflexive(xs, n - 1);
        lemma_json_eq_reflexive(xs[n - 1].1);
    }
}

/// Equal prefixes stay equal when shortened.
proof fn lemma_elements_prefix(xs: Seq<JsonValue>, ys: Seq<JsonValue>, m: int, n: int)
    requires
        0 <= m <= n <= xs.len(),
        n <= ys.len(),
        elements_eq(xs, ys, n),
    ensures
        elements_eq(xs, ys, m),
    decreases n - m,
{
    if m < n {
        lemma_elements_prefix(xs, ys, m, n - 1);
    }
}

/// Equal prefixes stay equal when shortened.
proof fn lemma_members_prefix(xs: Seq<(String, JsonValue)>, ys: Seq<(String, JsonValue)>, m: int, n: int)
    requires
        0 <= m <= n <= xs.len(),
        n <= ys.len(),
        members_eq(xs, ys, n),
    ensures
        members_eq(xs, ys, m),
    decreases n - m,
{
    if m < n {
        lemma_members_prefix(xs, ys, m, n - 1);
    }
}

/// Equality of JSON numbers.
pub fn number_equals(a: &JsonNumber, b: &JsonNumber) -> (r: bool)
    ensures
        r == number_eq(*a, *b),
{
    match (a, b) {
        (JsonNumber::PosInt(x), JsonNumber::PosInt(y)) => *x == *y,
        (JsonNumber::NegInt(x), JsonNumber::NegInt(y)) => *x == *y,
        (JsonNumber::Float(x), JsonNumber::Float(y)) => x.equals(y),
        _ => false,
    }
}

/// Equality of JSON values.
pub fn json_equals(a: &JsonValue, b: &JsonValue) -> (r: bool)
    ensures
        r == json_eq(*a, *b),
    decreases a,
{
    match a {
        JsonValue::Null => matches!(b, JsonValue::Null),
        JsonValue::Bool(x) => match b {
            JsonValue::Bool(y) => *x == *y,
            _ => false,
        },
        JsonValue::Number(x) => match b {
            JsonValue::Number(y) => number_equals(x, y),
            _ => false,
        },
        JsonValue::String(x) => match b {
            JsonValue::String(y) => *x == *y,
            _ => false,
        },
        JsonValue::Array(xs) => match b {
            JsonValue::Array(ys) => {
                if xs.len() != ys.len() {
                    return false;
                }
                let mut i: usize = 0;
                while i < xs.len()
                    invariant
                        i <= xs@.len(),
                        xs@.len() == ys@.len(),
                        *a == JsonValue::Array(*xs),
                        *b == JsonValue::Array(*ys),
                        elements_eq(xs@, ys@, i as int),
                    decreases xs@.len() - i,
                {
                    proof {
                        assert((*a)->Array_0 == *xs);
                        assert(decreases_to!(*a => (*a)->Array_0));
                        assert(decreases_to!(*xs => xs@));
                        assert(decreases_to!(xs@ => xs@[i as int]));
                    }
                    if !json_equals(&xs[i], &ys[i]) {
                        proof {
                            if elements_eq(xs@, ys@, xs@.len() as int) {
                                lemma_elements_prefix(xs@, ys@, i + 1, xs@.len() as int);
                            }
                        }
                        return false;
                    }
                    i = i + 1;
                }
                true
            },
            _ => false,
        },
        JsonValue::Object(xs) => match b {
            JsonValue::Object(ys) => {
                if xs.len() != ys.len() {
                    return false;
                }
                let mut i: usize = 0;
                while i < xs.len()
                    invariant
                        i <= xs@.len(),
                        xs@.len() == ys@.len(),
                        *a == JsonValue::Object(*xs),
                        *b == JsonValue::Object(*ys),
                        members_eq(xs@, ys@, i as int),
                    decreases xs@.len() - i,
                {
                    if xs[i].0 != ys[i].0 {
                        proof {
                            if members_eq(xs@, ys@, xs@.len() as int) {
                                lemma_members_prefix(xs@, ys@, i + 1, xs@.len() as int);
                            }
                        }
                        return false;
                    }
                    proof {
                        assert((*a)->Object_0 == *xs);
                        assert(decreases_to!(*a => (*a)->Object_0));
                        assert(decreases_to!(*xs => xs@));
                        assert(decreases_to!(xs@ => xs@[i as int]));
                        assert(decreases_to!(xs@[i as int] => xs@[i as int].1));
                    }
                    if !json_equals(&xs[i].1, &ys[i].1) {
                        proof {
                            if members_eq(xs@, ys@, xs@.len() as int) {
                                lemma_members_prefix(xs@, ys@, i + 1, xs@.len() as int);
                            }
                        }
                        return false;
                    }
                    i = i + 1;
                }
                true
            },
            _ => false,
        },
    }
}

/// The first `n` elements are pairwise equal exactly when each of them is.
proof fn lemma_elements_eq_pointwise(xs: Seq<JsonValue>, ys: Seq<JsonValue>, n: int)
    requires
        0 <= n <= xs.len(),
        n <= ys.len(),
    ensures
        elements_eq(xs, ys, n) <==> forall|i: int| 0 <= i < n ==> json_eq(#[trigger] xs[i], ys[i]),
    decreases n,
{
    if n > 0 {
        lemma_elements_eq_pointwise(xs, ys, n - 1);
    }
}

/// The first `n` members agree exactly when each has the same key and an
/// equal value.
proof fn lemma_members_eq_pointwise(xs: Seq<(String, JsonValue)>, ys: Seq<(String, JsonValue)>, n: int)
    requires
        0 <= n <= xs.len(),
        n <= ys.len(),
    ensures
        members_eq(xs, ys, n) <==> forall|i: int|
            0 <= i < n ==> (#[trigger] xs[i]).0@ == ys[i].0@ && json_eq(xs[i].1, ys[i].1),
    decreases n,
{
    if n > 0 {
        lemma_members_eq_pointwise(xs, ys, n - 1);
    }
}

/// Two JSON values are equal exactly when they are of the same kind with the
/// same content: integers of the same sign equal as integers, binary64
/// numbers equal as numbers, strings with the same text, and arrays and
/// objects of the same length whose elements (keys and values) are equal
/// position by position.
pub proof fn law_json_equality_compares_contents(a: JsonValue, b: JsonValue)
    ensures
        json_eq(a, b) <==> match (a, b) {
            (JsonValue::Null, JsonValue::Null) => true,
            (JsonValue::Bool(x), JsonValue::Bool(y)) => x == y,
            (JsonValue::Number(x), JsonValue::Number(y)) => match (x, y) {
                (JsonNumber::PosInt(p), JsonNumber::PosInt(q)) => p == q,
                (JsonNumber::NegInt(p), JsonNumber::NegInt(q)) => p == q,
                (JsonNumber::Float(p), JsonNumber::Float(q)) => p.same_value(q),
                _ => false,
            },
            (JsonValue::String(x), JsonValue::String(y)) => x@ == y@,
            (JsonValue::Array(xs), JsonValue::Array(ys)) => xs@.len() == ys@.len() && forall|i: int|
                0 <= i < xs@.len() ==> json_eq(#[trigger] xs@[i], ys@[i]),
            (JsonValue::Object(xs), JsonValue::Object(ys)) => xs@.len() == ys@.len() && forall|i: int|
                0 <= i < xs@.len() ==> (#[trigger] xs@[i]).0@ == ys@[i].0@ && json_eq(xs@[i].1, ys@[i].1),
            _ => false,
        },
{
    match (a, b) {
        (JsonValue::Array(xs), JsonValue::Array(ys)) => {
            if xs@.len() == ys@.len() {
                lemma_elements_eq_pointwise(xs@, ys@, xs@.len() as int);
            }
        },
        (JsonValue::Object(xs), JsonValue::Object(ys)) => {
            if xs@.len() == ys@.len() {
                lemma_members_eq_pointwise(xs@, ys@, xs@.len() as int);
            }
        },
        _ => {},
    }
}

} // verus!
