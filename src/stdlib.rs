use vstd::prelude::*;
use crate::error::{outcome, ExpressionError, Outcome};
use crate::kind::{tag_of, Kind, Tag};
use crate::value::{datum_eq, Datum, Timestamp, Value};

verus! {

/// The shapes `is_empty` accepts.
pub open spec fn emptiable_tags() -> Set<Tag> {
    set![Tag::Object, Tag::Array, Tag::Bytes]
}

/// The outcome of `is_empty` on a datum.
pub open spec fn is_empty_spec(d: Datum) -> Outcome {
    match d {
        Datum::Bytes(b) => Outcome::Value(Datum::Boolean(b.len() == 0)),
        Datum::Array(xs) => Outcome::Value(Datum::Boolean(xs.len() == 0)),
        Datum::Object(es) => Outcome::Value(Datum::Boolean(es.len() == 0)),
        _ => Outcome::UnexpectedType { got: set![tag_of(d)], expected: emptiable_tags() },
    }
}

/// The number of elements of `xs` structurally equal to `x`.
pub open spec fn count_equal(xs: Seq<Datum>, x: Datum) -> nat
    decreases xs.len(),
{
    if xs.len() == 0 {
        0
    } else {
        count_equal(xs.drop_last(), x) + if datum_eq(xs.last(), x) {
            1nat
        } else {
            0nat
        }
    }
}

/// The outcome of `tally_value` on an array and a datum. The count is
/// reported as a 64-bit integer.
pub open spec fn tally_value_spec(a: Datum, x: Datum) -> Outcome {
    match a {
        Datum::Array(xs) => Outcome::Value(Datum::Integer(count_equal(xs, x) as i64)),
        _ => Outcome::UnexpectedType { got: set![tag_of(a)], expected: set![Tag::Array] },
    }
}

/// The kind `is_empty` accepts.
pub fn emptiable_kind() -> (r: Kind)
    ensures
        r@ == emptiable_tags(),
{
    let r = Kind::object().union(&Kind::array()).union(&Kind::bytes());
    assert(r@ =~= emptiable_tags());
    r
}

/// Whether a byte string, array or object has no content; any other value
/// is a type failure.
pub fn is_empty(value: Value) -> (r: Result<Value, ExpressionError>)
    ensures
        outcome(r) == is_empty_spec(value@),
{
    match value {
        Value::Object(es) => Ok(Value::Boolean(es.len() == 0)),
        Value::Array(xs) => Ok(Value::Boolean(xs.len() == 0)),
        Value::Bytes(b) => Ok(Value::Boolean(b.len() == 0)),
        other => Err(ExpressionError::UnexpectedType { got: other.kind(), expected: emptiable_kind() }),
    }
}

/// The array's elements when `value` is an array; a type failure otherwise.
pub fn try_array(value: Value) -> (r: Result<Vec<Value>, ExpressionError>)
    ensures
        match r {
            Ok(xs) => value is Array && xs@ == value->Array_0@,
            Err(ExpressionError::UnexpectedType { got, expected }) => value !is Array && got@
                == set![tag_of(value@)] && expected@ == set![Tag::Array],
        },
{
    match value {
        Value::Array(xs) => Ok(xs),
        other => Err(ExpressionError::UnexpectedType { got: other.kind(), expected: Kind::array() }),
    }
}

/// How many elements of `array` are structurally equal to `value`.
pub fn tally_value(array: Value, value: Value) -> (r: Result<Value, ExpressionError>)
    ensures
        outcome(r) == tally_value_spec(array@, value@),
{
    let ghost d = array@;
    let xs = match try_array(array) {
        Ok(xs) => xs,
        Err(e) => {
            return Err(e);
        },
    };
    let ghost ds = d->Array_0;
    assert(ds.len() == xs.len());
    let mut count: usize = 0;
    let mut i: usize = 0;
    while i < xs.len()
        invariant
            0 <= i <= xs.len(),
            ds.len() == xs.len(),
            forall|k: int| 0 <= k < xs.len() ==> #[trigger] ds[k] == xs@[k]@,
            count == count_equal(ds.subrange(0, i as int), value@),
            count <= i,
        decreases xs.len() - i,
    {
        let eq = xs[i].equals(&value);
        proof {
            let pre = ds.subrange(0, i as int + 1);
            assert(pre.drop_last() =~= ds.subrange(0, i as int));
            assert(pre.last() == xs@[i as int]@);
        }
        if eq {
            count = count + 1;
        }
        i = i + 1;
    }
    assert(ds.subrange(0, xs.len() as int) =~= ds);
    Ok(Value::Integer(count as i64))
}

/// The value `now` yields for a given clock reading.
pub fn now_at(t: Timestamp) -> (r: Value)
    ensures
        r@ == Datum::Timestamp(t),
{
    Value::Timestamp(t)
}

} // verus!
