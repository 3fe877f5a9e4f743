use vstd::prelude::*;
use crate::error::Outcome;
use crate::expression::{first_failure, is_first_failure, values_of, Expression};
use crate::function::{apply, arity, parameter_tags, result_tags, views, Function};
use crate::kind::{tag_of, Tag};
use crate::stdlib::{count_equal, is_empty_spec, tally_value_spec};
use crate::value::{datum_eq, key_index, Datum, Timestamp, Value};

verus! {

broadcast use vstd::std_specs::vec::group_vec_axioms;

/// The number of bytes, elements or entries of a datum; zero for the others.
pub open spec fn length(d: Datum) -> nat {
    match d {
        Datum::Bytes(b) => b.len(),
        Datum::Array(xs) => xs.len(),
        Datum::Object(es) => es.len(),
        _ => 0,
    }
}

/// A byte string, array or object is empty exactly when its length is zero;
/// on any other shape `is_empty` is a type failure that reports that shape.
pub proof fn is_empty_is_zero_length(d: Datum)
    ensures
        (d is Bytes || d is Array || d is Object) ==> is_empty_spec(d) == Outcome::Value(
            Datum::Boolean(length(d) == 0),
        ),
        !(d is Bytes || d is Array || d is Object) ==> (is_empty_spec(d) matches Outcome::UnexpectedType {
            got,
            ..
        } && got == set![tag_of(d)]),
{
}

proof fn lemma_count_is_filter_len(xs: Seq<Datum>, x: Datum)
    ensures
        count_equal(xs, x) == xs.filter(|e: Datum| datum_eq(e, x)).len(),
        count_equal(xs, x) <= xs.len(),
    decreases xs.len(),
{
    reveal_with_fuel(Seq::filter, 1);
    if xs.len() > 0 {
        lemma_count_is_filter_len(xs.drop_last(), x);
    }
}

/// On an array, `tally_value` never fails and yields the non-negative number
/// of elements structurally equal to the value (for arrays whose length fits
/// a 64-bit integer).
pub proof fn tally_value_counts_equal_elements(xs: Seq<Datum>, x: Datum)
    requires
        xs.len() <= i64::MAX,
    ensures
        (tally_value_spec(Datum::Array(xs), x) matches Outcome::Value(Datum::Integer(n)) && n >= 0
            && n == xs.filter(|e: Datum| datum_eq(e, x)).len()),
{
    lemma_count_is_filter_len(xs, x);
}

/// A call node whose arguments all evaluate to values yields what the
/// function yields when a bytecode interpreter hands it those values.
pub proof fn tree_and_vm_agree(e: Expression, record: Datum, now: Timestamp, resolved: Seq<Value>)
    requires
        e is Call,
        forall|i: int|
            0 <= i < e.argument_outcomes(record, now).len() ==> (#[trigger] e.argument_outcomes(
                record,
                now,
            )[i]) is Value,
        views(resolved) == values_of(e.argument_outcomes(record, now)),
    ensures
        e.eval(record, now) == apply(e->Call_0, views(resolved), now),
{
    let outs = e.argument_outcomes(record, now);
    assert(!exists|j: int| is_first_failure(outs, j));
    assert(first_failure(outs) == -1);
}

/// On arguments whose shapes its parameters accept, a function never fails,
/// and its result has a shape of its declared result kind.
pub proof fn accepted_arguments_never_fail(f: Function, args: Seq<Datum>, now: Timestamp)
    requires
        args.len() == arity(f),
        forall|i: int| 0 <= i < args.len() ==> parameter_tags(f)[i].contains(tag_of(#[trigger] args[i])),
    ensures
        apply(f, args, now) is Value,
        result_tags(f).contains(tag_of(apply(f, args, now)->Value_0)),
{
    match f {
        Function::IsEmpty => {
            assert(parameter_tags(f)[0].contains(tag_of(args[0])));
        },
        Function::TallyValue => {
            assert(parameter_tags(f)[0].contains(tag_of(args[0])));
        },
        Function::Now => {},
    }
}

/// A node whose static type is infallible never fails, whatever the record
/// and the clock reading, and its value has a shape of its static kind.
pub proof fn infallible_never_fails(e: Expression, record: Datum, now: Timestamp)
    requires
        e.wf(),
        !e.static_fallible(),
    ensures
        e.eval(record, now) is Value,
        e.static_kind().contains(tag_of(e.eval(record, now)->Value_0)),
    decreases e,
{
    match e {
        Expression::Call(f, args) => {
            let outs = e.argument_outcomes(record, now);
            assert forall|i: int| 0 <= i < outs.len() implies (#[trigger] outs[i]) is Value
                && parameter_tags(f)[i].contains(tag_of(outs[i]->Value_0)) by {
                assert(decreases_to!(e => args));
                assert(decreases_to!(args => args[i]));
                assert(args@[i].wf());
                assert(!args@[i].static_fallible());
                infallible_never_fails(args@[i], record, now);
            }
            assert(!exists|j: int| is_first_failure(outs, j));
            let vs = values_of(outs);
            assert forall|i: int| 0 <= i < vs.len() implies parameter_tags(f)[i].contains(
                tag_of(#[trigger] vs[i]),
            ) by {
                assert(outs[i] is Value);
            }
            accepted_arguments_never_fail(f, vs, now);
        },
        _ => {},
    }
}

/// Structural equality is symmetric.
pub proof fn equality_is_symmetric(a: Datum, b: Datum)
    requires
        datum_eq(a, b),
    ensures
        datum_eq(b, a),
    decreases a,
{
    match a {
        Datum::Array(xs) => {
            let ys = b->Array_0;
            assert forall|i: int| 0 <= i < ys.len() implies datum_eq(#[trigger] ys[i], xs[i]) by {
                assert(datum_eq(xs[i], ys[i]));
                equality_is_symmetric(xs[i], ys[i]);
            }
        },
        Datum::Object(xs) => {
            let ys = b->Object_0;
            assert forall|i: int| #![trigger ys[i]] 0 <= i < ys.len() implies ({
                let j = key_index(xs, ys[i].0);
                0 <= j < xs.len() && datum_eq(ys[i].1, xs[j].1)
            }) by {
                let j = key_index(xs, ys[i].0);
                assert(0 <= j < xs.len() && datum_eq(xs[j].1, ys[i].1));
                assert(decreases_to!(xs => xs[j]));
                equality_is_symmetric(xs[j].1, ys[i].1);
            }
            assert forall|i: int| #![trigger xs[i]] 0 <= i < xs.len() implies ({
                let j = key_index(ys, xs[i].0);
                0 <= j < ys.len() && datum_eq(ys[j].1, xs[i].1)
            }) by {
                let j = key_index(ys, xs[i].0);
                assert(0 <= j < ys.len() && datum_eq(xs[i].1, ys[j].1));
                equality_is_symmetric(xs[i].1, ys[j].1);
            }
        },
        _ => {},
    }
}

} // verus!
