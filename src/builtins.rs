use vstd::prelude::*;
use crate::error::{outcome, CompileError, ExpressionError};
use crate::expression::{argument_index, arguments_view, bind, compiled, is_first_argument, lemma_bind_none, ArgumentList, Context, Expression, VmArgumentList};
use crate::function::{apply, arity, keywords, parameter_tags, views, Function, Parameter};
use crate::value::{Datum, Timestamp, Value};

verus! {

/// A documented example of a function: the program text and what it yields.
#[derive(Clone, Copy, Debug)]
pub struct Example {
    pub title: &'static str,
    pub source: &'static str,
    pub result: Result<&'static str, &'static str>,
}

/// `is_empty(value)`: whether a string, array or object has no content.
#[derive(Clone, Copy, Debug)]
pub struct IsEmpty;

/// `tally_value(array, value)`: how many elements of an array equal a value.
#[derive(Clone, Copy, Debug)]
pub struct TallyValue;

/// `now()`: the current instant.
#[derive(Clone, Copy, Debug)]
pub struct Now;

impl IsEmpty {
    pub fn identifier(&self) -> (r: &'static str)
        ensures
            r@ == "is_empty"@,
    {
        Function::IsEmpty.identifier()
    }

    pub fn parameters(&self) -> (r: Vec<Parameter>)
        ensures
            r@.len() == 1,
            r@[0].keyword@ == "value"@,
            r@[0].kind@ == parameter_tags(Function::IsEmpty)[0],
            r@[0].required,
    {
        let r = Function::IsEmpty.parameters();
        assert(r@[0].keyword@ == keywords(Function::IsEmpty)[0]);
        r
    }

    pub fn examples(&self) -> (r: Vec<Example>)
        ensures
            r@.len() == 4,
            r@[0].title@ == "empty string"@,
            r@[1].title@ == "empty array"@,
            r@[2].title@ == "empty object"@,
            r@[3].title@ == "non-empty array"@,
            r@[0].source@ == "is_empty(\"\")"@ && r@[0].result == Ok::<&'static str, &'static str>("true"),
            r@[1].source@ == "is_empty([])"@ && r@[1].result == Ok::<&'static str, &'static str>("true"),
            r@[2].source@ == "is_empty({})"@ && r@[2].result == Ok::<&'static str, &'static str>("true"),
            r@[3].source@ == "is_empty([1,2,3])"@ && r@[3].result == Ok::<&'static str, &'static str>("false"),
    {
        proof {
            reveal_strlit("empty string");
            reveal_strlit("empty array");
            reveal_strlit("empty object");
            reveal_strlit("non-empty array");
            reveal_strlit("is_empty(\"\")");
            reveal_strlit("is_empty([])");
            reveal_strlit("is_empty({})");
            reveal_strlit("is_empty([1,2,3])");
        }
        vec![
            Example { title: "empty string", source: "is_empty(\"\")", result: Ok("true") },
            Example { title: "empty array", source: "is_empty([])", result: Ok("true") },
            Example { title: "empty object", source: "is_empty({})", result: Ok("true") },
            Example { title: "non-empty array", source: "is_empty([1,2,3])", result: Ok("false") },
        ]
    }

    /// Builds the call node from the call's arguments (see `Function::compile`).
    pub fn compile(&self, arguments: ArgumentList) -> (r: Result<Expression, CompileError>)
        requires
            forall|i: int| 0 <= i < arguments.entries@.len() ==> (#[trigger] arguments.entries@[i]).1.wf(),
        ensures
            compiled(Function::IsEmpty, arguments_view(arguments.entries@), r),
            r matches Ok(e) ==> e.wf(),
            (forall|i: int| 0 <= i < arguments.entries@.len() ==> (#[trigger] arguments.entries@[i]).0@
                != "value"@) ==> (r matches Err(CompileError::MissingArgument { function, keyword })
                && function@ == "is_empty"@ && keyword@ == "value"@),
    {
        let ghost es = arguments_view(arguments.entries@);
        let ghost kws = keywords(Function::IsEmpty);
        proof {
            reveal_strlit("value");
            reveal_strlit("is_empty");
            if forall|i: int| 0 <= i < arguments.entries@.len() ==> (#[trigger] arguments.entries@[i]).0@
                != "value"@ {
                let first = kws.take(1);
                assert(first.drop_last() =~= Seq::<Seq<char>>::empty());
                assert(first.last() == "value"@);
                assert(!exists|j: int| is_first_argument(es, "value"@, j)) by {
                    assert forall|j: int| !is_first_argument(es, "value"@, j) by {
                        if 0 <= j < es.len() {
                            assert(es[j].0 == arguments.entries@[j].0@);
                        }
                    }
                }
                assert(first.len() == 1);
                assert(bind(first.drop_last(), es) == Some((Seq::<Expression>::empty(), es)));
                assert(argument_index(es, first.last()) == -1);
                assert(bind(first, es) is None);
                lemma_bind_none(kws, es, 1);
            }
        }
        Function::IsEmpty.compile(arguments)
    }

    pub fn call_by_vm(&self, ctx: &Context, args: VmArgumentList) -> (r: Result<Value, ExpressionError>)
        requires
            args.values@.len() == 1,
        ensures
            exists|now: Timestamp|
                now.nanos < 1_000_000_000 && outcome(r) == apply(Function::IsEmpty, views(args.values@), now),
    {
        Function::IsEmpty.call_by_vm(ctx, args)
    }
}

impl TallyValue {
    pub fn identifier(&self) -> (r: &'static str)
        ensures
            r@ == "tally_value"@,
    {
        Function::TallyValue.identifier()
    }

    pub fn parameters(&self) -> (r: Vec<Parameter>)
        ensures
            r@.len() == 2,
            r@[0].keyword@ == "array"@,
            r@[0].kind@ == parameter_tags(Function::TallyValue)[0],
            r@[1].keyword@ == "value"@,
            r@[1].kind@ == parameter_tags(Function::TallyValue)[1],
            r@[0].required && r@[1].required,
    {
        let r = Function::TallyValue.parameters();
        assert(r@[0].keyword@ == keywords(Function::TallyValue)[0]);
        assert(r@[1].keyword@ == keywords(Function::TallyValue)[1]);
        r
    }

    pub fn examples(&self) -> (r: Vec<Example>)
        ensures
            r@.len() == 1,
            r@[0].title@ == "count matching values"@,
            r@[0].source@ == "tally_value([\"foo\", \"bar\", \"foo\", \"baz\"], \"foo\")"@,
            r@[0].result == Ok::<&'static str, &'static str>("2"),
    {
        proof {
            reveal_strlit("count matching values");
            reveal_strlit("tally_value([\"foo\", \"bar\", \"foo\", \"baz\"], \"foo\")");
        }
        vec![
            Example {
                title: "count matching values",
                source: "tally_value([\"foo\", \"bar\", \"foo\", \"baz\"], \"foo\")",
                result: Ok("2"),
            },
        ]
    }

    /// Builds the call node from the call's arguments (see `Function::compile`).
    pub fn compile(&self, arguments: ArgumentList) -> (r: Result<Expression, CompileError>)
        requires
            forall|i: int| 0 <= i < arguments.entries@.len() ==> (#[trigger] arguments.entries@[i]).1.wf(),
        ensures
            compiled(Function::TallyValue, arguments_view(arguments.entries@), r),
            r matches Ok(e) ==> e.wf(),
            (forall|i: int| 0 <= i < arguments.entries@.len() ==> (#[trigger] arguments.entries@[i]).0@
                != "array"@) ==> (r matches Err(CompileError::MissingArgument { function, keyword })
                && function@ == "tally_value"@ && keyword@ == "array"@),
    {
        let ghost es = arguments_view(arguments.entries@);
        let ghost kws = keywords(Function::TallyValue);
        proof {
            reveal_strlit("array");
            reveal_strlit("tally_value");
            if forall|i: int| 0 <= i < arguments.entries@.len() ==> (#[trigger] arguments.entries@[i]).0@
                != "array"@ {
                let first = kws.take(1);
                assert(first.drop_last() =~= Seq::<Seq<char>>::empty());
                assert(first.last() == "array"@);
                assert(!exists|j: int| is_first_argument(es, "array"@, j)) by {
                    assert forall|j: int| !is_first_argument(es, "array"@, j) by {
                        if 0 <= j < es.len() {
                            assert(es[j].0 == arguments.entries@[j].0@);
                        }
                    }
                }
                assert(first.len() == 1);
                assert(bind(first.drop_last(), es) == Some((Seq::<Expression>::empty(), es)));
                assert(argument_index(es, first.last()) == -1);
                assert(bind(first, es) is None);
                lemma_bind_none(kws, es, 1);
            }
        }
        Function::TallyValue.compile(arguments)
    }

    pub fn call_by_vm(&self, ctx: &Context, args: VmArgumentList) -> (r: Result<Value, ExpressionError>)
        requires
            args.values@.len() == 2,
        ensures
            exists|now: Timestamp|
                now.nanos < 1_000_000_000 && outcome(r) == apply(Function::TallyValue, views(args.values@), now),
    {
        Function::TallyValue.call_by_vm(ctx, args)
    }
}

impl Now {
    pub fn identifier(&self) -> (r: &'static str)
        ensures
            r@ == "now"@,
    {
        Function::Now.identifier()
    }

    pub fn examples(&self) -> (r: Vec<Example>)
        ensures
            r@.len() == 1,
            r@[0].title@ == "now"@,
            r@[0].source@ == "now() != \"\""@,
            r@[0].result == Ok::<&'static str, &'static str>("true"),
    {
        proof {
            reveal_strlit("now");
            reveal_strlit("now() != \"\"");
        }
        vec![Example { title: "now", source: "now() != \"\"", result: Ok("true") }]
    }

    /// Builds the call node; `now` takes no argument.
    pub fn compile(&self, arguments: ArgumentList) -> (r: Result<Expression, CompileError>)
        requires
            forall|i: int| 0 <= i < arguments.entries@.len() ==> (#[trigger] arguments.entries@[i]).1.wf(),
        ensures
            arguments.entries@.len() == 0 ==> (r matches Ok(Expression::Call(g, v)) && g
                == Function::Now && v@.len() == 0),
            arguments.entries@.len() > 0 ==> (r matches Err(CompileError::UnknownKeyword { function, keyword })
                && function@ == "now"@ && keyword@ == arguments.entries@[0].0@),
    {
        assert(bind(keywords(Function::Now), arguments_view(arguments.entries@)) == Some(
            (Seq::<Expression>::empty(), arguments_view(arguments.entries@)),
        ));
        Function::Now.compile(arguments)
    }

    /// The current instant, as a bytecode interpreter calls it.
    pub fn call_by_vm(&self, ctx: &Context, args: VmArgumentList) -> (r: Result<Value, ExpressionError>)
        requires
            args.values@.len() == 0,
        ensures
            r matches Ok(v) && v@ matches Datum::Timestamp(t) && t.nanos < 1_000_000_000,
    {
        let r = Function::Now.call_by_vm(ctx, args);
        r
    }
}

} // verus!
