use vstd::prelude::*;
use crate::error::{outcome, ExpressionError, Outcome};
use crate::kind::{Kind, Tag};
use crate::stdlib::{
    emptiable_kind, emptiable_tags, is_empty, is_empty_spec, now_at, tally_value, tally_value_spec,
};
use crate::value::{Datum, Timestamp, Value};

verus! {

/// A declared parameter of a built-in function.
#[derive(Clone, Copy, Debug)]
pub struct Parameter {
    pub keyword: &'static str,
    pub kind: Kind,
    pub required: bool,
}

/// The built-in functions of the registry.
#[derive(Clone, Copy, Debug, PartialEq, Eq, Structural)]
pub enum Function {
    IsEmpty,
    TallyValue,
    Now,
}

/// The keywords of a function's parameters, in declaration order.
pub open spec fn keywords(f: Function) -> Seq<Seq<char>> {
    match f {
        Function::IsEmpty => seq!["value"@],
        Function::TallyValue => seq!["array"@, "value"@],
        Function::Now => seq![],
    }
}

/// The shapes each parameter accepts, in declaration order.
pub open spec fn parameter_tags(f: Function) -> Seq<Set<Tag>> {
    match f {
        Function::IsEmpty => seq![emptiable_tags()],
        Function::TallyValue => seq![set![Tag::Array], Set::full()],
        Function::Now => seq![],
    }
}

/// The shapes a function's result may take.
pub open spec fn result_tags(f: Function) -> Set<Tag> {
    match f {
        Function::IsEmpty => set![Tag::Boolean],
        Function::TallyValue => set![Tag::Integer],
        Function::Now => set![Tag::Timestamp],
    }
}

/// The name under which a function is looked up.
pub open spec fn name_of(f: Function) -> Seq<char> {
    match f {
        Function::IsEmpty => "is_empty"@,
        Function::TallyValue => "tally_value"@,
        Function::Now => "now"@,
    }
}

/// The number of parameters of a function.
pub open spec fn arity(f: Function) -> nat {
    keywords(f).len()
}

/// What a function yields on resolved arguments, given the clock reading
/// that `now` reports.
pub open spec fn apply(f: Function, args: Seq<Datum>, now: Timestamp) -> Outcome {
    match f {
        Function::IsEmpty => is_empty_spec(args[0]),
        Function::TallyValue => tally_value_spec(args[0], args[1]),
        Function::Now => Outcome::Value(Datum::Timestamp(now)),
    }
}

/// The views of a sequence of values.
pub open spec fn views(vs: Seq<Value>) -> Seq<Datum> {
    Seq::new(vs.len(), |i: int| vs[i]@)
}

impl Function {
    /// The name under which the function is looked up.
    pub fn identifier(&self) -> (r: &'static str)
        ensures
            r@ == name_of(*self),
    {
        match self {
            Function::IsEmpty => "is_empty",
            Function::TallyValue => "tally_value",
            Function::Now => "now",
        }
    }

    /// The declared parameters, in order.
    pub fn parameters(&self) -> (r: Vec<Parameter>)
        ensures
            r@.len() == arity(*self),
            forall|i: int|
                0 <= i < r@.len() ==> {
                    &&& (#[trigger] r@[i]).keyword@ == keywords(*self)[i]
                    &&& r@[i].kind@ == parameter_tags(*self)[i]
                    &&& r@[i].required
                },
    {
        match self {
            Function::IsEmpty => {
                let r = vec![Parameter { keyword: "value", kind: emptiable_kind(), required: true }];
                proof {
                    reveal_strlit("value");
                }
                r
            },
            Function::TallyValue => {
                let r = vec![
                    Parameter { keyword: "array", kind: Kind::array(), required: true },
                    Parameter { keyword: "value", kind: Kind::any(), required: true },
                ];
                proof {
                    reveal_strlit("array");
                    reveal_strlit("value");
                }
                r
            },
            Function::Now => Vec::new(),
        }
    }

    /// Runs the function on resolved arguments, given in parameter order, with
    /// `now` as the clock reading.
    pub fn call(&self, args: Vec<Value>, now: Timestamp) -> (r: Result<Value, ExpressionError>)
        requires
            args@.len() == arity(*self),
        ensures
            outcome(r) == apply(*self, views(args@), now),
    {
        let mut args = args;
        match self {
            Function::IsEmpty => {
                let value = args.pop().unwrap();
                is_empty(value)
            },
            Function::TallyValue => {
                let value = args.pop().unwrap();
                let array = args.pop().unwrap();
                tally_value(array, value)
            },
            Function::Now => Ok(now_at(now)),
        }
    }
}

impl Function {
    /// The kind of the function's result.
    pub fn result_kind(&self) -> (r: Kind)
        ensures
            r@ == result_tags(*self),
    {
        match self {
            Function::IsEmpty => Kind::boolean(),
            Function::TallyValue => Kind::integer(),
            Function::Now => Kind::timestamp(),
        }
    }
}

impl Function {
    /// The built-in function registered under `name`, if any.
    pub fn lookup(name: &String) -> (r: Option<Function>)
        ensures
            match r {
                Some(f) => name_of(f) == name@,
                None => forall|f: Function| name_of(f) != name@,
            },
    {
        if *name == "is_empty".to_owned() {
            Some(Function::IsEmpty)
        } else if *name == "tally_value".to_owned() {
            Some(Function::TallyValue)
        } else if *name == "now".to_owned() {
            Some(Function::Now)
        } else {
            proof {
                assert forall|f: Function| name_of(f) != name@ by {
                    match f {
                        Function::IsEmpty => {},
                        Function::TallyValue => {},
                        Function::Now => {},
                    }
                }
            }
            None
        }
    }
}

} // verus!
