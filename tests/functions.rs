use vrl_core::builtins::{IsEmpty, Now, TallyValue};
use vrl_core::error::{CompileError, ExpressionError};
use vrl_core::expression::{ArgumentList, Context, Expression, VmArgumentList};
use vrl_core::function::Function;
use vrl_core::kind::{Kind, TypeDef};
use vrl_core::stdlib::{is_empty, tally_value};
use vrl_core::value::{Timestamp, Value};

fn text(s: &str) -> Value {
    Value::Bytes(s.as_bytes().to_vec())
}

fn array(items: Vec<Value>) -> Value {
    Value::Array(items)
}

fn object(entries: Vec<(&str, Value)>) -> Value {
    Value::Object(entries.into_iter().map(|(k, v)| (k.to_string(), v)).collect())
}

fn empty_ctx() -> Context {
    Context { record: object(vec![]) }
}

fn boolean_of(r: Result<Value, ExpressionError>) -> bool {
    match r {
        Ok(Value::Boolean(b)) => b,
        other => panic!("expected a boolean, got {:?}", other),
    }
}

fn integer_of(r: Result<Value, ExpressionError>) -> i64 {
    match r {
        Ok(Value::Integer(i)) => i,
        other => panic!("expected an integer, got {:?}", other),
    }
}

fn lit(v: Value) -> Expression {
    Expression::Literal(v)
}

fn args(entries: Vec<(&str, Expression)>) -> ArgumentList {
    ArgumentList { entries: entries.into_iter().map(|(k, e)| (k.to_string(), e)).collect() }
}

const T0: Timestamp = Timestamp { seconds: 1_600_000_000, nanos: 5 };

fn run_is_empty(v: Value) -> (Result<Value, ExpressionError>, TypeDef) {
    let node = IsEmpty.compile(args(vec![("value", lit(v))])).unwrap();
    (node.resolve(&empty_ctx()), node.type_def())
}

#[test]
fn empty_array() {
    let (r, tdef) = run_is_empty(array(vec![]));
    assert!(boolean_of(r));
    assert_eq!(tdef, TypeDef::boolean().infallible());
}

#[test]
fn non_empty_array() {
    let (r, tdef) = run_is_empty(array(vec![text("foo")]));
    assert!(!boolean_of(r));
    assert_eq!(tdef, TypeDef::boolean().infallible());
}

#[test]
fn empty_object() {
    let (r, tdef) = run_is_empty(object(vec![]));
    assert!(boolean_of(r));
    assert_eq!(tdef, TypeDef::boolean().infallible());
}

#[test]
fn non_empty_object() {
    let (r, tdef) = run_is_empty(object(vec![("foo", text("bar"))]));
    assert!(!boolean_of(r));
    assert_eq!(tdef, TypeDef::boolean().infallible());
}

#[test]
fn empty_string() {
    let (r, tdef) = run_is_empty(text(""));
    assert!(boolean_of(r));
    assert_eq!(tdef, TypeDef::boolean().infallible());
}

#[test]
fn non_empty_string() {
    let (r, tdef) = run_is_empty(text("foo"));
    assert!(!boolean_of(r));
    assert_eq!(tdef, TypeDef::boolean().infallible());
}

#[test]
fn is_empty_examples() {
    assert!(boolean_of(is_empty(text(""))));
    assert!(boolean_of(is_empty(array(vec![]))));
    assert!(boolean_of(is_empty(object(vec![]))));
    let three = array(vec![Value::Integer(1), Value::Integer(2), Value::Integer(3)]);
    assert!(!boolean_of(is_empty(three)));
    assert_eq!(IsEmpty.examples().len(), 4);
}

#[test]
fn is_empty_rejects_other_shapes() {
    match is_empty(Value::Integer(3)) {
        Err(ExpressionError::UnexpectedType { got, expected }) => {
            assert_eq!(got, Kind::integer());
            assert_eq!(expected, Kind::object().union(&Kind::array()).union(&Kind::bytes()));
        },
        other => panic!("expected a type failure, got {:?}", other),
    }
    assert!(is_empty(Value::Null).is_err());
    assert!(is_empty(Value::Boolean(true)).is_err());
}

#[test]
fn tally_default() {
    let a = array(vec![text("bar"), text("foo"), text("baz"), text("foo")]);
    let node = TallyValue.compile(args(vec![("array", lit(a)), ("value", lit(text("foo")))])).unwrap();
    assert_eq!(integer_of(node.resolve(&empty_ctx())), 2);
    assert_eq!(node.type_def(), TypeDef::integer().infallible());
}

#[test]
fn tally_value_example() {
    let a = array(vec![text("foo"), text("bar"), text("foo"), text("baz")]);
    assert_eq!(integer_of(tally_value(a, text("foo"))), 2);
}

#[test]
fn tally_value_edges() {
    assert_eq!(integer_of(tally_value(array(vec![]), text("foo"))), 0);
    let a = array(vec![Value::Integer(1), text("1"), Value::Integer(1)]);
    assert_eq!(integer_of(tally_value(a, Value::Integer(1))), 2);
    let nested = array(vec![
        object(vec![("a", Value::Integer(1)), ("b", Value::Null)]),
        object(vec![("b", Value::Null), ("a", Value::Integer(1))]),
        object(vec![("a", Value::Integer(2)), ("b", Value::Null)]),
    ]);
    let probe = object(vec![("a", Value::Integer(1)), ("b", Value::Null)]);
    assert_eq!(integer_of(tally_value(nested, probe)), 2);
}

#[test]
fn tally_value_rejects_non_arrays() {
    match tally_value(text("foo"), text("foo")) {
        Err(ExpressionError::UnexpectedType { got, expected }) => {
            assert_eq!(got, Kind::bytes());
            assert_eq!(expected, Kind::array());
        },
        other => panic!("expected a type failure, got {:?}", other),
    }
}

#[test]
fn equality_ignores_entry_order() {
    let a = object(vec![("x", Value::Integer(1)), ("y", array(vec![Value::Null]))]);
    let b = object(vec![("y", array(vec![Value::Null])), ("x", Value::Integer(1))]);
    let c = object(vec![("y", array(vec![])), ("x", Value::Integer(1))]);
    assert!(a.equals(&b));
    assert!(!a.equals(&c));
    let dup = object(vec![("a", Value::Integer(1)), ("a", Value::Integer(1))]);
    let two = object(vec![("a", Value::Integer(1)), ("b", Value::Integer(2))]);
    assert!(!dup.equals(&two));
    assert!(!two.equals(&dup));
    assert!(!array(vec![]).equals(&object(vec![])));
    assert!(a.duplicate().equals(&a));
}

#[test]
fn now_twice_yields_two_readings() {
    let ctx = empty_ctx();
    let first = Now.call_by_vm(&ctx, VmArgumentList { values: vec![] });
    let second = Now.call_by_vm(&ctx, VmArgumentList { values: vec![] });
    match (first, second) {
        (Ok(Value::Timestamp(a)), Ok(Value::Timestamp(b))) => {
            assert!(a.nanos < 1_000_000_000);
            assert!(b.nanos < 1_000_000_000);
            assert!((b.seconds - a.seconds).abs() < 3600);
            assert_ne!(a, Timestamp { seconds: 0, nanos: 0 });
        },
        other => panic!("expected two timestamps, got {:?}", other),
    }
}

#[test]
fn example_titles() {
    let titles: Vec<&str> = IsEmpty.examples().iter().map(|e| e.title).collect();
    assert_eq!(titles, vec!["empty string", "empty array", "empty object", "non-empty array"]);
    assert_eq!(TallyValue.examples()[0].title, "count matching values");
    assert_eq!(TallyValue.examples()[0].result, Ok("2"));
    assert_eq!(Now.examples()[0].title, "now");
    assert_eq!(Now.examples()[0].source, "now() != \"\"");
}

#[test]
fn now_at_uses_the_reading() {
    let node = Now.compile(args(vec![])).unwrap();
    assert!(matches!(node.resolve_at(&empty_ctx(), T0), Ok(Value::Timestamp(t)) if t == T0));
    assert_eq!(node.type_def(), TypeDef::timestamp());
}

#[test]
fn tree_and_vm_agree_on_each_function() {
    let ctx = empty_ctx();
    let inputs = vec![text(""), array(vec![Value::Integer(1)]), object(vec![]), Value::Integer(7)];
    for input in inputs {
        let node = IsEmpty.compile(args(vec![("value", lit(input.duplicate()))])).unwrap();
        let tree = node.resolve_at(&ctx, T0);
        let vm = Function::IsEmpty.call_by_vm_at(&ctx, VmArgumentList { values: vec![input] }, T0);
        assert_eq!(format!("{:?}", tree), format!("{:?}", vm));
    }
    let a = array(vec![text("a"), text("b"), text("a")]);
    let node = TallyValue
        .compile(args(vec![("value", lit(text("a"))), ("array", lit(a.duplicate()))]))
        .unwrap();
    let tree = node.resolve_at(&ctx, T0);
    let vm = Function::TallyValue.call_by_vm_at(&ctx, VmArgumentList { values: vec![a, text("a")] }, T0);
    assert_eq!(integer_of(tree), 2);
    assert_eq!(integer_of(vm), 2);
    let node = Now.compile(args(vec![])).unwrap();
    let tree = node.resolve_at(&ctx, T0);
    let vm = Function::Now.call_by_vm_at(&ctx, VmArgumentList { values: vec![] }, T0);
    assert_eq!(format!("{:?}", tree), format!("{:?}", vm));
}

#[test]
fn fields_and_nested_calls() {
    let ctx = Context { record: object(vec![("tags", array(vec![])), ("name", text("x"))]) };
    let inner = IsEmpty.compile(args(vec![("value", Expression::Field("tags".to_string()))])).unwrap();
    assert!(boolean_of(inner.resolve_at(&ctx, T0)));
    let missing = IsEmpty.compile(args(vec![("value", Expression::Field("nope".to_string()))])).unwrap();
    assert!(missing.resolve_at(&ctx, T0).is_err());
    let outer = IsEmpty.compile(args(vec![("value", lit(array(vec![])))])).unwrap();
    let tally = TallyValue
        .compile(args(vec![
            ("array", lit(array(vec![Value::Boolean(true), Value::Boolean(false)]))),
            ("value", outer),
        ]))
        .unwrap();
    assert_eq!(integer_of(tally.resolve(&ctx)), 1);
}

#[test]
fn failures_propagate_from_the_first_argument() {
    let bad = IsEmpty.compile(args(vec![("value", lit(Value::Null))])).unwrap();
    let node = TallyValue.compile(args(vec![("array", bad), ("value", lit(Value::Null))])).unwrap();
    match node.resolve_at(&empty_ctx(), T0) {
        Err(ExpressionError::UnexpectedType { got, .. }) => assert_eq!(got, Kind::single(vrl_core::kind::Tag::Null)),
        other => panic!("expected a type failure, got {:?}", other),
    }
}

#[test]
fn type_def_follows_argument_kinds() {
    let narrow = IsEmpty.compile(args(vec![("value", lit(text("a")))])).unwrap();
    assert_eq!(narrow.type_def(), TypeDef::boolean());
    let wide = IsEmpty.compile(args(vec![("value", Expression::Field("f".to_string()))])).unwrap();
    assert_eq!(wide.type_def(), TypeDef::boolean().fallible());
    let tally = TallyValue
        .compile(args(vec![("array", lit(array(vec![]))), ("value", lit(Value::Null))]))
        .unwrap();
    assert_eq!(tally.type_def(), TypeDef::integer());
}

#[test]
fn infallible_calls_succeed_on_accepted_shapes() {
    let ctx = empty_ctx();
    let accepted = vec![text(""), text("ab"), array(vec![]), array(vec![Value::Null]), object(vec![("k", Value::Null)])];
    for v in accepted {
        let node = IsEmpty.compile(args(vec![("value", lit(v))])).unwrap();
        assert!(!node.type_def().fallible);
        assert!(node.resolve_at(&ctx, T0).is_ok());
    }
}

#[test]
fn disjoint_argument_kind_is_rejected() {
    let r = Function::IsEmpty.check_argument_kinds(&vec![Kind::integer()]);
    assert!(matches!(r, Err(CompileError::KindMismatch { .. })));
    match Function::TallyValue.check_argument_kinds(&vec![Kind::boolean(), Kind::any()]) {
        Err(CompileError::KindMismatch { function, keyword, got, expected }) => {
            assert_eq!(function, "tally_value");
            assert_eq!(keyword, "array");
            assert_eq!(got, Kind::boolean());
            assert_eq!(expected, Kind::array());
        },
        other => panic!("expected a kind mismatch, got {:?}", other),
    }
    let r = Function::IsEmpty.check_argument_kinds(&vec![Kind::bytes()]);
    assert_eq!(r.unwrap(), TypeDef::boolean());
    let r = Function::IsEmpty.check_argument_kinds(&vec![Kind::any()]);
    assert_eq!(r.unwrap(), TypeDef::boolean().fallible());
}

#[test]
fn binding_errors() {
    match IsEmpty.compile(args(vec![])) {
        Err(CompileError::MissingArgument { function, keyword }) => {
            assert_eq!(function, "is_empty");
            assert_eq!(keyword, "value");
        },
        other => panic!("expected a missing argument, got {:?}", other),
    }
    match TallyValue.compile(args(vec![("array", lit(array(vec![])))])) {
        Err(CompileError::MissingArgument { function, keyword }) => {
            assert_eq!(function, "tally_value");
            assert_eq!(keyword, "value");
        },
        other => panic!("expected a missing argument, got {:?}", other),
    }
    let r = IsEmpty.compile(args(vec![("value", lit(Value::Null)), ("other", lit(Value::Null))]));
    match r {
        Err(CompileError::UnknownKeyword { function, keyword }) => {
            assert_eq!(function, "is_empty");
            assert_eq!(keyword, "other");
        },
        other => panic!("expected an unknown keyword, got {:?}", other),
    }
    let r = Now.compile(args(vec![("value", lit(Value::Null))]));
    assert!(matches!(r, Err(CompileError::UnknownKeyword { .. })));
}

#[test]
fn identifiers_and_parameters() {
    assert_eq!(IsEmpty.identifier(), "is_empty");
    assert_eq!(TallyValue.identifier(), "tally_value");
    assert_eq!(Now.identifier(), "now");
    let p = TallyValue.parameters();
    assert_eq!(p[0].keyword, "array");
    assert_eq!(p[0].kind, Kind::array());
    assert_eq!(p[1].kind, Kind::any());
    assert_eq!(IsEmpty.parameters()[0].keyword, "value");
}

#[test]
fn registry_lookup() {
    assert_eq!(Function::lookup(&"is_empty".to_string()), Some(Function::IsEmpty));
    assert_eq!(Function::lookup(&"tally_value".to_string()), Some(Function::TallyValue));
    assert_eq!(Function::lookup(&"now".to_string()), Some(Function::Now));
    assert_eq!(Function::lookup(&"nope".to_string()), None);
}
