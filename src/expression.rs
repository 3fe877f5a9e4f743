use vstd::prelude::*;
use crate::clock::clock_now;
use crate::error::{outcome, CompileError, ExpressionError, Outcome};
use crate::function::{apply, arity, keywords, name_of, parameter_tags, result_tags, views, Function};
use crate::kind::{tag_of, Kind, Tag, TypeDef};
use crate::value::{entries_view, find_key, key_index, Datum, Timestamp, Value};

verus! {

broadcast use vstd::std_specs::vec::group_vec_axioms;

/// A compiled expression node. Each node owns its arguments.
#[derive(Debug)]
pub enum Expression {
    /// A constant.
    Literal(Value),
    /// A top-level field of the current record.
    Field(String),
    /// A call of a built-in function, with its arguments in parameter order.
    Call(Function, Vec<Expression>),
}

/// The environment of one record's evaluation.
#[derive(Debug)]
pub struct Context {
    pub record: Value,
}

/// The field `name` of a record: the value of the first entry with that key,
/// or null when the record is not an object or has no such entry.
pub open spec fn field_of(record: Datum, name: Seq<char>) -> Datum {
    match record {
        Datum::Object(es) => {
            let j = key_index(es, name);
            if 0 <= j < es.len() {
                es[j].1
            } else {
                Datum::Null
            }
        },
        _ => Datum::Null,
    }
}

/// `j` is the index of the first failure in `outs`.
pub open spec fn is_first_failure(outs: Seq<Outcome>, j: int) -> bool {
    &&& 0 <= j < outs.len()
    &&& outs[j] is UnexpectedType
    &&& forall|m: int| 0 <= m < j ==> (#[trigger] outs[m]) is Value
}

/// The index of the first failure in `outs`, or -1 when all succeeded.
pub open spec fn first_failure(outs: Seq<Outcome>) -> int {
    if exists|j: int| is_first_failure(outs, j) {
        choose|j: int| is_first_failure(outs, j)
    } else {
        -1
    }
}

proof fn lemma_first_failure_unique(outs: Seq<Outcome>, j: int)
    requires
        is_first_failure(outs, j),
    ensures
        first_failure(outs) == j,
{
    let c = choose|c: int| is_first_failure(outs, c);
    if c < j {
        assert(outs[c] is Value);
    } else if j < c {
        assert(outs[j] is Value);
    }
}

/// The data carried by outcomes that are all values.
pub open spec fn values_of(outs: Seq<Outcome>) -> Seq<Datum> {
    Seq::new(outs.len(), |i: int| outs[i]->Value_0)
}

impl Expression {
    /// Every call node has as many arguments as its function has parameters.
    pub open spec fn wf(self) -> bool
        decreases self,
    {
        match self {
            Expression::Call(f, args) => args.len() == arity(f) && forall|i: int|
                0 <= i < args.len() ==> (#[trigger] args@[i]).wf(),
            _ => true,
        }
    }

    /// The outcomes of a call node's arguments.
    pub open spec fn argument_outcomes(self, record: Datum, now: Timestamp) -> Seq<Outcome>
        decreases self, 0nat,
    {
        match self {
            Expression::Call(f, args) => Seq::new(
                args.len() as nat,
                |i: int|
                    if 0 <= i < args.len() {
                        args@[i].eval(record, now)
                    } else {
                        Outcome::Value(Datum::Null)
                    },
            ),
            _ => Seq::empty(),
        }
    }

    /// What evaluating the node against `record` yields, where `now` is the
    /// clock reading of the evaluation. Arguments are evaluated left to right
    /// and the first failure is the result.
    pub open spec fn eval(self, record: Datum, now: Timestamp) -> Outcome
        decreases self, 1nat,
    {
        match self {
            Expression::Literal(v) => Outcome::Value(v@),
            Expression::Field(name) => Outcome::Value(field_of(record, name@)),
            Expression::Call(f, args) => {
                let outs = self.argument_outcomes(record, now);
                let k = first_failure(outs);
                if 0 <= k {
                    outs[k]
                } else {
                    apply(f, values_of(outs), now)
                }
            },
        }
    }
}

impl Context {
    /// The field `name` of the record (see `field_of`).
    pub fn field(&self, name: &String) -> (r: Value)
        ensures
            r@ == field_of(self.record@, name@),
    {
        match &self.record {
            Value::Object(es) => {
                assert(self.record@->Object_0 =~= entries_view(es@));
                match find_key(es, name) {
                    Some(j) => es[j].1.duplicate(),
                    None => Value::Null,
                }
            },
            _ => Value::Null,
        }
    }
}

impl Expression {
    /// Evaluates the node against the context, with `now` as the clock
    /// reading of this evaluation.
    #[verifier::loop_isolation(false)]
    pub fn resolve_at(&self, ctx: &Context, now: Timestamp) -> (r: Result<Value, ExpressionError>)
        requires
            self.wf(),
        ensures
            outcome(r) == self.eval(ctx.record@, now),
        decreases self,
    {
        match self {
            Expression::Literal(v) => Ok(v.duplicate()),
            Expression::Field(name) => Ok(ctx.field(name)),
            Expression::Call(f, args) => {
                let ghost outs = self.argument_outcomes(ctx.record@, now);
                let mut vals: Vec<Value> = Vec::new();
                let mut i: usize = 0;
                while i < args.len()
                    invariant
                        0 <= i <= args.len(),
                        vals@.len() == i,
                        outs.len() == args.len(),
                        forall|k: int| 0 <= k < i ==> (#[trigger] outs[k]) is Value,
                        forall|k: int| 0 <= k < i ==> #[trigger] vals@[k]@ == outs[k]->Value_0,
                    decreases args.len() - i,
                {
                    proof {
                        assert(decreases_to!(*self => *args));
                        assert(decreases_to!(*args => args[i as int]));
                        assert(args@[i as int].wf());
                    }
                    match args[i].resolve_at(ctx, now) {
                        Ok(v) => {
                            vals.push(v);
                        },
                        Err(e) => {
                            proof {
                                assert(is_first_failure(outs, i as int));
                                lemma_first_failure_unique(outs, i as int);
                            }
                            return Err(e);
                        },
                    }
                    i = i + 1;
                }
                proof {
                    assert(!exists|j: int| is_first_failure(outs, j));
                    assert(views(vals@) =~= values_of(outs));
                }
                f.call(vals, now)
            },
        }
    }

    /// Evaluates the node against the context, reading the clock once for
    /// the whole evaluation.
    pub fn resolve(&self, ctx: &Context) -> (r: Result<Value, ExpressionError>)
        requires
            self.wf(),
        ensures
            exists|now: Timestamp|
                now.nanos < 1_000_000_000 && outcome(r) == self.eval(ctx.record@, now),
    {
        let now = clock_now();
        self.resolve_at(ctx, now)
    }
}

impl Expression {
    /// The shapes the node may produce, known without evaluating it.
    pub open spec fn static_kind(self) -> Set<Tag> {
        match self {
            Expression::Literal(v) => set![tag_of(v@)],
            Expression::Field(_) => Set::full(),
            Expression::Call(f, _) => result_tags(f),
        }
    }

    /// Whether the node may fail: some argument may fail, or some argument's
    /// static kind is wider than its parameter accepts.
    pub open spec fn static_fallible(self) -> bool
        decreases self,
    {
        match self {
            Expression::Call(f, args) => exists|i: int|
                0 <= i < args.len() && ((#[trigger] args@[i]).static_fallible()
                    || !args@[i].static_kind().subset_of(parameter_tags(f)[i])),
            _ => false,
        }
    }

    /// The node's static type.
    #[verifier::loop_isolation(false)]
    pub fn type_def(&self) -> (r: TypeDef)
        requires
            self.wf(),
        ensures
            r.kind@ == self.static_kind(),
            r.fallible == self.static_fallible(),
        decreases self,
    {
        match self {
            Expression::Literal(v) => TypeDef { kind: v.kind(), fallible: false },
            Expression::Field(_) => TypeDef { kind: Kind::any(), fallible: false },
            Expression::Call(f, args) => {
                let params = f.parameters();
                let mut fallible = false;
                let mut i: usize = 0;
                while i < args.len()
                    invariant
                        0 <= i <= args.len(),
                        fallible == exists|k: int|
                            0 <= k < i && ((#[trigger] args@[k]).static_fallible()
                                || !args@[k].static_kind().subset_of(parameter_tags(*f)[k])),
                    decreases args.len() - i,
                {
                    proof {
                        assert(decreases_to!(*self => *args));
                        assert(decreases_to!(*args => args[i as int]));
                        assert(args@[i as int].wf());
                    }
                    let t = args[i].type_def();
                    let fits = params[i].kind.contains(&t.kind);
                    if t.fallible || !fits {
                        fallible = true;
                    }
                    i = i + 1;
                }
                TypeDef { kind: f.result_kind(), fallible }
            },
        }
    }
}

/// The arguments of a call as written: keyword and argument expression.
#[derive(Debug)]
pub struct ArgumentList {
    pub entries: Vec<(String, Expression)>,
}

/// The keyword and expression of each argument.
pub open spec fn arguments_view(es: Seq<(String, Expression)>) -> Seq<(Seq<char>, Expression)> {
    Seq::new(es.len(), |i: int| (es[i].0@, es[i].1))
}

/// `j` is the index of the first argument with keyword `k`.
pub open spec fn is_first_argument(es: Seq<(Seq<char>, Expression)>, k: Seq<char>, j: int) -> bool {
    &&& 0 <= j < es.len()
    &&& es[j].0 == k
    &&& forall|m: int| 0 <= m < j ==> (#[trigger] es[m]).0 != k
}

/// The index of the first argument with keyword `k`, or -1.
pub open spec fn argument_index(es: Seq<(Seq<char>, Expression)>, k: Seq<char>) -> int {
    if exists|j: int| is_first_argument(es, k, j) {
        choose|j: int| is_first_argument(es, k, j)
    } else {
        -1
    }
}

proof fn lemma_first_argument_unique(es: Seq<(Seq<char>, Expression)>, k: Seq<char>, j: int)
    requires
        is_first_argument(es, k, j),
    ensures
        argument_index(es, k) == j,
{
    let c = choose|c: int| is_first_argument(es, k, c);
    if c < j {
        assert(es[c].0 != k);
    } else if j < c {
        assert(es[j].0 != k);
    }
}

/// Binds parameters to arguments in parameter order: each keyword takes the
/// first argument left with that keyword. `None` when some keyword finds no
/// argument; otherwise the bound expressions and the arguments left over.
pub open spec fn bind(kws: Seq<Seq<char>>, es: Seq<(Seq<char>, Expression)>) -> Option<
    (Seq<Expression>, Seq<(Seq<char>, Expression)>),
>
    decreases kws.len(),
{
    if kws.len() == 0 {
        Some((Seq::empty(), es))
    } else {
        match bind(kws.drop_last(), es) {
            None => None,
            Some((xs, rest)) => {
                let j = argument_index(rest, kws.last());
                if 0 <= j < rest.len() {
                    Some((xs.push(rest[j].1), rest.remove(j)))
                } else {
                    None
                }
            },
        }
    }
}

pub proof fn lemma_bind_none(kws: Seq<Seq<char>>, es: Seq<(Seq<char>, Expression)>, n: int)
    requires
        0 <= n <= kws.len(),
        bind(kws.take(n), es) is None,
    ensures
        bind(kws, es) is None,
    decreases kws.len() - n,
{
    if n < kws.len() {
        assert(kws.take(n + 1).drop_last() =~= kws.take(n));
        lemma_bind_none(kws, es, n + 1);
    } else {
        assert(kws.take(n) =~= kws);
    }
}

/// Whether two sets of shapes have a shape in common.
pub open spec fn shares_tag(a: Set<Tag>, b: Set<Tag>) -> bool {
    exists|t: Tag| a.contains(t) && b.contains(t)
}

/// Binding the first `i` keywords succeeds and binding keyword `i` fails.
pub open spec fn binding_fails_at(kws: Seq<Seq<char>>, es: Seq<(Seq<char>, Expression)>, i: int) -> bool {
    &&& 0 <= i < kws.len()
    &&& bind(kws.take(i), es) is Some
    &&& bind(kws.take(i + 1), es) is None
}

/// What compiling a call of `f` with arguments `es` yields: the call node when
/// every keyword binds and no argument is left; otherwise an error naming the
/// function and the keyword that found no argument, or the first argument left.
pub open spec fn compiled(
    f: Function,
    es: Seq<(Seq<char>, Expression)>,
    r: Result<Expression, CompileError>,
) -> bool {
    match bind(keywords(f), es) {
        None => r matches Err(CompileError::MissingArgument { function, keyword }) && function@
            == name_of(f) && exists|i: int|
            binding_fails_at(keywords(f), es, i) && keyword@ == keywords(f)[i],
        Some((xs, rest)) => if rest.len() > 0 {
            r matches Err(CompileError::UnknownKeyword { function, keyword }) && function@ == name_of(f)
                && keyword@ == rest[0].0
        } else {
            r matches Ok(Expression::Call(g, v)) && g == f && v@ == xs
        },
    }
}

impl ArgumentList {
    /// Removes and returns the first argument with the given keyword.
    pub fn take(&mut self, keyword: &String) -> (r: Option<Expression>)
        ensures
            ({
                let j = argument_index(arguments_view(old(self).entries@), keyword@);
                if 0 <= j < old(self).entries@.len() {
                    r == Some(old(self).entries@[j].1) && final(self).entries@
                        == old(self).entries@.remove(j)
                } else {
                    r is None && final(self).entries@ == old(self).entries@
                }
            }),
    {
        let ghost d = arguments_view(self.entries@);
        let mut j: usize = 0;
        while j < self.entries.len() && self.entries[j].0 != *keyword
            invariant
                0 <= j <= self.entries.len(),
                d == arguments_view(self.entries@),
                forall|m: int| 0 <= m < j ==> (#[trigger] d[m]).0 != keyword@,
            decreases self.entries.len() - j,
        {
            assert(d[j as int].0 != keyword@);
            j = j + 1;
        }
        if j == self.entries.len() {
            assert(!exists|c: int| is_first_argument(d, keyword@, c));
            None
        } else {
            proof {
                assert(d[j as int].0 == keyword@);
                lemma_first_argument_unique(d, keyword@, j as int);
            }
            let (_, e) = self.entries.remove(j);
            Some(e)
        }
    }
}

/// Positional arguments already resolved to values, as a bytecode
/// interpreter hands them over: one per parameter, in declaration order.
#[derive(Debug)]
pub struct VmArgumentList {
    pub values: Vec<Value>,
}

impl Function {
    /// Builds the call node: each parameter, in order, takes the first
    /// remaining argument with its keyword. Fails when a parameter finds no
    /// argument, or when an argument is left that no parameter took.
    #[verifier::loop_isolation(false)]
    pub fn compile(&self, arguments: ArgumentList) -> (r: Result<Expression, CompileError>)
        requires
            forall|i: int| 0 <= i < arguments.entries@.len() ==> (#[trigger] arguments.entries@[i]).1.wf(),
        ensures
            compiled(*self, arguments_view(arguments.entries@), r),
            r matches Ok(e) ==> e.wf(),
    {
        let ghost kws = keywords(*self);
        let ghost orig = arguments_view(arguments.entries@);
        let params = self.parameters();
        let mut args = arguments;
        let mut bound: Vec<Expression> = Vec::new();
        let mut i: usize = 0;
        while i < params.len()
            invariant
                0 <= i <= params.len(),
                params@.len() == kws.len(),
                forall|k: int| 0 <= k < params@.len() ==> (#[trigger] params@[k]).keyword@ == kws[k],
                bind(kws.take(i as int), orig) == Some((bound@, arguments_view(args.entries@))),
                bound@.len() == i,
                forall|k: int| 0 <= k < args.entries@.len() ==> (#[trigger] args.entries@[k]).1.wf(),
                forall|k: int| 0 <= k < bound@.len() ==> (#[trigger] bound@[k]).wf(),
            decreases params.len() - i,
        {
            let keyword = params[i].keyword.to_owned();
            let ghost before = args.entries@;
            proof {
                assert(kws.take(i as int + 1).drop_last() =~= kws.take(i as int));
                assert(kws.take(i as int + 1).last() == keyword@);
            }
            match args.take(&keyword) {
                Some(e) => {
                    proof {
                        let j = argument_index(arguments_view(before), keyword@);
                        assert(arguments_view(before.remove(j)) =~= arguments_view(before).remove(j));
                        assert(before[j].1.wf());
                        assert forall|k: int| 0 <= k < args.entries@.len() implies (#[trigger] args.entries@[k]).1.wf() by {
                            if k < j {
                                assert(args.entries@[k] == before[k]);
                            } else {
                                assert(args.entries@[k] == before[k + 1]);
                            }
                        }
                    }
                    bound.push(e);
                },
                None => {
                    proof {
                        let t = kws.take(i as int + 1);
                        assert(t.len() > 0);
                        assert(bind(t.drop_last(), orig) == Some((bound@, arguments_view(before))));
                        assert(bind(t, orig) is None);
                        lemma_bind_none(kws, orig, i as int + 1);
                        assert(binding_fails_at(kws, orig, i as int));
                    }
                    return Err(CompileError::MissingArgument {
                        function: self.identifier().to_owned(),
                        keyword,
                    });
                },
            }
            i = i + 1;
        }
        assert(kws.take(i as int) =~= kws);
        if args.entries.len() > 0 {
            let keyword = args.entries[0].0.clone();
            assert(arguments_view(args.entries@)[0].0 == keyword@);
            return Err(CompileError::UnknownKeyword { function: self.identifier().to_owned(), keyword });
        }
        Ok(Expression::Call(*self, bound))
    }

    /// Checks a call's argument kinds, known before any record is evaluated,
    /// against the parameters. A call is rejected when an argument's kind
    /// shares no shape with its parameter's kind; otherwise the call's type
    /// is the function's result kind, fallible when some argument's kind is
    /// wider than its parameter accepts.
    pub fn check_argument_kinds(&self, kinds: &Vec<Kind>) -> (r: Result<TypeDef, CompileError>)
        requires
            kinds@.len() == arity(*self),
        ensures
            r is Err <==> exists|i: int|
                0 <= i < kinds@.len() && !shares_tag((#[trigger] kinds@[i])@, parameter_tags(*self)[i]),
            r matches Err(e) ==> (e matches CompileError::KindMismatch { function, keyword, got, expected }
                && function@ == name_of(*self) && exists|i: int|
                0 <= i < kinds@.len() && keyword@ == keywords(*self)[i] && got == kinds@[i] && expected@
                    == parameter_tags(*self)[i] && !shares_tag(kinds@[i]@, parameter_tags(*self)[i])
                    && forall|k: int| 0 <= k < i ==> shares_tag((#[trigger] kinds@[k])@, parameter_tags(*self)[k])),
            r matches Ok(td) ==> td.kind@ == result_tags(*self) && td.fallible == exists|i: int|
                0 <= i < kinds@.len() && !(#[trigger] kinds@[i])@.subset_of(parameter_tags(*self)[i]),
    {
        let params = self.parameters();
        let mut fallible = false;
        let mut i: usize = 0;
        while i < kinds.len()
            invariant
                0 <= i <= kinds.len(),
                params@.len() == kinds@.len(),
                forall|k: int| 0 <= k < params@.len() ==> (#[trigger] params@[k]).kind@ == parameter_tags(*self)[k],
                forall|k: int| 0 <= k < params@.len() ==> (#[trigger] params@[k]).keyword@ == keywords(*self)[k],
                parameter_tags(*self).len() == kinds@.len(),
                forall|k: int| 0 <= k < i ==> shares_tag((#[trigger] kinds@[k])@, parameter_tags(*self)[k]),
                fallible == exists|k: int|
                    0 <= k < i && !(#[trigger] kinds@[k])@.subset_of(parameter_tags(*self)[k]),
            decreases kinds.len() - i,
        {
            let meets = params[i].kind.intersects(&kinds[i]);
            proof {
                if meets {
                    let t = choose|t: Tag| params@[i as int].kind@.contains(t) && kinds@[i as int]@.contains(t);
                    assert(kinds@[i as int]@.contains(t) && parameter_tags(*self)[i as int].contains(t));
                } else {
                    assert forall|t: Tag| kinds@[i as int]@.contains(t) implies !parameter_tags(*self)[i as int].contains(t) by {
                        if parameter_tags(*self)[i as int].contains(t) {
                            assert(params@[i as int].kind@.contains(t));
                        }
                    }
                }
            }
            if !meets {
                return Err(CompileError::KindMismatch {
                    function: self.identifier().to_owned(),
                    keyword: params[i].keyword.to_owned(),
                    got: kinds[i],
                    expected: params[i].kind,
                });
            }
            if !params[i].kind.contains(&kinds[i]) {
                fallible = true;
            }
            i = i + 1;
        }
        Ok(TypeDef { kind: self.result_kind(), fallible })
    }

    /// Runs the function on arguments resolved by a bytecode interpreter,
    /// with `now` as the clock reading.
    pub fn call_by_vm_at(&self, _ctx: &Context, args: VmArgumentList, now: Timestamp) -> (r: Result<
        Value,
        ExpressionError,
    >)
        requires
            args.values@.len() == arity(*self),
        ensures
            outcome(r) == apply(*self, views(args.values@), now),
    {
        self.call(args.values, now)
    }

    /// Runs the function on arguments resolved by a bytecode interpreter,
    /// reading the clock for `now`.
    pub fn call_by_vm(&self, ctx: &Context, args: VmArgumentList) -> (r: Result<Value, ExpressionError>)
        requires
            args.values@.len() == arity(*self),
        ensures
            exists|now: Timestamp|
                now.nanos < 1_000_000_000 && outcome(r) == apply(*self, views(args.values@), now),
    {
        let now = clock_now();
        self.call_by_vm_at(ctx, args, now)
    }
}

} // verus!
