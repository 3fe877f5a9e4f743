use vstd::prelude::*;

verus! {

broadcast use vstd::std_specs::vec::group_vec_axioms;

/// A UTC instant: whole seconds since the Unix epoch plus a sub-second part.
#[derive(Clone, Copy, Debug, PartialEq, Eq, Structural)]
pub struct Timestamp {
    pub seconds: i64,
    pub nanos: u32,
}

/// A runtime datum.
///
/// Floats are held by their IEEE-754 bit pattern, which gives them a total,
/// reflexive equality. Objects keep their entries in insertion order; that
/// order does not take part in equality.
#[derive(Debug)]
pub enum Value {
    Null,
    Boolean(bool),
    Integer(i64),
    Float(u64),
    Bytes(Vec<u8>),
    Timestamp(Timestamp),
    Regex(String),
    Array(Vec<Value>),
    Object(Vec<(String, Value)>),
}

/// The mathematical content of a `Value`.
pub enum Datum {
    Null,
    Boolean(bool),
    Integer(i64),
    Float(u64),
    Bytes(Seq<u8>),
    Timestamp(Timestamp),
    Regex(Seq<char>),
    Array(Seq<Datum>),
    Object(Seq<(Seq<char>, Datum)>),
}

impl Value {
    pub open spec fn view(self) -> Datum
        decreases self,
    {
        match self {
            Value::Null => Datum::Null,
            Value::Boolean(b) => Datum::Boolean(b),
            Value::Integer(i) => Datum::Integer(i),
            Value::Float(f) => Datum::Float(f),
            Value::Bytes(b) => Datum::Bytes(b@),
            Value::Timestamp(t) => Datum::Timestamp(t),
            Value::Regex(r) => Datum::Regex(r@),
            Value::Array(xs) => Datum::Array(
                Seq::new(xs.len() as nat, |i: int| if 0 <= i < xs.len() { xs@[i].view() } else { Datum::Null }),
            ),
            Value::Object(es) => Datum::Object(
                Seq::new(es.len() as nat, |i: int| if 0 <= i < es.len() { (es@[i].0@, es@[i].1.view()) } else { (Seq::empty(), Datum::Null) }),
            ),
        }
    }
}


/// The index of the first entry of `es` whose key is `k`, or -1 when no
/// entry has that key.
pub open spec fn key_index(es: Seq<(Seq<char>, Datum)>, k: Seq<char>) -> int {
    if exists|j: int| is_first_key(es, k, j) {
        choose|j: int| is_first_key(es, k, j)
    } else {
        -1
    }
}

/// `j` is the first index of `es` whose key is `k`.
pub open spec fn is_first_key(es: Seq<(Seq<char>, Datum)>, k: Seq<char>, j: int) -> bool {
    &&& 0 <= j < es.len()
    &&& es[j].0 == k
    &&& forall|m: int| 0 <= m < j ==> (#[trigger] es[m]).0 != k
}

proof fn lemma_first_key_unique(es: Seq<(Seq<char>, Datum)>, k: Seq<char>, j: int)
    requires
        is_first_key(es, k, j),
    ensures
        key_index(es, k) == j,
{
    let c = choose|c: int| is_first_key(es, k, c);
    if c < j {
        assert(es[c].0 != k);
    } else if j < c {
        assert(es[j].0 != k);
    }
}

proof fn lemma_no_key(es: Seq<(Seq<char>, Datum)>, k: Seq<char>)
    requires
        forall|m: int| 0 <= m < es.len() ==> (#[trigger] es[m]).0 != k,
    ensures
        key_index(es, k) == -1,
{
}

/// Structural equality of data. Arrays are equal element by element. Objects
/// are equal when they have as many entries, each entry of either has an
/// entry with that key in the other (the first such entry when a key is
/// repeated), and the two values are equal; where entries stand does not
/// matter. All
/// other data are equal when they are identical.
pub open spec fn datum_eq(a: Datum, b: Datum) -> bool
    decreases a,
{
    match a {
        Datum::Array(xs) => match b {
            Datum::Array(ys) => xs.len() == ys.len() && forall|i: int|
                0 <= i < xs.len() ==> datum_eq(#[trigger] xs[i], ys[i]),
            _ => false,
        },
        Datum::Object(xs) => match b {
            Datum::Object(ys) => xs.len() == ys.len() && (forall|i: int|
                #![trigger xs[i]]
                0 <= i < xs.len() ==> {
                    let j = key_index(ys, xs[i].0);
                    0 <= j < ys.len() && datum_eq(xs[i].1, ys[j].1)
                }) && (forall|i: int|
                    #![trigger ys[i]]
                    0 <= i < ys.len() ==> {
                        let j = key_index(xs, ys[i].0);
                        0 <= j < xs.len() && datum_eq(xs[j].1, ys[i].1)
                    }),
            _ => false,
        },
        _ => a == b,
    }
}

impl Value {
    /// Structural equality (see `datum_eq`).
    #[verifier::loop_isolation(false)]
    pub fn equals(&self, other: &Value) -> (r: bool)
        ensures
            r == datum_eq(self@, other@),
        decreases self,
    {
        match (self, other) {
            (Value::Null, Value::Null) => true,
            (Value::Boolean(a), Value::Boolean(b)) => *a == *b,
            (Value::Integer(a), Value::Integer(b)) => *a == *b,
            (Value::Float(a), Value::Float(b)) => *a == *b,
            (Value::Bytes(a), Value::Bytes(b)) => bytes_equal(a, b),
            (Value::Timestamp(a), Value::Timestamp(b)) => *a == *b,
            (Value::Regex(a), Value::Regex(b)) => *a == *b,
            (Value::Array(xs), Value::Array(ys)) => {
                if xs.len() != ys.len() {
                    return false;
                }
                let mut i: usize = 0;
                while i < xs.len()
                    invariant
                        0 <= i <= xs.len(),
                        xs.len() == ys.len(),
                        forall|k: int| 0 <= k < i ==> datum_eq(#[trigger] xs@[k]@, ys@[k]@),
                    decreases xs.len() - i,
                {
                    proof {
                        assert(decreases_to!(*xs => xs[i as int]));
                    }
                    if !xs[i].equals(&ys[i]) {
                        assert(self@->Array_0[i as int] == xs@[i as int]@);
                        assert(other@->Array_0[i as int] == ys@[i as int]@);
                        return false;
                    }
                    i = i + 1;
                }
                assert forall|k: int| 0 <= k < xs.len() implies datum_eq(
                    #[trigger] self@->Array_0[k],
                    other@->Array_0[k],
                ) by {
                    assert(self@->Array_0[k] == xs@[k]@);
                    assert(other@->Array_0[k] == ys@[k]@);
                }
                true
            },
            (Value::Object(xs), Value::Object(ys)) => {
                if xs.len() != ys.len() {
                    return false;
                }
                let ghost dx = self@->Object_0;
                let ghost dy = other@->Object_0;
                assert(forall|k: int| 0 <= k < dx.len() ==> #[trigger] dx[k] == (xs@[k].0@, xs@[k].1@));
                assert(forall|k: int| 0 <= k < dy.len() ==> #[trigger] dy[k] == (ys@[k].0@, ys@[k].1@));
                let mut i: usize = 0;
                while i < xs.len()
                    invariant
                        0 <= i <= xs.len(),
                        forall|k: int|
                            #![trigger dx[k]]
                            0 <= k < i ==> {
                                let j = key_index(dy, dx[k].0);
                                0 <= j < dy.len() && datum_eq(dx[k].1, dy[j].1)
                            },
                    decreases xs.len() - i,
                {
                    assert(xs@[i as int].0@ == dx[i as int].0);
                    assert(entries_view(ys@) =~= dy);
                    let j = match find_key(ys, &xs[i].0) {
                        Some(j) => j,
                        None => {
                            return false;
                        },
                    };
                    proof {
                        assert(decreases_to!(*xs => xs[i as int]));
                    }
                    if !xs[i].1.equals(&ys[j].1) {
                        return false;
                    }
                    i = i + 1;
                }
                let mut i: usize = 0;
                while i < ys.len()
                    invariant
                        0 <= i <= ys.len(),
                        forall|k: int|
                            #![trigger dy[k]]
                            0 <= k < i ==> {
                                let j = key_index(dx, dy[k].0);
                                0 <= j < dx.len() && datum_eq(dx[j].1, dy[k].1)
                            },
                    decreases ys.len() - i,
                {
                    assert(ys@[i as int].0@ == dy[i as int].0);
                    assert(entries_view(xs@) =~= dx);
                    let j = match find_key(xs, &ys[i].0) {
                        Some(j) => j,
                        None => {
                            return false;
                        },
                    };
                    proof {
                        assert(decreases_to!(*xs => xs[j as int]));
                    }
                    if !xs[j].1.equals(&ys[i].1) {
                        return false;
                    }
                    i = i + 1;
                }
                true
            },
            _ => false,
        }
    }

    /// A copy of the value with the same content.
    #[verifier::loop_isolation(false)]
    pub fn duplicate(&self) -> (r: Value)
        ensures
            r@ == self@,
        decreases self,
    {
        match self {
            Value::Null => Value::Null,
            Value::Boolean(b) => Value::Boolean(*b),
            Value::Integer(i) => Value::Integer(*i),
            Value::Float(f) => Value::Float(*f),
            Value::Bytes(b) => Value::Bytes(copy_bytes(b)),
            Value::Timestamp(t) => Value::Timestamp(*t),
            Value::Regex(r) => Value::Regex(r.clone()),
            Value::Array(xs) => {
                let mut out: Vec<Value> = Vec::new();
                let mut i: usize = 0;
                while i < xs.len()
                    invariant
                        0 <= i <= xs.len(),
                        out.len() == i,
                        forall|k: int| 0 <= k < i ==> #[trigger] out@[k]@ == xs@[k]@,
                    decreases xs.len() - i,
                {
                    proof {
                        assert(decreases_to!(*xs => xs[i as int]));
                    }
                    out.push(xs[i].duplicate());
                    i = i + 1;
                }
                let r = Value::Array(out);
                assert forall|k: int| 0 <= k < xs.len() implies r@->Array_0[k] == self@->Array_0[k] by {
                    assert(out@[k]@ == xs@[k]@);
                }
                assert(r@->Array_0 =~= self@->Array_0);
                assert(r@ == self@);
                r
            },
            Value::Object(es) => {
                let mut out: Vec<(String, Value)> = Vec::new();
                let mut i: usize = 0;
                while i < es.len()
                    invariant
                        0 <= i <= es.len(),
                        out.len() == i,
                        forall|k: int| 0 <= k < i ==> (#[trigger] out@[k]).0@ == es@[k].0@ && out@[k].1@ == es@[k].1@,
                    decreases es.len() - i,
                {
                    proof {
                        assert(decreases_to!(*es => es[i as int]));
                    }
                    out.push((es[i].0.clone(), es[i].1.duplicate()));
                    i = i + 1;
                }
                let r = Value::Object(out);
                assert(r@->Object_0 =~= self@->Object_0);
                r
            },
        }
    }
}

fn bytes_equal(a: &Vec<u8>, b: &Vec<u8>) -> (r: bool)
    ensures
        r == (a@ == b@),
{
    if a.len() != b.len() {
        return false;
    }
    let mut i: usize = 0;
    while i < a.len()
        invariant
            0 <= i <= a.len(),
            a.len() == b.len(),
            forall|k: int| 0 <= k < i ==> a@[k] == b@[k],
        decreases a.len() - i,
    {
        if a[i] != b[i] {
            return false;
        }
        i = i + 1;
    }
    assert(a@ =~= b@);
    true
}

fn copy_bytes(a: &Vec<u8>) -> (r: Vec<u8>)
    ensures
        r@ == a@,
{
    let mut out: Vec<u8> = Vec::new();
    let mut i: usize = 0;
    while i < a.len()
        invariant
            0 <= i <= a.len(),
            out@ == a@.subrange(0, i as int),
        decreases a.len() - i,
    {
        out.push(a[i]);
        i = i + 1;
    }
    assert(out@ =~= a@);
    out
}

/// The entries of an object as key and datum pairs.
pub open spec fn entries_view(es: Seq<(String, Value)>) -> Seq<(Seq<char>, Datum)> {
    Seq::new(es.len(), |i: int| (es[i].0@, es[i].1@))
}

/// The index of the first entry whose key is `k`.
pub fn find_key(es: &Vec<(String, Value)>, k: &String) -> (r: Option<usize>)
    ensures
        match r {
            Some(j) => key_index(entries_view(es@), k@) == j && j < es@.len(),
            None => key_index(entries_view(es@), k@) == -1,
        },
{
    let ghost d = entries_view(es@);
    let mut j: usize = 0;
    while j < es.len() && es[j].0 != *k
        invariant
            0 <= j <= es.len(),
            d == entries_view(es@),
            forall|m: int| 0 <= m < j ==> (#[trigger] d[m]).0 != k@,
        decreases es.len() - j,
    {
        assert(d[j as int].0 != k@);
        j = j + 1;
    }
    if j == es.len() {
        proof {
            lemma_no_key(d, k@);
        }
        None
    } else {
        proof {
            assert(d[j as int].0 == k@);
            lemma_first_key_unique(d, k@, j as int);
        }
        Some(j)
    }
}

} // verus!
