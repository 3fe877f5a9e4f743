use vstd::prelude::*;
use crate::value::{Datum, Value};

verus! {

/// The primitive shapes a value can take.
#[derive(Clone, Copy, Debug, PartialEq, Eq, Structural)]
pub enum Tag {
    Null,
    Boolean,
    Integer,
    Float,
    Bytes,
    Timestamp,
    Regex,
    Array,
    Object,
}

/// The shape of a datum.
pub open spec fn tag_of(d: Datum) -> Tag {
    match d {
        Datum::Null => Tag::Null,
        Datum::Boolean(_) => Tag::Boolean,
        Datum::Integer(_) => Tag::Integer,
        Datum::Float(_) => Tag::Float,
        Datum::Bytes(_) => Tag::Bytes,
        Datum::Timestamp(_) => Tag::Timestamp,
        Datum::Regex(_) => Tag::Regex,
        Datum::Array(_) => Tag::Array,
        Datum::Object(_) => Tag::Object,
    }
}

/// A set of shapes that an expression may produce. Array and object shapes
/// place no constraint on their elements.
#[derive(Clone, Copy, Debug, PartialEq, Eq, Structural)]
pub struct Kind {
    pub null: bool,
    pub boolean: bool,
    pub integer: bool,
    pub float: bool,
    pub bytes: bool,
    pub timestamp: bool,
    pub regex: bool,
    pub array: bool,
    pub object: bool,
}

impl Kind {
    pub open spec fn has(self, t: Tag) -> bool {
        match t {
            Tag::Null => self.null,
            Tag::Boolean => self.boolean,
            Tag::Integer => self.integer,
            Tag::Float => self.float,
            Tag::Bytes => self.bytes,
            Tag::Timestamp => self.timestamp,
            Tag::Regex => self.regex,
            Tag::Array => self.array,
            Tag::Object => self.object,
        }
    }

    /// The shapes this kind admits.
    pub open spec fn view(self) -> Set<Tag> {
        Set::new(|t: Tag| self.has(t))
    }

    /// The kind that admits no shape.
    pub fn never() -> (r: Kind)
        ensures
            r@ == Set::<Tag>::empty(),
    {
        let r = Kind {
            null: false,
            boolean: false,
            integer: false,
            float: false,
            bytes: false,
            timestamp: false,
            regex: false,
            array: false,
            object: false,
        };
        assert(r@ =~= Set::<Tag>::empty());
        r
    }

    /// The kind that admits every shape: the top of the lattice.
    pub fn any() -> (r: Kind)
        ensures
            r@ == Set::<Tag>::full(),
    {
        let r = Kind {
            null: true,
            boolean: true,
            integer: true,
            float: true,
            bytes: true,
            timestamp: true,
            regex: true,
            array: true,
            object: true,
        };
        assert(r@ =~= Set::<Tag>::full());
        r
    }

    /// The kind that admits exactly one shape.
    pub fn single(t: Tag) -> (r: Kind)
        ensures
            r@ == set![t],
    {
        let r = Kind {
            null: t == Tag::Null,
            boolean: t == Tag::Boolean,
            integer: t == Tag::Integer,
            float: t == Tag::Float,
            bytes: t == Tag::Bytes,
            timestamp: t == Tag::Timestamp,
            regex: t == Tag::Regex,
            array: t == Tag::Array,
            object: t == Tag::Object,
        };
        assert(r@ =~= set![t]);
        r
    }

    pub fn boolean() -> (r: Kind)
        ensures
            r@ == set![Tag::Boolean],
    {
        Kind::single(Tag::Boolean)
    }

    pub fn integer() -> (r: Kind)
        ensures
            r@ == set![Tag::Integer],
    {
        Kind::single(Tag::Integer)
    }

    pub fn bytes() -> (r: Kind)
        ensures
            r@ == set![Tag::Bytes],
    {
        Kind::single(Tag::Bytes)
    }

    pub fn timestamp() -> (r: Kind)
        ensures
            r@ == set![Tag::Timestamp],
    {
        Kind::single(Tag::Timestamp)
    }

    pub fn array() -> (r: Kind)
        ensures
            r@ == set![Tag::Array],
    {
        Kind::single(Tag::Array)
    }

    pub fn object() -> (r: Kind)
        ensures
            r@ == set![Tag::Object],
    {
        Kind::single(Tag::Object)
    }

    /// The kind that admits the shapes of either operand.
    pub fn union(&self, other: &Kind) -> (r: Kind)
        ensures
            r@ == self@.union(other@),
    {
        let r = Kind {
            null: self.null || other.null,
            boolean: self.boolean || other.boolean,
            integer: self.integer || other.integer,
            float: self.float || other.float,
            bytes: self.bytes || other.bytes,
            timestamp: self.timestamp || other.timestamp,
            regex: self.regex || other.regex,
            array: self.array || other.array,
            object: self.object || other.object,
        };
        assert(r@ =~= self@.union(other@));
        r
    }

    /// Whether every shape `candidate` admits is admitted by this kind.
    pub fn contains(&self, candidate: &Kind) -> (r: bool)
        ensures
            r == candidate@.subset_of(self@),
    {
        let r = (!candidate.null || self.null) && (!candidate.boolean || self.boolean) && (
        !candidate.integer || self.integer) && (!candidate.float || self.float) && (
        !candidate.bytes || self.bytes) && (!candidate.timestamp || self.timestamp) && (
        !candidate.regex || self.regex) && (!candidate.array || self.array) && (
        !candidate.object || self.object);
        proof {
            if !r {
                if candidate.null && !self.null {
                    assert(candidate@.contains(Tag::Null));
                } else if candidate.boolean && !self.boolean {
                    assert(candidate@.contains(Tag::Boolean));
                } else if candidate.integer && !self.integer {
                    assert(candidate@.contains(Tag::Integer));
                } else if candidate.float && !self.float {
                    assert(candidate@.contains(Tag::Float));
                } else if candidate.bytes && !self.bytes {
                    assert(candidate@.contains(Tag::Bytes));
                } else if candidate.timestamp && !self.timestamp {
                    assert(candidate@.contains(Tag::Timestamp));
                } else if candidate.regex && !self.regex {
                    assert(candidate@.contains(Tag::Regex));
                } else if candidate.array && !self.array {
                    assert(candidate@.contains(Tag::Array));
                } else {
                    assert(candidate@.contains(Tag::Object));
                }
            }
        }
        r
    }

    /// Whether some shape is admitted by both kinds.
    pub fn intersects(&self, other: &Kind) -> (r: bool)
        ensures
            r == exists|t: Tag| self@.contains(t) && other@.contains(t),
    {
        let r = (self.null && other.null) || (self.boolean && other.boolean) || (self.integer
            && other.integer) || (self.float && other.float) || (self.bytes && other.bytes) || (
        self.timestamp && other.timestamp) || (self.regex && other.regex) || (self.array
            && other.array) || (self.object && other.object);
        proof {
            if r {
                if self.null && other.null {
                    assert(self@.contains(Tag::Null));
                } else if self.boolean && other.boolean {
                    assert(self@.contains(Tag::Boolean));
                } else if self.integer && other.integer {
                    assert(self@.contains(Tag::Integer));
                } else if self.float && other.float {
                    assert(self@.contains(Tag::Float));
                } else if self.bytes && other.bytes {
                    assert(self@.contains(Tag::Bytes));
                } else if self.timestamp && other.timestamp {
                    assert(self@.contains(Tag::Timestamp));
                } else if self.regex && other.regex {
                    assert(self@.contains(Tag::Regex));
                } else if self.array && other.array {
                    assert(self@.contains(Tag::Array));
                } else {
                    assert(self@.contains(Tag::Object));
                }
            }
        }
        r
    }
}

impl Value {
    /// The kind that describes exactly this value's shape.
    pub fn kind(&self) -> (r: Kind)
        ensures
            r@ == set![tag_of(self@)],
    {
        let t = match self {
            Value::Null => Tag::Null,
            Value::Boolean(_) => Tag::Boolean,
            Value::Integer(_) => Tag::Integer,
            Value::Float(_) => Tag::Float,
            Value::Bytes(_) => Tag::Bytes,
            Value::Timestamp(_) => Tag::Timestamp,
            Value::Regex(_) => Tag::Regex,
            Value::Array(_) => Tag::Array,
            Value::Object(_) => Tag::Object,
        };
        Kind::single(t)
    }
}

/// The static description of an expression's result: the shapes it may
/// produce, and whether evaluating it may fail.
#[derive(Clone, Copy, Debug, PartialEq, Eq, Structural)]
pub struct TypeDef {
    pub kind: Kind,
    pub fallible: bool,
}

impl TypeDef {
    pub fn boolean() -> (r: TypeDef)
        ensures
            r.kind@ == set![Tag::Boolean],
            !r.fallible,
    {
        TypeDef { kind: Kind::boolean(), fallible: false }
    }

    pub fn integer() -> (r: TypeDef)
        ensures
            r.kind@ == set![Tag::Integer],
            !r.fallible,
    {
        TypeDef { kind: Kind::integer(), fallible: false }
    }

    pub fn timestamp() -> (r: TypeDef)
        ensures
            r.kind@ == set![Tag::Timestamp],
            !r.fallible,
    {
        TypeDef { kind: Kind::timestamp(), fallible: false }
    }

    /// The same kind, marked as never failing.
    pub fn infallible(self) -> (r: TypeDef)
        ensures
            r.kind == self.kind,
            !r.fallible,
    {
        TypeDef { kind: self.kind, fallible: false }
    }

    /// The same kind, marked as possibly failing.
    pub fn fallible(self) -> (r: TypeDef)
        ensures
            r.kind == self.kind,
            r.fallible,
    {
        TypeDef { kind: self.kind, fallible: true }
    }
}

} // verus!
