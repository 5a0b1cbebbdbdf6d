//! References, literal values and predicates: the leaves of every statement.
use vstd::prelude::*;
use crate::text::{integer_text, push_integer};

verus! {

/// What a variable slot refers to.
#[derive(Debug)]
pub enum Reference {
    /// A user-chosen variable, printed as `$name`.
    Name(String),
    /// A variable the system made up; it is never printed.
    Anonymous,
    /// A schema type's name rather than a variable.
    Label(String),
}

/// A literal or a named variable used as an operand.
#[derive(Debug)]
pub enum Value {
    Long(i64),
    Boolean(bool),
    Text(String),
    Variable(String),
}

/// The comparison and string operators of the language.
#[derive(Clone, Copy, Debug, PartialEq, Eq, Structural)]
pub enum PredicateOp {
    Eq,
    Neq,
    Lt,
    Lte,
    Gt,
    Gte,
    Contains,
    Like,
}

/// An operator with its operand.
#[derive(Debug)]
pub struct Predicate {
    pub op: PredicateOp,
    pub value: Value,
}

/// The printed token of each operator.
pub open spec fn op_text(op: PredicateOp) -> Seq<char> {
    match op {
        PredicateOp::Eq => "="@,
        PredicateOp::Neq => "!="@,
        PredicateOp::Lt => "<"@,
        PredicateOp::Lte => "<="@,
        PredicateOp::Gt => ">"@,
        PredicateOp::Gte => ">="@,
        PredicateOp::Contains => "contains"@,
        PredicateOp::Like => "like"@,
    }
}

/// `$name` for a named reference, the label for a label, nothing for an anonymous one.
pub open spec fn reference_text(r: Reference) -> Seq<char> {
    match r {
        Reference::Name(n) => "$"@ + n@,
        Reference::Anonymous => Seq::empty(),
        Reference::Label(l) => l@,
    }
}

pub open spec fn value_text(v: Value) -> Seq<char> {
    match v {
        Value::Long(i) => integer_text(i as int),
        Value::Boolean(b) => if b { "true"@ } else { "false"@ },
        Value::Text(s) => "\""@ + s@ + "\""@,
        Value::Variable(n) => "$"@ + n@,
    }
}

/// `<op> <operand>`.
pub open spec fn predicate_text(p: Predicate) -> Seq<char> {
    op_text(p.op) + " "@ + value_text(p.value)
}

/// The named variables that a value mentions, as printed.
pub open spec fn value_names(v: Value) -> Seq<Seq<char>> {
    match v {
        Value::Variable(n) => seq!["$"@ + n@],
        _ => Seq::empty(),
    }
}

/// The printed token of an operator.
pub fn op_token(op: PredicateOp) -> (r: &'static str)
    ensures
        r@ == op_text(op),
{
    match op {
        PredicateOp::Eq => "=",
        PredicateOp::Neq => "!=",
        PredicateOp::Lt => "<",
        PredicateOp::Lte => "<=",
        PredicateOp::Gt => ">",
        PredicateOp::Gte => ">=",
        PredicateOp::Contains => "contains",
        PredicateOp::Like => "like",
    }
}

impl Reference {
    /// Whether this is a user-named variable.
    pub fn is_name(&self) -> (r: bool)
        ensures
            r == (*self is Name),
    {
        match self {
            Reference::Name(_) => true,
            _ => false,
        }
    }

    /// An equal copy.
    pub fn copy(&self) -> (r: Reference)
        ensures
            r == *self,
    {
        match self {
            Reference::Name(n) => Reference::Name(n.clone()),
            Reference::Anonymous => Reference::Anonymous,
            Reference::Label(l) => Reference::Label(l.clone()),
        }
    }

    /// Appends the printed form.
    pub fn write_to(&self, s: &mut String)
        ensures
            final(s)@ == old(s)@ + reference_text(*self),
    {
        match self {
            Reference::Name(n) => {
                s.append("$");
                s.append(n.as_str());
            },
            Reference::Anonymous => {},
            Reference::Label(l) => s.append(l.as_str()),
        }
        assert(final(s)@ =~= old(s)@ + reference_text(*self));
    }

    /// The printed form.
    pub fn to_text(&self) -> (r: String)
        ensures
            r@ == reference_text(*self),
    {
        let mut s = String::new();
        self.write_to(&mut s);
        assert(s@ =~= reference_text(*self));
        s
    }
}

impl Value {
    /// An equal copy.
    pub fn copy(&self) -> (r: Value)
        ensures
            r == *self,
    {
        match self {
            Value::Long(i) => Value::Long(*i),
            Value::Boolean(b) => Value::Boolean(*b),
            Value::Text(t) => Value::Text(t.clone()),
            Value::Variable(n) => Value::Variable(n.clone()),
        }
    }

    /// Appends the printed form.
    pub fn write_to(&self, s: &mut String)
        ensures
            final(s)@ == old(s)@ + value_text(*self),
    {
        match self {
            Value::Long(i) => push_integer(s, *i),
            Value::Boolean(b) => if *b { s.append("true") } else { s.append("false") },
            Value::Text(t) => {
                s.append("\"");
                s.append(t.as_str());
                s.append("\"");
            },
            Value::Variable(n) => {
                s.append("$");
                s.append(n.as_str());
            },
        }
        assert(final(s)@ =~= old(s)@ + value_text(*self));
    }
}

impl Predicate {
    pub fn new(op: PredicateOp, value: Value) -> (r: Predicate)
        ensures
            r == (Predicate { op, value }),
    {
        Predicate { op, value }
    }

    /// An equal copy.
    pub fn copy(&self) -> (r: Predicate)
        ensures
            r == *self,
    {
        Predicate { op: self.op, value: self.value.copy() }
    }

    /// Appends the printed form.
    pub fn write_to(&self, s: &mut String)
        ensures
            final(s)@ == old(s)@ + predicate_text(*self),
    {
        s.append(op_token(self.op));
        s.append(" ");
        self.value.write_to(s);
        assert(final(s)@ =~= old(s)@ + predicate_text(*self));
    }
}

} // verus!
