//! The entry points of the fluent construction API.
use vstd::prelude::*;
use crate::expression::{Constant, Expression, ExpressionModel, FunctionToken, models_of};
use crate::normal::PatternModel;
use crate::pattern::{Conjunction, Disjunction, Negation, Pattern, pattern_models};
use crate::rule::RuleDeclaration;
use crate::statement::{
    RelationConstrainable, RolePlayerConstraint, Statement, StatementModel, ThingModel, ThingStatement,
    TypeModel, TypeVariable, UnboundConceptVariable, UnboundValueVariable, UnboundVariable, empty_thing,
    with_role_player,
};
use crate::value::{Predicate, PredicateOp, Reference, Value};

verus! {

/// The negation of `pattern`.
pub fn not(pattern: Pattern) -> (r: Negation)
    ensures
        r@ == PatternModel::Neg(Box::new(pattern@)),
{
    Negation { pattern: Box::new(pattern) }
}

/// A rule declaration labelled `name`.
pub fn rule(name: &str) -> (r: RuleDeclaration)
    ensures
        r.label@ == name@,
{
    RuleDeclaration::new(String::from_str(name))
}

/// The named variable `$name`.
pub fn var(name: &str) -> (r: UnboundVariable)
    ensures
        r.reference is Name,
        r.reference->Name_0@ == name@,
{
    UnboundVariable { reference: Reference::Name(String::from_str(name)) }
}

/// The named concept variable `$name`.
pub fn cvar(name: &str) -> (r: UnboundConceptVariable)
    ensures
        r.reference is Name,
        r.reference->Name_0@ == name@,
{
    UnboundConceptVariable { reference: Reference::Name(String::from_str(name)) }
}

/// The value variable `?name`.
pub fn vvar(name: &str) -> (r: UnboundValueVariable)
    ensures
        r.name@ == name@,
{
    UnboundValueVariable { name: String::from_str(name) }
}

/// A constant expression.
pub fn constant(value: Value) -> (r: Expression)
    ensures
        r@ == ExpressionModel::Constant(value),
{
    Expression::Constant(Constant { value })
}

/// A hidden type variable labelled `name`, printed as the label alone.
pub fn type_(name: &str) -> (r: TypeVariable)
    ensures
        r@.reference is Anonymous,
        r@.label is Some,
        r@.label->0@ == name@,
        r@.sub is None,
        r@.relates.len() == 0,
        r@.plays.len() == 0,
{
    TypeVariable {
        reference: Reference::Anonymous,
        label: Some(String::from_str(name)),
        sub: None,
        relates: Vec::new(),
        plays: Vec::new(),
    }
}

/// A hidden relation variable with one role player.
pub fn rel(value: RolePlayerConstraint) -> (r: ThingStatement)
    ensures
        r@ == with_role_player(empty_thing(Reference::Anonymous), value),
{
    UnboundConceptVariable::hidden().constrain_role_player(value)
}

pub fn eq(value: Value) -> (r: Predicate)
    ensures
        r == (Predicate { op: PredicateOp::Eq, value }),
{
    Predicate::new(PredicateOp::Eq, value)
}

pub fn neq(value: Value) -> (r: Predicate)
    ensures
        r == (Predicate { op: PredicateOp::Neq, value }),
{
    Predicate::new(PredicateOp::Neq, value)
}

pub fn lt(value: Value) -> (r: Predicate)
    ensures
        r == (Predicate { op: PredicateOp::Lt, value }),
{
    Predicate::new(PredicateOp::Lt, value)
}

pub fn lte(value: Value) -> (r: Predicate)
    ensures
        r == (Predicate { op: PredicateOp::Lte, value }),
{
    Predicate::new(PredicateOp::Lte, value)
}

pub fn gt(value: Value) -> (r: Predicate)
    ensures
        r == (Predicate { op: PredicateOp::Gt, value }),
{
    Predicate::new(PredicateOp::Gt, value)
}

pub fn gte(value: Value) -> (r: Predicate)
    ensures
        r == (Predicate { op: PredicateOp::Gte, value }),
{
    Predicate::new(PredicateOp::Gte, value)
}

/// `contains "<value>"`.
pub fn contains(value: &str) -> (r: Predicate)
    ensures
        r.op == PredicateOp::Contains,
        r.value is Text,
        r.value->Text_0@ == value@,
{
    Predicate::new(PredicateOp::Contains, Value::Text(String::from_str(value)))
}

/// `like "<pattern>"`.
pub fn like(value: &str) -> (r: Predicate)
    ensures
        r.op == PredicateOp::Like,
        r.value is Text,
        r.value->Text_0@ == value@,
{
    Predicate::new(PredicateOp::Like, Value::Text(String::from_str(value)))
}

fn unary(function_name: FunctionToken, arg: Expression) -> (r: Expression)
    ensures
        r@ == ExpressionModel::Function(function_name, seq![arg@]),
{
    let args = vec![arg];
    proof {
        crate::expression::lemma_models_of(args@);
        assert(models_of(args@) =~= seq![arg@]);
    }
    Expression::Function { function_name, args }
}

pub fn abs(arg: Expression) -> (r: Expression)
    ensures
        r@ == ExpressionModel::Function(FunctionToken::Abs, seq![arg@]),
{
    unary(FunctionToken::Abs, arg)
}

pub fn ceil(arg: Expression) -> (r: Expression)
    ensures
        r@ == ExpressionModel::Function(FunctionToken::Ceil, seq![arg@]),
{
    unary(FunctionToken::Ceil, arg)
}

pub fn floor(arg: Expression) -> (r: Expression)
    ensures
        r@ == ExpressionModel::Function(FunctionToken::Floor, seq![arg@]),
{
    unary(FunctionToken::Floor, arg)
}

pub fn round(arg: Expression) -> (r: Expression)
    ensures
        r@ == ExpressionModel::Function(FunctionToken::Round, seq![arg@]),
{
    unary(FunctionToken::Round, arg)
}

/// The largest of `args`.
pub fn max(args: Vec<Expression>) -> (r: Expression)
    ensures
        r@ == ExpressionModel::Function(FunctionToken::Max, models_of(args@)),
{
    Expression::Function { function_name: FunctionToken::Max, args }
}

/// The smallest of `args`.
pub fn min(args: Vec<Expression>) -> (r: Expression)
    ensures
        r@ == ExpressionModel::Function(FunctionToken::Min, models_of(args@)),
{
    Expression::Function { function_name: FunctionToken::Min, args }
}

/// The conjunction of `patterns`.
pub fn and(patterns: Vec<Pattern>) -> (r: Conjunction)
    ensures
        r@ == PatternModel::Conj(pattern_models(patterns@)),
{
    Conjunction::new(patterns)
}

/// The disjunction of `patterns`; a single pattern stands for itself.
pub fn or(patterns: Vec<Pattern>) -> (r: Pattern)
    ensures
        patterns.len() == 1 ==> r@ == patterns@[0]@,
        patterns.len() != 1 ==> r@ == PatternModel::Disj(pattern_models(patterns@)),
{
    if patterns.len() == 1 {
        let mut p = patterns;
        let x = p.pop().unwrap();
        x
    } else {
        Pattern::Disjunction(Disjunction::new(patterns))
    }
}

impl Pattern {
    /// The pattern of one thing statement.
    pub fn from_thing(t: ThingStatement) -> (r: Pattern)
        ensures
            r@ == PatternModel::Stmt(StatementModel::Thing(t@)),
    {
        Pattern::Statement(Statement::Thing(t))
    }

    /// The pattern of a conjunction.
    pub fn from_conjunction(c: Conjunction) -> (r: Pattern)
        ensures
            r@ == c@,
    {
        Pattern::Conjunction(c)
    }

    /// The pattern of a negation.
    pub fn from_negation(n: Negation) -> (r: Pattern)
        ensures
            r@ == n@,
    {
        Pattern::Negation(n)
    }
}

impl TypeVariable {
    /// This statement as a pattern.
    pub fn into_pattern(self) -> (r: Pattern)
        ensures
            r@ == PatternModel::Stmt(StatementModel::Type(self@)),
    {
        Pattern::Statement(self.into_bound_variable())
    }
}

} // verus!
