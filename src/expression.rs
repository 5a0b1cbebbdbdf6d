//! Arithmetic expressions that a value variable can be assigned.
use vstd::prelude::*;
use crate::text::{join, lemma_join_push};
use crate::value::{Value, value_text};

verus! {

/// The built-in functions of expressions.
#[derive(Clone, Copy, Debug, PartialEq, Eq, Structural)]
pub enum FunctionToken {
    Abs,
    Ceil,
    Floor,
    Max,
    Min,
    Round,
}

/// The arithmetic operators of expressions.
#[derive(Clone, Copy, Debug, PartialEq, Eq, Structural)]
pub enum ArithmeticOperator {
    Add,
    Subtract,
    Multiply,
    Divide,
    Modulo,
    Power,
}

/// A constant operand.
#[derive(Debug)]
pub struct Constant {
    pub value: Value,
}

/// An expression: a constant, a value variable `?name`, or a function call.
#[derive(Debug)]
pub enum Expression {
    Constant(Constant),
    Variable(String),
    Function { function_name: FunctionToken, args: Vec<Expression> },
    Operation { op: ArithmeticOperator, left: Box<Expression>, right: Box<Expression> },
}

/// The mathematical form of an expression.
pub enum ExpressionModel {
    Constant(Value),
    Variable(String),
    Function(FunctionToken, Seq<ExpressionModel>),
    Operation(ArithmeticOperator, Box<ExpressionModel>, Box<ExpressionModel>),
}

pub open spec fn model_of(e: Expression) -> ExpressionModel
    decreases e,
{
    match e {
        Expression::Constant(c) => ExpressionModel::Constant(c.value),
        Expression::Variable(n) => ExpressionModel::Variable(n),
        Expression::Function { function_name, args } => ExpressionModel::Function(function_name, models_of(args@)),
        Expression::Operation { op, left, right } =>
            ExpressionModel::Operation(op, Box::new(model_of(*left)), Box::new(model_of(*right))),
    }
}

pub open spec fn models_of(s: Seq<Expression>) -> Seq<ExpressionModel>
    decreases s,
{
    if s.len() == 0 {
        Seq::empty()
    } else {
        models_of(s.drop_last()).push(model_of(s.last()))
    }
}

impl View for Expression {
    type V = ExpressionModel;

    open spec fn view(&self) -> ExpressionModel {
        model_of(*self)
    }
}

pub open spec fn function_text(f: FunctionToken) -> Seq<char> {
    match f {
        FunctionToken::Abs => "abs"@,
        FunctionToken::Ceil => "ceil"@,
        FunctionToken::Floor => "floor"@,
        FunctionToken::Max => "max"@,
        FunctionToken::Min => "min"@,
        FunctionToken::Round => "round"@,
    }
}

pub open spec fn operator_text(op: ArithmeticOperator) -> Seq<char> {
    match op {
        ArithmeticOperator::Add => "+"@,
        ArithmeticOperator::Subtract => "-"@,
        ArithmeticOperator::Multiply => "*"@,
        ArithmeticOperator::Divide => "/"@,
        ArithmeticOperator::Modulo => "%"@,
        ArithmeticOperator::Power => "^"@,
    }
}

/// Printed form: the constant, `?name`, `name(arg, arg, ...)`, or `(left op right)`.
pub open spec fn expression_text(e: ExpressionModel) -> Seq<char>
    decreases e,
{
    match e {
        ExpressionModel::Constant(v) => value_text(v),
        ExpressionModel::Variable(n) => "?"@ + n@,
        ExpressionModel::Function(f, args) => function_text(f) + "("@ + join(expression_texts(args), ", "@) + ")"@,
        ExpressionModel::Operation(op, l, r) =>
            "("@ + expression_text(*l) + " "@ + operator_text(op) + " "@ + expression_text(*r) + ")"@,
    }
}

pub open spec fn expression_texts(s: Seq<ExpressionModel>) -> Seq<Seq<char>>
    decreases s,
{
    if s.len() == 0 {
        Seq::empty()
    } else {
        expression_texts(s.drop_last()).push(expression_text(s.last()))
    }
}

/// The variables an expression mentions, as printed, left to right.
pub open spec fn expression_variables(e: ExpressionModel) -> Seq<Seq<char>>
    decreases e,
{
    match e {
        ExpressionModel::Constant(v) => crate::value::value_names(v),
        ExpressionModel::Variable(n) => seq!["?"@ + n@],
        ExpressionModel::Function(_, args) => expressions_variables(args),
        ExpressionModel::Operation(_, l, r) => expression_variables(*l) + expression_variables(*r),
    }
}

pub open spec fn expressions_variables(s: Seq<ExpressionModel>) -> Seq<Seq<char>>
    decreases s,
{
    if s.len() == 0 {
        Seq::empty()
    } else {
        expressions_variables(s.drop_last()) + expression_variables(s.last())
    }
}

pub proof fn lemma_models_of(s: Seq<Expression>)
    ensures
        models_of(s).len() == s.len(),
        forall|i: int| 0 <= i < s.len() ==> #[trigger] models_of(s)[i] == model_of(s[i]),
    decreases s.len(),
{
    if s.len() > 0 {
        lemma_models_of(s.drop_last());
    }
}

fn operator_str(op: ArithmeticOperator) -> (r: &'static str)
    ensures
        r@ == operator_text(op),
{
    match op {
        ArithmeticOperator::Add => "+",
        ArithmeticOperator::Subtract => "-",
        ArithmeticOperator::Multiply => "*",
        ArithmeticOperator::Divide => "/",
        ArithmeticOperator::Modulo => "%",
        ArithmeticOperator::Power => "^",
    }
}

fn function_str(f: FunctionToken) -> (r: &'static str)
    ensures
        r@ == function_text(f),
{
    match f {
        FunctionToken::Abs => "abs",
        FunctionToken::Ceil => "ceil",
        FunctionToken::Floor => "floor",
        FunctionToken::Max => "max",
        FunctionToken::Min => "min",
        FunctionToken::Round => "round",
    }
}

impl Expression {
    /// Appends the printed form.
    pub fn write_to(&self, s: &mut String)
        ensures
            final(s)@ == old(s)@ + expression_text(self@),
        decreases self@,
    {
        match self {
            Expression::Constant(c) => c.value.write_to(s),
            Expression::Variable(n) => {
                s.append("?");
                s.append(n.as_str());
            },
            Expression::Function { function_name, args } => {
                s.append(function_str(*function_name));
                s.append("(");
                let ghost base = s@;
                let ghost ms = models_of(args@);
                proof { lemma_models_of(args@); }
                assert(self@ == ExpressionModel::Function(*function_name, models_of(args@)));
                let mut i: usize = 0;
                while i < args.len()
                    invariant
                        i <= args.len(),
                        self@ == ExpressionModel::Function(*function_name, models_of(args@)),
                        ms == models_of(args@),
                        ms.len() == args.len(),
                        forall|k: int| 0 <= k < args.len() ==> #[trigger] ms[k] == model_of(args@[k]),
                        s@ == base + join(expression_texts(ms.take(i as int)), ", "@),
                    decreases args.len() - i,
                {
                    proof {
                        assert(ms.take(i + 1).drop_last() =~= ms.take(i as int));
                        lemma_join_push(expression_texts(ms.take(i as int)), expression_text(ms[i as int]), ", "@);
                    }
                    if i > 0 {
                        s.append(", ");
                    }
                    proof {
                        let m = ExpressionModel::Function(*function_name, models_of(args@));
                        assert(self@ == m);
                        assert(models_of(args@)[i as int] == args[i as int]@);
                        assert(decreases_to!(m => m->Function_1));
                        assert(decreases_to!(m->Function_1 => m->Function_1[i as int]));
                    }
                    args[i].write_to(s);
                    i = i + 1;
                }
                assert(ms.take(i as int) =~= ms);
                s.append(")");
            },
            Expression::Operation { op, left, right } => {
                assert(decreases_to!(self@ => self@->Operation_1));
                assert(decreases_to!(self@ => self@->Operation_2));
                s.append("(");
                left.write_to(s);
                s.append(" ");
                s.append(operator_str(*op));
                s.append(" ");
                right.write_to(s);
                s.append(")");
            },
        }
        assert(final(s)@ =~= old(s)@ + expression_text(self@));
    }

    /// The variables the expression mentions, as printed, left to right.
    pub fn variables(&self) -> (r: Vec<String>)
        ensures
            crate::text::strings_view(r@) == expression_variables(self@),
        decreases self@,
    {
        let mut v: Vec<String> = Vec::new();
        match self {
            Expression::Constant(c) => {
                if let Value::Variable(n) = &c.value {
                    v.push(crate::text::concat("$", n.as_str()));
                }
            },
            Expression::Variable(n) => {
                v.push(crate::text::concat("?", n.as_str()));
            },
            Expression::Function { function_name, args } => {
                proof { lemma_models_of(args@); }
                assert(self@ == ExpressionModel::Function(*function_name, models_of(args@)));
                let ghost ms = models_of(args@);
                let mut i: usize = 0;
                while i < args.len()
                    invariant
                        i <= args.len(),
                        self@ == ExpressionModel::Function(*function_name, models_of(args@)),
                        ms == models_of(args@),
                        ms.len() == args.len(),
                        forall|k: int| 0 <= k < args.len() ==> #[trigger] ms[k] == model_of(args@[k]),
                        crate::text::strings_view(v@) == expressions_variables(ms.take(i as int)),
                    decreases args.len() - i,
                {
                    proof {
                        let m = ExpressionModel::Function(*function_name, models_of(args@));
                        assert(models_of(args@)[i as int] == args[i as int]@);
                        assert(decreases_to!(m => m->Function_1));
                        assert(decreases_to!(m->Function_1 => m->Function_1[i as int]));
                        assert(ms.take(i + 1).drop_last() =~= ms.take(i as int));
                    }
                    let w = args[i].variables();
                    crate::text::extend_strings(&mut v, &w);
                    i = i + 1;
                }
                assert(ms.take(i as int) =~= ms);
            },
            Expression::Operation { left, right, .. } => {
                assert(decreases_to!(self@ => self@->Operation_1));
                assert(decreases_to!(self@ => self@->Operation_2));
                let a = left.variables();
                let b = right.variables();
                crate::text::extend_strings(&mut v, &a);
                crate::text::extend_strings(&mut v, &b);
            },
        }
        assert(crate::text::strings_view(v@) =~= expression_variables(self@));
        v
    }

    /// An equal copy.
    pub fn copy(&self) -> (r: Expression)
        ensures
            r@ == self@,
        decreases self@,
    {
        match self {
            Expression::Constant(c) => Expression::Constant(Constant { value: c.value.copy() }),
            Expression::Variable(n) => Expression::Variable(n.clone()),
            Expression::Function { function_name, args } => {
                let mut out: Vec<Expression> = Vec::new();
                proof { lemma_models_of(args@); }
                assert(self@ == ExpressionModel::Function(*function_name, models_of(args@)));
                let mut i: usize = 0;
                while i < args.len()
                    invariant
                        i <= args.len(),
                        self@ == ExpressionModel::Function(*function_name, models_of(args@)),
                        out.len() == i,
                        models_of(args@).len() == args.len(),
                        forall|k: int| 0 <= k < args.len() ==> #[trigger] models_of(args@)[k] == model_of(args@[k]),
                        forall|k: int| 0 <= k < i ==> #[trigger] model_of(out@[k]) == model_of(args@[k]),
                    decreases args.len() - i,
                {
                    proof {
                        let m = ExpressionModel::Function(*function_name, models_of(args@));
                        assert(self@ == m);
                        assert(models_of(args@)[i as int] == args[i as int]@);
                        assert(decreases_to!(m => m->Function_1));
                        assert(decreases_to!(m->Function_1 => m->Function_1[i as int]));
                    }
                    let a = args[i].copy();
                    out.push(a);
                    i = i + 1;
                }
                proof {
                    lemma_models_of(out@);
                    assert(models_of(out@) =~= models_of(args@));
                }
                Expression::Function { function_name: *function_name, args: out }
            },
            Expression::Operation { op, left, right } => {
                assert(decreases_to!(self@ => self@->Operation_1));
                assert(decreases_to!(self@ => self@->Operation_2));
                let l = left.copy();
                let r = right.copy();
                Expression::Operation { op: *op, left: Box::new(l), right: Box::new(r) }
            },
        }
    }
}

} // verus!
