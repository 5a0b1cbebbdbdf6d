//! Structural equality of patterns: strings compare by their characters, and a disjunction's
//! kept normal form takes no part.
use vstd::prelude::*;
use crate::expression::{Expression, ExpressionModel, lemma_models_of, model_of, models_of};
use crate::normal::PatternModel;
use crate::pattern::{Disjunction, Pattern, lemma_pattern_models, pattern_model, pattern_models};
use crate::statement::{
    HasConstraint, RelatesConstraint, RolePlayerConstraint, Statement, StatementModel, ThingModel, ThingStatement,
    TypeModel, TypeVariable, ValueModel, ValueStatement,
};
use crate::value::{Predicate, Reference, Value};

verus! {

pub open spec fn same_text(a: Option<String>, b: Option<String>) -> bool {
    match (a, b) {
        (Some(x), Some(y)) => x@ == y@,
        (None, None) => true,
        _ => false,
    }
}

pub open spec fn same_reference(a: Reference, b: Reference) -> bool {
    match (a, b) {
        (Reference::Name(x), Reference::Name(y)) => x@ == y@,
        (Reference::Anonymous, Reference::Anonymous) => true,
        (Reference::Label(x), Reference::Label(y)) => x@ == y@,
        _ => false,
    }
}

pub open spec fn same_value(a: Value, b: Value) -> bool {
    match (a, b) {
        (Value::Long(x), Value::Long(y)) => x == y,
        (Value::Boolean(x), Value::Boolean(y)) => x == y,
        (Value::Text(x), Value::Text(y)) => x@ == y@,
        (Value::Variable(x), Value::Variable(y)) => x@ == y@,
        _ => false,
    }
}

pub open spec fn same_predicate(a: Option<Predicate>, b: Option<Predicate>) -> bool {
    match (a, b) {
        (Some(x), Some(y)) => x.op == y.op && same_value(x.value, y.value),
        (None, None) => true,
        _ => false,
    }
}

pub open spec fn same_has(a: HasConstraint, b: HasConstraint) -> bool {
    same_text(a.type_, b.type_) && same_reference(a.attribute, b.attribute) && same_predicate(a.predicate, b.predicate)
}

pub open spec fn same_role_player(a: RolePlayerConstraint, b: RolePlayerConstraint) -> bool {
    same_text(a.role_type, b.role_type) && same_reference(a.player, b.player)
}

pub open spec fn same_relates(a: RelatesConstraint, b: RelatesConstraint) -> bool {
    a.role@ == b.role@ && same_text(a.overridden, b.overridden)
}

pub open spec fn same_role_players(a: Option<Seq<RolePlayerConstraint>>, b: Option<Seq<RolePlayerConstraint>>) -> bool {
    match (a, b) {
        (Some(x), Some(y)) => x.len() == y.len() && forall|i: int| 0 <= i < x.len() ==> #[trigger] same_role_player(x[i], y[i]),
        (None, None) => true,
        _ => false,
    }
}

pub open spec fn same_thing(a: ThingModel, b: ThingModel) -> bool {
    &&& same_reference(a.reference, b.reference)
    &&& same_text(a.iid, b.iid)
    &&& match (a.isa, b.isa) {
        (Some(x), Some(y)) => same_reference(x, y),
        (None, None) => true,
        _ => false,
    }
    &&& a.has.len() == b.has.len()
    &&& forall|i: int| 0 <= i < a.has.len() ==> #[trigger] same_has(a.has[i], b.has[i])
    &&& same_predicate(a.value, b.value)
    &&& same_role_players(a.relation, b.relation)
}

pub open spec fn same_type(a: TypeModel, b: TypeModel) -> bool {
    &&& same_reference(a.reference, b.reference)
    &&& same_text(a.label, b.label)
    &&& same_text(a.sub, b.sub)
    &&& a.relates.len() == b.relates.len()
    &&& forall|i: int| 0 <= i < a.relates.len() ==> #[trigger] same_relates(a.relates[i], b.relates[i])
    &&& a.plays.len() == b.plays.len()
    &&& forall|i: int| 0 <= i < a.plays.len() ==> #[trigger] a.plays[i]@ == b.plays[i]@
}

pub open spec fn same_expression(a: ExpressionModel, b: ExpressionModel) -> bool
    decreases a,
{
    match (a, b) {
        (ExpressionModel::Constant(x), ExpressionModel::Constant(y)) => same_value(x, y),
        (ExpressionModel::Variable(x), ExpressionModel::Variable(y)) => x@ == y@,
        (ExpressionModel::Function(f, xs), ExpressionModel::Function(g, ys)) => f == g && same_expressions(xs, ys),
        (ExpressionModel::Operation(o, l, r), ExpressionModel::Operation(p, l2, r2)) =>
            o == p && same_expression(*l, *l2) && same_expression(*r, *r2),
        _ => false,
    }
}

pub open spec fn same_expressions(xs: Seq<ExpressionModel>, ys: Seq<ExpressionModel>) -> bool
    decreases xs,
{
    xs.len() == ys.len() && (xs.len() == 0
        || (same_expressions(xs.drop_last(), ys.drop_last()) && same_expression(xs.last(), ys.last())))
}

pub open spec fn same_value_statement(a: ValueModel, b: ValueModel) -> bool {
    &&& a.variable@ == b.variable@
    &&& match (a.assign, b.assign) {
        (Some(x), Some(y)) => same_expression(x, y),
        (None, None) => true,
        _ => false,
    }
    &&& same_predicate(a.predicate, b.predicate)
}

pub open spec fn same_statement(a: StatementModel, b: StatementModel) -> bool {
    match (a, b) {
        (StatementModel::Thing(x), StatementModel::Thing(y)) => same_thing(x, y),
        (StatementModel::Type(x), StatementModel::Type(y)) => same_type(x, y),
        (StatementModel::Value(x), StatementModel::Value(y)) => same_value_statement(x, y),
        _ => false,
    }
}

/// Two patterns of the same shape, with the same statements.
pub open spec fn same_pattern(a: PatternModel, b: PatternModel) -> bool
    decreases a,
{
    match (a, b) {
        (PatternModel::Stmt(x), PatternModel::Stmt(y)) => same_statement(x, y),
        (PatternModel::Conj(xs), PatternModel::Conj(ys)) => same_patterns(xs, ys),
        (PatternModel::Disj(xs), PatternModel::Disj(ys)) => same_patterns(xs, ys),
        (PatternModel::Neg(x), PatternModel::Neg(y)) => same_pattern(*x, *y),
        _ => false,
    }
}

pub open spec fn same_patterns(xs: Seq<PatternModel>, ys: Seq<PatternModel>) -> bool
    decreases xs,
{
    xs.len() == ys.len() && (xs.len() == 0
        || (same_patterns(xs.drop_last(), ys.drop_last()) && same_pattern(xs.last(), ys.last())))
}

proof fn lemma_same_expressions(xs: Seq<ExpressionModel>, ys: Seq<ExpressionModel>)
    ensures
        same_expressions(xs, ys) == (xs.len() == ys.len()
            && forall|i: int| 0 <= i < xs.len() ==> #[trigger] same_expression(xs[i], ys[i])),
    decreases xs.len(),
{
    if xs.len() > 0 && xs.len() == ys.len() {
        lemma_same_expressions(xs.drop_last(), ys.drop_last());
        if forall|i: int| 0 <= i < xs.len() ==> #[trigger] same_expression(xs[i], ys[i]) {
            assert forall|i: int| 0 <= i < xs.drop_last().len() implies #[trigger] same_expression(xs.drop_last()[i], ys.drop_last()[i]) by {
                assert(same_expression(xs[i], ys[i]));
            }
            assert(same_expression(xs[xs.len() - 1], ys[ys.len() - 1]));
        }
        if same_expressions(xs, ys) {
            assert forall|i: int| 0 <= i < xs.len() implies #[trigger] same_expression(xs[i], ys[i]) by {
                if i < xs.len() - 1 {
                    assert(xs.drop_last()[i] == xs[i] && ys.drop_last()[i] == ys[i]);
                }
            }
        }
    }
}

proof fn lemma_same_patterns(xs: Seq<PatternModel>, ys: Seq<PatternModel>)
    ensures
        same_patterns(xs, ys) == (xs.len() == ys.len()
            && forall|i: int| 0 <= i < xs.len() ==> #[trigger] same_pattern(xs[i], ys[i])),
    decreases xs.len(),
{
    if xs.len() > 0 && xs.len() == ys.len() {
        lemma_same_patterns(xs.drop_last(), ys.drop_last());
        if forall|i: int| 0 <= i < xs.len() ==> #[trigger] same_pattern(xs[i], ys[i]) {
            assert forall|i: int| 0 <= i < xs.drop_last().len() implies #[trigger] same_pattern(xs.drop_last()[i], ys.drop_last()[i]) by {
                assert(same_pattern(xs[i], ys[i]));
            }
            assert(same_pattern(xs[xs.len() - 1], ys[ys.len() - 1]));
        }
        if same_patterns(xs, ys) {
            assert forall|i: int| 0 <= i < xs.len() implies #[trigger] same_pattern(xs[i], ys[i]) by {
                if i < xs.len() - 1 {
                    assert(xs.drop_last()[i] == xs[i] && ys.drop_last()[i] == ys[i]);
                }
            }
        }
    }
}

proof fn lemma_same_expression_reflexive(e: ExpressionModel)
    ensures
        same_expression(e, e),
    decreases e,
{
    match e {
        ExpressionModel::Function(_, xs) => {
            assert forall|i: int| 0 <= i < xs.len() implies #[trigger] same_expression(xs[i], xs[i]) by {
                lemma_same_expression_reflexive(xs[i]);
            }
            lemma_same_expressions(xs, xs);
        },
        ExpressionModel::Operation(_, l, r) => {
            lemma_same_expression_reflexive(*l);
            lemma_same_expression_reflexive(*r);
        },
        _ => {},
    }
}

/// Every pattern is structurally equal to itself; a disjunction therefore equals itself
/// whether or not its normal form has been kept.
pub proof fn lemma_same_pattern_reflexive(p: PatternModel)
    ensures
        same_pattern(p, p),
    decreases p,
{
    match p {
        PatternModel::Stmt(s) => {
            match s {
                StatementModel::Value(v) => {
                    if v.assign is Some {
                        lemma_same_expression_reflexive(v.assign->0);
                    }
                },
                StatementModel::Thing(t) => {
                    if t.relation is Some {
                        let r = t.relation->0;
                        assert forall|i: int| 0 <= i < r.len() implies #[trigger] same_role_player(r[i], r[i]) by {}
                    }
                },
                _ => {},
            }
        },
        PatternModel::Conj(xs) => {
            assert forall|i: int| 0 <= i < xs.len() implies #[trigger] same_pattern(xs[i], xs[i]) by {
                lemma_same_pattern_reflexive(xs[i]);
            }
            lemma_same_patterns(xs, xs);
        },
        PatternModel::Disj(xs) => {
            assert forall|i: int| 0 <= i < xs.len() implies #[trigger] same_pattern(xs[i], xs[i]) by {
                lemma_same_pattern_reflexive(xs[i]);
            }
            lemma_same_patterns(xs, xs);
        },
        PatternModel::Neg(b) => {
            lemma_same_pattern_reflexive(*b);
        },
    }
}

fn text_eq(a: &Option<String>, b: &Option<String>) -> (r: bool)
    ensures
        r == same_text(*a, *b),
{
    match (a, b) {
        (Some(x), Some(y)) => *x == *y,
        (None, None) => true,
        _ => false,
    }
}

fn reference_eq(a: &Reference, b: &Reference) -> (r: bool)
    ensures
        r == same_reference(*a, *b),
{
    match (a, b) {
        (Reference::Name(x), Reference::Name(y)) => *x == *y,
        (Reference::Anonymous, Reference::Anonymous) => true,
        (Reference::Label(x), Reference::Label(y)) => *x == *y,
        _ => false,
    }
}

fn value_eq(a: &Value, b: &Value) -> (r: bool)
    ensures
        r == same_value(*a, *b),
{
    match (a, b) {
        (Value::Long(x), Value::Long(y)) => *x == *y,
        (Value::Boolean(x), Value::Boolean(y)) => *x == *y,
        (Value::Text(x), Value::Text(y)) => *x == *y,
        (Value::Variable(x), Value::Variable(y)) => *x == *y,
        _ => false,
    }
}

fn predicate_eq(a: &Option<Predicate>, b: &Option<Predicate>) -> (r: bool)
    ensures
        r == same_predicate(*a, *b),
{
    match (a, b) {
        (Some(x), Some(y)) => x.op == y.op && value_eq(&x.value, &y.value),
        (None, None) => true,
        _ => false,
    }
}

fn thing_eq(a: &ThingStatement, b: &ThingStatement) -> (r: bool)
    ensures
        r == same_thing(a@, b@),
{
    if !reference_eq(&a.reference, &b.reference) || !text_eq(&a.iid, &b.iid) || !match (&a.isa, &b.isa) {
        (Some(x), Some(y)) => reference_eq(x, y),
        (None, None) => true,
        _ => false,
    }
        || !predicate_eq(&a.value, &b.value) || a.has.len() != b.has.len() {
        return false;
    }
    let mut i: usize = 0;
    while i < a.has.len()
        invariant
            i <= a.has.len(),
            a.has.len() == b.has.len(),
            forall|k: int| 0 <= k < i ==> #[trigger] same_has(a.has@[k], b.has@[k]),
        decreases a.has.len() - i,
    {
        let x = &a.has[i];
        let y = &b.has[i];
        if !(text_eq(&x.type_, &y.type_) && reference_eq(&x.attribute, &y.attribute)
            && predicate_eq(&x.predicate, &y.predicate)) {
            assert(!same_has(a@.has[i as int], b@.has[i as int]));
            return false;
        }
        i = i + 1;
    }
    match (&a.relation, &b.relation) {
        (Some(x), Some(y)) => {
            if x.role_players.len() != y.role_players.len() {
                return false;
            }
            assert(a@.relation == Some(x.role_players@));
            assert(b@.relation == Some(y.role_players@));
            let mut j: usize = 0;
            while j < x.role_players.len()
                invariant
                    j <= x.role_players.len(),
                    x.role_players.len() == y.role_players.len(),
                    a@.relation == Some(x.role_players@),
                    b@.relation == Some(y.role_players@),
                    forall|k: int| 0 <= k < j ==> #[trigger] same_role_player(x.role_players@[k], y.role_players@[k]),
                decreases x.role_players.len() - j,
            {
                let p = &x.role_players[j];
                let q = &y.role_players[j];
                if !(text_eq(&p.role_type, &q.role_type) && reference_eq(&p.player, &q.player)) {
                    assert(a@.relation == Some(x.role_players@));
                    assert(b@.relation == Some(y.role_players@));
                    assert(!same_role_player(x.role_players@[j as int], y.role_players@[j as int]));
                    return false;
                }
                j = j + 1;
            }
            true
        },
        (None, None) => true,
        _ => false,
    }
}

fn type_eq(a: &TypeVariable, b: &TypeVariable) -> (r: bool)
    ensures
        r == same_type(a@, b@),
{
    if !reference_eq(&a.reference, &b.reference) || !text_eq(&a.label, &b.label) || !text_eq(&a.sub, &b.sub)
        || a.relates.len() != b.relates.len() || a.plays.len() != b.plays.len() {
        return false;
    }
    let mut i: usize = 0;
    while i < a.relates.len()
        invariant
            i <= a.relates.len(),
            a.relates.len() == b.relates.len(),
            forall|k: int| 0 <= k < i ==> #[trigger] same_relates(a.relates@[k], b.relates@[k]),
        decreases a.relates.len() - i,
    {
        if !(a.relates[i].role == b.relates[i].role && text_eq(&a.relates[i].overridden, &b.relates[i].overridden)) {
            assert(!same_relates(a@.relates[i as int], b@.relates[i as int]));
            return false;
        }
        i = i + 1;
    }
    let mut j: usize = 0;
    while j < a.plays.len()
        invariant
            j <= a.plays.len(),
            a.plays.len() == b.plays.len(),
            forall|k: int| 0 <= k < a.relates.len() ==> #[trigger] same_relates(a.relates@[k], b.relates@[k]),
            forall|k: int| 0 <= k < j ==> #[trigger] a.plays@[k]@ == b.plays@[k]@,
        decreases a.plays.len() - j,
    {
        if !(a.plays[j] == b.plays[j]) {
            assert(a@.plays[j as int]@ != b@.plays[j as int]@);
            return false;
        }
        j = j + 1;
    }
    true
}

fn expression_eq(a: &Expression, b: &Expression) -> (r: bool)
    ensures
        r == same_expression(a@, b@),
    decreases a@,
{
    match (a, b) {
        (Expression::Constant(x), Expression::Constant(y)) => value_eq(&x.value, &y.value),
        (Expression::Variable(x), Expression::Variable(y)) => *x == *y,
        (Expression::Function { function_name: f, args: xs }, Expression::Function { function_name: g, args: ys }) => {
            proof {
                lemma_models_of(xs@);
                lemma_models_of(ys@);
                lemma_same_expressions(models_of(xs@), models_of(ys@));
            }
            if *f != *g || xs.len() != ys.len() {
                return false;
            }
            let mut i: usize = 0;
            while i < xs.len()
                invariant
                    i <= xs.len(),
                    xs.len() == ys.len(),
                    a@ == ExpressionModel::Function(*f, models_of(xs@)),
                    b@ == ExpressionModel::Function(*g, models_of(ys@)),
                    *f == *g,
                    models_of(xs@).len() == xs.len(),
                    models_of(ys@).len() == ys.len(),
                    forall|k: int| 0 <= k < xs.len() ==> #[trigger] models_of(xs@)[k] == model_of(xs@[k]),
                    forall|k: int| 0 <= k < ys.len() ==> #[trigger] models_of(ys@)[k] == model_of(ys@[k]),
                    forall|k: int| 0 <= k < i ==> #[trigger] same_expression(models_of(xs@)[k], models_of(ys@)[k]),
                    same_expressions(models_of(xs@), models_of(ys@)) == (models_of(xs@).len() == models_of(ys@).len()
                        && forall|k: int| 0 <= k < models_of(xs@).len() ==> #[trigger] same_expression(models_of(xs@)[k], models_of(ys@)[k])),
                decreases xs.len() - i,
            {
                proof {
                    let m = ExpressionModel::Function(*f, models_of(xs@));
                    assert(decreases_to!(m => m->Function_1));
                    assert(decreases_to!(m->Function_1 => m->Function_1[i as int]));
                }
                if !expression_eq(&xs[i], &ys[i]) {
                    assert(!same_expression(models_of(xs@)[i as int], models_of(ys@)[i as int]));
                    return false;
                }
                i = i + 1;
            }
            true
        },
        (Expression::Operation { op: o, left: l, right: r }, Expression::Operation { op: p, left: l2, right: r2 }) => {
            assert(decreases_to!(a@ => a@->Operation_1));
            assert(decreases_to!(a@ => a@->Operation_2));
            *o == *p && expression_eq(l, l2) && expression_eq(r, r2)
        },
        _ => false,
    }
}

fn statement_eq(a: &Statement, b: &Statement) -> (r: bool)
    ensures
        r == same_statement(a@, b@),
{
    match (a, b) {
        (Statement::Thing(x), Statement::Thing(y)) => thing_eq(x, y),
        (Statement::Type(x), Statement::Type(y)) => type_eq(x, y),
        (Statement::Value(x), Statement::Value(y)) => {
            let assign = match (&x.assign_constraint, &y.assign_constraint) {
                (Some(e), Some(f)) => expression_eq(e, f),
                (None, None) => true,
                _ => false,
            };
            x.variable == y.variable && assign && predicate_eq(&x.predicate_constraint, &y.predicate_constraint)
        },
        _ => false,
    }
}

impl Pattern {
    /// Whether the two patterns have the same shape and the same statements.
    pub fn structurally_eq(&self, other: &Pattern) -> (r: bool)
        ensures
            r == same_pattern(self@, other@),
        decreases self@,
    {
        match (self, other) {
            (Pattern::Statement(x), Pattern::Statement(y)) => statement_eq(x, y),
            (Pattern::Conjunction(x), Pattern::Conjunction(y)) => {
                assert(self@ == PatternModel::Conj(pattern_models(x.patterns@)));
                patterns_eq(&x.patterns, &y.patterns, Ghost(self@))
            },
            (Pattern::Disjunction(x), Pattern::Disjunction(y)) => {
                assert(self@ == PatternModel::Disj(pattern_models(x.patterns@)));
                patterns_eq(&x.patterns, &y.patterns, Ghost(self@))
            },
            (Pattern::Negation(x), Pattern::Negation(y)) => {
                assert(decreases_to!(self@ => self@->Neg_0));
                x.pattern.structurally_eq(&y.pattern)
            },
            _ => false,
        }
    }
}

/// Whether the lists have the same length and pairwise equal patterns; `parent` holds `xs`.
fn patterns_eq(xs: &Vec<Pattern>, ys: &Vec<Pattern>, parent: Ghost<PatternModel>) -> (r: bool)
    requires
        parent@ == PatternModel::Conj(pattern_models(xs@)) || parent@ == PatternModel::Disj(pattern_models(xs@)),
    ensures
        r == same_patterns(pattern_models(xs@), pattern_models(ys@)),
    decreases parent@, 0nat,
{
    proof {
        lemma_pattern_models(xs@);
        lemma_pattern_models(ys@);
        lemma_same_patterns(pattern_models(xs@), pattern_models(ys@));
    }
    if xs.len() != ys.len() {
        return false;
    }
    let mut i: usize = 0;
    while i < xs.len()
        invariant
            i <= xs.len(),
            xs.len() == ys.len(),
            parent@ == PatternModel::Conj(pattern_models(xs@)) || parent@ == PatternModel::Disj(pattern_models(xs@)),
            pattern_models(xs@).len() == xs.len(),
            pattern_models(ys@).len() == ys.len(),
            forall|k: int| 0 <= k < xs.len() ==> #[trigger] pattern_models(xs@)[k] == pattern_model(xs@[k]),
            forall|k: int| 0 <= k < ys.len() ==> #[trigger] pattern_models(ys@)[k] == pattern_model(ys@[k]),
            forall|k: int| 0 <= k < i ==> #[trigger] same_pattern(pattern_models(xs@)[k], pattern_models(ys@)[k]),
            same_patterns(pattern_models(xs@), pattern_models(ys@)) == (pattern_models(xs@).len() == pattern_models(ys@).len()
                && forall|k: int| 0 <= k < pattern_models(xs@).len() ==> #[trigger] same_pattern(pattern_models(xs@)[k], pattern_models(ys@)[k])),
        decreases xs.len() - i,
    {
        proof {
            let p = parent@;
            if p is Conj {
                assert(decreases_to!(p => p->Conj_0));
                assert(decreases_to!(p->Conj_0 => p->Conj_0[i as int]));
            } else {
                assert(decreases_to!(p => p->Disj_0));
                assert(decreases_to!(p->Disj_0 => p->Disj_0[i as int]));
            }
        }
        if !xs[i].structurally_eq(&ys[i]) {
            assert(!same_pattern(pattern_models(xs@)[i as int], pattern_models(ys@)[i as int]));
            return false;
        }
        i = i + 1;
    }
    true
}

impl PartialEq for Disjunction {
    /// Same members; the kept normal form takes no part.
    fn eq(&self, other: &Disjunction) -> (r: bool) {
        proof { lemma_pattern_models(self.patterns@); }
        patterns_eq(&self.patterns, &other.patterns, Ghost(self@))
    }
}

impl vstd::std_specs::cmp::PartialEqSpecImpl for Disjunction {
    open spec fn obeys_eq_spec() -> bool {
        true
    }

    open spec fn eq_spec(&self, other: &Disjunction) -> bool {
        same_pattern(self@, other@)
    }
}

} // verus!
