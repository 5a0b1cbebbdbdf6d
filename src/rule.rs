//! Rules: a label, a `when` body and a single inferred `then` fact, with their validation.
use vstd::prelude::*;
use crate::error::TypeQLError;
use crate::token::{Schema, schema_text, schema_token};
use crate::normal::PatternModel;
use crate::pattern::{Conjunction, Pattern, item_texts, lemma_pattern_models, pattern_model, pattern_models, pattern_names, patterns_names};
use crate::statement::{ThingModel, ThingStatement, thing_names, thing_text};
use crate::text::{join, strings_view, contains_string};
use crate::value::{Reference, reference_text};

verus! {

/// A rule known by its label only.
#[derive(Debug)]
pub struct RuleDeclaration {
    pub label: String,
}

/// A rule with its label and `when` body, waiting for its `then`.
#[derive(Debug)]
pub struct RuleWhenStub {
    pub label: String,
    pub when: Conjunction,
}

/// A complete rule.
#[derive(Debug)]
pub struct RuleDefinition {
    pub label: String,
    pub when: Conjunction,
    pub then_: ThingStatement,
}

/// What can be wrong with a rule.
pub enum RuleFault {
    WhenDisjunction,
    WhenNestedNegation,
    ThenShape,
    ThenHasVariable,
    ThenRoles,
    ThenUnbound,
}

/// The faults of the `when` patterns: one for each disjunction, at any depth, and one for each
/// negation inside a negation; the bodies of both are searched further.
pub open spec fn when_faults(p: PatternModel, in_negation: bool) -> Seq<RuleFault>
    decreases p,
{
    match p {
        PatternModel::Stmt(_) => Seq::empty(),
        PatternModel::Conj(cs) => when_faults_all(cs, in_negation),
        PatternModel::Disj(cs) => seq![RuleFault::WhenDisjunction] + when_faults_all(cs, in_negation),
        PatternModel::Neg(b) => if in_negation {
            seq![RuleFault::WhenNestedNegation] + when_faults(*b, true)
        } else {
            when_faults(*b, true)
        },
    }
}

pub open spec fn when_faults_all(cs: Seq<PatternModel>, in_negation: bool) -> Seq<RuleFault>
    decreases cs,
{
    if cs.len() == 0 { Seq::empty() } else { when_faults_all(cs.drop_last(), in_negation) + when_faults(cs.last(), in_negation) }
}

/// `then` infers one attribute ownership, or one relation of a given type.
pub open spec fn single_edge(t: ThingModel) -> bool {
    ||| (t.has.len() == 1 && t.iid is None && t.isa is None && t.value is None && t.relation is None)
    ||| (t.relation is Some && t.isa is Some && t.iid is None && t.has.len() == 0 && t.value is None)
}

/// An inferred ownership gives its attribute a type and also names it by a variable.
pub open spec fn has_edge_typed_variable(t: ThingModel) -> bool {
    t.has.len() > 0 && t.has[0].type_ is Some && t.has[0].attribute is Name
}

/// An inferred relation (with no ownership first) leaves a role type out.
pub open spec fn relation_edge_missing_role(t: ThingModel) -> bool {
    t.has.len() == 0 && t.relation is Some
        && exists|i: int| 0 <= i < t.relation->0.len() && (#[trigger] t.relation->0[i]).role_type is None
}

/// Every named variable of `then` is a named variable of `when`.
pub open spec fn then_bounded(t: ThingModel, when: PatternModel) -> bool {
    forall|i: int| 0 <= i < thing_names(t).len() ==> pattern_names(when).contains(#[trigger] thing_names(t)[i])
}

/// Every fault of a rule, in the order they are reported.
pub open spec fn rule_faults(when: PatternModel, then: ThingModel) -> Seq<RuleFault> {
    when_faults(when, false)
        + (if single_edge(then) { Seq::empty() } else { seq![RuleFault::ThenShape] })
        + (if has_edge_typed_variable(then) { seq![RuleFault::ThenHasVariable] } else { Seq::empty() })
        + (if relation_edge_missing_role(then) { seq![RuleFault::ThenRoles] } else { Seq::empty() })
        + (if then_bounded(then, when) { Seq::empty() } else { seq![RuleFault::ThenUnbound] })
}

/// `e` reports fault `f` of the rule with `label` and `then`.
pub open spec fn reports(e: TypeQLError, f: RuleFault, label: Seq<char>, then: ThingModel) -> bool {
    match f {
        RuleFault::WhenDisjunction => e is InvalidRuleWhenContainsDisjunction
            && e->InvalidRuleWhenContainsDisjunction_rule@ == label,
        RuleFault::WhenNestedNegation => e is InvalidRuleWhenNestedNegation
            && e->InvalidRuleWhenNestedNegation_rule@ == label,
        RuleFault::ThenShape => e is InvalidRuleThen && e->InvalidRuleThen_rule@ == label
            && e->InvalidRuleThen_then@ == thing_text(then),
        RuleFault::ThenHasVariable => e is InvalidRuleThenHas && e->InvalidRuleThenHas_rule@ == label
            && e->InvalidRuleThenHas_then@ == thing_text(then)
            && e->InvalidRuleThenHas_variable@ == reference_text(then.has[0].attribute)
            && e->InvalidRuleThenHas_type_@ == then.has[0].type_->0@,
        RuleFault::ThenRoles => e is InvalidRuleThenRoles && e->InvalidRuleThenRoles_rule@ == label
            && e->InvalidRuleThenRoles_then@ == thing_text(then),
        RuleFault::ThenUnbound => e is InvalidRuleThenVariables && e->InvalidRuleThenVariables_rule@ == label,
    }
}

/// `es` reports `faults`, one error each, in order.
pub open spec fn reports_all(es: Seq<TypeQLError>, faults: Seq<RuleFault>, label: Seq<char>, then: ThingModel) -> bool {
    es.len() == faults.len() && forall|i: int| 0 <= i < es.len() ==> #[trigger] reports(es[i], faults[i], label, then)
}

/// `rule <label>`.
pub open spec fn declaration_text(label: Seq<char>) -> Seq<char> {
    schema_text(Schema::Rule) + " "@ + label
}

/// `rule <label>:` with the `when` items and the `then` statement on indented lines.
pub open spec fn rule_text(label: Seq<char>, when: PatternModel, then: ThingModel) -> Seq<char> {
    schema_text(Schema::Rule) + " "@ + label + ":\n    "@ + schema_text(Schema::When) + " "@
        + join(item_texts(when->Conj_0), " "@) + "\n    "@ + schema_text(Schema::Then) + " "@ + thing_text(then) + ";\n}"@
}

impl RuleDeclaration {
    pub fn new(label: String) -> (r: RuleDeclaration)
        ensures
            r.label == label,
    {
        RuleDeclaration { label }
    }

    /// Attaches the `when` body.
    pub fn when(self, when: Conjunction) -> (r: RuleWhenStub)
        ensures
            r.label == self.label,
            r.when@ == when@,
    {
        RuleWhenStub { label: self.label, when }
    }

    /// `rule <label>`.
    pub fn to_text(&self) -> (r: String)
        ensures
            r@ == declaration_text(self.label@),
    {
        let mut s = String::from_str(schema_token(Schema::Rule));
        s.append(" ");
        s.append(self.label.as_str());
        s
    }
}

impl RuleWhenStub {
    /// Attaches the `then` statement, completing the rule.
    pub fn then_(self, then: ThingStatement) -> (r: RuleDefinition)
        ensures
            r.label == self.label,
            r.when@ == self.when@,
            r.then_@ == then@,
    {
        RuleDefinition { label: self.label, when: self.when, then_: then }
    }
}

/// One error for each fault of `when_faults_all(patterns, in_negation)`.
fn expect_only_conjunctions(patterns: &Vec<Pattern>, in_negation: bool, label: &String, then: Ghost<ThingModel>, parent: Ghost<PatternModel>) -> (r: Vec<TypeQLError>)
    requires
        parent@ == PatternModel::Conj(pattern_models(patterns@)) || parent@ == PatternModel::Disj(pattern_models(patterns@)),
    ensures
        reports_all(r@, when_faults_all(pattern_models(patterns@), in_negation), label@, then@),
    decreases parent@, 0nat,
{
    proof { lemma_pattern_models(patterns@); }
    let ghost ms = pattern_models(patterns@);
    let mut errors: Vec<TypeQLError> = Vec::new();
    let mut i: usize = 0;
    while i < patterns.len()
        invariant
            i <= patterns.len(),
            ms == pattern_models(patterns@),
            ms.len() == patterns.len(),
            forall|k: int| 0 <= k < patterns.len() ==> #[trigger] ms[k] == pattern_model(patterns@[k]),
            parent@ == PatternModel::Conj(ms) || parent@ == PatternModel::Disj(ms),
            reports_all(errors@, when_faults_all(ms.take(i as int), in_negation), label@, then@),
        decreases patterns.len() - i,
    {
        proof {
            assert(ms.take(i + 1).drop_last() =~= ms.take(i as int));
            crate::pattern::lemma_child_decreases(parent@, patterns@, i as int);
        }
        let e = pattern_faults(&patterns[i], in_negation, label, then);
        let ghost before = errors@;
        let mut e2 = e;
        errors.append(&mut e2);
        proof {
            let fa = when_faults_all(ms.take(i as int), in_negation);
            let fb = when_faults(ms[i as int], in_negation);
            assert(when_faults_all(ms.take(i + 1), in_negation) == fa + fb);
            assert forall|j: int| 0 <= j < errors@.len() implies #[trigger] reports(errors@[j], (fa + fb)[j], label@, then@) by {
                if j < before.len() {
                    assert(errors@[j] == before[j]);
                } else {
                    assert(errors@[j] == e@[j - before.len()]);
                }
            }
        }
        i = i + 1;
    }
    assert(ms.take(i as int) =~= ms);
    errors
}

/// `a` followed by `b`, reporting the two fault lists one after the other.
fn append_reports_from(a: Vec<TypeQLError>, b: Vec<TypeQLError>, fa: Ghost<Seq<RuleFault>>, fb: Ghost<Seq<RuleFault>>, label: Ghost<Seq<char>>, then: Ghost<ThingModel>) -> (r: Vec<TypeQLError>)
    requires
        reports_all(a@, fa@, label@, then@),
        reports_all(b@, fb@, label@, then@),
    ensures
        reports_all(r@, fa@ + fb@, label@, then@),
{
    let mut r = a;
    append_reports(&mut r, b, fa, fb, label, then);
    r
}

/// One error for each fault of `when_faults(p, in_negation)`.
fn pattern_faults(p: &Pattern, in_negation: bool, label: &String, then: Ghost<ThingModel>) -> (r: Vec<TypeQLError>)
    ensures
        reports_all(r@, when_faults(p@, in_negation), label@, then@),
    decreases p@,
{
    match p {
        Pattern::Statement(_) => Vec::new(),
        Pattern::Conjunction(c) => {
            assert(p@ == PatternModel::Conj(pattern_models(c.patterns@)));
            expect_only_conjunctions(&c.patterns, in_negation, label, then, Ghost(p@))
        },
        Pattern::Disjunction(d) => {
            assert(p@ == PatternModel::Disj(pattern_models(d.patterns@)));
            let r = vec![TypeQLError::InvalidRuleWhenContainsDisjunction { rule: label.clone() }];
            assert(reports(r@[0], RuleFault::WhenDisjunction, label@, then@));
            let inner = expect_only_conjunctions(&d.patterns, in_negation, label, then, Ghost(p@));
            append_reports_from(r, inner, Ghost(Seq::empty().push(RuleFault::WhenDisjunction)),
                Ghost(when_faults_all(pattern_models(d.patterns@), in_negation)), Ghost(label@), then)
        },
        Pattern::Negation(n) => {
            assert(decreases_to!(p@ => p@->Neg_0));
            if in_negation {
                let r = vec![TypeQLError::InvalidRuleWhenNestedNegation { rule: label.clone() }];
                assert(reports(r@[0], RuleFault::WhenNestedNegation, label@, then@));
                let inner = pattern_faults(&n.pattern, true, label, then);
                append_reports_from(r, inner, Ghost(Seq::empty().push(RuleFault::WhenNestedNegation)),
                    Ghost(when_faults(*p@->Neg_0, true)), Ghost(label@), then)
            } else {
                assert(decreases_to!(p@ => p@->Neg_0));
                pattern_faults(&n.pattern, true, label, then)
            }
        },
    }
}

/// The single-edge check of `then`.
fn expect_infer_single_edge(then: &ThingStatement, label: &String) -> (r: Vec<TypeQLError>)
    ensures
        reports_all(r@, if single_edge(then@) { Seq::empty() } else { seq![RuleFault::ThenShape] }, label@, then@),
{
    let one_has = then.has.len() == 1 && then.iid.is_none() && then.isa.is_none() && then.value.is_none()
        && then.relation.is_none();
    let one_relation = then.relation.is_some() && then.isa.is_some() && then.iid.is_none() && then.has.len() == 0
        && then.value.is_none();
    if one_has || one_relation {
        Vec::new()
    } else {
        let r = vec![TypeQLError::InvalidRuleThen { rule: label.clone(), then: then.to_text() }];
        assert(reports(r@[0], RuleFault::ThenShape, label@, then@));
        r
    }
}

/// The checks on the inferred edge: a typed attribute given by a variable, a role left out.
fn expect_valid_inference(then: &ThingStatement, label: &String) -> (r: Vec<TypeQLError>)
    ensures
        reports_all(r@, (if has_edge_typed_variable(then@) { seq![RuleFault::ThenHasVariable] } else { Seq::empty() })
            + (if relation_edge_missing_role(then@) { seq![RuleFault::ThenRoles] } else { Seq::empty() }), label@, then@),
{
    if then.has.len() > 0 {
        let has = &then.has[0];
        match &has.type_ {
            Some(t) => {
                if has.attribute.is_name() {
                    let r = vec![TypeQLError::InvalidRuleThenHas {
                        rule: label.clone(),
                        then: then.to_text(),
                        variable: has.attribute.to_text(),
                        type_: t.clone(),
                    }];
                    assert(reports(r@[0], RuleFault::ThenHasVariable, label@, then@));
                    return r;
                }
            },
            None => {},
        }
        let r: Vec<TypeQLError> = Vec::new();
        assert(!has_edge_typed_variable(then@));
        assert(!relation_edge_missing_role(then@));
        assert(((if has_edge_typed_variable(then@) { seq![RuleFault::ThenHasVariable] } else { Seq::empty() })
            + (if relation_edge_missing_role(then@) { seq![RuleFault::ThenRoles] } else { Seq::empty() })).len() == 0);
        r
    } else {
        match &then.relation {
            Some(rel) => {
                let mut all = true;
                let mut i: usize = 0;
                while i < rel.role_players.len()
                    invariant
                        i <= rel.role_players.len(),
                        all == forall|k: int| 0 <= k < i ==> (#[trigger] rel.role_players@[k]).role_type is Some,
                    decreases rel.role_players.len() - i,
                {
                    if rel.role_players[i].role_type.is_none() {
                        all = false;
                    }
                    i = i + 1;
                }
                if all {
                    let r: Vec<TypeQLError> = Vec::new();
                    assert(!relation_edge_missing_role(then@));
                    assert(((if has_edge_typed_variable(then@) { seq![RuleFault::ThenHasVariable] } else { Seq::empty() })
                        + (if relation_edge_missing_role(then@) { seq![RuleFault::ThenRoles] } else { Seq::empty() })) =~= Seq::empty());
                    r
                } else {
                    let r = vec![TypeQLError::InvalidRuleThenRoles { rule: label.clone(), then: then.to_text() }];
                    assert(relation_edge_missing_role(then@));
                    assert(((if has_edge_typed_variable(then@) { seq![RuleFault::ThenHasVariable] } else { Seq::empty() })
                        + (if relation_edge_missing_role(then@) { seq![RuleFault::ThenRoles] } else { Seq::empty() })) =~= seq![RuleFault::ThenRoles]);
                    assert(reports(r@[0], RuleFault::ThenRoles, label@, then@));
                    r
                }
            },
            None => {
                let r: Vec<TypeQLError> = Vec::new();
                assert(((if has_edge_typed_variable(then@) { seq![RuleFault::ThenHasVariable] } else { Seq::empty() })
                    + (if relation_edge_missing_role(then@) { seq![RuleFault::ThenRoles] } else { Seq::empty() })) =~= Seq::empty());
                r
            },
        }
    }
}

/// The check that `when` binds every named variable of `then`.
fn expect_then_bounded_by_when(then: &ThingStatement, when: &Conjunction, label: &String) -> (r: Vec<TypeQLError>)
    ensures
        reports_all(r@, if then_bounded(then@, when@) { Seq::empty() } else { seq![RuleFault::ThenUnbound] }, label@, then@),
{
    let names = when.names();
    let used = then.names();
    let mut all = true;
    let mut i: usize = 0;
    while i < used.len()
        invariant
            i <= used.len(),
            strings_view(names@) == pattern_names(when@),
            strings_view(used@) == thing_names(then@),
            all == forall|k: int| 0 <= k < i ==> pattern_names(when@).contains(#[trigger] thing_names(then@)[k]),
        decreases used.len() - i,
    {
        let c = contains_string(&names, &used[i]);
        assert(thing_names(then@)[i as int] == used@[i as int]@);
        if !c {
            all = false;
        }
        i = i + 1;
    }
    if all {
        Vec::new()
    } else {
        let r = vec![TypeQLError::InvalidRuleThenVariables { rule: label.clone() }];
        assert(reports(r@[0], RuleFault::ThenUnbound, label@, then@));
        r
    }
}

/// Appends `b` to `a`; the reports of both, in order, are those of the two fault lists.
fn append_reports(a: &mut Vec<TypeQLError>, b: Vec<TypeQLError>, fa: Ghost<Seq<RuleFault>>, fb: Ghost<Seq<RuleFault>>, label: Ghost<Seq<char>>, then: Ghost<ThingModel>)
    requires
        reports_all(old(a)@, fa@, label@, then@),
        reports_all(b@, fb@, label@, then@),
    ensures
        reports_all(final(a)@, fa@ + fb@, label@, then@),
{
    let ghost before = a@;
    let mut c = b;
    let ghost bv = c@;
    a.append(&mut c);
    assert forall|j: int| 0 <= j < a@.len() implies #[trigger] reports(a@[j], (fa@ + fb@)[j], label@, then@) by {
        if j < before.len() {
            assert(a@[j] == before[j]);
        } else {
            assert(a@[j] == bv[j - before.len()]);
        }
    }
}

impl RuleDefinition {
    /// Every fault of the rule, one error each: the `when` shape, the `then` shape, the inferred
    /// edge, and the variables of `then` that `when` does not bind.
    pub fn validate(&self) -> (r: Result<(), Vec<TypeQLError>>)
        ensures
            match r {
                Ok(()) => rule_faults(self.when@, self.then_@).len() == 0,
                Err(es) => es@.len() > 0 && reports_all(es@, rule_faults(self.when@, self.then_@), self.label@, self.then_@),
            },
    {
        let ghost t = self.then_@;
        let ghost l = self.label@;
        let mut errors = expect_only_conjunctions(&self.when.patterns, false, &self.label, Ghost(t), Ghost(self.when@));
        let e2 = expect_infer_single_edge(&self.then_, &self.label);
        append_reports(&mut errors, e2, Ghost(when_faults(self.when@, false)),
            Ghost(if single_edge(t) { Seq::empty() } else { seq![RuleFault::ThenShape] }), Ghost(l), Ghost(t));
        let e3 = expect_valid_inference(&self.then_, &self.label);
        append_reports(&mut errors, e3, Ghost(when_faults(self.when@, false)
            + (if single_edge(t) { Seq::empty() } else { seq![RuleFault::ThenShape] })),
            Ghost((if has_edge_typed_variable(t) { seq![RuleFault::ThenHasVariable] } else { Seq::empty() })
            + (if relation_edge_missing_role(t) { seq![RuleFault::ThenRoles] } else { Seq::empty() })), Ghost(l), Ghost(t));
        let e4 = expect_then_bounded_by_when(&self.then_, &self.when, &self.label);
        append_reports(&mut errors, e4, Ghost(when_faults(self.when@, false)
            + (if single_edge(t) { Seq::empty() } else { seq![RuleFault::ThenShape] })
            + ((if has_edge_typed_variable(t) { seq![RuleFault::ThenHasVariable] } else { Seq::empty() })
            + (if relation_edge_missing_role(t) { seq![RuleFault::ThenRoles] } else { Seq::empty() }))),
            Ghost(if then_bounded(t, self.when@) { Seq::empty() } else { seq![RuleFault::ThenUnbound] }), Ghost(l), Ghost(t));
        proof {
            let all = when_faults(self.when@, false)
                + (if single_edge(t) { Seq::empty() } else { seq![RuleFault::ThenShape] })
                + ((if has_edge_typed_variable(t) { seq![RuleFault::ThenHasVariable] } else { Seq::empty() })
                + (if relation_edge_missing_role(t) { seq![RuleFault::ThenRoles] } else { Seq::empty() }))
                + (if then_bounded(t, self.when@) { Seq::empty() } else { seq![RuleFault::ThenUnbound] });
            assert(all =~= rule_faults(self.when@, t));
        }
        if errors.len() == 0 {
            Ok(())
        } else {
            Err(errors)
        }
    }

    /// The printed form: `rule <label>:`, then the `when` items and the `then` statement.
    pub fn to_text(&self) -> (r: String)
        ensures
            r@ == rule_text(self.label@, self.when@, self.then_@),
    {
        let mut s = String::from_str(schema_token(Schema::Rule));
        s.append(" ");
        s.append(self.label.as_str());
        s.append(":\n    ");
        s.append(schema_token(Schema::When));
        s.append(" ");
        let w = self.when.items_text(" ");
        s.append(w.as_str());
        s.append("\n    ");
        s.append(schema_token(Schema::Then));
        s.append(" ");
        let t = self.then_.to_text();
        s.append(t.as_str());
        s.append(";\n}");
        s
    }
}

/// `p` holds a disjunction at some depth.
pub open spec fn has_disjunction(p: PatternModel) -> bool
    decreases p,
{
    match p {
        PatternModel::Stmt(_) => false,
        PatternModel::Disj(_) => true,
        PatternModel::Conj(cs) => any_has_disjunction(cs),
        PatternModel::Neg(b) => has_disjunction(*b),
    }
}

pub open spec fn any_has_disjunction(cs: Seq<PatternModel>) -> bool
    decreases cs,
{
    cs.len() > 0 && (any_has_disjunction(cs.drop_last()) || has_disjunction(cs.last()))
}

proof fn lemma_faults_find_disjunction(p: PatternModel, in_negation: bool)
    requires
        has_disjunction(p),
    ensures
        when_faults(p, in_negation).contains(RuleFault::WhenDisjunction),
    decreases p,
{
    match p {
        PatternModel::Disj(cs) => {
            assert(when_faults(p, in_negation)[0] == RuleFault::WhenDisjunction);
        },
        PatternModel::Conj(cs) => {
            lemma_all_faults_find_disjunction(cs, in_negation);
        },
        PatternModel::Neg(b) => {
            lemma_faults_find_disjunction(*b, true);
            let inner = when_faults(*b, true);
            let j = choose|j: int| 0 <= j < inner.len() && inner[j] == RuleFault::WhenDisjunction;
            if in_negation {
                let all = seq![RuleFault::WhenNestedNegation] + inner;
                assert(all[j + 1] == RuleFault::WhenDisjunction);
                assert(when_faults(p, in_negation) == all);
            }
        },
        _ => {},
    }
}

proof fn lemma_all_faults_find_disjunction(cs: Seq<PatternModel>, in_negation: bool)
    requires
        any_has_disjunction(cs),
    ensures
        when_faults_all(cs, in_negation).contains(RuleFault::WhenDisjunction),
    decreases cs,
{
    let a = when_faults_all(cs.drop_last(), in_negation);
    let b = when_faults(cs.last(), in_negation);
    if any_has_disjunction(cs.drop_last()) {
        lemma_all_faults_find_disjunction(cs.drop_last(), in_negation);
        let j = choose|j: int| 0 <= j < a.len() && a[j] == RuleFault::WhenDisjunction;
        assert((a + b)[j] == RuleFault::WhenDisjunction);
    } else {
        lemma_faults_find_disjunction(cs.last(), in_negation);
        let j = choose|j: int| 0 <= j < b.len() && b[j] == RuleFault::WhenDisjunction;
        assert((a + b)[a.len() + j] == RuleFault::WhenDisjunction);
    }
}

/// A rule whose `when` holds a disjunction at any depth is rejected for it, whatever its `then`.
pub proof fn lemma_when_disjunction_rejected(when_patterns: Seq<PatternModel>, then: ThingModel)
    requires
        any_has_disjunction(when_patterns),
    ensures
        rule_faults(PatternModel::Conj(when_patterns), then).contains(RuleFault::WhenDisjunction),
{
    lemma_all_faults_find_disjunction(when_patterns, false);
    let w = when_faults(PatternModel::Conj(when_patterns), false);
    let j = choose|j: int| 0 <= j < w.len() && w[j] == RuleFault::WhenDisjunction;
    let all = rule_faults(PatternModel::Conj(when_patterns), then);
    assert(all[j] == w[j]);
}

} // verus!
