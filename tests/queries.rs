use typeql::builder::{and, not, or, rule, type_, var};
use typeql::error::TypeQLError;
use typeql::pattern::Pattern;
use typeql::query::{Definable, Modifiers, SortOrder, Sorting, TypeQLDefine, TypeQLDelete, TypeQLInsert, TypeQLMatch, TypeQLUndefine};
use typeql::rule::RuleDefinition;
use typeql::statement::{RelationStatementBuilder, RolePlayerConstraint, ThingStatementBuilder};
use typeql::value::{Reference, Value};

fn isa(name: &str, type_: &str) -> Pattern {
    Pattern::from_thing(var(name).isa(type_.to_string()))
}

fn person_rule() -> RuleDefinition {
    rule("r")
        .when(and(vec![isa("x", "person")]))
        .then_(var("x").has("age".to_string(), Value::Long(30)))
}

#[test]
fn rule_with_single_has_edge() {
    let r = person_rule();
    assert!(r.validate().is_ok());
    assert_eq!(r.to_text(), "rule r:\n    when $x isa person;\n    then $x has age 30;\n}");
}

#[test]
fn rule_with_disjunction_in_when() {
    let r = rule("r")
        .when(and(vec![or(vec![isa("x", "person"), isa("x", "dog")])]))
        .then_(var("x").has("age".to_string(), Value::Long(30)));
    let errs = r.validate().unwrap_err();
    assert_eq!(errs.len(), 1);
    assert!(matches!(&errs[0], TypeQLError::InvalidRuleWhenContainsDisjunction { rule } if rule == "r"));
    let r = rule("q")
        .when(and(vec![or(vec![isa("x", "person"), isa("x", "dog")])]))
        .then_(var("x").isa("thing".to_string()));
    let errs = r.validate().unwrap_err();
    assert!(matches!(&errs[0], TypeQLError::InvalidRuleWhenContainsDisjunction { .. }));
    assert!(matches!(&errs[1], TypeQLError::InvalidRuleThen { then, .. } if then == "$x isa thing"));
}

#[test]
fn rule_with_nested_negation() {
    let r = rule("r")
        .when(and(vec![
            isa("x", "person"),
            Pattern::from_negation(not(Pattern::from_negation(not(isa("x", "dog"))))),
        ]))
        .then_(var("x").has("age".to_string(), Value::Long(1)));
    let errs = r.validate().unwrap_err();
    assert_eq!(errs.len(), 1);
    assert!(matches!(&errs[0], TypeQLError::InvalidRuleWhenNestedNegation { .. }));
    let r = rule("r")
        .when(and(vec![isa("x", "person"), Pattern::from_negation(not(isa("x", "dog")))]))
        .then_(var("x").has("age".to_string(), Value::Long(1)));
    assert!(r.validate().is_ok());
}

#[test]
fn rule_then_has_typed_variable() {
    let r = rule("r")
        .when(and(vec![isa("x", "person"), isa("a", "age")]))
        .then_(var("x").has("age".to_string(), Value::Variable("a".to_string())));
    let errs = r.validate().unwrap_err();
    assert_eq!(errs.len(), 1);
    assert!(matches!(&errs[0], TypeQLError::InvalidRuleThenHas { variable, type_, .. } if variable == "$a" && type_ == "age"));
}

#[test]
fn rule_then_relation_needs_roles() {
    let when = and(vec![isa("a", "person"), isa("b", "person")]);
    let then = var("m")
        .rel(RolePlayerConstraint::new(Some("spouse".to_string()), Reference::Name("a".to_string())))
        .rel(RolePlayerConstraint::new(None, Reference::Name("b".to_string())))
        .isa("marriage".to_string());
    let errs = rule("r").when(when).then_(then).validate().unwrap_err();
    assert_eq!(errs.len(), 2);
    assert!(matches!(&errs[0], TypeQLError::InvalidRuleThenRoles { .. }));
    assert!(matches!(&errs[1], TypeQLError::InvalidRuleThenVariables { .. }));
}

#[test]
fn rule_then_variables_bound_by_when() {
    let r = rule("r")
        .when(and(vec![isa("x", "person")]))
        .then_(var("y").has("age".to_string(), Value::Long(3)));
    let errs = r.validate().unwrap_err();
    assert_eq!(errs.len(), 1);
    assert_eq!(errs[0].message(), "Rule 'r' 'then' uses variables that 'when' does not bind.");
}

#[test]
fn insert_out_of_scope_then_bound() {
    let q = TypeQLInsert {
        match_query: Some(TypeQLMatch::new(and(vec![isa("x", "person")]))),
        variables: vec![var("y").isa("dog".to_string())],
    };
    let errs = q.validate().unwrap_err();
    assert_eq!(errs.len(), 1);
    assert!(matches!(&errs[0], TypeQLError::NoVariableInScopeInsert { variables, bounds }
        if variables == "$y isa dog" && bounds == "$x"));
    let q = TypeQLInsert {
        match_query: Some(TypeQLMatch::new(and(vec![isa("x", "person"), isa("y", "animal")]))),
        variables: vec![var("y").isa("dog".to_string())],
    };
    assert!(q.validate().is_ok());
    assert_eq!(q.to_text(), "match\n$x isa person;\n$y isa animal;\ninsert\n$y isa dog;");
}

#[test]
fn insert_without_statements() {
    let q = TypeQLInsert::new(vec![]);
    let errs = q.validate().unwrap_err();
    assert_eq!(errs.len(), 1);
    assert!(matches!(&errs[0], TypeQLError::MissingStatements { clause } if clause == "insert"));
    let q = TypeQLInsert::new(vec![var("x").isa("person".to_string())]);
    assert!(q.validate().is_ok());
    assert_eq!(q.to_text(), "insert\n$x isa person;");
}

#[test]
fn delete_scope_check() {
    let q = TypeQLDelete::new(TypeQLMatch::new(and(vec![isa("x", "person")])), vec![var("y").isa("person".to_string())]);
    let errs = q.validate().unwrap_err();
    assert_eq!(errs.len(), 1);
    assert!(matches!(&errs[0], TypeQLError::VariableOutOfScopeDelete { reference } if reference == "$y"));
    let q = TypeQLDelete::new(TypeQLMatch::new(and(vec![isa("x", "person")])), vec![var("x").isa("person".to_string())]);
    assert!(q.validate().is_ok());
    assert_eq!(q.to_text(), "match\n$x isa person;\ndelete\n$x isa person;");
}

#[test]
fn delete_without_statements() {
    let q = TypeQLDelete::new(TypeQLMatch::new(and(vec![isa("x", "person")])), vec![]);
    let errs = q.validate().unwrap_err();
    assert_eq!(errs.len(), 1);
    assert!(matches!(&errs[0], TypeQLError::MissingStatements { clause } if clause == "delete"));
}

#[test]
fn update_checks_both_parts() {
    let d = TypeQLDelete::new(TypeQLMatch::new(and(vec![isa("x", "person")])), vec![var("x").isa("person".to_string())]);
    let u = d.insert(vec![var("x").has("age".to_string(), Value::Long(5))]);
    assert!(u.validate().is_ok());
    assert_eq!(u.to_text(), "match\n$x isa person;\ndelete\n$x isa person;\ninsert\n$x has age 5;");
    let d = TypeQLDelete::new(TypeQLMatch::new(and(vec![isa("x", "person")])), vec![var("z").isa("person".to_string())]);
    let errs = d.insert(vec![]).validate().unwrap_err();
    assert_eq!(errs.len(), 3);
    assert!(matches!(&errs[0], TypeQLError::VariableOutOfScopeDelete { .. }));
    assert!(matches!(&errs[1], TypeQLError::MissingStatements { .. }));
    assert!(matches!(&errs[2], TypeQLError::NoVariableInScopeInsert { .. }));
}

#[test]
fn define_and_undefine() {
    let d = TypeQLDefine::new(vec![
        Definable::TypeVariable(type_("person")),
        Definable::RuleDefinition(person_rule()),
    ])
    .unwrap();
    assert!(d.validate().is_ok());
    assert_eq!(d.to_text(), "define\nperson;\nrule r:\n    when $x isa person;\n    then $x has age 30;\n};");
    let u = TypeQLUndefine::new(vec![
        Definable::RuleDeclaration(rule("r")),
        Definable::TypeVariable(type_("person")),
    ])
    .unwrap();
    assert_eq!(u.to_text(), "undefine\nperson;\nrule r;");
}

#[test]
fn define_reports_faults_of_every_rule() {
    let bad = rule("b").when(and(vec![isa("x", "person")])).then_(var("x").isa("person".to_string()));
    let d = TypeQLDefine::new(vec![Definable::RuleDefinition(person_rule()), Definable::RuleDefinition(bad)]).unwrap();
    let errs = d.validate().unwrap_err();
    assert_eq!(errs.len(), 1);
    assert!(matches!(&errs[0], TypeQLError::InvalidRuleThen { rule, .. } if rule == "b"));
}

#[test]
fn match_disjunction_members_must_touch_the_match() {
    let q = typeql::query::typeql_match(and(vec![
        isa("x", "person"),
        or(vec![isa("x", "adult"), isa("z", "dog")]),
    ]));
    let errs = q.validate().unwrap_err();
    assert_eq!(errs.len(), 1);
    assert!(matches!(&errs[0], TypeQLError::VariableOutOfScopeMatch { reference } if reference == "$z"));
    let q = typeql::query::typeql_match(and(vec![isa("x", "person"), or(vec![isa("x", "adult"), isa("x", "child")])]));
    assert!(q.validate().is_ok());
    assert_eq!(q.to_text(), "match\n$x isa person;\n{\n    $x isa adult;\n} or {\n    $x isa child;\n};");
}

#[test]
fn insert_and_delete_report_their_match_errors_last() {
    let m = || TypeQLMatch::new(and(vec![isa("x", "person"), or(vec![isa("x", "adult"), isa("w", "dog")])]));
    let q = TypeQLInsert { match_query: Some(m()), variables: vec![var("q").isa("dog".to_string())] };
    let errs = q.validate().unwrap_err();
    assert_eq!(errs.len(), 2);
    assert!(matches!(&errs[0], TypeQLError::NoVariableInScopeInsert { .. }));
    assert!(matches!(&errs[1], TypeQLError::VariableOutOfScopeMatch { reference } if reference == "$w"));
    let q = TypeQLDelete::new(m(), vec![var("x").isa("person".to_string())]);
    let errs = q.validate().unwrap_err();
    assert_eq!(errs.len(), 1);
    assert!(matches!(&errs[0], TypeQLError::VariableOutOfScopeMatch { .. }));
}

#[test]
fn undefine_rejects_a_complete_rule() {
    let u = TypeQLUndefine::new(vec![Definable::TypeVariable(type_("person")), Definable::RuleDefinition(person_rule())]);
    let e = u.unwrap_err();
    assert!(matches!(&e, TypeQLError::InvalidUndefineRuleBody { rule } if rule == "r"));
    assert_eq!(e.format_code(), "[TQL12]");
}

#[test]
fn define_rejects_a_bare_rule_label() {
    let d = TypeQLDefine::new(vec![Definable::RuleDeclaration(rule("q"))]);
    assert!(matches!(d.unwrap_err(), TypeQLError::InvalidRuleWhenMissingPatterns { rule } if rule == "q"));
}

#[test]
fn insert_may_bring_new_variables() {
    let q = TypeQLInsert {
        match_query: Some(TypeQLMatch::new(and(vec![isa("x", "person"), isa("x", "adult")]))),
        variables: vec![var("x").isa("dog".to_string()), var("y").isa("dog".to_string())],
    };
    assert!(q.validate().is_ok());
    let q = TypeQLInsert {
        match_query: Some(TypeQLMatch::new(and(vec![isa("p", "person")]))),
        variables: vec![var("r")
            .rel(RolePlayerConstraint::new(Some("friend".to_string()), Reference::Name("p".to_string())))
            .isa("friendship".to_string())],
    };
    assert!(q.validate().is_ok());
}

#[test]
fn insert_error_lists_each_bound_name_once() {
    let q = TypeQLInsert {
        match_query: Some(TypeQLMatch::new(and(vec![isa("x", "person"), isa("x", "adult")]))),
        variables: vec![var("y").isa("dog".to_string()), var("z").isa("dog".to_string())],
    };
    let errs = q.validate().unwrap_err();
    assert_eq!(errs.len(), 1);
    assert!(matches!(&errs[0], TypeQLError::NoVariableInScopeInsert { variables, bounds }
        if variables == "$y isa dog, $z isa dog" && bounds == "$x"));
}

#[test]
fn disjunctions_and_nested_negations_reported_at_any_depth() {
    let inner = or(vec![isa("x", "person"), isa("x", "dog")]);
    let when = and(vec![isa("x", "thing"), Pattern::from_negation(not(Pattern::from_negation(not(inner))))]);
    let r = rule("r").when(when).then_(var("x").has("age".to_string(), Value::Long(1)));
    let errs = r.validate().unwrap_err();
    assert_eq!(errs.len(), 2);
    assert!(matches!(&errs[0], TypeQLError::InvalidRuleWhenNestedNegation { .. }));
    assert!(matches!(&errs[1], TypeQLError::InvalidRuleWhenContainsDisjunction { .. }));
    let nested = or(vec![isa("x", "a"), Pattern::from_conjunction(and(vec![or(vec![isa("x", "b"), isa("x", "c")])]))]);
    let r = rule("s").when(and(vec![nested])).then_(var("x").has("age".to_string(), Value::Long(1)));
    let errs = r.validate().unwrap_err();
    assert_eq!(errs.len(), 2);
    assert!(matches!(&errs[1], TypeQLError::InvalidRuleWhenContainsDisjunction { .. }));
}

#[test]
fn match_scope_check_reaches_nested_disjunctions() {
    let nested = or(vec![isa("z", "a"), isa("x", "b")]);
    let q = typeql::query::typeql_match(and(vec![isa("x", "person"), Pattern::from_negation(not(nested))]));
    let errs = q.validate().unwrap_err();
    assert_eq!(errs.len(), 1);
    assert!(matches!(&errs[0], TypeQLError::VariableOutOfScopeMatch { reference } if reference == "$z"));
    let inner = Pattern::from_conjunction(and(vec![isa("y", "dog"), or(vec![isa("y", "big"), isa("w", "small")])]));
    let q = typeql::query::typeql_match(and(vec![isa("y", "thing"), or(vec![inner, isa("y", "cat")])]));
    let errs = q.validate().unwrap_err();
    assert_eq!(errs.len(), 1);
    assert!(matches!(&errs[0], TypeQLError::VariableOutOfScopeMatch { reference } if reference == "$w"));
}

#[test]
fn modifiers_follow_the_match_and_the_delete() {
    let mut m = TypeQLMatch::new(and(vec![isa("x", "person")]));
    m.modifiers = Modifiers {
        sorting: vec![Sorting { variable: "x".to_string(), order: Some(SortOrder::Desc) }],
        offset: Some(10),
        limit: Some(5),
    };
    assert_eq!(m.to_text(), "match\n$x isa person;\nsort $x desc; offset 10; limit 5;");
    let mut d = TypeQLDelete::new(TypeQLMatch::new(and(vec![isa("x", "person")])), vec![var("x").isa("person".to_string())]);
    assert_eq!(Modifiers::new().to_suffix(), "");
    d.modifiers.limit = Some(1);
    assert_eq!(d.to_text(), "match\n$x isa person;\ndelete\n$x isa person;\nlimit 1;");
}
