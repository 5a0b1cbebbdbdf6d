use typeql::expression::ArithmeticOperator;
use typeql::builder::{abs, constant, contains, max, rel, type_, var, vvar};
use typeql::expression::Expression;
use typeql::statement::{
    RelatesConstraint, RelationStatementBuilder, RolePlayerConstraint, ThingStatementBuilder, TypeVariableBuilder,
    ValueStatement,
};
use typeql::value::{PredicateOp, Reference, Value};

#[test]
fn thing_statement_prints_constraints_in_order() {
    let t = var("x")
        .isa("person".to_string())
        .has("name".to_string(), Value::Text("Alice".to_string()))
        .has("age".to_string(), Value::Long(-42));
    assert_eq!(t.to_text(), "$x isa person, has name \"Alice\", has age -42");
    assert_eq!(t.names(), vec!["$x".to_string()]);
}

#[test]
fn has_with_variable_names_it() {
    let t = var("x").has("age".to_string(), Value::Variable("a".to_string()));
    assert_eq!(t.to_text(), "$x has age $a");
    assert_eq!(t.names(), vec!["$x".to_string(), "$a".to_string()]);
}

#[test]
fn relation_prints_role_players() {
    let t = rel(RolePlayerConstraint::new(Some("spouse".to_string()), Reference::Name("a".to_string())))
        .rel(RolePlayerConstraint::new(None, Reference::Name("b".to_string())))
        .isa("marriage".to_string());
    assert_eq!(t.to_text(), "(spouse: $a, $b) isa marriage");
    assert_eq!(t.names(), vec!["$a".to_string(), "$b".to_string()]);
}

#[test]
fn predicates_print_their_operator() {
    let t = var("x").predicate(PredicateOp::Gte, Value::Long(10));
    assert_eq!(t.to_text(), "$x >= 10");
    let t = var("x").predicate(PredicateOp::Like, Value::Text("a.*".to_string()));
    assert_eq!(t.to_text(), "$x like \"a.*\"");
    assert!(matches!(contains("ab").value, Value::Text(ref s) if s == "ab"));
}

#[test]
fn type_statements() {
    assert_eq!(type_("person").to_text(), "person");
    let t = var("r")
        .type_("marriage".to_string())
        .relates(RelatesConstraint { role: "husband".to_string(), overridden: None })
        .relates(RelatesConstraint { role: "wife".to_string(), overridden: Some("spouse".to_string()) });
    assert_eq!(t.to_text(), "$r type marriage relates husband,\n    relates wife as spouse");
}

#[test]
fn value_statements() {
    let v = vvar("y").assign(abs(constant(Value::Long(-5))));
    assert_eq!(v.to_text(), "?y = abs(-5)");
    assert_eq!(v.owner(), "?y");
    let v = vvar("m").assign(max(vec![Expression::Variable("a".to_string()), constant(Value::Long(3))]));
    assert_eq!(v.to_text(), "?m = max(?a, 3)");
    assert_eq!(v.variables(), vec!["?m".to_string(), "?a".to_string()]);
    let v = ValueStatement::new("z".to_string()).constrain_predicate(typeql::builder::lt(Value::Long(7)));
    assert_eq!(v.to_text(), "?z < 7");
}

#[test]
fn arithmetic_expressions() {
    let e = Expression::Operation {
        op: ArithmeticOperator::Add,
        left: Box::new(Expression::Variable("a".to_string())),
        right: Box::new(abs(constant(Value::Long(3)))),
    };
    let v = vvar("z").assign(e);
    assert_eq!(v.to_text(), "?z = (?a + abs(3))");
    assert_eq!(v.variables(), vec!["?z".to_string(), "?a".to_string()]);
}

#[test]
fn operator_builders() {
    assert_eq!(var("x").eq(Value::Boolean(true)).to_text(), "$x = true");
    assert_eq!(var("x").neq(Value::Long(0)).to_text(), "$x != 0");
    assert_eq!(var("x").gt(Value::Variable("y".to_string())).to_text(), "$x > $y");
    assert_eq!(var("x").lte(Value::Long(9)).to_text(), "$x <= 9");
    assert_eq!(var("x").contains("ab".to_string()).to_text(), "$x contains \"ab\"");
    assert_eq!(var("x").like("a+".to_string()).to_text(), "$x like \"a+\"");
    assert_eq!(var("x").iid("0x01".to_string()).to_text(), "$x iid 0x01");
}

#[test]
fn isa_a_type_variable() {
    let t = var("x").isa_variable("t".to_string());
    assert_eq!(t.to_text(), "$x isa $t");
    assert_eq!(t.names(), vec!["$x".to_string(), "$t".to_string()]);
}
