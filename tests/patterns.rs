use typeql::builder::{and, not, or, var};
use typeql::pattern::{normalise, Disjunction, Pattern};
use typeql::statement::ThingStatementBuilder;
use typeql::value::Value;

fn isa(name: &str, type_: &str) -> Pattern {
    Pattern::from_thing(var(name).isa(type_.to_string()))
}

#[test]
fn statement_normalises_to_one_branch() {
    let n = normalise(&isa("x", "person"));
    assert_eq!(n.to_text(), "{ $x isa person; }");
}

#[test]
fn conjunction_distributes_over_disjunction() {
    let p = Pattern::from_conjunction(and(vec![
        isa("x", "person"),
        or(vec![isa("y", "dog"), isa("y", "cat")]),
    ]));
    let n = normalise(&p);
    assert_eq!(n.to_text(), "{ $x isa person; $y isa dog; } or { $x isa person; $y isa cat; }");
}

#[test]
fn normalising_twice_changes_nothing() {
    let p = Pattern::from_conjunction(and(vec![
        or(vec![isa("a", "t"), isa("b", "u")]),
        Pattern::from_negation(not(isa("c", "v"))),
        or(vec![isa("d", "w"), Pattern::from_conjunction(and(vec![isa("e", "x"), isa("f", "y")]))]),
    ]));
    let once = normalise(&p);
    let twice = normalise(&once);
    assert_eq!(once.to_text(), twice.to_text());
    assert_eq!(
        once.to_text(),
        "{ $a isa t; not { $c isa v; }; $d isa w; } or { $a isa t; not { $c isa v; }; $e isa x; $f isa y; } or \
         { $b isa u; not { $c isa v; }; $d isa w; } or { $b isa u; not { $c isa v; }; $e isa x; $f isa y; }"
    );
}

#[test]
fn negated_disjunction_keeps_its_branches() {
    let p = Pattern::from_negation(not(or(vec![isa("x", "a"), isa("x", "b")])));
    let n = normalise(&p);
    assert_eq!(n.to_text(), "{ not { { $x isa a; } or { $x isa b; }; }; }");
    assert_eq!(normalise(&n).to_text(), n.to_text());
}

#[test]
fn empty_conjunction_and_disjunction() {
    assert_eq!(normalise(&Pattern::from_conjunction(and(vec![]))).to_text(), "{  }");
    assert_eq!(normalise(&or(vec![])).to_text(), "");
}

#[test]
fn disjunction_keeps_its_normal_form() {
    let mut d = Disjunction::new(vec![isa("x", "a"), Pattern::from_conjunction(and(vec![isa("y", "b")]))]);
    assert!(d.normalised.is_none());
    let first = d.normalise();
    assert!(d.normalised.is_some());
    let second = d.normalise();
    assert_eq!(first.to_text(), "{ $x isa a; } or { $y isa b; }");
    assert_eq!(first.to_text(), second.to_text());
    assert_eq!(d.compute_normalised().to_text(), first.to_text());
}

#[test]
fn disjunction_members_are_braced() {
    let p = or(vec![isa("x", "a"), Pattern::from_negation(not(isa("y", "b")))]);
    assert_eq!(p.to_text(), "{\n    $x isa a;\n} or {\n    not {\n        $y isa b;\n    };\n}");
}

#[test]
fn members_sharing_no_bound_variable_are_reported() {
    let d = Disjunction::new(vec![
        isa("x", "a"),
        Pattern::from_thing(var("z").has("name".to_string(), Value::Variable("n".to_string()))),
    ]);
    let bounds = vec!["$x".to_string()];
    let errs = d.validate_is_bounded_by(&bounds).unwrap_err();
    assert_eq!(errs.len(), 1);
    assert_eq!(errs[0].message(), "The variable '$z' is out of scope of the query.");
    let bounds = vec!["$x".to_string(), "$n".to_string()];
    assert!(d.validate_is_bounded_by(&bounds).is_ok());
    assert_eq!(d.variables_recursive(), vec!["$x".to_string(), "$z".to_string(), "$n".to_string()]);
}

#[test]
fn disjunction_equality_ignores_the_kept_normal_form() {
    let make = || Disjunction::new(vec![isa("x", "a"), Pattern::from_conjunction(and(vec![isa("y", "b")]))]);
    let mut d = make();
    let e = make();
    assert!(d == e);
    let _ = d.normalise();
    assert!(d.normalised.is_some() && e.normalised.is_none());
    assert!(d == e);
    let f = Disjunction::new(vec![isa("x", "a"), Pattern::from_conjunction(and(vec![isa("y", "c")]))]);
    assert!(d != f);
    assert!(isa("x", "a").structurally_eq(&isa("x", "a")));
    assert!(!isa("x", "a").structurally_eq(&isa("z", "a")));
}
