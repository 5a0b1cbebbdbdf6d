use typeql::error::TypeQLError;

#[test]
fn debug_includes_display() {
    let errors = [
        TypeQLError::VariableOutOfScopeMatch { reference: "$x".to_string() },
        TypeQLError::NoVariableInScopeInsert { variables: "error message".to_string(), bounds: "$y".to_string() },
        TypeQLError::InvalidRuleThen { rule: "r".to_string(), then: "$x relates a,\n    relates b".to_string() },
    ];
    for error in errors {
        let display = error.display();
        let compact_debug = error.debug();
        let expanded_debug = error.debug();
        assert!(compact_debug.contains(&display.replace('\n', "\\n")));
        assert!(expanded_debug.contains(&display.replace('\n', "\\n")));
    }
}

#[test]
fn codes_are_padded_to_the_widest() {
    let e = TypeQLError::VariableOutOfScopeDelete { reference: "$y".to_string() };
    assert_eq!(e.code(), 2);
    assert_eq!(e.format_code(), "[TQL02]");
    assert_eq!(
        e.display(),
        "[TQL02] TypeQL Error: The deleted variable '$y' is out of scope of the match query."
    );
    let e = TypeQLError::InvalidRuleThenRoles { rule: "r".to_string(), then: "t".to_string() };
    assert_eq!(e.format_code(), "[TQL10]");
    let e = TypeQLError::InvalidRuleThenVariables { rule: "r".to_string() };
    assert_eq!(e.code(), 11);
    assert_eq!(e.format_code(), "[TQL11]");
}

#[test]
fn debug_names_the_kind() {
    let e = TypeQLError::MissingStatements { clause: "insert".to_string() };
    assert_eq!(
        e.debug(),
        "TypeQLError::MissingStatements { message: \"[TQL04] TypeQL Error: The 'insert' clause has no statements.\", clause: \"insert\" }"
    );
}

#[test]
fn message_fills_every_field() {
    let e = TypeQLError::InvalidRuleThenHas {
        rule: "r".to_string(),
        then: "$x has age $a".to_string(),
        variable: "$a".to_string(),
        type_: "age".to_string(),
    };
    assert_eq!(
        e.message(),
        "Rule 'r' 'then' '$x has age $a' tries to assign type 'age' to variable '$a', which is bound to an attribute."
    );
}

#[test]
fn debug_lists_every_field() {
    let e = TypeQLError::InvalidRuleThen { rule: "r".to_string(), then: "a\nb".to_string() };
    assert!(e.debug().ends_with(", rule: \"r\", then: \"a\\nb\" }"));
}
