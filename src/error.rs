//! The closed set of validation errors, each with a fixed code and a message template.
use vstd::prelude::*;
use crate::text::{decimal_text, digit_count, push_char, push_decimal};

verus! {

/// Every error that validation can report.
#[derive(Clone, Debug)]
pub enum TypeQLError {
    VariableOutOfScopeMatch { reference: String },
    VariableOutOfScopeDelete { reference: String },
    NoVariableInScopeInsert { variables: String, bounds: String },
    MissingStatements { clause: String },
    InvalidRuleWhenMissingPatterns { rule: String },
    InvalidRuleWhenContainsDisjunction { rule: String },
    InvalidRuleWhenNestedNegation { rule: String },
    InvalidRuleThen { rule: String, then: String },
    InvalidRuleThenHas { rule: String, then: String, variable: String, type_: String },
    InvalidRuleThenRoles { rule: String, then: String },
    InvalidRuleThenVariables { rule: String },
    InvalidUndefineRuleBody { rule: String },
}

/// The code prefix shared by the whole family.
pub const PREFIX: &'static str = "TQL";

/// The largest code of the family; it fixes the printed width of every code.
pub const MAX_CODE: u64 = 12;

/// The code of each kind, assigned once and never reused.
pub open spec fn code_of(e: TypeQLError) -> nat {
    match e {
        TypeQLError::VariableOutOfScopeMatch { .. } => 1,
        TypeQLError::VariableOutOfScopeDelete { .. } => 2,
        TypeQLError::NoVariableInScopeInsert { .. } => 3,
        TypeQLError::MissingStatements { .. } => 4,
        TypeQLError::InvalidRuleWhenMissingPatterns { .. } => 5,
        TypeQLError::InvalidRuleWhenContainsDisjunction { .. } => 6,
        TypeQLError::InvalidRuleWhenNestedNegation { .. } => 7,
        TypeQLError::InvalidRuleThen { .. } => 8,
        TypeQLError::InvalidRuleThenHas { .. } => 9,
        TypeQLError::InvalidRuleThenRoles { .. } => 10,
        TypeQLError::InvalidRuleThenVariables { .. } => 11,
        TypeQLError::InvalidUndefineRuleBody { .. } => 12,
    }
}

/// `n` zero characters.
pub open spec fn zeros(n: nat) -> Seq<char> {
    Seq::new(n, |i: int| '0')
}

/// The message with its fields filled in.
pub open spec fn message_text(e: TypeQLError) -> Seq<char> {
    match e {
        TypeQLError::VariableOutOfScopeMatch { reference } =>
            "The variable '"@ + reference@ + "' is out of scope of the query."@,
        TypeQLError::VariableOutOfScopeDelete { reference } =>
            "The deleted variable '"@ + reference@ + "' is out of scope of the match query."@,
        TypeQLError::NoVariableInScopeInsert { variables, bounds } =>
            "None of the variables in 'insert' ('"@ + variables@
                + "') is within scope of 'match' ('"@ + bounds@ + "')."@,
        TypeQLError::MissingStatements { clause } =>
            "The '"@ + clause@ + "' clause has no statements."@,
        TypeQLError::InvalidRuleWhenMissingPatterns { rule } =>
            "Rule '"@ + rule@ + "' 'when' has no patterns."@,
        TypeQLError::InvalidRuleWhenContainsDisjunction { rule } =>
            "Rule '"@ + rule@ + "' 'when' contains a disjunction."@,
        TypeQLError::InvalidRuleWhenNestedNegation { rule } =>
            "Rule '"@ + rule@ + "' 'when' contains a nested negation."@,
        TypeQLError::InvalidRuleThen { rule, then } =>
            "Rule '"@ + rule@ + "' 'then' '"@ + then@
                + "': must infer exactly one attribute ownership or one relation."@,
        TypeQLError::InvalidRuleThenHas { rule, then, variable, type_ } =>
            "Rule '"@ + rule@ + "' 'then' '"@ + then@ + "' tries to assign type '"@ + type_@
                + "' to variable '"@ + variable@ + "', which is bound to an attribute."@,
        TypeQLError::InvalidRuleThenRoles { rule, then } =>
            "Rule '"@ + rule@ + "' 'then' '"@ + then@ + "' must specify every role type."@,
        TypeQLError::InvalidRuleThenVariables { rule } =>
            "Rule '"@ + rule@ + "' 'then' uses variables that 'when' does not bind."@,
        TypeQLError::InvalidUndefineRuleBody { rule } =>
            "Rule '"@ + rule@ + "' is undefined by its label alone, without 'when' or 'then'."@,
    }
}

/// `[TQL<zero padding><code>] TypeQL Error: <message>`.
pub open spec fn display_text(e: TypeQLError) -> Seq<char> {
    "["@ + PREFIX@ + zeros((digit_count(MAX_CODE as nat) - digit_count(code_of(e))) as nat)
        + decimal_text(code_of(e)) + "] TypeQL Error: "@ + message_text(e)
}

/// `s` with every line break written as a backslash and `n`.
pub open spec fn escape_newlines(s: Seq<char>) -> Seq<char>
    decreases s.len(),
{
    if s.len() == 0 {
        Seq::empty()
    } else {
        escape_newlines(s.drop_last()) + if s.last() == '\n' { seq!['\\', 'n'] } else { seq![s.last()] }
    }
}

/// The name of the kind, qualified by the family.
pub open spec fn name_text(e: TypeQLError) -> Seq<char> {
    "TypeQLError::"@ + match e {
        TypeQLError::VariableOutOfScopeMatch { .. } => "VariableOutOfScopeMatch"@,
        TypeQLError::VariableOutOfScopeDelete { .. } => "VariableOutOfScopeDelete"@,
        TypeQLError::NoVariableInScopeInsert { .. } => "NoVariableInScopeInsert"@,
        TypeQLError::MissingStatements { .. } => "MissingStatements"@,
        TypeQLError::InvalidRuleWhenMissingPatterns { .. } => "InvalidRuleWhenMissingPatterns"@,
        TypeQLError::InvalidRuleWhenContainsDisjunction { .. } => "InvalidRuleWhenContainsDisjunction"@,
        TypeQLError::InvalidRuleWhenNestedNegation { .. } => "InvalidRuleWhenNestedNegation"@,
        TypeQLError::InvalidRuleThen { .. } => "InvalidRuleThen"@,
        TypeQLError::InvalidRuleThenHas { .. } => "InvalidRuleThenHas"@,
        TypeQLError::InvalidRuleThenRoles { .. } => "InvalidRuleThenRoles"@,
        TypeQLError::InvalidRuleThenVariables { .. } => "InvalidRuleThenVariables"@,
        TypeQLError::InvalidUndefineRuleBody { .. } => "InvalidUndefineRuleBody"@,
    }
}

/// `, <name>: "<value with escaped line breaks>"`.
pub open spec fn field_text(name: Seq<char>, value: Seq<char>) -> Seq<char> {
    ", "@ + name + ": \""@ + escape_newlines(value) + "\""@
}

/// The fields of the error, in declaration order.
pub open spec fn fields_text(e: TypeQLError) -> Seq<char> {
    match e {
        TypeQLError::VariableOutOfScopeMatch { reference } => field_text("reference"@, reference@),
        TypeQLError::VariableOutOfScopeDelete { reference } => field_text("reference"@, reference@),
        TypeQLError::NoVariableInScopeInsert { variables, bounds } =>
            field_text("variables"@, variables@) + field_text("bounds"@, bounds@),
        TypeQLError::MissingStatements { clause } => field_text("clause"@, clause@),
        TypeQLError::InvalidRuleWhenMissingPatterns { rule } => field_text("rule"@, rule@),
        TypeQLError::InvalidRuleWhenContainsDisjunction { rule } => field_text("rule"@, rule@),
        TypeQLError::InvalidRuleWhenNestedNegation { rule } => field_text("rule"@, rule@),
        TypeQLError::InvalidRuleThen { rule, then } => field_text("rule"@, rule@) + field_text("then"@, then@),
        TypeQLError::InvalidRuleThenHas { rule, then, variable, type_ } =>
            field_text("rule"@, rule@) + field_text("then"@, then@) + field_text("variable"@, variable@)
                + field_text("type_"@, type_@),
        TypeQLError::InvalidRuleThenRoles { rule, then } => field_text("rule"@, rule@) + field_text("then"@, then@),
        TypeQLError::InvalidRuleThenVariables { rule } => field_text("rule"@, rule@),
        TypeQLError::InvalidUndefineRuleBody { rule } => field_text("rule"@, rule@),
    }
}

/// `<name> { message: "<display with escaped line breaks>", <field>: "<value>", ... }`.
pub open spec fn debug_text(e: TypeQLError) -> Seq<char> {
    name_text(e) + " { message: \""@ + escape_newlines(display_text(e)) + "\""@ + fields_text(e) + " }"@
}

fn append_field(s: &mut String, name: &str, value: &str)
    ensures
        final(s)@ == old(s)@ + field_text(name@, value@),
{
    s.append(", ");
    s.append(name);
    s.append(": \"");
    append_escaped(s, value);
    s.append("\"");
    assert(final(s)@ =~= old(s)@ + field_text(name@, value@));
}

fn append_escaped(s: &mut String, t: &str)
    ensures
        final(s)@ == old(s)@ + escape_newlines(t@),
{
    let n = t.unicode_len();
    let mut i: usize = 0;
    while i < n
        invariant
            n == t@.len(),
            i <= n,
            s@ == old(s)@ + escape_newlines(t@.take(i as int)),
        decreases n - i,
    {
        let c = t.get_char(i);
        assert(t@.take(i + 1).drop_last() =~= t@.take(i as int));
        if c == '\n' {
            s.append("\\n");
            proof { reveal_strlit("\\n"); }
        } else {
            push_char(s, c);
        }
        assert(s@ =~= old(s)@ + escape_newlines(t@.take(i + 1)));
        i = i + 1;
    }
    assert(t@.take(n as int) =~= t@);
}

impl TypeQLError {
    /// The numeric code of this kind.
    pub fn code(&self) -> (r: u64)
        ensures
            r == code_of(*self),
            1 <= r <= MAX_CODE,
    {
        match self {
            TypeQLError::VariableOutOfScopeMatch { .. } => 1,
            TypeQLError::VariableOutOfScopeDelete { .. } => 2,
            TypeQLError::NoVariableInScopeInsert { .. } => 3,
            TypeQLError::MissingStatements { .. } => 4,
            TypeQLError::InvalidRuleWhenMissingPatterns { .. } => 5,
            TypeQLError::InvalidRuleWhenContainsDisjunction { .. } => 6,
            TypeQLError::InvalidRuleWhenNestedNegation { .. } => 7,
            TypeQLError::InvalidRuleThen { .. } => 8,
            TypeQLError::InvalidRuleThenHas { .. } => 9,
            TypeQLError::InvalidRuleThenRoles { .. } => 10,
            TypeQLError::InvalidRuleThenVariables { .. } => 11,
            TypeQLError::InvalidUndefineRuleBody { .. } => 12,
        }
    }

    /// The message of this error, its fields filled in.
    pub fn message(&self) -> (r: String)
        ensures
            r@ == message_text(*self),
    {
        let mut s = String::new();
        match self {
            TypeQLError::VariableOutOfScopeMatch { reference } => {
                s.append("The variable '");
                s.append(reference.as_str());
                s.append("' is out of scope of the query.");
            },
            TypeQLError::VariableOutOfScopeDelete { reference } => {
                s.append("The deleted variable '");
                s.append(reference.as_str());
                s.append("' is out of scope of the match query.");
            },
            TypeQLError::NoVariableInScopeInsert { variables, bounds } => {
                s.append("None of the variables in 'insert' ('");
                s.append(variables.as_str());
                s.append("') is within scope of 'match' ('");
                s.append(bounds.as_str());
                s.append("').");
            },
            TypeQLError::MissingStatements { clause } => {
                s.append("The '");
                s.append(clause.as_str());
                s.append("' clause has no statements.");
            },
            TypeQLError::InvalidRuleWhenMissingPatterns { rule } => {
                s.append("Rule '");
                s.append(rule.as_str());
                s.append("' 'when' has no patterns.");
            },
            TypeQLError::InvalidRuleWhenContainsDisjunction { rule } => {
                s.append("Rule '");
                s.append(rule.as_str());
                s.append("' 'when' contains a disjunction.");
            },
            TypeQLError::InvalidRuleWhenNestedNegation { rule } => {
                s.append("Rule '");
                s.append(rule.as_str());
                s.append("' 'when' contains a nested negation.");
            },
            TypeQLError::InvalidRuleThen { rule, then } => {
                s.append("Rule '");
                s.append(rule.as_str());
                s.append("' 'then' '");
                s.append(then.as_str());
                s.append("': must infer exactly one attribute ownership or one relation.");
            },
            TypeQLError::InvalidRuleThenHas { rule, then, variable, type_ } => {
                s.append("Rule '");
                s.append(rule.as_str());
                s.append("' 'then' '");
                s.append(then.as_str());
                s.append("' tries to assign type '");
                s.append(type_.as_str());
                s.append("' to variable '");
                s.append(variable.as_str());
                s.append("', which is bound to an attribute.");
            },
            TypeQLError::InvalidRuleThenRoles { rule, then } => {
                s.append("Rule '");
                s.append(rule.as_str());
                s.append("' 'then' '");
                s.append(then.as_str());
                s.append("' must specify every role type.");
            },
            TypeQLError::InvalidRuleThenVariables { rule } => {
                s.append("Rule '");
                s.append(rule.as_str());
                s.append("' 'then' uses variables that 'when' does not bind.");
            },
            TypeQLError::InvalidUndefineRuleBody { rule } => {
                s.append("Rule '");
                s.append(rule.as_str());
                s.append("' is undefined by its label alone, without 'when' or 'then'.");
            },
        }
        assert(s@ =~= message_text(*self));
        s
    }

    /// The code as printed: `[TQL` and the code, zero-padded to the width of the largest code.
    pub fn format_code(&self) -> (r: String)
        ensures
            r@ == "["@ + PREFIX@ + zeros((digit_count(MAX_CODE as nat) - digit_count(code_of(*self))) as nat)
                + decimal_text(code_of(*self)) + "]"@,
    {
        let code = self.code();
        let mut s = String::new();
        s.append("[");
        s.append(PREFIX);
        let width = digit_width(MAX_CODE);
        let own = digit_width(code);
        let mut k: u64 = own;
        let ghost base = s@;
        while k < width
            invariant
                own <= k,
                k <= width || k == own,
                own == digit_count(code as nat),
                width == digit_count(MAX_CODE as nat),
                s@ == base + zeros((k - own) as nat),
            decreases width - k,
        {
            s.append("0");
            proof {
                reveal_strlit("0");
                assert("0"@ =~= seq!['0']);
            }
            assert(zeros((k + 1 - own) as nat) =~= zeros((k - own) as nat) + "0"@);
            assert(s@ =~= base + zeros((k + 1 - own) as nat));
            k = k + 1;
        }
        push_decimal(&mut s, code);
        s.append("]");
        assert(s@ =~= "["@ + PREFIX@ + zeros((digit_count(MAX_CODE as nat) - digit_count(code_of(*self))) as nat)
            + decimal_text(code_of(*self)) + "]"@);
        s
    }

    /// The full printed form of the error.
    pub fn display(&self) -> (r: String)
        ensures
            r@ == display_text(*self),
    {
        let code = self.format_code();
        let mut s = code.clone();
        s.append(" TypeQL Error: ");
        let m = self.message();
        s.append(m.as_str());
        proof {
            reveal_strlit("] TypeQL Error: ");
            reveal_strlit("]");
            reveal_strlit(" TypeQL Error: ");
        }
        assert(s@ =~= display_text(*self));
        s
    }

    /// The debug form: the kind's name, the display text and each field, line breaks escaped.
    pub fn debug(&self) -> (r: String)
        ensures
            r@ == debug_text(*self),
    {
        let mut s = String::new();
        s.append("TypeQLError::");
        match self {
            TypeQLError::VariableOutOfScopeMatch { .. } => s.append("VariableOutOfScopeMatch"),
            TypeQLError::VariableOutOfScopeDelete { .. } => s.append("VariableOutOfScopeDelete"),
            TypeQLError::NoVariableInScopeInsert { .. } => s.append("NoVariableInScopeInsert"),
            TypeQLError::MissingStatements { .. } => s.append("MissingStatements"),
            TypeQLError::InvalidRuleWhenMissingPatterns { .. } => s.append("InvalidRuleWhenMissingPatterns"),
            TypeQLError::InvalidRuleWhenContainsDisjunction { .. } => s.append("InvalidRuleWhenContainsDisjunction"),
            TypeQLError::InvalidRuleWhenNestedNegation { .. } => s.append("InvalidRuleWhenNestedNegation"),
            TypeQLError::InvalidRuleThen { .. } => s.append("InvalidRuleThen"),
            TypeQLError::InvalidRuleThenHas { .. } => s.append("InvalidRuleThenHas"),
            TypeQLError::InvalidRuleThenRoles { .. } => s.append("InvalidRuleThenRoles"),
            TypeQLError::InvalidRuleThenVariables { .. } => s.append("InvalidRuleThenVariables"),
            TypeQLError::InvalidUndefineRuleBody { .. } => s.append("InvalidUndefineRuleBody"),
        }
        s.append(" { message: \"");
        let d = self.display();
        append_escaped(&mut s, d.as_str());
        s.append("\"");
        let ghost before = s@;
        match self {
            TypeQLError::VariableOutOfScopeMatch { reference } => append_field(&mut s, "reference", reference.as_str()),
            TypeQLError::VariableOutOfScopeDelete { reference } => append_field(&mut s, "reference", reference.as_str()),
            TypeQLError::NoVariableInScopeInsert { variables, bounds } => {
                append_field(&mut s, "variables", variables.as_str());
                append_field(&mut s, "bounds", bounds.as_str());
            },
            TypeQLError::MissingStatements { clause } => append_field(&mut s, "clause", clause.as_str()),
            TypeQLError::InvalidRuleWhenMissingPatterns { rule } => append_field(&mut s, "rule", rule.as_str()),
            TypeQLError::InvalidRuleWhenContainsDisjunction { rule } => append_field(&mut s, "rule", rule.as_str()),
            TypeQLError::InvalidRuleWhenNestedNegation { rule } => append_field(&mut s, "rule", rule.as_str()),
            TypeQLError::InvalidRuleThen { rule, then } => {
                append_field(&mut s, "rule", rule.as_str());
                append_field(&mut s, "then", then.as_str());
            },
            TypeQLError::InvalidRuleThenHas { rule, then, variable, type_ } => {
                append_field(&mut s, "rule", rule.as_str());
                append_field(&mut s, "then", then.as_str());
                append_field(&mut s, "variable", variable.as_str());
                append_field(&mut s, "type_", type_.as_str());
            },
            TypeQLError::InvalidRuleThenRoles { rule, then } => {
                append_field(&mut s, "rule", rule.as_str());
                append_field(&mut s, "then", then.as_str());
            },
            TypeQLError::InvalidRuleThenVariables { rule } => append_field(&mut s, "rule", rule.as_str()),
            TypeQLError::InvalidUndefineRuleBody { rule } => append_field(&mut s, "rule", rule.as_str()),
        }
        assert(s@ =~= before + fields_text(*self));
        s.append(" }");
        assert(s@ =~= debug_text(*self));
        s
    }
}

/// The number of decimal digits of `n`.
pub fn digit_width(n: u64) -> (r: u64)
    ensures
        r == digit_count(n as nat),
        r <= n + 1,
    decreases n,
{
    if n < 10 {
        1
    } else {
        let r = digit_width(n / 10);
        r + 1
    }
}

} // verus!
