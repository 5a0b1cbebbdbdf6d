//! The one table of keyword tokens that every printer draws from.
use vstd::prelude::*;

verus! {

/// The query commands.
#[derive(Clone, Copy, Debug, PartialEq, Eq, Structural)]
pub enum Command {
    Match,
    Insert,
    Delete,
    Define,
    Undefine,
}

/// The keywords of rules.
#[derive(Clone, Copy, Debug, PartialEq, Eq, Structural)]
pub enum Schema {
    Rule,
    When,
    Then,
}

/// The pattern combinators.
#[derive(Clone, Copy, Debug, PartialEq, Eq, Structural)]
pub enum LogicOperator {
    Or,
    Not,
}

pub open spec fn command_text(c: Command) -> Seq<char> {
    match c {
        Command::Match => "match"@,
        Command::Insert => "insert"@,
        Command::Delete => "delete"@,
        Command::Define => "define"@,
        Command::Undefine => "undefine"@,
    }
}

pub open spec fn schema_text(s: Schema) -> Seq<char> {
    match s {
        Schema::Rule => "rule"@,
        Schema::When => "when"@,
        Schema::Then => "then"@,
    }
}

pub open spec fn logic_text(o: LogicOperator) -> Seq<char> {
    match o {
        LogicOperator::Or => "or"@,
        LogicOperator::Not => "not"@,
    }
}

pub fn command_token(c: Command) -> (r: &'static str)
    ensures
        r@ == command_text(c),
{
    match c {
        Command::Match => "match",
        Command::Insert => "insert",
        Command::Delete => "delete",
        Command::Define => "define",
        Command::Undefine => "undefine",
    }
}

pub fn schema_token(s: Schema) -> (r: &'static str)
    ensures
        r@ == schema_text(s),
{
    match s {
        Schema::Rule => "rule",
        Schema::When => "when",
        Schema::Then => "then",
    }
}

pub fn logic_token(o: LogicOperator) -> (r: &'static str)
    ensures
        r@ == logic_text(o),
{
    match o {
        LogicOperator::Or => "or",
        LogicOperator::Not => "not",
    }
}

} // verus!
