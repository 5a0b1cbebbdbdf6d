//! Statements: a variable together with the constraints attached to it.
use vstd::prelude::*;
use crate::expression::{Expression, ExpressionModel, expression_text, expression_variables};
use crate::text::{join, join_strings, strings_view, concat, extend_strings};
use crate::value::{Predicate, PredicateOp, Reference, Value, predicate_text, reference_text, value_names, value_text};

verus! {

/// `has <type> <attribute>`: ownership of an attribute, given by a variable or a value.
#[derive(Debug)]
pub struct HasConstraint {
    pub type_: Option<String>,
    pub attribute: Reference,
    pub predicate: Option<Predicate>,
}

/// `<role>: <player>` inside a relation.
#[derive(Debug)]
pub struct RolePlayerConstraint {
    pub role_type: Option<String>,
    pub player: Reference,
}

/// `(<role player>, ...)`: the players of a relation, in order.
#[derive(Debug)]
pub struct RelationConstraint {
    pub role_players: Vec<RolePlayerConstraint>,
}

/// A statement about a data instance.
#[derive(Debug)]
pub struct ThingStatement {
    pub reference: Reference,
    pub iid: Option<String>,
    pub isa: Option<Reference>,
    pub has: Vec<HasConstraint>,
    pub value: Option<Predicate>,
    pub relation: Option<RelationConstraint>,
}

/// `relates <role> [as <overridden>]`.
#[derive(Debug)]
pub struct RelatesConstraint {
    pub role: String,
    pub overridden: Option<String>,
}

/// A statement about a schema type.
#[derive(Debug)]
pub struct TypeVariable {
    pub reference: Reference,
    pub label: Option<String>,
    pub sub: Option<String>,
    pub relates: Vec<RelatesConstraint>,
    pub plays: Vec<String>,
}

/// A statement about a computed value `?name`.
#[derive(Debug)]
pub struct ValueStatement {
    pub variable: String,
    pub assign_constraint: Option<Expression>,
    pub predicate_constraint: Option<Predicate>,
}

/// The atomic unit of a pattern.
#[derive(Debug)]
pub enum Statement {
    Thing(ThingStatement),
    Type(TypeVariable),
    Value(ValueStatement),
}

/// The mathematical form of a thing statement.
pub struct ThingModel {
    pub reference: Reference,
    pub iid: Option<String>,
    pub isa: Option<Reference>,
    pub has: Seq<HasConstraint>,
    pub value: Option<Predicate>,
    pub relation: Option<Seq<RolePlayerConstraint>>,
}

/// The mathematical form of a type statement.
pub struct TypeModel {
    pub reference: Reference,
    pub label: Option<String>,
    pub sub: Option<String>,
    pub relates: Seq<RelatesConstraint>,
    pub plays: Seq<String>,
}

/// The mathematical form of a value statement.
pub struct ValueModel {
    pub variable: String,
    pub assign: Option<ExpressionModel>,
    pub predicate: Option<Predicate>,
}

pub enum StatementModel {
    Thing(ThingModel),
    Type(TypeModel),
    Value(ValueModel),
}

impl View for ThingStatement {
    type V = ThingModel;

    open spec fn view(&self) -> ThingModel {
        ThingModel {
            reference: self.reference,
            iid: self.iid,
            isa: self.isa,
            has: self.has@,
            value: self.value,
            relation: match self.relation {
                Some(r) => Some(r.role_players@),
                None => None,
            },
        }
    }
}

impl View for TypeVariable {
    type V = TypeModel;

    open spec fn view(&self) -> TypeModel {
        TypeModel { reference: self.reference, label: self.label, sub: self.sub, relates: self.relates@, plays: self.plays@ }
    }
}

impl View for ValueStatement {
    type V = ValueModel;

    open spec fn view(&self) -> ValueModel {
        ValueModel {
            variable: self.variable,
            assign: match self.assign_constraint {
                Some(e) => Some(e@),
                None => None,
            },
            predicate: self.predicate_constraint,
        }
    }
}

impl View for Statement {
    type V = StatementModel;

    open spec fn view(&self) -> StatementModel {
        match self {
            Statement::Thing(t) => StatementModel::Thing(t@),
            Statement::Type(t) => StatementModel::Type(t@),
            Statement::Value(v) => StatementModel::Value(v@),
        }
    }
}

/// The single-element list of `o`'s content, or the empty list.
pub open spec fn part(o: Option<Seq<char>>) -> Seq<Seq<char>> {
    match o {
        Some(t) => seq![t],
        None => Seq::empty(),
    }
}

/// The single-element list of a non-empty text, or the empty list.
pub open spec fn nonempty(t: Seq<char>) -> Seq<Seq<char>> {
    if t.len() == 0 { Seq::empty() } else { seq![t] }
}

/// `has [type] [$var] [value]`; an equality shows its operand alone.
pub open spec fn has_text(h: HasConstraint) -> Seq<char> {
    "has"@ + match h.type_ { Some(t) => " "@ + t@, None => Seq::empty() }
        + if h.attribute is Name { " "@ + reference_text(h.attribute) } else { Seq::empty() }
        + match h.predicate {
            Some(p) => " "@ + if p.op == PredicateOp::Eq { value_text(p.value) } else { predicate_text(p) },
            None => Seq::empty(),
        }
}

pub open spec fn role_player_text(rp: RolePlayerConstraint) -> Seq<char> {
    (match rp.role_type { Some(r) => r@ + ": "@, None => Seq::empty() }) + reference_text(rp.player)
}

pub open spec fn relation_text(rps: Seq<RolePlayerConstraint>) -> Seq<char> {
    "("@ + join(rps.map_values(|rp: RolePlayerConstraint| role_player_text(rp)), ", "@) + ")"@
}

/// The variable and relation part of a thing statement.
pub open spec fn thing_head(t: ThingModel) -> Seq<Seq<char>> {
    (if t.reference is Name { seq![reference_text(t.reference)] } else { Seq::empty() })
        + part(match t.relation { Some(r) => Some(relation_text(r)), None => None })
}

/// The constraints of a thing statement, in print order.
pub open spec fn thing_constraints(t: ThingModel) -> Seq<Seq<char>> {
    part(match t.iid { Some(i) => Some("iid "@ + i@), None => None })
        + part(match t.isa { Some(i) => Some("isa "@ + reference_text(i)), None => None })
        + part(match t.value { Some(p) => Some(predicate_text(p)), None => None })
        + t.has.map_values(|h: HasConstraint| has_text(h))
}

/// `$x (role: $p) isa type, has attr value`.
pub open spec fn thing_text(t: ThingModel) -> Seq<char> {
    join(nonempty(join(thing_head(t), " "@)) + nonempty(join(thing_constraints(t), ", "@)), " "@)
}

pub open spec fn relates_text(r: RelatesConstraint) -> Seq<char> {
    "relates "@ + r.role@ + match r.overridden { Some(o) => " as "@ + o@, None => Seq::empty() }
}

pub open spec fn plays_text(p: String) -> Seq<char> {
    "plays "@ + p@
}

/// `$x type person sub entity relates r, plays p`, or the bare label for a hidden variable.
pub open spec fn type_head(t: TypeModel) -> Seq<char> {
    if t.reference is Name {
        reference_text(t.reference) + match t.label { Some(l) => " type "@ + l@, None => Seq::empty() }
    } else {
        match t.label { Some(l) => l@, None => Seq::empty() }
    }
}

pub open spec fn type_sub(t: TypeModel) -> Seq<char> {
    match t.sub { Some(s) => " sub "@ + s@, None => Seq::empty() }
}

pub open spec fn type_relates(t: TypeModel) -> Seq<char> {
    if t.relates.len() > 0 {
        " "@ + join(t.relates.map_values(|r: RelatesConstraint| relates_text(r)), ",\n    "@)
    } else {
        Seq::empty()
    }
}

pub open spec fn type_plays(t: TypeModel) -> Seq<char> {
    if t.plays.len() > 0 {
        " "@ + join(t.plays.map_values(|p: String| plays_text(p)), ",\n    "@)
    } else {
        Seq::empty()
    }
}

/// `$x type person sub entity relates r, plays p`, or the bare label for a hidden variable.
pub open spec fn type_text(t: TypeModel) -> Seq<char> {
    type_head(t) + type_sub(t) + type_relates(t) + type_plays(t)
}

/// `?x = <expression>`, or `?x <op> <value>`.
pub open spec fn value_statement_text(v: ValueModel) -> Seq<char> {
    "?"@ + v.variable@ + match v.assign {
        Some(e) => " = "@ + expression_text(e),
        None => match v.predicate {
            Some(p) => " "@ + predicate_text(p),
            None => Seq::empty(),
        },
    }
}

pub open spec fn statement_text(s: StatementModel) -> Seq<char> {
    match s {
        StatementModel::Thing(t) => thing_text(t),
        StatementModel::Type(t) => type_text(t),
        StatementModel::Value(v) => value_statement_text(v),
    }
}

/// The named variables that a reference is, as printed.
pub open spec fn reference_names(r: Reference) -> Seq<Seq<char>> {
    if r is Name { seq![reference_text(r)] } else { Seq::empty() }
}

pub open spec fn has_names(h: HasConstraint) -> Seq<Seq<char>> {
    reference_names(h.attribute) + match h.predicate { Some(p) => value_names(p.value), None => Seq::empty() }
}

pub open spec fn flatten_names(s: Seq<Seq<Seq<char>>>) -> Seq<Seq<char>>
    decreases s.len(),
{
    if s.len() == 0 { Seq::empty() } else { flatten_names(s.drop_last()) + s.last() }
}

/// The named variables of a thing statement: its own, the players, the attributes, the operand,
/// the type variable.
pub open spec fn thing_names(t: ThingModel) -> Seq<Seq<char>> {
    reference_names(t.reference)
        + match t.relation {
            Some(r) => flatten_names(r.map_values(|rp: RolePlayerConstraint| reference_names(rp.player))),
            None => Seq::empty(),
        }
        + flatten_names(t.has.map_values(|h: HasConstraint| has_names(h)))
        + match t.value { Some(p) => value_names(p.value), None => Seq::empty() }
        + match t.isa { Some(i) => reference_names(i), None => Seq::empty() }
}

/// The variables of a value statement: its own, then those of its constraint.
pub open spec fn value_statement_names(v: ValueModel) -> Seq<Seq<char>> {
    seq!["?"@ + v.variable@]
        + match v.assign { Some(e) => expression_variables(e), None => Seq::empty() }
        + match v.predicate { Some(p) => value_names(p.value), None => Seq::empty() }
}

pub open spec fn statement_names(s: StatementModel) -> Seq<Seq<char>> {
    match s {
        StatementModel::Thing(t) => thing_names(t),
        StatementModel::Type(t) => reference_names(t.reference),
        StatementModel::Value(v) => value_statement_names(v),
    }
}

pub proof fn lemma_flatten_push(s: Seq<Seq<Seq<char>>>, x: Seq<Seq<char>>)
    ensures
        flatten_names(s.push(x)) == flatten_names(s) + x,
{
    assert(s.push(x).drop_last() =~= s);
}

impl HasConstraint {
    /// An equal copy.
    pub fn copy(&self) -> (r: HasConstraint)
        ensures
            r == *self,
    {
        HasConstraint {
            type_: match &self.type_ { Some(t) => Some(t.clone()), None => None },
            attribute: self.attribute.copy(),
            predicate: match &self.predicate { Some(p) => Some(p.copy()), None => None },
        }
    }

    pub fn to_text(&self) -> (r: String)
        ensures
            r@ == has_text(*self),
    {
        let mut s = String::from_str("has");
        if let Some(t) = &self.type_ {
            s.append(" ");
            s.append(t.as_str());
        }
        if self.attribute.is_name() {
            s.append(" ");
            self.attribute.write_to(&mut s);
        }
        if let Some(p) = &self.predicate {
            s.append(" ");
            if p.op == PredicateOp::Eq {
                p.value.write_to(&mut s);
            } else {
                p.write_to(&mut s);
            }
        }
        assert(s@ =~= has_text(*self));
        s
    }

    pub fn names(&self) -> (r: Vec<String>)
        ensures
            strings_view(r@) == has_names(*self),
    {
        let mut v: Vec<String> = Vec::new();
        if self.attribute.is_name() {
            v.push(self.attribute.to_text());
        }
        if let Some(p) = &self.predicate {
            if let Value::Variable(n) = &p.value {
                v.push(concat("$", n.as_str()));
            }
        }
        assert(strings_view(v@) =~= has_names(*self));
        v
    }
}

impl RolePlayerConstraint {
    pub fn new(role_type: Option<String>, player: Reference) -> (r: RolePlayerConstraint)
        ensures
            r == (RolePlayerConstraint { role_type, player }),
    {
        RolePlayerConstraint { role_type, player }
    }

    /// An equal copy.
    pub fn copy(&self) -> (r: RolePlayerConstraint)
        ensures
            r == *self,
    {
        RolePlayerConstraint {
            role_type: match &self.role_type { Some(t) => Some(t.clone()), None => None },
            player: self.player.copy(),
        }
    }

    pub fn to_text(&self) -> (r: String)
        ensures
            r@ == role_player_text(*self),
    {
        let mut s = String::new();
        if let Some(t) = &self.role_type {
            s.append(t.as_str());
            s.append(": ");
        }
        self.player.write_to(&mut s);
        assert(s@ =~= role_player_text(*self));
        s
    }
}

impl RelatesConstraint {
    /// An equal copy.
    pub fn copy(&self) -> (r: RelatesConstraint)
        ensures
            r == *self,
    {
        RelatesConstraint {
            role: self.role.clone(),
            overridden: match &self.overridden { Some(t) => Some(t.clone()), None => None },
        }
    }

    pub fn to_text(&self) -> (r: String)
        ensures
            r@ == relates_text(*self),
    {
        let mut s = String::from_str("relates ");
        s.append(self.role.as_str());
        if let Some(o) = &self.overridden {
            s.append(" as ");
            s.append(o.as_str());
        }
        assert(s@ =~= relates_text(*self));
        s
    }
}

fn relation_to_text(rps: &Vec<RolePlayerConstraint>) -> (r: String)
    ensures
        r@ == relation_text(rps@),
{
    let mut parts: Vec<String> = Vec::new();
    let mut i: usize = 0;
    while i < rps.len()
        invariant
            i <= rps.len(),
            strings_view(parts@) == rps@.take(i as int).map_values(|rp: RolePlayerConstraint| role_player_text(rp)),
        decreases rps.len() - i,
    {
        let t = rps[i].to_text();
        let ghost before = parts@;
        parts.push(t);
        proof {
            assert(strings_view(parts@) =~= strings_view(before).push(role_player_text(rps@[i as int])));
            assert(strings_view(parts@) =~= rps@.take(i + 1).map_values(|rp: RolePlayerConstraint| role_player_text(rp)));
        }
        i = i + 1;
    }
    assert(rps@.take(i as int) =~= rps@);
    let inner = join_strings(&parts, ", ");
    let mut s = String::from_str("(");
    s.append(inner.as_str());
    s.append(")");
    s
}

impl ThingStatement {
    /// A statement about `reference` with no constraint yet.
    pub fn new(reference: Reference) -> (r: ThingStatement)
        ensures
            r@ == empty_thing(reference),
    {
        ThingStatement { reference, iid: None, isa: None, has: Vec::new(), value: None, relation: None }
    }

    /// An equal copy.
    pub fn copy(&self) -> (r: ThingStatement)
        ensures
            r@ == self@,
    {
        let mut has: Vec<HasConstraint> = Vec::new();
        let mut i: usize = 0;
        while i < self.has.len()
            invariant
                i <= self.has.len(),
                has@ == self.has@.take(i as int),
            decreases self.has.len() - i,
        {
            has.push(self.has[i].copy());
            assert(has@ =~= self.has@.take(i + 1));
            i = i + 1;
        }
        assert(self.has@.take(i as int) =~= self.has@);
        let relation = match &self.relation {
            Some(rel) => {
                let mut rps: Vec<RolePlayerConstraint> = Vec::new();
                let mut j: usize = 0;
                while j < rel.role_players.len()
                    invariant
                        j <= rel.role_players.len(),
                        rps@ == rel.role_players@.take(j as int),
                    decreases rel.role_players.len() - j,
                {
                    rps.push(rel.role_players[j].copy());
                    assert(rps@ =~= rel.role_players@.take(j + 1));
                    j = j + 1;
                }
                assert(rel.role_players@.take(j as int) =~= rel.role_players@);
                Some(RelationConstraint { role_players: rps })
            },
            None => None,
        };
        ThingStatement {
            reference: self.reference.copy(),
            iid: match &self.iid { Some(t) => Some(t.clone()), None => None },
            isa: match &self.isa { Some(t) => Some(t.copy()), None => None },
            has,
            value: match &self.value { Some(p) => Some(p.copy()), None => None },
            relation,
        }
    }

    /// The printed form.
    pub fn to_text(&self) -> (r: String)
        ensures
            r@ == thing_text(self@),
    {
        let mut head: Vec<String> = Vec::new();
        if self.reference.is_name() {
            head.push(self.reference.to_text());
        }
        if let Some(rel) = &self.relation {
            head.push(relation_to_text(&rel.role_players));
        }
        assert(strings_view(head@) =~= thing_head(self@));
        let mut cons: Vec<String> = Vec::new();
        if let Some(i) = &self.iid {
            cons.push(concat("iid ", i.as_str()));
        }
        if let Some(i) = &self.isa {
            let mut t = String::from_str("isa ");
            i.write_to(&mut t);
            cons.push(t);
        }
        if let Some(p) = &self.value {
            let mut t = String::new();
            p.write_to(&mut t);
            assert(t@ =~= predicate_text(*p));
            cons.push(t);
        }
        let ghost start = strings_view(cons@);
        let mut i: usize = 0;
        while i < self.has.len()
            invariant
                i <= self.has.len(),
                strings_view(cons@) == start + self.has@.take(i as int).map_values(|h: HasConstraint| has_text(h)),
            decreases self.has.len() - i,
        {
            let t = self.has[i].to_text();
            let ghost before = cons@;
            cons.push(t);
            assert(strings_view(cons@) =~= strings_view(before).push(has_text(self.has@[i as int])));
            assert(strings_view(cons@) =~= start + self.has@.take(i + 1).map_values(|h: HasConstraint| has_text(h)));
            i = i + 1;
        }
        assert(self.has@.take(i as int) =~= self.has@);
        assert(strings_view(cons@) =~= thing_constraints(self@));
        let h = join_strings(&head, " ");
        let c = join_strings(&cons, ", ");
        let mut outer: Vec<String> = Vec::new();
        if h.unicode_len() > 0 {
            outer.push(h);
        }
        if c.as_str().unicode_len() > 0 {
            outer.push(c);
        }
        assert(strings_view(outer@) =~= nonempty(join(thing_head(self@), " "@)) + nonempty(join(thing_constraints(self@), ", "@)));
        join_strings(&outer, " ")
    }

    /// The named variables of this statement, as printed.
    pub fn names(&self) -> (r: Vec<String>)
        ensures
            strings_view(r@) == thing_names(self@),
    {
        let mut v: Vec<String> = Vec::new();
        if self.reference.is_name() {
            v.push(self.reference.to_text());
        }
        assert(strings_view(v@) =~= reference_names(self.reference));
        if let Some(rel) = &self.relation {
            let ghost start = strings_view(v@);
            let mut j: usize = 0;
            while j < rel.role_players.len()
                invariant
                    j <= rel.role_players.len(),
                    strings_view(v@) == start + flatten_names(
                        rel.role_players@.take(j as int).map_values(|rp: RolePlayerConstraint| reference_names(rp.player)),
                    ),
                decreases rel.role_players.len() - j,
            {
                let ghost before = v@;
                if rel.role_players[j].player.is_name() {
                    v.push(rel.role_players[j].player.to_text());
                }
                proof {
                    let m = rel.role_players@.take(j as int).map_values(|rp: RolePlayerConstraint| reference_names(rp.player));
                    assert(rel.role_players@.take(j + 1).map_values(|rp: RolePlayerConstraint| reference_names(rp.player))
                        =~= m.push(reference_names(rel.role_players@[j as int].player)));
                    lemma_flatten_push(m, reference_names(rel.role_players@[j as int].player));
                    assert(strings_view(v@) =~= strings_view(before) + reference_names(rel.role_players@[j as int].player));
                }
                j = j + 1;
            }
            assert(rel.role_players@.take(j as int) =~= rel.role_players@);
        }
        let ghost start2 = strings_view(v@);
        let mut i: usize = 0;
        while i < self.has.len()
            invariant
                i <= self.has.len(),
                strings_view(v@) == start2 + flatten_names(self.has@.take(i as int).map_values(|h: HasConstraint| has_names(h))),
            decreases self.has.len() - i,
        {
            let hn = self.has[i].names();
            extend_strings(&mut v, &hn);
            proof {
                let m = self.has@.take(i as int).map_values(|h: HasConstraint| has_names(h));
                assert(self.has@.take(i + 1).map_values(|h: HasConstraint| has_names(h)) =~= m.push(has_names(self.has@[i as int])));
                lemma_flatten_push(m, has_names(self.has@[i as int]));
            }
            i = i + 1;
        }
        assert(self.has@.take(i as int) =~= self.has@);
        let ghost before = strings_view(v@);
        if let Some(p) = &self.value {
            if let Value::Variable(n) = &p.value {
                v.push(concat("$", n.as_str()));
            }
        }
        assert(strings_view(v@) =~= before + match self@.value { Some(p) => value_names(p.value), None => Seq::empty() });
        let ghost before2 = strings_view(v@);
        if let Some(i) = &self.isa {
            if i.is_name() {
                v.push(i.to_text());
            }
        }
        assert(strings_view(v@) =~= before2 + match self@.isa { Some(i) => reference_names(i), None => Seq::empty() });
        assert(strings_view(v@) =~= thing_names(self@));
        v
    }
}

/// A thing statement with no constraint.
pub open spec fn empty_thing(reference: Reference) -> ThingModel {
    ThingModel { reference, iid: None, isa: None, has: Seq::empty(), value: None, relation: None }
}

/// A type-level constraint.
#[derive(Debug)]
pub enum TypeConstraint {
    Label(String),
    Sub(String),
    Relates(RelatesConstraint),
    Plays(String),
}

/// `t` with one more type constraint: label and sub replace, relates and plays append.
pub open spec fn with_type_constraint(t: TypeModel, c: TypeConstraint) -> TypeModel {
    match c {
        TypeConstraint::Label(l) => TypeModel { label: Some(l), ..t },
        TypeConstraint::Sub(s) => TypeModel { sub: Some(s), ..t },
        TypeConstraint::Relates(r) => TypeModel { relates: t.relates.push(r), ..t },
        TypeConstraint::Plays(p) => TypeModel { plays: t.plays.push(p), ..t },
    }
}

pub open spec fn empty_type(reference: Reference) -> TypeModel {
    TypeModel { reference, label: None, sub: None, relates: Seq::empty(), plays: Seq::empty() }
}

impl TypeVariable {
    /// A type statement about `reference` with no constraint yet.
    pub fn new(reference: Reference) -> (r: TypeVariable)
        ensures
            r@ == empty_type(reference),
    {
        TypeVariable { reference, label: None, sub: None, relates: Vec::new(), plays: Vec::new() }
    }

    /// This statement as a bound variable.
    pub fn into_bound_variable(self) -> (r: Statement)
        ensures
            r@ == StatementModel::Type(self@),
    {
        Statement::Type(self)
    }

    /// This statement as a variable.
    pub fn into_variable(self) -> (r: Statement)
        ensures
            r@ == StatementModel::Type(self@),
    {
        self.into_bound_variable()
    }

    /// An equal copy.
    pub fn copy(&self) -> (r: TypeVariable)
        ensures
            r@ == self@,
    {
        let mut relates: Vec<RelatesConstraint> = Vec::new();
        let mut i: usize = 0;
        while i < self.relates.len()
            invariant
                i <= self.relates.len(),
                relates@ == self.relates@.take(i as int),
            decreases self.relates.len() - i,
        {
            relates.push(self.relates[i].copy());
            assert(relates@ =~= self.relates@.take(i + 1));
            i = i + 1;
        }
        assert(self.relates@.take(i as int) =~= self.relates@);
        let mut plays: Vec<String> = Vec::new();
        let mut j: usize = 0;
        while j < self.plays.len()
            invariant
                j <= self.plays.len(),
                plays@ == self.plays@.take(j as int),
            decreases self.plays.len() - j,
        {
            plays.push(self.plays[j].clone());
            assert(plays@ =~= self.plays@.take(j + 1));
            j = j + 1;
        }
        assert(self.plays@.take(j as int) =~= self.plays@);
        TypeVariable {
            reference: self.reference.copy(),
            label: match &self.label { Some(t) => Some(t.clone()), None => None },
            sub: match &self.sub { Some(t) => Some(t.clone()), None => None },
            relates,
            plays,
        }
    }

    /// The printed form.
    pub fn to_text(&self) -> (r: String)
        ensures
            r@ == type_text(self@),
    {
        let mut s = String::new();
        if self.reference.is_name() {
            self.reference.write_to(&mut s);
            if let Some(l) = &self.label {
                s.append(" type ");
                s.append(l.as_str());
            }
        } else if let Some(l) = &self.label {
            s.append(l.as_str());
        }
        assert(s@ =~= type_head(self@));
        let ghost s1 = s@;
        if let Some(t) = &self.sub {
            s.append(" sub ");
            s.append(t.as_str());
        }
        assert(s@ =~= s1 + type_sub(self@));
        let ghost s2 = s@;
        if self.relates.len() > 0 {
            s.append(" ");
            let j = relates_to_text(&self.relates);
            s.append(j.as_str());
        }
        assert(s@ =~= s2 + type_relates(self@));
        let ghost s3 = s@;
        if self.plays.len() > 0 {
            s.append(" ");
            let j = plays_to_text(&self.plays);
            s.append(j.as_str());
        }
        assert(s@ =~= s3 + type_plays(self@));
        assert(s@ =~= type_text(self@));
        s
    }
}

fn relates_to_text(v: &Vec<RelatesConstraint>) -> (r: String)
    ensures
        r@ == join(v@.map_values(|r: RelatesConstraint| relates_text(r)), ",\n    "@),
{
    let mut parts: Vec<String> = Vec::new();
    let mut i: usize = 0;
    while i < v.len()
        invariant
            i <= v.len(),
            strings_view(parts@) == v@.take(i as int).map_values(|r: RelatesConstraint| relates_text(r)),
        decreases v.len() - i,
    {
        let t = v[i].to_text();
        let ghost before = parts@;
        parts.push(t);
        assert(strings_view(parts@) =~= strings_view(before).push(relates_text(v@[i as int])));
        assert(strings_view(parts@) =~= v@.take(i + 1).map_values(|r: RelatesConstraint| relates_text(r)));
        i = i + 1;
    }
    assert(v@.take(i as int) =~= v@);
    join_strings(&parts, ",\n    ")
}

fn plays_to_text(v: &Vec<String>) -> (r: String)
    ensures
        r@ == join(v@.map_values(|p: String| plays_text(p)), ",\n    "@),
{
    let mut parts: Vec<String> = Vec::new();
    let mut i: usize = 0;
    while i < v.len()
        invariant
            i <= v.len(),
            strings_view(parts@) == v@.take(i as int).map_values(|p: String| plays_text(p)),
        decreases v.len() - i,
    {
        let t = concat("plays ", v[i].as_str());
        let ghost before = parts@;
        parts.push(t);
        assert(strings_view(parts@) =~= strings_view(before).push(plays_text(v@[i as int])));
        assert(strings_view(parts@) =~= v@.take(i + 1).map_values(|p: String| plays_text(p)));
        i = i + 1;
    }
    assert(v@.take(i as int) =~= v@);
    join_strings(&parts, ",\n    ")
}

impl ValueStatement {
    /// A statement about the value variable `?variable` with no constraint yet.
    pub fn new(variable: String) -> (r: ValueStatement)
        ensures
            r@ == (ValueModel { variable, assign: None, predicate: None }),
    {
        ValueStatement { variable, assign_constraint: None, predicate_constraint: None }
    }

    /// The variable this statement is about, as printed.
    pub fn owner(&self) -> (r: String)
        ensures
            r@ == "?"@ + self.variable@,
    {
        concat("?", self.variable.as_str())
    }

    /// Every variable of the statement, as printed: its own first, then those of its constraint.
    pub fn variables(&self) -> (r: Vec<String>)
        ensures
            strings_view(r@) == value_statement_names(self@),
    {
        let mut v: Vec<String> = Vec::new();
        v.push(self.owner());
        assert(strings_view(v@) =~= seq!["?"@ + self.variable@]);
        if let Some(e) = &self.assign_constraint {
            let w = e.variables();
            extend_strings(&mut v, &w);
        }
        assert(strings_view(v@) =~= seq!["?"@ + self.variable@]
            + match self@.assign { Some(e) => expression_variables(e), None => Seq::empty() });
        if let Some(p) = &self.predicate_constraint {
            if let Value::Variable(n) = &p.value {
                v.push(concat("$", n.as_str()));
            }
        }
        assert(strings_view(v@) =~= value_statement_names(self@));
        v
    }

    /// Sets the expression that the variable is assigned.
    pub fn constrain_assign(self, assign: Expression) -> (r: ValueStatement)
        ensures
            r@ == (ValueModel { assign: Some(assign@), ..self@ }),
    {
        ValueStatement { assign_constraint: Some(assign), ..self }
    }

    /// Sets the predicate that the value must meet.
    pub fn constrain_predicate(self, predicate: Predicate) -> (r: ValueStatement)
        ensures
            r@ == (ValueModel { predicate: Some(predicate), ..self@ }),
    {
        ValueStatement { predicate_constraint: Some(predicate), ..self }
    }

    /// An equal copy.
    pub fn copy(&self) -> (r: ValueStatement)
        ensures
            r@ == self@,
    {
        ValueStatement {
            variable: self.variable.clone(),
            assign_constraint: match &self.assign_constraint { Some(e) => Some(e.copy()), None => None },
            predicate_constraint: match &self.predicate_constraint { Some(p) => Some(p.copy()), None => None },
        }
    }

    /// The printed form.
    pub fn to_text(&self) -> (r: String)
        ensures
            r@ == value_statement_text(self@),
    {
        let mut s = concat("?", self.variable.as_str());
        if let Some(e) = &self.assign_constraint {
            s.append(" = ");
            e.write_to(&mut s);
        } else if let Some(p) = &self.predicate_constraint {
            s.append(" ");
            p.write_to(&mut s);
        }
        assert(s@ =~= value_statement_text(self@));
        s
    }
}

impl Statement {
    /// An equal copy.
    pub fn copy(&self) -> (r: Statement)
        ensures
            r@ == self@,
    {
        match self {
            Statement::Thing(t) => Statement::Thing(t.copy()),
            Statement::Type(t) => Statement::Type(t.copy()),
            Statement::Value(v) => Statement::Value(v.copy()),
        }
    }

    /// The printed form.
    pub fn to_text(&self) -> (r: String)
        ensures
            r@ == statement_text(self@),
    {
        match self {
            Statement::Thing(t) => t.to_text(),
            Statement::Type(t) => t.to_text(),
            Statement::Value(v) => v.to_text(),
        }
    }

    /// The named variables of the statement, as printed.
    pub fn names(&self) -> (r: Vec<String>)
        ensures
            strings_view(r@) == statement_names(self@),
    {
        match self {
            Statement::Thing(t) => t.names(),
            Statement::Type(t) => {
                let mut v: Vec<String> = Vec::new();
                if t.reference.is_name() {
                    v.push(t.reference.to_text());
                }
                assert(strings_view(v@) =~= statement_names(self@));
                v
            },
            Statement::Value(v) => v.variables(),
        }
    }
}

/// A variable with no constraint yet; a constraint turns it into a statement.
#[derive(Debug)]
pub struct UnboundVariable {
    pub reference: Reference,
}

/// A concept variable with no constraint yet.
#[derive(Debug)]
pub struct UnboundConceptVariable {
    pub reference: Reference,
}

/// A value variable `?name` with no constraint yet.
#[derive(Debug)]
pub struct UnboundValueVariable {
    pub name: String,
}

impl UnboundConceptVariable {
    /// A variable that is never printed.
    pub fn hidden() -> (r: UnboundConceptVariable)
        ensures
            r.reference is Anonymous,
    {
        UnboundConceptVariable { reference: Reference::Anonymous }
    }
}

impl UnboundValueVariable {
    /// `?name = <expression>`.
    pub fn assign(self, expression: Expression) -> (r: ValueStatement)
        ensures
            r@ == (ValueModel { variable: self.name, assign: Some(expression@), predicate: None }),
    {
        ValueStatement::new(self.name).constrain_assign(expression)
    }

    /// `?name <op> <value>`.
    pub fn constrain_predicate(self, predicate: Predicate) -> (r: ValueStatement)
        ensures
            r@ == (ValueModel { variable: self.name, assign: None, predicate: Some(predicate) }),
    {
        ValueStatement::new(self.name).constrain_predicate(predicate)
    }
}

/// The operations that attach one type constraint.
pub trait TypeVariableBuilder: Sized {
    /// The statement that this value stands for before a constraint is attached.
    spec fn type_base(&self) -> TypeModel;

    fn constrain_type(self, constraint: TypeConstraint) -> (r: TypeVariable)
        ensures
            r@ == with_type_constraint(self.type_base(), constraint);

    /// `type <name>`.
    fn type_(self, label: String) -> (r: TypeVariable)
        ensures
            r@ == with_type_constraint(self.type_base(), TypeConstraint::Label(label)),
    {
        self.constrain_type(TypeConstraint::Label(label))
    }

    /// `relates <role>`.
    fn relates(self, relates: RelatesConstraint) -> (r: TypeVariable)
        ensures
            r@ == with_type_constraint(self.type_base(), TypeConstraint::Relates(relates)),
    {
        self.constrain_type(TypeConstraint::Relates(relates))
    }
}

impl TypeVariableBuilder for TypeVariable {
    open spec fn type_base(&self) -> TypeModel {
        self@
    }

    fn constrain_type(self, constraint: TypeConstraint) -> (r: TypeVariable) {
        let mut t = self;
        match constraint {
            TypeConstraint::Label(l) => t.label = Some(l),
            TypeConstraint::Sub(s) => t.sub = Some(s),
            TypeConstraint::Relates(r) => t.relates.push(r),
            TypeConstraint::Plays(p) => t.plays.push(p),
        }
        t
    }
}

impl TypeVariableBuilder for UnboundConceptVariable {
    open spec fn type_base(&self) -> TypeModel {
        empty_type(self.reference)
    }

    fn constrain_type(self, constraint: TypeConstraint) -> (r: TypeVariable) {
        TypeVariable::new(self.reference).constrain_type(constraint)
    }
}

impl TypeVariableBuilder for UnboundVariable {
    open spec fn type_base(&self) -> TypeModel {
        empty_type(self.reference)
    }

    fn constrain_type(self, constraint: TypeConstraint) -> (r: TypeVariable) {
        TypeVariable::new(self.reference).constrain_type(constraint)
    }
}

/// `t` with one more attribute ownership, after those it has.
pub open spec fn with_has(t: ThingModel, h: HasConstraint) -> ThingModel {
    ThingModel { has: t.has.push(h), ..t }
}

/// `t` with one more role player, after those it has.
pub open spec fn with_role_player(t: ThingModel, rp: RolePlayerConstraint) -> ThingModel {
    ThingModel {
        relation: Some(match t.relation { Some(r) => r.push(rp), None => seq![rp] }),
        ..t
    }
}

/// The ownership `has <type> <value>`: a variable operand names the attribute, any other is
/// the attribute's value.
pub open spec fn has_of(type_: String, value: Value) -> HasConstraint {
    match value {
        Value::Variable(n) => HasConstraint { type_: Some(type_), attribute: Reference::Name(n), predicate: None },
        _ => HasConstraint {
            type_: Some(type_),
            attribute: Reference::Anonymous,
            predicate: Some(Predicate { op: PredicateOp::Eq, value }),
        },
    }
}

/// The operations that attach one thing constraint.
pub trait ThingConstrainable: Sized {
    /// The statement that this value stands for before a constraint is attached.
    spec fn thing_base(&self) -> ThingModel;

    fn constrain_has(self, has: HasConstraint) -> (r: ThingStatement)
        ensures
            r@ == with_has(self.thing_base(), has);

    fn constrain_iid(self, iid: String) -> (r: ThingStatement)
        ensures
            r@ == (ThingModel { iid: Some(iid), ..self.thing_base() });

    fn constrain_isa(self, isa: Reference) -> (r: ThingStatement)
        ensures
            r@ == (ThingModel { isa: Some(isa), ..self.thing_base() });

    fn constrain_predicate(self, value: Predicate) -> (r: ThingStatement)
        ensures
            r@ == (ThingModel { value: Some(value), ..self.thing_base() });
}

/// The fluent thing-constraint operations, each one attaching one constraint.
pub trait ThingStatementBuilder: ThingConstrainable {
    /// `has <type> <value or $variable>`.
    fn has(self, type_: String, value: Value) -> (r: ThingStatement)
        ensures
            r@ == with_has(self.thing_base(), has_of(type_, value)),
    {
        let h = match value {
            Value::Variable(n) => HasConstraint { type_: Some(type_), attribute: Reference::Name(n), predicate: None },
            other => HasConstraint {
                type_: Some(type_),
                attribute: Reference::Anonymous,
                predicate: Some(Predicate { op: PredicateOp::Eq, value: other }),
            },
        };
        self.constrain_has(h)
    }

    /// `iid <iid>`.
    fn iid(self, iid: String) -> (r: ThingStatement)
        ensures
            r@ == (ThingModel { iid: Some(iid), ..self.thing_base() }),
    {
        self.constrain_iid(iid)
    }

    /// `isa <type label>`.
    fn isa(self, isa: String) -> (r: ThingStatement)
        ensures
            r@ == (ThingModel { isa: Some(Reference::Label(isa)), ..self.thing_base() }),
    {
        self.constrain_isa(Reference::Label(isa))
    }

    /// `isa $<type variable>`.
    fn isa_variable(self, name: String) -> (r: ThingStatement)
        ensures
            r@ == (ThingModel { isa: Some(Reference::Name(name)), ..self.thing_base() }),
    {
        self.constrain_isa(Reference::Name(name))
    }

    /// A comparison or string predicate on the value.
    fn predicate(self, op: PredicateOp, value: Value) -> (r: ThingStatement)
        ensures
            r@ == (ThingModel { value: Some(Predicate { op, value }), ..self.thing_base() }),
    {
        self.constrain_predicate(Predicate { op, value })
    }

    /// `= <value>`.
    fn eq(self, value: Value) -> (r: ThingStatement)
        ensures
            r@ == (ThingModel { value: Some(Predicate { op: PredicateOp::Eq, value }), ..self.thing_base() }),
    {
        self.constrain_predicate(Predicate { op: PredicateOp::Eq, value })
    }

    /// `!= <value>`.
    fn neq(self, value: Value) -> (r: ThingStatement)
        ensures
            r@ == (ThingModel { value: Some(Predicate { op: PredicateOp::Neq, value }), ..self.thing_base() }),
    {
        self.constrain_predicate(Predicate { op: PredicateOp::Neq, value })
    }

    /// `> <value>`.
    fn gt(self, value: Value) -> (r: ThingStatement)
        ensures
            r@ == (ThingModel { value: Some(Predicate { op: PredicateOp::Gt, value }), ..self.thing_base() }),
    {
        self.constrain_predicate(Predicate { op: PredicateOp::Gt, value })
    }

    /// `>= <value>`.
    fn gte(self, value: Value) -> (r: ThingStatement)
        ensures
            r@ == (ThingModel { value: Some(Predicate { op: PredicateOp::Gte, value }), ..self.thing_base() }),
    {
        self.constrain_predicate(Predicate { op: PredicateOp::Gte, value })
    }

    /// `< <value>`.
    fn lt(self, value: Value) -> (r: ThingStatement)
        ensures
            r@ == (ThingModel { value: Some(Predicate { op: PredicateOp::Lt, value }), ..self.thing_base() }),
    {
        self.constrain_predicate(Predicate { op: PredicateOp::Lt, value })
    }

    /// `<= <value>`.
    fn lte(self, value: Value) -> (r: ThingStatement)
        ensures
            r@ == (ThingModel { value: Some(Predicate { op: PredicateOp::Lte, value }), ..self.thing_base() }),
    {
        self.constrain_predicate(Predicate { op: PredicateOp::Lte, value })
    }

    /// `contains "<text>"`.
    fn contains(self, text: String) -> (r: ThingStatement)
        ensures
            r@ == (ThingModel { value: Some(Predicate { op: PredicateOp::Contains, value: Value::Text(text) }), ..self.thing_base() }),
    {
        self.constrain_predicate(Predicate { op: PredicateOp::Contains, value: Value::Text(text) })
    }

    /// `like "<regular expression>"`.
    fn like(self, text: String) -> (r: ThingStatement)
        ensures
            r@ == (ThingModel { value: Some(Predicate { op: PredicateOp::Like, value: Value::Text(text) }), ..self.thing_base() }),
    {
        self.constrain_predicate(Predicate { op: PredicateOp::Like, value: Value::Text(text) })
    }
}

/// The operation that adds a role player.
pub trait RelationConstrainable: Sized {
    /// The statement that this value stands for before a role player is added.
    spec fn relation_base(&self) -> ThingModel;

    fn constrain_role_player(self, role_player: RolePlayerConstraint) -> (r: ThingStatement)
        ensures
            r@ == with_role_player(self.relation_base(), role_player);
}

/// The fluent form of adding a role player.
pub trait RelationStatementBuilder: RelationConstrainable {
    /// `(<role>: <player>, ...)`, one more player at the end.
    fn rel(self, value: RolePlayerConstraint) -> (r: ThingStatement)
        ensures
            r@ == with_role_player(self.relation_base(), value),
    {
        self.constrain_role_player(value)
    }
}

impl ThingConstrainable for ThingStatement {
    open spec fn thing_base(&self) -> ThingModel {
        self@
    }

    fn constrain_has(self, has: HasConstraint) -> (r: ThingStatement) {
        let mut t = self;
        t.has.push(has);
        t
    }

    fn constrain_iid(self, iid: String) -> (r: ThingStatement) {
        ThingStatement { iid: Some(iid), ..self }
    }

    fn constrain_isa(self, isa: Reference) -> (r: ThingStatement) {
        ThingStatement { isa: Some(isa), ..self }
    }

    fn constrain_predicate(self, value: Predicate) -> (r: ThingStatement) {
        ThingStatement { value: Some(value), ..self }
    }
}

impl ThingStatementBuilder for ThingStatement {}

impl RelationConstrainable for ThingStatement {
    open spec fn relation_base(&self) -> ThingModel {
        self@
    }

    fn constrain_role_player(self, role_player: RolePlayerConstraint) -> (r: ThingStatement) {
        let mut t = self;
        match t.relation {
            Some(mut rel) => {
                rel.role_players.push(role_player);
                t.relation = Some(rel);
            },
            None => {
                t.relation = Some(RelationConstraint { role_players: vec![role_player] });
            },
        }
        assert(t@.relation->0 =~= with_role_player(self@, role_player).relation->0);
        t
    }
}

impl RelationStatementBuilder for ThingStatement {}

impl ThingConstrainable for UnboundVariable {
    open spec fn thing_base(&self) -> ThingModel {
        empty_thing(self.reference)
    }

    fn constrain_has(self, has: HasConstraint) -> (r: ThingStatement) {
        ThingStatement::new(self.reference).constrain_has(has)
    }

    fn constrain_iid(self, iid: String) -> (r: ThingStatement) {
        ThingStatement::new(self.reference).constrain_iid(iid)
    }

    fn constrain_isa(self, isa: Reference) -> (r: ThingStatement) {
        ThingStatement::new(self.reference).constrain_isa(isa)
    }

    fn constrain_predicate(self, value: Predicate) -> (r: ThingStatement) {
        ThingStatement::new(self.reference).constrain_predicate(value)
    }
}

impl ThingStatementBuilder for UnboundVariable {}

impl RelationConstrainable for UnboundVariable {
    open spec fn relation_base(&self) -> ThingModel {
        empty_thing(self.reference)
    }

    fn constrain_role_player(self, role_player: RolePlayerConstraint) -> (r: ThingStatement) {
        ThingStatement::new(self.reference).constrain_role_player(role_player)
    }
}

impl RelationStatementBuilder for UnboundVariable {}

impl ThingConstrainable for UnboundConceptVariable {
    open spec fn thing_base(&self) -> ThingModel {
        empty_thing(self.reference)
    }

    fn constrain_has(self, has: HasConstraint) -> (r: ThingStatement) {
        ThingStatement::new(self.reference).constrain_has(has)
    }

    fn constrain_iid(self, iid: String) -> (r: ThingStatement) {
        ThingStatement::new(self.reference).constrain_iid(iid)
    }

    fn constrain_isa(self, isa: Reference) -> (r: ThingStatement) {
        ThingStatement::new(self.reference).constrain_isa(isa)
    }

    fn constrain_predicate(self, value: Predicate) -> (r: ThingStatement) {
        ThingStatement::new(self.reference).constrain_predicate(value)
    }
}

impl ThingStatementBuilder for UnboundConceptVariable {}

impl RelationConstrainable for UnboundConceptVariable {
    open spec fn relation_base(&self) -> ThingModel {
        empty_thing(self.reference)
    }

    fn constrain_role_player(self, role_player: RolePlayerConstraint) -> (r: ThingStatement) {
        ThingStatement::new(self.reference).constrain_role_player(role_player)
    }
}

impl RelationStatementBuilder for UnboundConceptVariable {}

} // verus!
