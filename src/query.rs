//! The query kinds, their validation and their printed form.
use vstd::prelude::*;
use crate::error::TypeQLError;
use crate::token::{Command, command_text, command_token};
use crate::normal::PatternModel;
use crate::pattern::{Conjunction, Pattern, item_texts, lemma_pattern_models, out_of_scope_errors, pattern_model, pattern_models, pattern_names, unbounded};
use crate::rule::{RuleDeclaration, RuleDefinition, RuleFault, declaration_text, reports, rule_faults, rule_text};
use crate::statement::{statement_names, StatementModel, ThingModel, ThingStatement, TypeModel, TypeVariable, thing_names, thing_text, type_text};
use crate::text::{decimal_text, join, join_strings, strings_view, contains_string, extend_strings, lemma_join_push};

verus! {

/// `match` followed by the patterns that bind the query's variables.
#[derive(Debug)]
pub struct TypeQLMatch {
    pub conjunction: Conjunction,
    pub modifiers: Modifiers,
}

/// The direction of a sort.
#[derive(Clone, Copy, Debug, PartialEq, Eq, Structural)]
pub enum SortOrder {
    Asc,
    Desc,
}

/// One sort key: a named variable and, optionally, its direction.
#[derive(Debug)]
pub struct Sorting {
    pub variable: String,
    pub order: Option<SortOrder>,
}

/// The modifiers of a query's answers: sort keys, an offset and a limit.
#[derive(Debug)]
pub struct Modifiers {
    pub sorting: Vec<Sorting>,
    pub offset: Option<u64>,
    pub limit: Option<u64>,
}

/// The mathematical form of modifiers.
pub struct ModifiersModel {
    pub sorting: Seq<Sorting>,
    pub offset: Option<u64>,
    pub limit: Option<u64>,
}

impl View for Modifiers {
    type V = ModifiersModel;

    open spec fn view(&self) -> ModifiersModel {
        ModifiersModel { sorting: self.sorting@, offset: self.offset, limit: self.limit }
    }
}

/// `[match ...] insert ...`.
#[derive(Debug)]
pub struct TypeQLInsert {
    pub match_query: Option<TypeQLMatch>,
    pub variables: Vec<ThingStatement>,
}

/// `match ... delete ...`.
#[derive(Debug)]
pub struct TypeQLDelete {
    pub clause_match: TypeQLMatch,
    pub statements: Vec<ThingStatement>,
    pub modifiers: Modifiers,
}

/// `match ... delete ... insert ...`.
#[derive(Debug)]
pub struct TypeQLUpdate {
    pub query_delete: TypeQLDelete,
    pub insert_statements: Vec<ThingStatement>,
}

/// What `define` and `undefine` take.
#[derive(Debug)]
pub enum Definable {
    TypeVariable(TypeVariable),
    RuleDeclaration(RuleDeclaration),
    RuleDefinition(RuleDefinition),
}

/// `define` with type statements and complete rules.
#[derive(Debug)]
pub struct TypeQLDefine {
    pub variables: Vec<TypeVariable>,
    pub rules: Vec<RuleDefinition>,
}

/// `undefine` with type statements and rule labels.
#[derive(Debug)]
pub struct TypeQLUndefine {
    pub variables: Vec<TypeVariable>,
    pub rules: Vec<RuleDeclaration>,
}

/// A query of any kind.
#[derive(Debug)]
pub enum Query {
    Match(TypeQLMatch),
    Insert(TypeQLInsert),
    Delete(TypeQLDelete),
    Update(TypeQLUpdate),
    Define(TypeQLDefine),
    Undefine(TypeQLUndefine),
}

/// A match query on `conjunction`.
pub fn typeql_match(conjunction: Conjunction) -> (r: Query)
    ensures
        r is Match,
        r->Match_0.conjunction@ == conjunction@,
{
    Query::Match(TypeQLMatch::new(conjunction))
}

/// The named variables of the statements directly in `cs`, in order.
pub open spec fn direct_names(cs: Seq<PatternModel>) -> Seq<Seq<char>>
    decreases cs.len(),
{
    if cs.len() == 0 {
        Seq::empty()
    } else {
        direct_names(cs.drop_last()) + match cs.last() {
            PatternModel::Stmt(s) => statement_names(s),
            _ => Seq::empty(),
        }
    }
}

/// The out-of-scope members of every disjunction within `p`, each by its first named variable.
/// A conjunction adds the names of its own statements to the `bounds` its parts are held to.
pub open spec fn scope_faults(p: PatternModel, bounds: Seq<Seq<char>>) -> Seq<Seq<char>>
    decreases p,
{
    match p {
        PatternModel::Stmt(_) => Seq::empty(),
        PatternModel::Conj(cs) => scope_faults_all(cs, bounds + direct_names(cs)),
        PatternModel::Disj(ms) => unbounded(ms, bounds) + scope_faults_all(ms, bounds),
        PatternModel::Neg(b) => scope_faults(*b, bounds),
    }
}

pub open spec fn scope_faults_all(cs: Seq<PatternModel>, bounds: Seq<Seq<char>>) -> Seq<Seq<char>>
    decreases cs,
{
    if cs.len() == 0 { Seq::empty() } else { scope_faults_all(cs.drop_last(), bounds) + scope_faults(cs.last(), bounds) }
}

/// How many errors an insert body yields.
pub open spec fn insert_error_count(bounds: Option<Seq<Seq<char>>>, s: Seq<ThingModel>) -> int {
    (if s.len() == 0 { 1int } else { 0 }) + (if bounds is Some && !insert_in_scope(bounds->0, s) { 1int } else { 0 })
}

/// How many errors a delete body yields.
pub open spec fn delete_error_count(bounds: Seq<Seq<char>>, s: Seq<ThingModel>) -> int {
    unscoped(things_names(s), bounds).len() + if s.len() == 0 { 1int } else { 0 }
}

/// The members of the match's disjunctions that are out of its scope.
pub open spec fn match_faults(c: PatternModel) -> Seq<Seq<char>> {
    scope_faults_all(c->Conj_0, direct_names(c->Conj_0))
}

/// The thing statements' models.
pub open spec fn things(s: Seq<ThingStatement>) -> Seq<ThingModel> {
    s.map_values(|t: ThingStatement| t@)
}

/// The named variables of the statements, in order.
pub open spec fn things_names(s: Seq<ThingModel>) -> Seq<Seq<char>>
    decreases s.len(),
{
    if s.len() == 0 { Seq::empty() } else { things_names(s.drop_last()) + thing_names(s.last()) }
}

/// The entries of `names` that `bounds` lacks, in order.
pub open spec fn unscoped(names: Seq<Seq<char>>, bounds: Seq<Seq<char>>) -> Seq<Seq<char>>
    decreases names.len(),
{
    if names.len() == 0 {
        Seq::empty()
    } else {
        unscoped(names.drop_last(), bounds) + if bounds.contains(names.last()) { Seq::empty() } else { seq![names.last()] }
    }
}

/// Some statement names a variable that the match binds; the others may bring new ones.
pub open spec fn insert_in_scope(bounds: Seq<Seq<char>>, s: Seq<ThingModel>) -> bool {
    exists|k: int| 0 <= k < things_names(s).len() && bounds.contains(#[trigger] things_names(s)[k])
}

/// `s` with every repeated entry left out, first occurrences kept in order.
pub open spec fn distinct(s: Seq<Seq<char>>) -> Seq<Seq<char>>
    decreases s.len(),
{
    if s.len() == 0 {
        Seq::empty()
    } else {
        let d = distinct(s.drop_last());
        if d.contains(s.last()) { d } else { d.push(s.last()) }
    }
}

/// `e` says that the `clause` clause has no statements.
pub open spec fn missing(e: TypeQLError, clause: Seq<char>) -> bool {
    e is MissingStatements && e->MissingStatements_clause@ == clause
}

/// `e` says that the statements are not within scope of `bounds`, listing each bound name once.
pub open spec fn not_in_scope(e: TypeQLError, bounds: Seq<Seq<char>>, s: Seq<ThingModel>) -> bool {
    &&& e is NoVariableInScopeInsert
    &&& e->NoVariableInScopeInsert_variables@ == join(s.map_values(|t: ThingModel| thing_text(t)), ", "@)
    &&& e->NoVariableInScopeInsert_bounds@ == join(distinct(bounds), ", "@)
}

/// The errors of an insert: a missing body, then a body out of the match's scope.
pub open spec fn insert_errors(es: Seq<TypeQLError>, bounds: Option<Seq<Seq<char>>>, s: Seq<ThingModel>) -> bool {
    let empty = s.len() == 0;
    let unscoped_body = bounds is Some && !insert_in_scope(bounds->0, s);
    &&& es.len() == (if empty { 1int } else { 0 }) + (if unscoped_body { 1int } else { 0 })
    &&& empty ==> missing(es[0], command_text(Command::Insert))
    &&& unscoped_body ==> not_in_scope(es.last(), bounds->0, s)
}

/// `es` reports each of `names` as deleted out of scope.
pub open spec fn delete_out_of_scope(es: Seq<TypeQLError>, names: Seq<Seq<char>>) -> bool {
    es.len() == names.len() && forall|i: int| 0 <= i < es.len() ==> (#[trigger] es[i] is VariableOutOfScopeDelete
        && es[i]->VariableOutOfScopeDelete_reference@ == names[i])
}

/// The errors of a delete: each deleted variable that the match does not bind, then a missing body.
pub open spec fn delete_errors(es: Seq<TypeQLError>, bounds: Seq<Seq<char>>, s: Seq<ThingModel>) -> bool {
    let out = unscoped(things_names(s), bounds);
    &&& es.len() == out.len() + if s.len() == 0 { 1int } else { 0 }
    &&& delete_out_of_scope(es.take(out.len() as int), out)
    &&& s.len() == 0 ==> missing(es.last(), command_text(Command::Delete))
}

/// `match` and its items, one per line.
/// `$name`, then ` asc` or ` desc` where a direction is given.
pub open spec fn sorting_text(s: Sorting) -> Seq<char> {
    "$"@ + s.variable@ + match s.order {
        Some(SortOrder::Asc) => " asc"@,
        Some(SortOrder::Desc) => " desc"@,
        None => Seq::empty(),
    }
}

/// `sort ...;`, `offset n;` and `limit n;`, each where given.
pub open spec fn modifier_parts(m: ModifiersModel) -> Seq<Seq<char>> {
    (if m.sorting.len() > 0 {
        seq!["sort "@ + join(m.sorting.map_values(|x: Sorting| sorting_text(x)), ", "@) + ";"@]
    } else {
        Seq::empty()
    })
        + match m.offset { Some(n) => seq!["offset "@ + decimal_text(n as nat) + ";"@], None => Seq::empty() }
        + match m.limit { Some(n) => seq!["limit "@ + decimal_text(n as nat) + ";"@], None => Seq::empty() }
}

/// The modifiers on a line of their own after what they modify, or nothing when none is given.
pub open spec fn modifiers_suffix(m: ModifiersModel) -> Seq<char> {
    if modifier_parts(m).len() > 0 { "\n"@ + join(modifier_parts(m), " "@) } else { Seq::empty() }
}

/// A match clause with its modifiers.
pub open spec fn match_query_text(m: TypeQLMatch) -> Seq<char> {
    match_text(m.conjunction@) + modifiers_suffix(m.modifiers@)
}

pub open spec fn match_text(c: PatternModel) -> Seq<char> {
    command_text(Command::Match) + "\n"@ + join(item_texts(c->Conj_0), "\n"@)
}

pub open spec fn statements_text(s: Seq<ThingModel>) -> Seq<char> {
    join(s.map_values(|t: ThingModel| thing_text(t)), ";\n"@) + ";"@
}

proof fn lemma_things_names_push(s: Seq<ThingModel>, t: ThingModel)
    ensures
        things_names(s.push(t)) == things_names(s) + thing_names(t),
{
    assert(s.push(t).drop_last() =~= s);
}

/// The named variables of all statements, in order.
fn statements_names(v: &Vec<ThingStatement>) -> (r: Vec<String>)
    ensures
        strings_view(r@) == things_names(things(v@)),
{
    let mut out: Vec<String> = Vec::new();
    let mut i: usize = 0;
    while i < v.len()
        invariant
            i <= v.len(),
            strings_view(out@) == things_names(things(v@).take(i as int)),
        decreases v.len() - i,
    {
        let n = v[i].names();
        extend_strings(&mut out, &n);
        proof {
            assert(things(v@).take(i + 1) =~= things(v@).take(i as int).push(v@[i as int]@));
            lemma_things_names_push(things(v@).take(i as int), v@[i as int]@);
        }
        i = i + 1;
    }
    assert(things(v@).take(i as int) =~= things(v@));
    out
}

/// The printed form of each statement.
fn statement_texts(v: &Vec<ThingStatement>) -> (r: Vec<String>)
    ensures
        strings_view(r@) == things(v@).map_values(|t: ThingModel| thing_text(t)),
{
    let mut parts: Vec<String> = Vec::new();
    let mut i: usize = 0;
    while i < v.len()
        invariant
            i <= v.len(),
            strings_view(parts@) == things(v@).take(i as int).map_values(|t: ThingModel| thing_text(t)),
        decreases v.len() - i,
    {
        let t = v[i].to_text();
        let ghost before = parts@;
        parts.push(t);
        assert(strings_view(parts@) =~= strings_view(before).push(thing_text(v@[i as int]@)));
        assert(strings_view(parts@) =~= things(v@).take(i + 1).map_values(|t: ThingModel| thing_text(t)));
        i = i + 1;
    }
    assert(things(v@).take(i as int) =~= things(v@));
    parts
}

/// The statements printed, each ended by `;`, one per line.
fn statements_to_text(v: &Vec<ThingStatement>) -> (r: String)
    ensures
        r@ == statements_text(things(v@)),
{
    let parts = statement_texts(v);
    let mut s = join_strings(&parts, ";\n");
    s.append(";");
    s
}

/// The statements printed and joined by `, `.
fn statements_listed(v: &Vec<ThingStatement>) -> (r: String)
    ensures
        r@ == join(things(v@).map_values(|t: ThingModel| thing_text(t)), ", "@),
{
    let parts = statement_texts(v);
    join_strings(&parts, ", ")
}

/// The in-scope check of an insert body against the names a match binds.
fn expect_insert_in_scope_of_match(bounds: &Vec<String>, variables: &Vec<ThingStatement>) -> (r: Option<TypeQLError>)
    ensures
        match r {
            None => insert_in_scope(strings_view(bounds@), things(variables@)),
            Some(e) => !insert_in_scope(strings_view(bounds@), things(variables@))
                && not_in_scope(e, strings_view(bounds@), things(variables@)),
        },
{
    let ghost b = strings_view(bounds@);
    let ghost s = things(variables@);
    let names = statements_names(variables);
    let ghost n = strings_view(names@);
    let mut i: usize = 0;
    while i < names.len()
        invariant
            i <= names.len(),
            b == strings_view(bounds@),
            n == strings_view(names@),
            n == things_names(s),
            s == things(variables@),
            forall|k: int| 0 <= k < i ==> !b.contains(#[trigger] n[k]),
        decreases names.len() - i,
    {
        let c = contains_string(bounds, &names[i]);
        assert(n[i as int] == names@[i as int]@);
        if c {
            assert(b.contains(things_names(s)[i as int]));
            return None;
        }
        i = i + 1;
    }
    let variables_str = statements_listed(variables);
    let unique = distinct_strings(bounds);
    let bounds_str = join_strings(&unique, ", ");
    Some(TypeQLError::NoVariableInScopeInsert { variables: variables_str, bounds: bounds_str })
}

/// The strings of `v`, each kept once, in the order of first occurrence.
fn distinct_strings(v: &Vec<String>) -> (r: Vec<String>)
    ensures
        strings_view(r@) == distinct(strings_view(v@)),
{
    let ghost sv = strings_view(v@);
    let mut out: Vec<String> = Vec::new();
    let mut i: usize = 0;
    while i < v.len()
        invariant
            i <= v.len(),
            sv == strings_view(v@),
            strings_view(out@) == distinct(sv.take(i as int)),
        decreases v.len() - i,
    {
        proof {
            assert(sv.take(i + 1).drop_last() =~= sv.take(i as int));
            assert(sv.take(i + 1).last() == v@[i as int]@);
        }
        if !contains_string(&out, &v[i]) {
            let ghost before = out@;
            out.push(v[i].clone());
            assert(strings_view(out@) =~= strings_view(before).push(v@[i as int]@));
        }
        i = i + 1;
    }
    assert(sv.take(i as int) =~= sv);
    out
}

/// The errors of an insert body, given the names its match binds, if it has one.
fn insert_body_errors(bounds: Option<&Vec<String>>, variables: &Vec<ThingStatement>) -> (r: Vec<TypeQLError>)
    ensures
        insert_errors(r@, match bounds { Some(b) => Some(strings_view(b@)), None => None }, things(variables@)),
{
    let mut errors: Vec<TypeQLError> = Vec::new();
    if variables.len() == 0 {
        errors.push(TypeQLError::MissingStatements { clause: String::from_str(command_token(Command::Insert)) });
    }
    if let Some(b) = bounds {
        if let Some(e) = expect_insert_in_scope_of_match(b, variables) {
            errors.push(e);
        }
    }
    errors
}

/// The named variables of the statements directly in `v`, in order.
fn direct_statement_names(v: &Vec<Pattern>) -> (r: Vec<String>)
    ensures
        strings_view(r@) == direct_names(pattern_models(v@)),
{
    let ghost ms = pattern_models(v@);
    proof { lemma_pattern_models(v@); }
    let mut out: Vec<String> = Vec::new();
    let mut i: usize = 0;
    while i < v.len()
        invariant
            i <= v.len(),
            ms == pattern_models(v@),
            ms.len() == v.len(),
            forall|k: int| 0 <= k < v.len() ==> #[trigger] ms[k] == pattern_model(v@[k]),
            strings_view(out@) == direct_names(ms.take(i as int)),
        decreases v.len() - i,
    {
        proof { assert(ms.take(i + 1).drop_last() =~= ms.take(i as int)); }
        match &v[i] {
            Pattern::Statement(st) => {
                let n = st.names();
                extend_strings(&mut out, &n);
            },
            _ => {},
        }
        i = i + 1;
    }
    assert(ms.take(i as int) =~= ms);
    out
}

/// `a` followed by `b`, which report `na` and `nb`.
fn append_scope_errors(a: Vec<TypeQLError>, b: Vec<TypeQLError>, na: Ghost<Seq<Seq<char>>>, nb: Ghost<Seq<Seq<char>>>) -> (r: Vec<TypeQLError>)
    requires
        out_of_scope_errors(a@, na@),
        out_of_scope_errors(b@, nb@),
    ensures
        out_of_scope_errors(r@, na@ + nb@),
{
    let mut r = a;
    let ghost ra = r@;
    let mut c = b;
    let ghost bv = c@;
    r.append(&mut c);
    assert forall|j: int| 0 <= j < r@.len() implies (#[trigger] r@[j] is VariableOutOfScopeMatch
        && r@[j]->VariableOutOfScopeMatch_reference@ == (na@ + nb@)[j]) by {
        if j < ra.len() {
            assert(r@[j] == ra[j]);
        } else {
            assert(r@[j] == bv[j - ra.len()]);
        }
    }
    r
}

/// The scope errors of `p` against `bounds`.
fn scope_errors(p: &Pattern, bounds: &Vec<String>) -> (r: Vec<TypeQLError>)
    ensures
        out_of_scope_errors(r@, scope_faults(p@, strings_view(bounds@))),
    decreases p@,
{
    match p {
        Pattern::Statement(_) => Vec::new(),
        Pattern::Conjunction(c) => {
            assert(p@ == PatternModel::Conj(pattern_models(c.patterns@)));
            let own = direct_statement_names(&c.patterns);
            let mut inner = Vec::new();
            extend_strings(&mut inner, bounds);
            extend_strings(&mut inner, &own);
            scope_errors_all(&c.patterns, &inner, Ghost(p@))
        },
        Pattern::Disjunction(d) => {
            assert(p@ == PatternModel::Disj(pattern_models(d.patterns@)));
            let first = match d.validate_is_bounded_by(bounds) {
                Ok(()) => Vec::new(),
                Err(es) => es,
            };
            let rest = scope_errors_all(&d.patterns, bounds, Ghost(p@));
            append_scope_errors(first, rest, Ghost(unbounded(pattern_models(d.patterns@), strings_view(bounds@))),
                Ghost(scope_faults_all(pattern_models(d.patterns@), strings_view(bounds@))))
        },
        Pattern::Negation(n) => {
            assert(decreases_to!(p@ => p@->Neg_0));
            scope_errors(&n.pattern, bounds)
        },
    }
}

/// The scope errors of each pattern of `v` against `bounds`; `parent` holds `v`.
fn scope_errors_all(v: &Vec<Pattern>, bounds: &Vec<String>, parent: Ghost<PatternModel>) -> (r: Vec<TypeQLError>)
    requires
        parent@ == PatternModel::Conj(pattern_models(v@)) || parent@ == PatternModel::Disj(pattern_models(v@)),
    ensures
        out_of_scope_errors(r@, scope_faults_all(pattern_models(v@), strings_view(bounds@))),
    decreases parent@, 0nat,
{
    let ghost ms = pattern_models(v@);
    let ghost b = strings_view(bounds@);
    proof { lemma_pattern_models(v@); }
    let mut errors: Vec<TypeQLError> = Vec::new();
    let mut i: usize = 0;
    while i < v.len()
        invariant
            i <= v.len(),
            ms == pattern_models(v@),
            b == strings_view(bounds@),
            parent@ == PatternModel::Conj(ms) || parent@ == PatternModel::Disj(ms),
            ms.len() == v.len(),
            forall|k: int| 0 <= k < v.len() ==> #[trigger] ms[k] == pattern_model(v@[k]),
            out_of_scope_errors(errors@, scope_faults_all(ms.take(i as int), b)),
        decreases v.len() - i,
    {
        proof {
            crate::pattern::lemma_child_decreases(parent@, v@, i as int);
            assert(ms.take(i + 1).drop_last() =~= ms.take(i as int));
        }
        let e = scope_errors(&v[i], bounds);
        errors = append_scope_errors(errors, e, Ghost(scope_faults_all(ms.take(i as int), b)), Ghost(scope_faults(ms[i as int], b)));
        i = i + 1;
    }
    assert(ms.take(i as int) =~= ms);
    errors
}

impl Sorting {
    fn to_text(&self) -> (r: String)
        ensures
            r@ == sorting_text(*self),
    {
        let mut s = String::from_str("$");
        s.append(self.variable.as_str());
        match self.order {
            Some(SortOrder::Asc) => s.append(" asc"),
            Some(SortOrder::Desc) => s.append(" desc"),
            None => {},
        }
        s
    }
}

fn numbered(keyword: &str, n: u64) -> (r: String)
    ensures
        r@ == keyword@ + decimal_text(n as nat) + ";"@,
{
    let mut s = String::from_str(keyword);
    crate::text::push_decimal(&mut s, n);
    s.append(";");
    s
}

impl Modifiers {
    /// No sort, no offset, no limit.
    pub fn new() -> (r: Modifiers)
        ensures
            r@.sorting.len() == 0,
            r@.offset is None,
            r@.limit is None,
    {
        Modifiers { sorting: Vec::new(), offset: None, limit: None }
    }

    /// The modifiers on a line of their own, or nothing when none is given.
    pub fn to_suffix(&self) -> (r: String)
        ensures
            r@ == modifiers_suffix(self@),
    {
        let mut parts: Vec<String> = Vec::new();
        if self.sorting.len() > 0 {
            let mut keys: Vec<String> = Vec::new();
            let mut i: usize = 0;
            while i < self.sorting.len()
                invariant
                    i <= self.sorting.len(),
                    strings_view(keys@) == self.sorting@.take(i as int).map_values(|x: Sorting| sorting_text(x)),
                decreases self.sorting.len() - i,
            {
                let t = self.sorting[i].to_text();
                let ghost before = keys@;
                keys.push(t);
                assert(strings_view(keys@) =~= strings_view(before).push(sorting_text(self.sorting@[i as int])));
                assert(strings_view(keys@) =~= self.sorting@.take(i + 1).map_values(|x: Sorting| sorting_text(x)));
                i = i + 1;
            }
            assert(self.sorting@.take(i as int) =~= self.sorting@);
            let mut p = String::from_str("sort ");
            let j = join_strings(&keys, ", ");
            p.append(j.as_str());
            p.append(";");
            parts.push(p);
        }
        let ghost s1 = strings_view(parts@);
        if let Some(n) = self.offset {
            parts.push(numbered("offset ", n));
        }
        let ghost s2 = strings_view(parts@);
        if let Some(n) = self.limit {
            parts.push(numbered("limit ", n));
        }
        assert(strings_view(parts@) =~= modifier_parts(self@));
        if parts.len() > 0 {
            let mut s = String::from_str("\n");
            let j = join_strings(&parts, " ");
            s.append(j.as_str());
            s
        } else {
            String::new()
        }
    }
}

impl TypeQLMatch {
    /// A match on the patterns of `conjunction`.
    pub fn new(conjunction: Conjunction) -> (r: TypeQLMatch)
        ensures
            r.conjunction@ == conjunction@,
            r.modifiers@.sorting.len() == 0,
            r.modifiers@.offset is None,
            r.modifiers@.limit is None,
    {
        TypeQLMatch { conjunction, modifiers: Modifiers::new() }
    }

    /// Each member of a disjunction, at any depth, that shares no named variable with the
    /// statements around it is reported out of scope.
    pub fn validate(&self) -> (r: Result<(), Vec<TypeQLError>>)
        ensures
            match_outcome(*self, r),
    {
        let bounds = direct_statement_names(&self.conjunction.patterns);
        let errors = scope_errors_all(&self.conjunction.patterns, &bounds, Ghost(self.conjunction@));
        if errors.len() == 0 {
            Ok(())
        } else {
            Err(errors)
        }
    }

    /// `match` and its items, one per line, then its modifiers.
    pub fn to_text(&self) -> (r: String)
        ensures
            r@ == match_query_text(*self),
    {
        let mut s = String::from_str(command_token(Command::Match));
        s.append("\n");
        let t = self.conjunction.items_text("\n");
        s.append(t.as_str());
        let m = self.modifiers.to_suffix();
        s.append(m.as_str());
        s
    }
}

impl TypeQLInsert {
    /// An insert with no match.
    pub fn new(variables: Vec<ThingStatement>) -> (r: TypeQLInsert)
        ensures
            r.match_query is None,
            r.variables@ == variables@,
    {
        TypeQLInsert { match_query: None, variables }
    }

    /// Every error of the insert: an empty body; a body none of whose variables the match binds;
    /// then the errors of the match itself.
    pub fn validate(&self) -> (r: Result<(), Vec<TypeQLError>>)
        ensures
            insert_outcome(*self, r),
    {
        let mut errors = match &self.match_query {
            Some(m) => {
                let b = m.conjunction.names();
                insert_body_errors(Some(&b), &self.variables)
            },
            None => insert_body_errors(None, &self.variables),
        };
        let ghost own = errors@;
        let checked = match &self.match_query {
            Some(m) => m.validate(),
            None => Ok(()),
        };
        let mut more: Vec<TypeQLError> = match checked {
            Ok(()) => Vec::new(),
            Err(es) => es,
        };
        let ghost mv = more@;
        errors.append(&mut more);
        assert(errors@.take(own.len() as int) =~= own);
        assert(errors@.skip(own.len() as int) =~= mv);
        if errors.len() == 0 {
            assert(own.len() == 0 && mv.len() == 0);
            assert(checked is Ok);
            assert(self.variables.len() > 0);
            proof {
                if self.match_query is Some {
                    let m = self.match_query->0;
                    assert(insert_in_scope(pattern_names(m.conjunction@), things(self.variables@)));
                    assert(match_faults(m.conjunction@).len() == 0);
                }
                assert(match self.match_query {
                    Some(m) => insert_in_scope(pattern_names(m.conjunction@), things(self.variables@))
                        && match_faults(m.conjunction@).len() == 0,
                    None => true,
                });
            }
            Ok(())
        } else {
            Err(errors)
        }
    }

    /// `[match ...\n]insert\n<statements>;`.
    pub fn to_text(&self) -> (r: String)
        ensures
            r@ == match self.match_query {
                Some(m) => match_query_text(m) + "\n"@,
                None => Seq::empty(),
            } + command_text(Command::Insert) + "\n"@ + statements_text(things(self.variables@)),
    {
        let mut s = String::new();
        if let Some(m) = &self.match_query {
            let t = m.to_text();
            s.append(t.as_str());
            s.append("\n");
        }
        s.append(command_token(Command::Insert));
        s.append("\n");
        let b = statements_to_text(&self.variables);
        s.append(b.as_str());
        s
    }
}

/// Each named variable of the statements that `bounds` lacks, reported in order.
fn expect_delete_in_scope_of_match(bounds: &Vec<String>, statements: &Vec<ThingStatement>) -> (r: Vec<TypeQLError>)
    ensures
        delete_out_of_scope(r@, unscoped(things_names(things(statements@)), strings_view(bounds@))),
{
    let names = statements_names(statements);
    let ghost b = strings_view(bounds@);
    let ghost n = strings_view(names@);
    let mut errors: Vec<TypeQLError> = Vec::new();
    let mut i: usize = 0;
    while i < names.len()
        invariant
            i <= names.len(),
            b == strings_view(bounds@),
            n == strings_view(names@),
            delete_out_of_scope(errors@, unscoped(n.take(i as int), b)),
        decreases names.len() - i,
    {
        let c = contains_string(bounds, &names[i]);
        let ghost before = errors@;
        proof {
            assert(n.take(i + 1).drop_last() =~= n.take(i as int));
            assert(n.take(i + 1).last() == names@[i as int]@);
        }
        if !c {
            errors.push(TypeQLError::VariableOutOfScopeDelete { reference: names[i].clone() });
        }
        proof {
            let u = unscoped(n.take(i + 1), b);
            assert forall|j: int| 0 <= j < errors@.len() implies (#[trigger] errors@[j] is VariableOutOfScopeDelete
                && errors@[j]->VariableOutOfScopeDelete_reference@ == u[j]) by {
                if j < before.len() {
                    assert(errors@[j] == before[j]);
                }
            }
        }
        i = i + 1;
    }
    assert(n.take(i as int) =~= n);
    errors
}

/// The delete errors: deleted variables out of scope, then an empty body.
fn delete_body_errors(bounds: &Vec<String>, statements: &Vec<ThingStatement>) -> (r: Vec<TypeQLError>)
    ensures
        delete_errors(r@, strings_view(bounds@), things(statements@)),
{
    let mut errors = expect_delete_in_scope_of_match(bounds, statements);
    let ghost scoped = errors@;
    if statements.len() == 0 {
        errors.push(TypeQLError::MissingStatements { clause: String::from_str(command_token(Command::Delete)) });
    }
    assert(errors@.take(scoped.len() as int) =~= scoped);
    errors
}

impl TypeQLDelete {
    /// A delete of `statements` from what `clause_match` binds.
    pub fn new(clause_match: TypeQLMatch, statements: Vec<ThingStatement>) -> (r: TypeQLDelete)
        ensures
            r.clause_match.conjunction@ == clause_match.conjunction@,
            r.clause_match.modifiers@ == clause_match.modifiers@,
            r.statements@ == statements@,
            r.modifiers@.sorting.len() == 0,
            r.modifiers@.offset is None,
            r.modifiers@.limit is None,
    {
        TypeQLDelete { clause_match, statements, modifiers: Modifiers::new() }
    }

    /// Follows the delete by an insert of `statements`.
    pub fn insert(self, statements: Vec<ThingStatement>) -> (r: TypeQLUpdate)
        ensures
            r.query_delete.clause_match.conjunction@ == self.clause_match.conjunction@,
            r.query_delete.statements@ == self.statements@,
            r.query_delete.modifiers@ == self.modifiers@,
            r.query_delete.clause_match.modifiers@ == self.clause_match.modifiers@,
            r.insert_statements@ == statements@,
    {
        TypeQLUpdate { query_delete: self, insert_statements: statements }
    }

    /// Every error of the delete: each deleted variable the match does not bind, an empty body,
    /// then the errors of the match itself.
    pub fn validate(&self) -> (r: Result<(), Vec<TypeQLError>>)
        ensures
            delete_outcome(*self, r),
    {
        let b = self.clause_match.conjunction.names();
        let mut errors = delete_body_errors(&b, &self.statements);
        let ghost own = errors@;
        let checked = self.clause_match.validate();
        let mut more: Vec<TypeQLError> = match checked {
            Ok(()) => Vec::new(),
            Err(es) => es,
        };
        let ghost mv = more@;
        errors.append(&mut more);
        assert(errors@.take(own.len() as int) =~= own);
        assert(errors@.skip(own.len() as int) =~= mv);
        if errors.len() == 0 {
            assert(own.len() == 0 && mv.len() == 0);
            assert(checked is Ok);
            assert(self.statements.len() > 0);
            assert(unscoped(things_names(things(self.statements@)), pattern_names(self.clause_match.conjunction@)).len() == 0);
            assert(match_faults(self.clause_match.conjunction@).len() == 0);
            Ok(())
        } else {
            Err(errors)
        }
    }

    /// `match ...\ndelete\n<statements>;`.
    pub fn to_text(&self) -> (r: String)
        ensures
            r@ == match_query_text(self.clause_match) + "\n"@ + command_text(Command::Delete) + "\n"@
                + statements_text(things(self.statements@)) + modifiers_suffix(self.modifiers@),
    {
        let mut s = self.clause_match.to_text();
        s.append("\n");
        s.append(command_token(Command::Delete));
        s.append("\n");
        let b = statements_to_text(&self.statements);
        s.append(b.as_str());
        let m = self.modifiers.to_suffix();
        s.append(m.as_str());
        s
    }
}

impl TypeQLUpdate {
    /// The errors of the delete, those of its match, then those of the insert against that match.
    pub fn validate(&self) -> (r: Result<(), Vec<TypeQLError>>)
        ensures
            update_outcome(*self, r),
    {
        let b = self.query_delete.clause_match.conjunction.names();
        let mut errors = delete_body_errors(&b, &self.query_delete.statements);
        let ghost d = errors@;
        let checked = self.query_delete.clause_match.validate();
        let mut mm: Vec<TypeQLError> = match checked {
            Ok(()) => Vec::new(),
            Err(es) => es,
        };
        let ghost mv = mm@;
        errors.append(&mut mm);
        let ghost dm = errors@;
        let mut more = insert_body_errors(Some(&b), &self.insert_statements);
        let ghost m = more@;
        errors.append(&mut more);
        assert(errors@.take(d.len() as int) =~= d);
        assert(errors@.subrange(d.len() as int, dm.len() as int) =~= mv);
        assert(errors@.skip(dm.len() as int) =~= m);
        if errors.len() == 0 {
            assert(d.len() == 0 && m.len() == 0 && mv.len() == 0);
            assert(checked is Ok);
            assert(self.query_delete.statements.len() > 0);
            assert(self.insert_statements.len() > 0);
            Ok(())
        } else {
            Err(errors)
        }
    }

    /// `match ...\ndelete\n<statements>;[\n<modifiers>]\ninsert\n<statements>;`.
    pub fn to_text(&self) -> (r: String)
        ensures
            r@ == match_query_text(self.query_delete.clause_match) + "\n"@ + command_text(Command::Delete) + "\n"@
                + statements_text(things(self.query_delete.statements@)) + modifiers_suffix(self.query_delete.modifiers@)
                + "\n"@ + command_text(Command::Insert) + "\n"@
                + statements_text(things(self.insert_statements@)),
    {
        let mut s = self.query_delete.to_text();
        s.append("\n");
        s.append(command_token(Command::Insert));
        s.append("\n");
        let b = statements_to_text(&self.insert_statements);
        s.append(b.as_str());
        s
    }
}

/// The type statements among `ds`, in order.
pub open spec fn definable_types(ds: Seq<Definable>) -> Seq<TypeVariable>
    decreases ds.len(),
{
    if ds.len() == 0 {
        Seq::empty()
    } else {
        definable_types(ds.drop_last()) + match ds.last() {
            Definable::TypeVariable(t) => seq![t],
            _ => Seq::empty(),
        }
    }
}

/// The complete rules among `ds`, in order.
pub open spec fn definable_rules(ds: Seq<Definable>) -> Seq<RuleDefinition>
    decreases ds.len(),
{
    if ds.len() == 0 {
        Seq::empty()
    } else {
        definable_rules(ds.drop_last()) + match ds.last() {
            Definable::RuleDefinition(r) => seq![r],
            _ => Seq::empty(),
        }
    }
}

/// The rule labels among `ds`, in order.
pub open spec fn definable_declarations(ds: Seq<Definable>) -> Seq<RuleDeclaration>
    decreases ds.len(),
{
    if ds.len() == 0 {
        Seq::empty()
    } else {
        definable_declarations(ds.drop_last()) + match ds.last() {
            Definable::RuleDeclaration(r) => seq![r],
            _ => Seq::empty(),
        }
    }
}

/// Each fault of each rule, with the label and `then` of its rule, in order.
pub open spec fn define_faults(rules: Seq<RuleDefinition>) -> Seq<(RuleFault, Seq<char>, ThingModel)>
    decreases rules.len(),
{
    if rules.len() == 0 {
        Seq::empty()
    } else {
        let r = rules.last();
        define_faults(rules.drop_last())
            + rule_faults(r.when@, r.then_@).map_values(|f: RuleFault| (f, r.label@, r.then_@))
    }
}

pub open spec fn type_texts(v: Seq<TypeVariable>) -> Seq<Seq<char>> {
    v.map_values(|t: TypeVariable| type_text(t@))
}

/// `define`, then each type statement and each rule, separated by `;` and a line break.
pub open spec fn define_text(d: TypeQLDefine) -> Seq<char> {
    command_text(Command::Define) + "\n"@ + join(type_texts(d.variables@)
        + d.rules@.map_values(|r: RuleDefinition| rule_text(r.label@, r.when@, r.then_@)), ";\n"@) + ";"@
}

/// `undefine`, then each type statement and each rule label, separated by `;` and a line break.
pub open spec fn undefine_text(d: TypeQLUndefine) -> Seq<char> {
    command_text(Command::Undefine) + "\n"@ + join(type_texts(d.variables@)
        + d.rules@.map_values(|r: RuleDeclaration| declaration_text(r.label@)), ";\n"@) + ";"@
}

fn type_variables_text(v: &Vec<TypeVariable>, parts: &mut Vec<String>)
    ensures
        strings_view(final(parts)@) == strings_view(old(parts)@) + type_texts(v@),
{
    let mut i: usize = 0;
    while i < v.len()
        invariant
            i <= v.len(),
            strings_view(parts@) == strings_view(old(parts)@) + type_texts(v@.take(i as int)),
        decreases v.len() - i,
    {
        let t = v[i].to_text();
        let ghost before = parts@;
        parts.push(t);
        assert(strings_view(parts@) =~= strings_view(before).push(type_text(v@[i as int]@)));
        assert(type_texts(v@.take(i + 1)) =~= type_texts(v@.take(i as int)).push(type_text(v@[i as int]@)));
        i = i + 1;
    }
    assert(v@.take(i as int) =~= v@);
}

impl TypeQLDefine {
    /// A define of the type statements and rules of `definables`, each kind in its given order.
    /// A rule label alone cannot be defined: a verified caller may not pass one, and any other
    /// caller gets the first one back as an error, never a silent drop.
    pub fn new(definables: Vec<Definable>) -> (r: Result<TypeQLDefine, TypeQLError>)
        requires
            forall|i: int| 0 <= i < definables.len() ==> !(#[trigger] definables@[i] is RuleDeclaration),
        ensures
            r is Ok,
            match r {
                Ok(d) => (forall|i: int| 0 <= i < definables.len() ==> !(#[trigger] definables@[i] is RuleDeclaration))
                    && d.variables@ == definable_types(definables@)
                    && d.rules@ == definable_rules(definables@),
                Err(e) => exists|i: int| 0 <= i < definables.len() && #[trigger] definables@[i] is RuleDeclaration
                    && (forall|k: int| 0 <= k < i ==> !(#[trigger] definables@[k] is RuleDeclaration))
                    && e is InvalidRuleWhenMissingPatterns && e->InvalidRuleWhenMissingPatterns_rule@ == definables@[i]->RuleDeclaration_0.label@,
            },
    {
        let ghost all = definables@;
        let mut rest = definables;
        let mut d = TypeQLDefine { variables: Vec::new(), rules: Vec::new() };
        let mut i: usize = 0;
        assert(all.len() == rest.len());
        while rest.len() > 0
            invariant
                rest@ == all.skip(i as int),
                all == definables@,
                i <= all.len(),
                all.len() == rest.len() + i,
                all.len() <= usize::MAX,
                forall|k: int| 0 <= k < all.len() ==> !(#[trigger] all[k] is RuleDeclaration),
                d.variables@ == definable_types(all.take(i as int)),
                d.rules@ == definable_rules(all.take(i as int)),
            decreases rest.len(),
        {
            let x = rest.remove(0);
            proof {
                assert(x == all[i as int]);
                assert(all.take(i + 1).drop_last() =~= all.take(i as int));
                assert(rest@ =~= all.skip(i + 1));
            }
            match x {
                Definable::TypeVariable(t) => {
                    d = d.add_definition(t);
                },
                Definable::RuleDefinition(r) => {
                    d = d.add_rule(r);
                },
                Definable::RuleDeclaration(r) => {
                    assert(all[i as int] == Definable::RuleDeclaration(r));
                    assert(all == definables@);
                    assert(definables@[i as int] is RuleDeclaration);
                    return Err(TypeQLError::InvalidRuleWhenMissingPatterns { rule: r.label });
                },
            }
            i = i + 1;
        }
        assert(all.take(i as int) =~= all);
        Ok(d)
    }

    /// One more type statement.
    pub fn add_definition(self, variable: TypeVariable) -> (r: TypeQLDefine)
        ensures
            r.variables@ == self.variables@.push(variable),
            r.rules@ == self.rules@,
    {
        let mut d = self;
        d.variables.push(variable);
        d
    }

    /// One more rule.
    pub fn add_rule(self, rule: RuleDefinition) -> (r: TypeQLDefine)
        ensures
            r.variables@ == self.variables@,
            r.rules@ == self.rules@.push(rule),
    {
        let mut d = self;
        d.rules.push(rule);
        d
    }

    /// Every fault of every rule, in order.
    pub fn validate(&self) -> (r: Result<(), Vec<TypeQLError>>)
        ensures
            define_outcome(*self, r),
    {
        let mut errors: Vec<TypeQLError> = Vec::new();
        let mut i: usize = 0;
        while i < self.rules.len()
            invariant
                i <= self.rules.len(),
                errors@.len() == define_faults(self.rules@.take(i as int)).len(),
                forall|j: int| 0 <= j < errors@.len() ==> #[trigger] reports(errors@[j], define_faults(self.rules@.take(i as int))[j].0,
                    define_faults(self.rules@.take(i as int))[j].1, define_faults(self.rules@.take(i as int))[j].2),
            decreases self.rules.len() - i,
        {
            let rule = &self.rules[i];
            let ghost before = errors@;
            let ghost fs = rule_faults(rule.when@, rule.then_@).map_values(|f: RuleFault| (f, rule.label@, rule.then_@));
            proof {
                assert(self.rules@.take(i + 1).drop_last() =~= self.rules@.take(i as int));
                assert(define_faults(self.rules@.take(i + 1)) == define_faults(self.rules@.take(i as int)) + fs);
            }
            match rule.validate() {
                Ok(()) => {
                    assert(define_faults(self.rules@.take(i + 1)) =~= define_faults(self.rules@.take(i as int)));
                },
                Err(es) => {
                    let mut e = es;
                    let ghost ev = e@;
                    errors.append(&mut e);
                    proof {
                        let all = define_faults(self.rules@.take(i + 1));
                        assert forall|j: int| 0 <= j < errors@.len() implies #[trigger] reports(errors@[j], all[j].0, all[j].1, all[j].2) by {
                            if j < before.len() {
                                assert(errors@[j] == before[j]);
                            } else {
                                assert(errors@[j] == ev[j - before.len()]);
                                assert(all[j] == fs[j - before.len()]);
                            }
                        }
                    }
                },
            }
            i = i + 1;
        }
        assert(self.rules@.take(i as int) =~= self.rules@);
        if errors.len() == 0 {
            Ok(())
        } else {
            Err(errors)
        }
    }

    /// The printed form.
    pub fn to_text(&self) -> (r: String)
        ensures
            r@ == define_text(*self),
    {
        let mut parts: Vec<String> = Vec::new();
        type_variables_text(&self.variables, &mut parts);
        let ghost start = strings_view(parts@);
        let mut i: usize = 0;
        while i < self.rules.len()
            invariant
                i <= self.rules.len(),
                strings_view(parts@) == start + self.rules@.take(i as int).map_values(|r: RuleDefinition| rule_text(r.label@, r.when@, r.then_@)),
            decreases self.rules.len() - i,
        {
            let t = self.rules[i].to_text();
            let ghost before = parts@;
            parts.push(t);
            let ghost ri = self.rules@[i as int];
            assert(strings_view(parts@) =~= strings_view(before).push(rule_text(ri.label@, ri.when@, ri.then_@)));
            assert(self.rules@.take(i + 1).map_values(|r: RuleDefinition| rule_text(r.label@, r.when@, r.then_@))
                =~= self.rules@.take(i as int).map_values(|r: RuleDefinition| rule_text(r.label@, r.when@, r.then_@)).push(rule_text(ri.label@, ri.when@, ri.then_@)));
            i = i + 1;
        }
        assert(self.rules@.take(i as int) =~= self.rules@);
        let mut s = String::from_str(command_token(Command::Define));
        s.append("\n");
        let j = join_strings(&parts, ";\n");
        s.append(j.as_str());
        s.append(";");
        s
    }
}

impl TypeQLUndefine {
    /// An undefine of the type statements and rule labels of `definables`, each kind in its
    /// given order. A complete rule cannot be undefined, only its label can: a verified caller
    /// may not pass one, and any other caller gets the first one back as an error, never a
    /// silent drop.
    pub fn new(definables: Vec<Definable>) -> (r: Result<TypeQLUndefine, TypeQLError>)
        requires
            forall|i: int| 0 <= i < definables.len() ==> !(#[trigger] definables@[i] is RuleDefinition),
        ensures
            r is Ok,
            match r {
                Ok(d) => (forall|i: int| 0 <= i < definables.len() ==> !(#[trigger] definables@[i] is RuleDefinition))
                    && d.variables@ == definable_types(definables@)
                    && d.rules@ == definable_declarations(definables@),
                Err(e) => exists|i: int| 0 <= i < definables.len() && #[trigger] definables@[i] is RuleDefinition
                    && (forall|k: int| 0 <= k < i ==> !(#[trigger] definables@[k] is RuleDefinition))
                    && e is InvalidUndefineRuleBody && e->InvalidUndefineRuleBody_rule@ == definables@[i]->RuleDefinition_0.label@,
            },
    {
        let ghost all = definables@;
        let mut rest = definables;
        let mut d = TypeQLUndefine { variables: Vec::new(), rules: Vec::new() };
        let mut i: usize = 0;
        assert(all.len() == rest.len());
        while rest.len() > 0
            invariant
                rest@ == all.skip(i as int),
                all == definables@,
                i <= all.len(),
                all.len() == rest.len() + i,
                all.len() <= usize::MAX,
                forall|k: int| 0 <= k < all.len() ==> !(#[trigger] all[k] is RuleDefinition),
                d.variables@ == definable_types(all.take(i as int)),
                d.rules@ == definable_declarations(all.take(i as int)),
            decreases rest.len(),
        {
            let x = rest.remove(0);
            proof {
                assert(x == all[i as int]);
                assert(all.take(i + 1).drop_last() =~= all.take(i as int));
                assert(rest@ =~= all.skip(i + 1));
            }
            match x {
                Definable::TypeVariable(t) => {
                    d = d.add_definition(t);
                },
                Definable::RuleDeclaration(r) => {
                    d = d.add_rule(r);
                },
                Definable::RuleDefinition(r) => {
                    assert(all[i as int] == Definable::RuleDefinition(r));
                    assert(all == definables@);
                    assert(definables@[i as int] is RuleDefinition);
                    return Err(TypeQLError::InvalidUndefineRuleBody { rule: r.label });
                },
            }
            i = i + 1;
        }
        assert(all.take(i as int) =~= all);
        Ok(d)
    }

    /// One more type statement.
    pub fn add_definition(self, variable: TypeVariable) -> (r: TypeQLUndefine)
        ensures
            r.variables@ == self.variables@.push(variable),
            r.rules@ == self.rules@,
    {
        let mut d = self;
        d.variables.push(variable);
        d
    }

    /// One more rule label.
    pub fn add_rule(self, rule: RuleDeclaration) -> (r: TypeQLUndefine)
        ensures
            r.variables@ == self.variables@,
            r.rules@ == self.rules@.push(rule),
    {
        let mut d = self;
        d.rules.push(rule);
        d
    }

    /// The printed form.
    pub fn to_text(&self) -> (r: String)
        ensures
            r@ == undefine_text(*self),
    {
        let mut parts: Vec<String> = Vec::new();
        type_variables_text(&self.variables, &mut parts);
        let ghost start = strings_view(parts@);
        let mut i: usize = 0;
        while i < self.rules.len()
            invariant
                i <= self.rules.len(),
                strings_view(parts@) == start + self.rules@.take(i as int).map_values(|r: RuleDeclaration| declaration_text(r.label@)),
            decreases self.rules.len() - i,
        {
            let t = self.rules[i].to_text();
            let ghost before = parts@;
            parts.push(t);
            let ghost ri = self.rules@[i as int];
            assert(strings_view(parts@) =~= strings_view(before).push(declaration_text(ri.label@)));
            assert(self.rules@.take(i + 1).map_values(|r: RuleDeclaration| declaration_text(r.label@))
                =~= self.rules@.take(i as int).map_values(|r: RuleDeclaration| declaration_text(r.label@)).push(declaration_text(ri.label@)));
            i = i + 1;
        }
        assert(self.rules@.take(i as int) =~= self.rules@);
        let mut s = String::from_str(command_token(Command::Undefine));
        s.append("\n");
        let j = join_strings(&parts, ";\n");
        s.append(j.as_str());
        s.append(";");
        s
    }
}

/// Validating a match: `Ok` exactly when no disjunction member is out of scope, otherwise one
/// error for each such member.
pub open spec fn match_outcome(q: TypeQLMatch, r: Result<(), Vec<TypeQLError>>) -> bool {
    match r {
        Ok(()) => match_faults(q.conjunction@).len() == 0,
        Err(es) => es@.len() > 0 && out_of_scope_errors(es@, match_faults(q.conjunction@)),
    }
}

/// Validating an insert: its own errors (an empty body, a body out of its match's scope), then
/// those of its match.
pub open spec fn insert_outcome(q: TypeQLInsert, r: Result<(), Vec<TypeQLError>>) -> bool {
    match r {
        Ok(()) => q.variables.len() > 0 && match q.match_query {
            Some(m) => insert_in_scope(pattern_names(m.conjunction@), things(q.variables@))
                && match_faults(m.conjunction@).len() == 0,
            None => true,
        },
        Err(es) => {
            let bounds = match q.match_query {
                Some(m) => Some(pattern_names(m.conjunction@)),
                None => None,
            };
            let k = insert_error_count(bounds, things(q.variables@));
            &&& es@.len() > 0
            &&& k <= es@.len()
            &&& insert_errors(es@.take(k), bounds, things(q.variables@))
            &&& match q.match_query {
                Some(m) => out_of_scope_errors(es@.skip(k), match_faults(m.conjunction@)),
                None => es@.skip(k).len() == 0,
            }
        },
    }
}

/// Validating a delete: deleted variables out of scope and an empty body, then the errors of
/// its match.
pub open spec fn delete_outcome(q: TypeQLDelete, r: Result<(), Vec<TypeQLError>>) -> bool {
    match r {
        Ok(()) => q.statements.len() > 0
            && unscoped(things_names(things(q.statements@)), pattern_names(q.clause_match.conjunction@)).len() == 0
            && match_faults(q.clause_match.conjunction@).len() == 0,
        Err(es) => {
            let k = delete_error_count(pattern_names(q.clause_match.conjunction@), things(q.statements@));
            &&& es@.len() > 0
            &&& k <= es@.len()
            &&& delete_errors(es@.take(k), pattern_names(q.clause_match.conjunction@), things(q.statements@))
            &&& out_of_scope_errors(es@.skip(k), match_faults(q.clause_match.conjunction@))
        },
    }
}

/// Validating an update: the delete's errors, those of its match, then the insert's.
pub open spec fn update_outcome(q: TypeQLUpdate, r: Result<(), Vec<TypeQLError>>) -> bool {
    match r {
        Ok(()) => q.query_delete.statements.len() > 0 && q.insert_statements.len() > 0
            && unscoped(things_names(things(q.query_delete.statements@)),
                pattern_names(q.query_delete.clause_match.conjunction@)).len() == 0
            && match_faults(q.query_delete.clause_match.conjunction@).len() == 0
            && insert_in_scope(pattern_names(q.query_delete.clause_match.conjunction@), things(q.insert_statements@)),
        Err(es) => {
            let bounds = pattern_names(q.query_delete.clause_match.conjunction@);
            let k = delete_error_count(bounds, things(q.query_delete.statements@));
            let l = k + match_faults(q.query_delete.clause_match.conjunction@).len();
            &&& es@.len() > 0
            &&& l <= es@.len()
            &&& delete_errors(es@.take(k), bounds, things(q.query_delete.statements@))
            &&& out_of_scope_errors(es@.subrange(k, l), match_faults(q.query_delete.clause_match.conjunction@))
            &&& insert_errors(es@.skip(l), Some(bounds), things(q.insert_statements@))
        },
    }
}

/// Validating a define: every fault of every rule, in order.
pub open spec fn define_outcome(q: TypeQLDefine, r: Result<(), Vec<TypeQLError>>) -> bool {
    match r {
        Ok(()) => define_faults(q.rules@).len() == 0,
        Err(es) => es@.len() > 0 && es@.len() == define_faults(q.rules@).len()
            && forall|i: int| 0 <= i < es@.len() ==> #[trigger] reports(es@[i], define_faults(q.rules@)[i].0,
                define_faults(q.rules@)[i].1, define_faults(q.rules@)[i].2),
    }
}

impl Query {
    /// The errors of the query, as its kind's own `validate` gives them; an undefine has none.
    pub fn validate(&self) -> (r: Result<(), Vec<TypeQLError>>)
        ensures
            match self {
                Query::Match(q) => match_outcome(*q, r),
                Query::Insert(q) => insert_outcome(*q, r),
                Query::Delete(q) => delete_outcome(*q, r),
                Query::Update(q) => update_outcome(*q, r),
                Query::Define(q) => define_outcome(*q, r),
                Query::Undefine(_) => r is Ok,
            },
    {
        match self {
            Query::Match(q) => q.validate(),
            Query::Insert(q) => q.validate(),
            Query::Delete(q) => q.validate(),
            Query::Update(q) => q.validate(),
            Query::Define(q) => q.validate(),
            Query::Undefine(_) => Ok(()),
        }
    }

    /// The printed form of the query.
    pub fn to_text(&self) -> (r: String)
        ensures
            match self {
                Query::Match(q) => r@ == match_query_text(*q),
                Query::Insert(q) => r@ == match q.match_query {
                    Some(m) => match_query_text(m) + "\n"@,
                    None => Seq::empty(),
                } + command_text(Command::Insert) + "\n"@ + statements_text(things(q.variables@)),
                Query::Delete(q) => r@ == match_query_text(q.clause_match) + "\n"@ + command_text(Command::Delete) + "\n"@
                    + statements_text(things(q.statements@)) + modifiers_suffix(q.modifiers@),
                Query::Update(q) => r@ == match_query_text(q.query_delete.clause_match) + "\n"@ + command_text(Command::Delete) + "\n"@
                    + statements_text(things(q.query_delete.statements@)) + modifiers_suffix(q.query_delete.modifiers@)
                    + "\n"@ + command_text(Command::Insert) + "\n"@
                    + statements_text(things(q.insert_statements@)),
                Query::Define(q) => r@ == define_text(*q),
                Query::Undefine(q) => r@ == undefine_text(*q),
            },
    {
        match self {
            Query::Match(q) => q.to_text(),
            Query::Insert(q) => q.to_text(),
            Query::Delete(q) => q.to_text(),
            Query::Update(q) => q.to_text(),
            Query::Define(q) => q.to_text(),
            Query::Undefine(q) => q.to_text(),
        }
    }
}

/// An insert none of whose named variables the match binds is brought into scope by adding to
/// the match a pattern that binds one of them.
pub proof fn lemma_insert_scope_by_binding(match_patterns: Seq<PatternModel>, added: PatternModel, s: Seq<ThingModel>, k: int)
    requires
        0 <= k < things_names(s).len(),
        pattern_names(added).contains(things_names(s)[k]),
    ensures
        insert_in_scope(pattern_names(PatternModel::Conj(match_patterns.push(added))), s),
{
    let ps = match_patterns.push(added);
    assert(ps.drop_last() =~= match_patterns);
    let a = crate::pattern::patterns_names(match_patterns);
    let bn = pattern_names(added);
    let all = pattern_names(PatternModel::Conj(ps));
    assert(crate::pattern::patterns_names(ps) == crate::pattern::patterns_names(ps.drop_last()) + pattern_names(ps.last()));
    assert(all == a + bn);
    let n = things_names(s)[k];
    let j = choose|j: int| 0 <= j < bn.len() && bn[j] == n;
    assert(all[a.len() + j] == n);
    assert(all.contains(n));
}

/// Every name of `a` is a name of `b`.
pub open spec fn names_within(a: Seq<Seq<char>>, b: Seq<Seq<char>>) -> bool {
    forall|x: Seq<char>| #[trigger] a.contains(x) ==> b.contains(x)
}

proof fn lemma_within_extend(a: Seq<Seq<char>>, b: Seq<Seq<char>>, d: Seq<Seq<char>>)
    requires
        names_within(a, b),
    ensures
        names_within(a + d, b + d),
{
    assert forall|x: Seq<char>| #[trigger] (a + d).contains(x) implies (b + d).contains(x) by {
        let j = choose|j: int| 0 <= j < (a + d).len() && (a + d)[j] == x;
        if j < a.len() {
            assert(a[j] == x);
            assert(a.contains(x));
            let k = choose|k: int| 0 <= k < b.len() && b[k] == x;
            assert((b + d)[k] == x);
        } else {
            assert((b + d)[b.len() + j - a.len()] == x);
        }
    }
}

proof fn lemma_unbounded_wider(ms: Seq<PatternModel>, b: Seq<Seq<char>>, b2: Seq<Seq<char>>)
    requires
        unbounded(ms, b).len() == 0,
        names_within(b, b2),
    ensures
        unbounded(ms, b2).len() == 0,
    decreases ms.len(),
{
    if ms.len() > 0 {
        lemma_unbounded_wider(ms.drop_last(), b, b2);
        let n = pattern_names(ms.last());
        if n.len() > 0 {
            let k = choose|k: int| 0 <= k < n.len() && b.contains(#[trigger] n[k]);
            assert(b2.contains(n[k]));
        }
    }
}

proof fn lemma_scope_wider(p: PatternModel, b: Seq<Seq<char>>, b2: Seq<Seq<char>>)
    requires
        scope_faults(p, b).len() == 0,
        names_within(b, b2),
    ensures
        scope_faults(p, b2).len() == 0,
    decreases p,
{
    match p {
        PatternModel::Conj(cs) => {
            lemma_within_extend(b, b2, direct_names(cs));
            lemma_scope_all_wider(cs, b + direct_names(cs), b2 + direct_names(cs));
        },
        PatternModel::Disj(ms) => {
            lemma_unbounded_wider(ms, b, b2);
            lemma_scope_all_wider(ms, b, b2);
        },
        PatternModel::Neg(x) => {
            lemma_scope_wider(*x, b, b2);
        },
        _ => {},
    }
}

proof fn lemma_scope_all_wider(cs: Seq<PatternModel>, b: Seq<Seq<char>>, b2: Seq<Seq<char>>)
    requires
        scope_faults_all(cs, b).len() == 0,
        names_within(b, b2),
    ensures
        scope_faults_all(cs, b2).len() == 0,
    decreases cs,
{
    if cs.len() > 0 {
        lemma_scope_all_wider(cs.drop_last(), b, b2);
        lemma_scope_wider(cs.last(), b, b2);
    }
}

/// A match without scope faults keeps none when a statement is added to it, and an insert naming
/// one of that statement's variables is then in its scope: the insert validates.
pub proof fn lemma_insert_accepted_after_binding(match_patterns: Seq<PatternModel>, added: StatementModel, s: Seq<ThingModel>, k: int)
    requires
        match_faults(PatternModel::Conj(match_patterns)).len() == 0,
        0 <= k < things_names(s).len(),
        statement_names(added).contains(things_names(s)[k]),
    ensures
        insert_in_scope(pattern_names(PatternModel::Conj(match_patterns.push(PatternModel::Stmt(added)))), s),
        match_faults(PatternModel::Conj(match_patterns.push(PatternModel::Stmt(added)))).len() == 0,
{
    let st = PatternModel::Stmt(added);
    lemma_insert_scope_by_binding(match_patterns, st, s, k);
    let ps = match_patterns.push(st);
    assert(ps.drop_last() =~= match_patterns);
    let d = direct_names(match_patterns);
    let d2 = direct_names(ps);
    assert(d2 == d + statement_names(added));
    assert forall|x: Seq<char>| #[trigger] d.contains(x) implies d2.contains(x) by {
        let j = choose|j: int| 0 <= j < d.len() && d[j] == x;
        assert(d2[j] == x);
    }
    lemma_scope_all_wider(match_patterns, d, d2);
    assert(scope_faults_all(ps, d2) == scope_faults_all(match_patterns, d2) + scope_faults(st, d2));
}

} // verus!
