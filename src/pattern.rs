//! The pattern tree, its printed form, and its normalisation.
use vstd::prelude::*;
use crate::normal::{Branches, PatternModel, cross, disjunction_of, flatten, negate, normal, normals, normalised, product, lemma_normals};
use crate::statement::{Statement, StatementModel, statement_names, statement_text};
use crate::text::{indent, push_indented, join, lemma_join_push, strings_view, extend_strings, contains_string};
use crate::error::TypeQLError;
use crate::token::{LogicOperator, logic_text, logic_token};

verus! {

/// Patterns that must all hold.
#[derive(Debug)]
pub struct Conjunction {
    pub patterns: Vec<Pattern>,
}

/// Patterns of which one must hold.
///
/// `normalised` is the kept normal form: written once, by the first normalisation, and then
/// only read. While it is set it equals the normal form of `patterns` (see `wf`).
#[derive(Debug)]
pub struct Disjunction {
    pub patterns: Vec<Pattern>,
    pub normalised: Option<Box<Disjunction>>,
}

/// A pattern that must not hold.
#[derive(Debug)]
pub struct Negation {
    pub pattern: Box<Pattern>,
}

/// A node of a query body.
#[derive(Debug)]
pub enum Pattern {
    Conjunction(Conjunction),
    Disjunction(Disjunction),
    Negation(Negation),
    Statement(Statement),
}

pub open spec fn pattern_model(p: Pattern) -> PatternModel
    decreases p,
{
    match p {
        Pattern::Conjunction(c) => PatternModel::Conj(pattern_models(c.patterns@)),
        Pattern::Disjunction(d) => PatternModel::Disj(pattern_models(d.patterns@)),
        Pattern::Negation(n) => PatternModel::Neg(Box::new(pattern_model(*n.pattern))),
        Pattern::Statement(s) => PatternModel::Stmt(s@),
    }
}

pub open spec fn pattern_models(s: Seq<Pattern>) -> Seq<PatternModel>
    decreases s,
{
    if s.len() == 0 {
        Seq::empty()
    } else {
        pattern_models(s.drop_last()).push(pattern_model(s.last()))
    }
}

/// The normal form that a list of item lists stands for.
pub open spec fn branches_model(b: Seq<Vec<Pattern>>) -> Branches {
    b.map_values(|v: Vec<Pattern>| pattern_models(v@))
}

impl View for Pattern {
    type V = PatternModel;

    open spec fn view(&self) -> PatternModel {
        pattern_model(*self)
    }
}

impl View for Conjunction {
    type V = PatternModel;

    open spec fn view(&self) -> PatternModel {
        PatternModel::Conj(pattern_models(self.patterns@))
    }
}

impl View for Disjunction {
    type V = PatternModel;

    /// The patterns only: the kept normal form is derived from them.
    open spec fn view(&self) -> PatternModel {
        PatternModel::Disj(pattern_models(self.patterns@))
    }
}

impl View for Negation {
    type V = PatternModel;

    open spec fn view(&self) -> PatternModel {
        PatternModel::Neg(Box::new(pattern_model(*self.pattern)))
    }
}

pub proof fn lemma_pattern_models(s: Seq<Pattern>)
    ensures
        pattern_models(s).len() == s.len(),
        forall|i: int| 0 <= i < s.len() ==> #[trigger] pattern_models(s)[i] == pattern_model(s[i]),
    decreases s.len(),
{
    if s.len() > 0 {
        lemma_pattern_models(s.drop_last());
    }
}

proof fn lemma_pattern_models_append(a: Seq<Pattern>, b: Seq<Pattern>)
    ensures
        pattern_models(a + b) == pattern_models(a) + pattern_models(b),
{
    lemma_pattern_models(a);
    lemma_pattern_models(b);
    lemma_pattern_models(a + b);
    assert(pattern_models(a + b) =~= pattern_models(a) + pattern_models(b));
}

/// ` or `, between the members of a disjunction.
pub open spec fn or_sep() -> Seq<char> {
    " "@ + logic_text(LogicOperator::Or) + " "@
}

/// A pattern standing in a disjunction or a negation: a conjunction shows its own braces,
/// anything else is put in braces on lines of its own, indented.
pub open spec fn braced(p: PatternModel, t: Seq<char>) -> Seq<char> {
    if p is Conj { t } else { "{\n"@ + indent(t) + ";\n}"@ }
}

/// The printed form of a pattern.
pub open spec fn pattern_text(p: PatternModel) -> Seq<char>
    decreases p,
{
    match p {
        PatternModel::Stmt(s) => statement_text(s),
        PatternModel::Conj(cs) => "{ "@ + join(item_texts(cs), " "@) + " }"@,
        PatternModel::Disj(cs) => join(member_texts(cs), or_sep()),
        PatternModel::Neg(b) => logic_text(LogicOperator::Not) + " "@ + braced(*b, pattern_text(*b)),
    }
}

/// Each pattern printed and terminated by `;`.
pub open spec fn item_texts(cs: Seq<PatternModel>) -> Seq<Seq<char>>
    decreases cs,
{
    if cs.len() == 0 { Seq::empty() } else { item_texts(cs.drop_last()).push(pattern_text(cs.last()) + ";"@) }
}

/// Each member of a disjunction printed in braces.
pub open spec fn member_texts(cs: Seq<PatternModel>) -> Seq<Seq<char>>
    decreases cs,
{
    if cs.len() == 0 {
        Seq::empty()
    } else {
        member_texts(cs.drop_last()).push(braced(cs.last(), pattern_text(cs.last())))
    }
}

/// The named variables of a pattern at any depth, as printed, left to right.
pub open spec fn pattern_names(p: PatternModel) -> Seq<Seq<char>>
    decreases p,
{
    match p {
        PatternModel::Stmt(s) => statement_names(s),
        PatternModel::Conj(cs) => patterns_names(cs),
        PatternModel::Disj(cs) => patterns_names(cs),
        PatternModel::Neg(b) => pattern_names(*b),
    }
}

pub open spec fn patterns_names(cs: Seq<PatternModel>) -> Seq<Seq<char>>
    decreases cs,
{
    if cs.len() == 0 { Seq::empty() } else { patterns_names(cs.drop_last()) + pattern_names(cs.last()) }
}

/// The members of a disjunction that share no named variable with `bounds`, each given by its
/// first named variable.
pub open spec fn unbounded(cs: Seq<PatternModel>, bounds: Seq<Seq<char>>) -> Seq<Seq<char>>
    decreases cs.len(),
{
    if cs.len() == 0 {
        Seq::empty()
    } else {
        let n = pattern_names(cs.last());
        unbounded(cs.drop_last(), bounds) + if n.len() > 0 && forall|k: int| 0 <= k < n.len() ==> !bounds.contains(#[trigger] n[k]) {
            seq![n[0]]
        } else {
            Seq::empty()
        }
    }
}

/// The errors that report each of `names` as out of scope, in order.
pub open spec fn out_of_scope_errors(es: Seq<TypeQLError>, names: Seq<Seq<char>>) -> bool {
    &&& es.len() == names.len()
    &&& forall|i: int| 0 <= i < es.len() ==> (#[trigger] es[i] is VariableOutOfScopeMatch
        && es[i]->VariableOutOfScopeMatch_reference@ == names[i])
}

impl Pattern {
    /// An equal copy.
    pub fn copy(&self) -> (r: Pattern)
        ensures
            r@ == self@,
        decreases self@,
    {
        match self {
            Pattern::Conjunction(c) => {
                proof { lemma_pattern_models(c.patterns@); }
                assert(self@ == PatternModel::Conj(pattern_models(c.patterns@)));
                Pattern::Conjunction(Conjunction { patterns: copy_patterns(&c.patterns, Ghost(self@)) })
            },
            Pattern::Disjunction(d) => {
                proof { lemma_pattern_models(d.patterns@); }
                assert(self@ == PatternModel::Disj(pattern_models(d.patterns@)));
                Pattern::Disjunction(Disjunction { patterns: copy_patterns(&d.patterns, Ghost(self@)), normalised: None })
            },
            Pattern::Negation(n) => {
                assert(decreases_to!(self@ => self@->Neg_0));
                let b = n.pattern.copy();
                Pattern::Negation(Negation { pattern: Box::new(b) })
            },
            Pattern::Statement(s) => Pattern::Statement(s.copy()),
        }
    }

    /// The printed form.
    pub fn to_text(&self) -> (r: String)
        ensures
            r@ == pattern_text(self@),
        decreases self@,
    {
        match self {
            Pattern::Statement(s) => s.to_text(),
            Pattern::Conjunction(c) => {
                proof { lemma_pattern_models(c.patterns@); }
                assert(self@ == PatternModel::Conj(pattern_models(c.patterns@)));
                let mut s = String::from_str("{ ");
                let inner = items_to_text(&c.patterns, " ", Ghost(self@));
                s.append(inner.as_str());
                s.append(" }");
                s
            },
            Pattern::Disjunction(d) => {
                proof { lemma_pattern_models(d.patterns@); }
                assert(self@ == PatternModel::Disj(pattern_models(d.patterns@)));
                members_to_text(&d.patterns, Ghost(self@))
            },
            Pattern::Negation(n) => {
                assert(decreases_to!(self@ => self@->Neg_0));
                let t = n.pattern.to_text();
                let mut s = String::from_str(logic_token(LogicOperator::Not));
                s.append(" ");
                match &*n.pattern {
                    Pattern::Conjunction(_) => s.append(t.as_str()),
                    _ => {
                        s.append("{\n");
                        push_indented(&mut s, t.as_str());
                        s.append(";\n}");
                    },
                }
                s
            },
        }
    }

    /// The named variables at any depth, as printed, left to right.
    pub fn names(&self) -> (r: Vec<String>)
        ensures
            strings_view(r@) == pattern_names(self@),
        decreases self@,
    {
        match self {
            Pattern::Statement(s) => s.names(),
            Pattern::Conjunction(c) => {
                proof { lemma_pattern_models(c.patterns@); }
                assert(self@ == PatternModel::Conj(pattern_models(c.patterns@)));
                names_of(&c.patterns, Ghost(self@))
            },
            Pattern::Disjunction(d) => {
                proof { lemma_pattern_models(d.patterns@); }
                assert(self@ == PatternModel::Disj(pattern_models(d.patterns@)));
                names_of(&d.patterns, Ghost(self@))
            },
            Pattern::Negation(n) => {
                assert(decreases_to!(self@ => self@->Neg_0));
                n.pattern.names()
            },
        }
    }
}

/// Copies of `v`, in order; `parent` is the node that holds them.
fn copy_patterns(v: &Vec<Pattern>, parent: Ghost<PatternModel>) -> (r: Vec<Pattern>)
    requires
        parent@ == PatternModel::Conj(pattern_models(v@)) || parent@ == PatternModel::Disj(pattern_models(v@)),
    ensures
        pattern_models(r@) == pattern_models(v@),
    decreases parent@, 0nat,
{
    proof { lemma_pattern_models(v@); }
    let mut out: Vec<Pattern> = Vec::new();
    let mut i: usize = 0;
    while i < v.len()
        invariant
            i <= v.len(),
            out.len() == i,
            parent@ == PatternModel::Conj(pattern_models(v@)) || parent@ == PatternModel::Disj(pattern_models(v@)),
            pattern_models(v@).len() == v.len(),
            forall|k: int| 0 <= k < v.len() ==> #[trigger] pattern_models(v@)[k] == pattern_model(v@[k]),
            forall|k: int| 0 <= k < i ==> #[trigger] pattern_model(out@[k]) == pattern_model(v@[k]),
        decreases v.len() - i,
    {
        proof { lemma_child_decreases(parent@, v@, i as int); }
        let c = v[i].copy();
        out.push(c);
        i = i + 1;
    }
    proof {
        lemma_pattern_models(out@);
        assert(pattern_models(out@) =~= pattern_models(v@));
    }
    out
}

pub proof fn lemma_child_decreases(parent: PatternModel, v: Seq<Pattern>, i: int)
    requires
        parent == PatternModel::Conj(pattern_models(v)) || parent == PatternModel::Disj(pattern_models(v)),
        0 <= i < v.len(),
    ensures
        decreases_to!(parent => pattern_model(v[i])),
{
    lemma_pattern_models(v);
    if parent is Conj {
        assert(decreases_to!(parent => parent->Conj_0));
        assert(decreases_to!(parent->Conj_0 => parent->Conj_0[i]));
    } else {
        assert(decreases_to!(parent => parent->Disj_0));
        assert(decreases_to!(parent->Disj_0 => parent->Disj_0[i]));
    }
}

/// Each pattern printed and terminated by `;`, joined by `sep`.
fn items_to_text(v: &Vec<Pattern>, sep: &str, parent: Ghost<PatternModel>) -> (r: String)
    requires
        parent@ == PatternModel::Conj(pattern_models(v@)) || parent@ == PatternModel::Disj(pattern_models(v@)),
    ensures
        r@ == join(item_texts(pattern_models(v@)), sep@),
    decreases parent@, 0nat,
{
    proof { lemma_pattern_models(v@); }
    let ghost ms = pattern_models(v@);
    let mut s = String::new();
    let mut i: usize = 0;
    while i < v.len()
        invariant
            i <= v.len(),
            ms == pattern_models(v@),
            parent@ == PatternModel::Conj(ms) || parent@ == PatternModel::Disj(ms),
            ms.len() == v.len(),
            forall|k: int| 0 <= k < v.len() ==> #[trigger] ms[k] == pattern_model(v@[k]),
            s@ == join(item_texts(ms.take(i as int)), sep@),
        decreases v.len() - i,
    {
        proof {
            lemma_child_decreases(parent@, v@, i as int);
            assert(ms.take(i + 1).drop_last() =~= ms.take(i as int));
            lemma_join_push(item_texts(ms.take(i as int)), pattern_text(ms[i as int]) + ";"@, sep@);
        }
        if i > 0 {
            s.append(sep);
        }
        let t = v[i].to_text();
        s.append(t.as_str());
        s.append(";");
        proof {
            assert(s@ =~= join(item_texts(ms.take(i + 1)), sep@));
        }
        i = i + 1;
    }
    assert(ms.take(i as int) =~= ms);
    s
}

/// The members of a disjunction, each in braces, joined by ` or `.
fn members_to_text(v: &Vec<Pattern>, parent: Ghost<PatternModel>) -> (r: String)
    requires
        parent@ == PatternModel::Disj(pattern_models(v@)),
    ensures
        r@ == join(member_texts(pattern_models(v@)), or_sep()),
    decreases parent@, 0nat,
{
    proof { lemma_pattern_models(v@); }
    let ghost ms = pattern_models(v@);
    let mut s = String::new();
    let mut i: usize = 0;
    while i < v.len()
        invariant
            i <= v.len(),
            ms == pattern_models(v@),
            parent@ == PatternModel::Disj(ms),
            ms.len() == v.len(),
            forall|k: int| 0 <= k < v.len() ==> #[trigger] ms[k] == pattern_model(v@[k]),
            s@ == join(member_texts(ms.take(i as int)), or_sep()),
        decreases v.len() - i,
    {
        proof {
            lemma_child_decreases(parent@, v@, i as int);
            assert(ms.take(i + 1).drop_last() =~= ms.take(i as int));
            lemma_join_push(member_texts(ms.take(i as int)), braced(ms[i as int], pattern_text(ms[i as int])), or_sep());
        }
        if i > 0 {
            s.append(" ");
            s.append(logic_token(LogicOperator::Or));
            s.append(" ");
        }
        let t = v[i].to_text();
        match &v[i] {
            Pattern::Conjunction(_) => s.append(t.as_str()),
            _ => {
                s.append("{\n");
                push_indented(&mut s, t.as_str());
                s.append(";\n}");
            },
        }
        proof {
            assert(s@ =~= join(member_texts(ms.take(i + 1)), or_sep()));
        }
        i = i + 1;
    }
    assert(ms.take(i as int) =~= ms);
    s
}

/// The named variables of every pattern of `v`, in order.
fn names_of(v: &Vec<Pattern>, parent: Ghost<PatternModel>) -> (r: Vec<String>)
    requires
        parent@ == PatternModel::Conj(pattern_models(v@)) || parent@ == PatternModel::Disj(pattern_models(v@)),
    ensures
        strings_view(r@) == patterns_names(pattern_models(v@)),
    decreases parent@, 0nat,
{
    proof { lemma_pattern_models(v@); }
    let ghost ms = pattern_models(v@);
    let mut out: Vec<String> = Vec::new();
    let mut i: usize = 0;
    while i < v.len()
        invariant
            i <= v.len(),
            ms == pattern_models(v@),
            parent@ == PatternModel::Conj(ms) || parent@ == PatternModel::Disj(ms),
            ms.len() == v.len(),
            forall|k: int| 0 <= k < v.len() ==> #[trigger] ms[k] == pattern_model(v@[k]),
            strings_view(out@) == patterns_names(ms.take(i as int)),
        decreases v.len() - i,
    {
        proof {
            lemma_child_decreases(parent@, v@, i as int);
            assert(ms.take(i + 1).drop_last() =~= ms.take(i as int));
        }
        let n = v[i].names();
        extend_strings(&mut out, &n);
        i = i + 1;
    }
    assert(ms.take(i as int) =~= ms);
    out
}

/// The normal forms that a list of item-list lists stands for.
pub open spec fn forms_model(s: Seq<Vec<Vec<Pattern>>>) -> Seq<Branches> {
    s.map_values(|b: Vec<Vec<Pattern>>| branches_model(b@))
}

/// Copies of `v`, in order.
pub fn copy_list(v: &Vec<Pattern>) -> (r: Vec<Pattern>)
    ensures
        pattern_models(r@) == pattern_models(v@),
{
    let mut out: Vec<Pattern> = Vec::new();
    let mut i: usize = 0;
    while i < v.len()
        invariant
            i <= v.len(),
            out.len() == i,
            forall|k: int| 0 <= k < i ==> #[trigger] pattern_model(out@[k]) == pattern_model(v@[k]),
        decreases v.len() - i,
    {
        let c = v[i].copy();
        out.push(c);
        i = i + 1;
    }
    proof {
        lemma_pattern_models(out@);
        lemma_pattern_models(v@);
        assert(pattern_models(out@) =~= pattern_models(v@));
    }
    out
}

/// Copies of `a` followed by copies of `b`.
fn concat_lists(a: &Vec<Pattern>, b: &Vec<Pattern>) -> (r: Vec<Pattern>)
    ensures
        pattern_models(r@) == pattern_models(a@) + pattern_models(b@),
{
    let mut x = copy_list(a);
    let mut y = copy_list(b);
    let ghost xa = x@;
    let ghost ya = y@;
    x.append(&mut y);
    proof {
        assert(x@ == xa + ya);
        lemma_pattern_models_append(xa, ya);
    }
    x
}

proof fn lemma_cross_step(a: Branches, d: Branches, i: int)
    requires
        0 <= i < a.len(),
    ensures
        cross(a.take(i + 1), d) == cross(a.take(i), d) + d.map_values(|c: Seq<PatternModel>| a[i] + c),
{
    assert(a.take(i + 1).drop_last() =~= a.take(i));
}

/// Every branch of `acc` extended by every branch of `d`.
fn cross_exec(acc: &Vec<Vec<Pattern>>, d: &Vec<Vec<Pattern>>) -> (r: Vec<Vec<Pattern>>)
    ensures
        branches_model(r@) == cross(branches_model(acc@), branches_model(d@)),
{
    let ghost a = branches_model(acc@);
    let ghost dm = branches_model(d@);
    let mut out: Vec<Vec<Pattern>> = Vec::new();
    let mut i: usize = 0;
    while i < acc.len()
        invariant
            i <= acc.len(),
            a == branches_model(acc@),
            dm == branches_model(d@),
            branches_model(out@) == cross(a.take(i as int), dm),
        decreases acc.len() - i,
    {
        let ghost start = branches_model(out@);
        let mut j: usize = 0;
        while j < d.len()
            invariant
                i < acc.len(),
                j <= d.len(),
                a == branches_model(acc@),
                dm == branches_model(d@),
                branches_model(out@) == start + dm.take(j as int).map_values(|c: Seq<PatternModel>| a[i as int] + c),
            decreases d.len() - j,
        {
            let row = concat_lists(&acc[i], &d[j]);
            let ghost before = out@;
            out.push(row);
            proof {
                assert(branches_model(out@) =~= branches_model(before).push(a[i as int] + dm[j as int]));
                assert(dm.take(j + 1).map_values(|c: Seq<PatternModel>| a[i as int] + c)
                    =~= dm.take(j as int).map_values(|c: Seq<PatternModel>| a[i as int] + c).push(a[i as int] + dm[j as int]));
            }
            j = j + 1;
        }
        proof {
            assert(dm.take(j as int) =~= dm);
            lemma_cross_step(a, dm, i as int);
        }
        i = i + 1;
    }
    assert(a.take(i as int) =~= a);
    out
}

/// The distribution of a conjunction over its children's normal forms.
fn product_exec(ds: &Vec<Vec<Vec<Pattern>>>) -> (r: Vec<Vec<Pattern>>)
    ensures
        branches_model(r@) == product(forms_model(ds@)),
{
    let ghost f = forms_model(ds@);
    let mut acc: Vec<Vec<Pattern>> = Vec::new();
    acc.push(Vec::new());
    assert(branches_model(acc@) =~= product(f.take(0)));
    let mut k: usize = 0;
    while k < ds.len()
        invariant
            k <= ds.len(),
            f == forms_model(ds@),
            branches_model(acc@) == product(f.take(k as int)),
        decreases ds.len() - k,
    {
        acc = cross_exec(&acc, &ds[k]);
        assert(f.take(k + 1).drop_last() =~= f.take(k as int));
        k = k + 1;
    }
    assert(f.take(k as int) =~= f);
    acc
}

/// The branches of every normal form, one after the other.
fn flatten_exec(ds: &Vec<Vec<Vec<Pattern>>>) -> (r: Vec<Vec<Pattern>>)
    ensures
        branches_model(r@) == flatten(forms_model(ds@)),
{
    let ghost f = forms_model(ds@);
    let mut out: Vec<Vec<Pattern>> = Vec::new();
    let mut k: usize = 0;
    while k < ds.len()
        invariant
            k <= ds.len(),
            f == forms_model(ds@),
            branches_model(out@) == flatten(f.take(k as int)),
        decreases ds.len() - k,
    {
        let ghost start = branches_model(out@);
        let ghost dk = f[k as int];
        let mut j: usize = 0;
        while j < ds[k].len()
            invariant
                k < ds.len(),
                j <= ds[k as int].len(),
                f == forms_model(ds@),
                dk == f[k as int],
                dk == branches_model(ds@[k as int]@),
                branches_model(out@) == start + dk.take(j as int),
            decreases ds[k as int].len() - j,
        {
            let row = copy_list(&ds[k][j]);
            let ghost before = out@;
            out.push(row);
            proof {
                assert(branches_model(out@) =~= branches_model(before).push(dk[j as int]));
                assert(dk.take(j + 1) =~= dk.take(j as int).push(dk[j as int]));
            }
            j = j + 1;
        }
        proof {
            assert(dk.take(j as int) =~= dk);
            assert(f.take(k + 1).drop_last() =~= f.take(k as int));
        }
        k = k + 1;
    }
    assert(f.take(k as int) =~= f);
    out
}

/// The conjunctions of the given item lists, in order.
fn conjunctions_of(d: &Vec<Vec<Pattern>>) -> (r: Vec<Pattern>)
    ensures
        pattern_models(r@) == branches_model(d@).map_values(|c: Seq<PatternModel>| PatternModel::Conj(c)),
{
    let ghost dm = branches_model(d@);
    let mut out: Vec<Pattern> = Vec::new();
    let mut i: usize = 0;
    while i < d.len()
        invariant
            i <= d.len(),
            dm == branches_model(d@),
            out.len() == i,
            forall|k: int| 0 <= k < i ==> #[trigger] pattern_model(out@[k]) == PatternModel::Conj(dm[k]),
        decreases d.len() - i,
    {
        let c = Pattern::Conjunction(Conjunction { patterns: copy_list(&d[i]) });
        out.push(c);
        i = i + 1;
    }
    proof {
        lemma_pattern_models(out@);
        assert(pattern_models(out@) =~= dm.map_values(|c: Seq<PatternModel>| PatternModel::Conj(c)));
    }
    out
}

/// The negation of a normalised body.
fn negate_exec(d: &Vec<Vec<Pattern>>) -> (r: Pattern)
    ensures
        r@ == negate(branches_model(d@)),
{
    if d.len() == 1 {
        let c = Pattern::Conjunction(Conjunction { patterns: copy_list(&d[0]) });
        assert(branches_model(d@)[0] == pattern_models(d@[0]@));
        assert(pattern_model(c) == PatternModel::Conj(branches_model(d@)[0]));
        let r = Pattern::Negation(Negation { pattern: Box::new(c) });
        assert(pattern_model(r) == PatternModel::Neg(Box::new(pattern_model(c))));
        r
    } else {
        let members = conjunctions_of(d);
        let inner = Pattern::Disjunction(Disjunction { patterns: members, normalised: None });
        let ghost im = pattern_model(inner);
        let v = vec![inner];
        proof {
            lemma_pattern_models(v@);
            assert(pattern_models(v@) =~= seq![disjunction_of(branches_model(d@))]);
        }
        let c = Pattern::Conjunction(Conjunction { patterns: v });
        assert(pattern_model(inner) == disjunction_of(branches_model(d@)));
        assert(pattern_model(c) == PatternModel::Conj(seq![disjunction_of(branches_model(d@))]));
        let r = Pattern::Negation(Negation { pattern: Box::new(c) });
        assert(pattern_model(r) == PatternModel::Neg(Box::new(pattern_model(c))));
        r
    }
}

/// The item lists of the normal form of `p`.
fn normal_of(p: &Pattern) -> (r: Vec<Vec<Pattern>>)
    ensures
        branches_model(r@) == normal(p@),
    decreases p@,
{
    match p {
        Pattern::Statement(s) => {
            let v = vec![Pattern::Statement(s.copy())];
            let r = vec![v];
            proof {
                lemma_pattern_models(r@[0]@);
                assert(pattern_models(r@[0]@) =~= seq![p@]);
                assert(branches_model(r@) =~= normal(p@));
            }
            r
        },
        Pattern::Negation(n) => {
            assert(decreases_to!(p@ => p@->Neg_0));
            let d = normal_of(&n.pattern);
            let v = vec![negate_exec(&d)];
            let r = vec![v];
            proof {
                lemma_pattern_models(r@[0]@);
                assert(pattern_models(r@[0]@) =~= seq![negate(normal(*p@->Neg_0))]);
                assert(branches_model(r@) =~= normal(p@));
            }
            r
        },
        Pattern::Conjunction(c) => {
            proof { lemma_pattern_models(c.patterns@); }
            assert(p@ == PatternModel::Conj(pattern_models(c.patterns@)));
            let ds = normals_of(&c.patterns, Ghost(p@));
            product_exec(&ds)
        },
        Pattern::Disjunction(d) => {
            proof { lemma_pattern_models(d.patterns@); }
            assert(p@ == PatternModel::Disj(pattern_models(d.patterns@)));
            let ds = normals_of(&d.patterns, Ghost(p@));
            flatten_exec(&ds)
        },
    }
}

/// The normal form of each pattern of `v`; `parent` is the node that holds them.
fn normals_of(v: &Vec<Pattern>, parent: Ghost<PatternModel>) -> (r: Vec<Vec<Vec<Pattern>>>)
    requires
        parent@ == PatternModel::Conj(pattern_models(v@)) || parent@ == PatternModel::Disj(pattern_models(v@)),
    ensures
        forms_model(r@) == normals(pattern_models(v@)),
    decreases parent@, 0nat,
{
    proof {
        lemma_pattern_models(v@);
        lemma_normals(pattern_models(v@));
    }
    let mut out: Vec<Vec<Vec<Pattern>>> = Vec::new();
    let mut i: usize = 0;
    while i < v.len()
        invariant
            i <= v.len(),
            out.len() == i,
            parent@ == PatternModel::Conj(pattern_models(v@)) || parent@ == PatternModel::Disj(pattern_models(v@)),
            pattern_models(v@).len() == v.len(),
            forall|k: int| 0 <= k < v.len() ==> #[trigger] pattern_models(v@)[k] == pattern_model(v@[k]),
            forall|k: int| 0 <= k < i ==> #[trigger] branches_model(out@[k]@) == normal(pattern_model(v@[k])),
        decreases v.len() - i,
    {
        proof { lemma_child_decreases(parent@, v@, i as int); }
        let n = normal_of(&v[i]);
        out.push(n);
        i = i + 1;
    }
    assert(forms_model(out@) =~= normals(pattern_models(v@)));
    out
}

/// The disjunction of conjunctions that the given item lists stand for.
fn disjunction_from(d: &Vec<Vec<Pattern>>) -> (r: Disjunction)
    ensures
        r@ == disjunction_of(branches_model(d@)),
        r.normalised is None,
{
    Disjunction { patterns: conjunctions_of(d), normalised: None }
}

/// The normal form of a pattern: a disjunction of conjunctions of statements and negations.
pub fn normalise(p: &Pattern) -> (r: Pattern)
    ensures
        r@ == normalised(p@),
{
    let d = normal_of(p);
    Pattern::Disjunction(disjunction_from(&d))
}

impl Conjunction {
    /// A conjunction of `patterns`.
    pub fn new(patterns: Vec<Pattern>) -> (r: Conjunction)
        ensures
            r@ == PatternModel::Conj(pattern_models(patterns@)),
    {
        Conjunction { patterns }
    }

    /// The named variables at any depth, as printed.
    pub fn names(&self) -> (r: Vec<String>)
        ensures
            strings_view(r@) == pattern_names(self@),
    {
        names_of(&self.patterns, Ghost(self@))
    }

    /// Each pattern printed and terminated by `;`, joined by `sep`.
    pub fn items_text(&self, sep: &str) -> (r: String)
        ensures
            r@ == join(item_texts(pattern_models(self.patterns@)), sep@),
    {
        items_to_text(&self.patterns, sep, Ghost(self@))
    }

    /// The printed form, in braces.
    pub fn to_text(&self) -> (r: String)
        ensures
            r@ == pattern_text(self@),
    {
        let mut s = String::from_str("{ ");
        let inner = self.items_text(" ");
        s.append(inner.as_str());
        s.append(" }");
        s
    }
}

impl Disjunction {
    /// A disjunction of `patterns`, not yet normalised.
    pub fn new(patterns: Vec<Pattern>) -> (r: Disjunction)
        ensures
            r@ == PatternModel::Disj(pattern_models(patterns@)),
            r.normalised is None,
            r.wf(),
    {
        Disjunction { patterns, normalised: None }
    }

    /// The kept normal form, where there is one, is that of the patterns.
    pub open spec fn wf(&self) -> bool {
        self.normalised is Some ==> self.normalised->0@ == normalised(self@)
    }

    /// The normal form, computed afresh.
    pub fn compute_normalised(&self) -> (r: Pattern)
        ensures
            r@ == normalised(self@),
    {
        proof { lemma_pattern_models(self.patterns@); }
        let ds = normals_of(&self.patterns, Ghost(self@));
        let d = flatten_exec(&ds);
        Pattern::Disjunction(disjunction_from(&d))
    }

    /// The normal form; the first call computes and keeps it, later calls copy the kept one.
    pub fn normalise(&mut self) -> (r: Pattern)
        requires
            old(self).wf(),
        ensures
            r@ == normalised(old(self)@),
            final(self)@ == old(self)@,
            final(self).wf(),
            final(self).normalised is Some,
    {
        if self.normalised.is_none() {
            proof { lemma_pattern_models(self.patterns@); }
            let ds = normals_of(&self.patterns, Ghost(self@));
            let d = flatten_exec(&ds);
            self.normalised = Some(Box::new(disjunction_from(&d)));
        }
        let n = self.normalised.as_ref().unwrap();
        Pattern::Disjunction(Disjunction { patterns: copy_list(&n.patterns), normalised: None })
    }

    /// The printed form: the members in braces, joined by ` or `.
    pub fn to_text(&self) -> (r: String)
        ensures
            r@ == pattern_text(self@),
    {
        members_to_text(&self.patterns, Ghost(self@))
    }

    /// The named variables of every member at any depth, as printed.
    pub fn variables_recursive(&self) -> (r: Vec<String>)
        ensures
            strings_view(r@) == pattern_names(self@),
    {
        proof { lemma_pattern_models(self.patterns@); }
        names_of(&self.patterns, Ghost(self@))
    }

    /// Each member that shares no named variable with `bounds` is reported out of scope, by
    /// its first named variable.
    pub fn validate_is_bounded_by(&self, bounds: &Vec<String>) -> (r: Result<(), Vec<TypeQLError>>)
        ensures
            match r {
                Ok(()) => unbounded(pattern_models(self.patterns@), strings_view(bounds@)).len() == 0,
                Err(es) => es@.len() > 0 && out_of_scope_errors(es@, unbounded(pattern_models(self.patterns@), strings_view(bounds@))),
            },
    {
        proof { lemma_pattern_models(self.patterns@); }
        let ghost ms = pattern_models(self.patterns@);
        let ghost b = strings_view(bounds@);
        let mut errors: Vec<TypeQLError> = Vec::new();
        let mut i: usize = 0;
        while i < self.patterns.len()
            invariant
                i <= self.patterns.len(),
                ms == pattern_models(self.patterns@),
                b == strings_view(bounds@),
                ms.len() == self.patterns.len(),
                forall|k: int| 0 <= k < self.patterns.len() ==> #[trigger] ms[k] == pattern_model(self.patterns@[k]),
                out_of_scope_errors(errors@, unbounded(ms.take(i as int), b)),
            decreases self.patterns.len() - i,
        {
            let names = self.patterns[i].names();
            let ghost n = strings_view(names@);
            let mut any = false;
            let mut k: usize = 0;
            while k < names.len()
                invariant
                    k <= names.len(),
                    n == strings_view(names@),
                    b == strings_view(bounds@),
                    any == exists|m: int| 0 <= m < k && b.contains(#[trigger] n[m]),
                decreases names.len() - k,
            {
                let c = contains_string(bounds, &names[k]);
                proof {
                    assert(n[k as int] == names@[k as int]@);
                }
                any = any || c;
                k = k + 1;
            }
            proof {
                assert(ms.take(i + 1).drop_last() =~= ms.take(i as int));
                assert(ms.take(i + 1).last() == ms[i as int]);
            }
            let ghost before = errors@;
            if names.len() > 0 && !any {
                let first = names[0].clone();
                errors.push(TypeQLError::VariableOutOfScopeMatch { reference: first });
                proof {
                    assert(n[0] == names@[0]@);
                }
            }
            proof {
                let u = unbounded(ms.take(i + 1), b);
                assert(u == unbounded(ms.take(i as int), b) + if n.len() > 0 && forall|m: int| 0 <= m < n.len() ==> !b.contains(#[trigger] n[m]) {
                    seq![n[0]]
                } else {
                    Seq::empty()
                });
                assert forall|j: int| 0 <= j < errors@.len() implies (#[trigger] errors@[j] is VariableOutOfScopeMatch
                    && errors@[j]->VariableOutOfScopeMatch_reference@ == u[j]) by {
                    if j < before.len() {
                        assert(errors@[j] == before[j]);
                    }
                }
            }
            i = i + 1;
        }
        assert(ms.take(i as int) =~= ms);
        if errors.len() == 0 {
            Ok(())
        } else {
            Err(errors)
        }
    }
}

} // verus!
