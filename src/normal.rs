//! The mathematical pattern tree, its disjunctive normal form, and the laws that form obeys.
use vstd::prelude::*;
use crate::statement::StatementModel;

verus! {

/// The mathematical form of a pattern.
pub enum PatternModel {
    Conj(Seq<PatternModel>),
    Disj(Seq<PatternModel>),
    Neg(Box<PatternModel>),
    Stmt(StatementModel),
}

/// A normal form: the item lists of the conjunctions of one disjunction.
pub type Branches = Seq<Seq<PatternModel>>;

/// The negation of a normalised body: the negated conjunction when the body has one branch,
/// otherwise the negation of one conjunction that holds the body's disjunction.
pub open spec fn negate(d: Branches) -> PatternModel {
    if d.len() == 1 {
        PatternModel::Neg(Box::new(PatternModel::Conj(d[0])))
    } else {
        PatternModel::Neg(Box::new(PatternModel::Conj(seq![disjunction_of(d)])))
    }
}

/// The disjunction of conjunctions that a normal form stands for.
pub open spec fn disjunction_of(d: Branches) -> PatternModel {
    PatternModel::Disj(d.map_values(|c: Seq<PatternModel>| PatternModel::Conj(c)))
}

/// Every branch of `acc` extended by every branch of `d`, in that order.
pub open spec fn cross(acc: Branches, d: Branches) -> Branches
    decreases acc.len(),
{
    if acc.len() == 0 {
        Seq::empty()
    } else {
        cross(acc.drop_last(), d) + d.map_values(|c: Seq<PatternModel>| acc.last() + c)
    }
}

/// The distribution of a conjunction over its children's normal forms.
pub open spec fn product(ds: Seq<Branches>) -> Branches
    decreases ds.len(),
{
    if ds.len() == 0 {
        seq![Seq::empty()]
    } else {
        cross(product(ds.drop_last()), ds.last())
    }
}

/// The branches of every normal form, one after the other.
pub open spec fn flatten(ds: Seq<Branches>) -> Branches
    decreases ds.len(),
{
    if ds.len() == 0 {
        Seq::empty()
    } else {
        flatten(ds.drop_last()) + ds.last()
    }
}

/// The normal form of a pattern.
pub open spec fn normal(p: PatternModel) -> Branches
    decreases p,
{
    match p {
        PatternModel::Stmt(s) => seq![seq![PatternModel::Stmt(s)]],
        PatternModel::Neg(b) => seq![seq![negate(normal(*b))]],
        PatternModel::Conj(cs) => product(normals(cs)),
        PatternModel::Disj(cs) => flatten(normals(cs)),
    }
}

/// The normal form of each pattern.
pub open spec fn normals(cs: Seq<PatternModel>) -> Seq<Branches>
    decreases cs,
{
    if cs.len() == 0 {
        Seq::empty()
    } else {
        normals(cs.drop_last()).push(normal(cs.last()))
    }
}

/// `normalise(p)`: the disjunction of conjunctions that `p` rewrites to.
pub open spec fn normalised(p: PatternModel) -> PatternModel {
    disjunction_of(normal(p))
}

/// An item of a canonical conjunction: a statement, or a negation of a normalised body.
pub open spec fn canonical_item(p: PatternModel) -> bool
    decreases p,
{
    match p {
        PatternModel::Stmt(_) => true,
        PatternModel::Neg(b) => canonical_body(*b),
        _ => false,
    }
}

/// The body of a normalised negation: a canonical conjunction, or one conjunction holding
/// a disjunction of canonical conjunctions whose count is not one.
pub open spec fn canonical_body(b: PatternModel) -> bool
    decreases b,
{
    match b {
        PatternModel::Conj(c) => canonical_items(c) || (c.len() == 1 && match c[0] {
            PatternModel::Disj(ds) => ds.len() != 1 && canonical_conjunctions(ds),
            _ => false,
        }),
        _ => false,
    }
}

/// Every item is canonical.
pub open spec fn canonical_items(c: Seq<PatternModel>) -> bool
    decreases c,
{
    c.len() == 0 || (canonical_items(c.drop_last()) && canonical_item(c.last()))
}

/// Every pattern is a conjunction of canonical items.
pub open spec fn canonical_conjunctions(ds: Seq<PatternModel>) -> bool
    decreases ds,
{
    ds.len() == 0 || (canonical_conjunctions(ds.drop_last()) && ds.last() is Conj && canonical_items(ds.last()->Conj_0))
}

pub proof fn lemma_canonical_items(c: Seq<PatternModel>)
    ensures
        canonical_items(c) == forall|i: int| 0 <= i < c.len() ==> #[trigger] canonical_item(c[i]),
    decreases c.len(),
{
    if c.len() > 0 {
        lemma_canonical_items(c.drop_last());
        if forall|i: int| 0 <= i < c.len() ==> #[trigger] canonical_item(c[i]) {
            assert forall|i: int| 0 <= i < c.drop_last().len() implies #[trigger] canonical_item(c.drop_last()[i]) by {
                assert(c.drop_last()[i] == c[i]);
            }
            assert(canonical_item(c[c.len() - 1]));
        }
        if canonical_items(c) {
            assert forall|i: int| 0 <= i < c.len() implies #[trigger] canonical_item(c[i]) by {
                if i < c.len() - 1 {
                    assert(c.drop_last()[i] == c[i]);
                }
            }
        }
    }
}

pub proof fn lemma_canonical_conjunctions(ds: Seq<PatternModel>)
    ensures
        canonical_conjunctions(ds) == forall|j: int| 0 <= j < ds.len() ==> (#[trigger] ds[j] is Conj && canonical_items(ds[j]->Conj_0)),
    decreases ds.len(),
{
    if ds.len() > 0 {
        lemma_canonical_conjunctions(ds.drop_last());
        if forall|j: int| 0 <= j < ds.len() ==> (#[trigger] ds[j] is Conj && canonical_items(ds[j]->Conj_0)) {
            assert forall|j: int| 0 <= j < ds.drop_last().len() implies (#[trigger] ds.drop_last()[j] is Conj && canonical_items(ds.drop_last()[j]->Conj_0)) by {
                assert(ds.drop_last()[j] == ds[j]);
            }
            assert(ds[ds.len() - 1] is Conj);
        }
        if canonical_conjunctions(ds) {
            assert forall|j: int| 0 <= j < ds.len() implies (#[trigger] ds[j] is Conj && canonical_items(ds[j]->Conj_0)) by {
                if j < ds.len() - 1 {
                    assert(ds.drop_last()[j] == ds[j]);
                }
            }
        }
    }
}

/// A pattern without a disjunction at any depth.
pub open spec fn disjunction_free(p: PatternModel) -> bool
    decreases p,
{
    match p {
        PatternModel::Stmt(_) => true,
        PatternModel::Neg(b) => disjunction_free(*b),
        PatternModel::Conj(cs) => all_disjunction_free(cs),
        PatternModel::Disj(_) => false,
    }
}

pub open spec fn all_disjunction_free(cs: Seq<PatternModel>) -> bool
    decreases cs,
{
    cs.len() == 0 || (all_disjunction_free(cs.drop_last()) && disjunction_free(cs.last()))
}

/// Every negation within `p`, at any depth, has a body whose normal form has one branch.
pub open spec fn negations_single(p: PatternModel) -> bool
    decreases p,
{
    match p {
        PatternModel::Stmt(_) => true,
        PatternModel::Neg(b) => normal(*b).len() == 1 && negations_single(*b),
        PatternModel::Conj(cs) => all_negations_single(cs),
        PatternModel::Disj(cs) => all_negations_single(cs),
    }
}

pub open spec fn all_negations_single(cs: Seq<PatternModel>) -> bool
    decreases cs,
{
    cs.len() == 0 || (all_negations_single(cs.drop_last()) && negations_single(cs.last()))
}

proof fn lemma_all_disjunction_free(c: Seq<PatternModel>)
    ensures
        all_disjunction_free(c) == forall|i: int| 0 <= i < c.len() ==> #[trigger] disjunction_free(c[i]),
    decreases c.len(),
{
    if c.len() > 0 {
        lemma_all_disjunction_free(c.drop_last());
        if forall|i: int| 0 <= i < c.len() ==> #[trigger] disjunction_free(c[i]) {
            assert forall|i: int| 0 <= i < c.drop_last().len() implies #[trigger] disjunction_free(c.drop_last()[i]) by {
                assert(c.drop_last()[i] == c[i]);
            }
            assert(disjunction_free(c[c.len() - 1]));
        }
        if all_disjunction_free(c) {
            assert forall|i: int| 0 <= i < c.len() implies #[trigger] disjunction_free(c[i]) by {
                if i < c.len() - 1 {
                    assert(c.drop_last()[i] == c[i]);
                }
            }
        }
    }
}

proof fn lemma_all_negations_single(c: Seq<PatternModel>)
    ensures
        all_negations_single(c) ==> forall|i: int| 0 <= i < c.len() ==> #[trigger] negations_single(c[i]),
    decreases c.len(),
{
    if c.len() > 0 {
        lemma_all_negations_single(c.drop_last());
        if all_negations_single(c) {
            assert forall|i: int| 0 <= i < c.len() implies #[trigger] negations_single(c[i]) by {
                if i < c.len() - 1 {
                    assert(c.drop_last()[i] == c[i]);
                }
            }
        }
    }
}

/// Every item of every branch meets `f`.
pub open spec fn items_all(d: Branches, f: spec_fn(PatternModel) -> bool) -> bool {
    forall|i: int, j: int| 0 <= i < d.len() && 0 <= j < d[i].len() ==> #[trigger] f(d[i][j])
}

pub proof fn lemma_normals(cs: Seq<PatternModel>)
    ensures
        normals(cs).len() == cs.len(),
        forall|i: int| 0 <= i < cs.len() ==> #[trigger] normals(cs)[i] == normal(cs[i]),
    decreases cs.len(),
{
    if cs.len() > 0 {
        lemma_normals(cs.drop_last());
    }
}

proof fn lemma_cross_all(acc: Branches, d: Branches, f: spec_fn(PatternModel) -> bool)
    requires
        items_all(acc, f),
        items_all(d, f),
    ensures
        items_all(cross(acc, d), f),
    decreases acc.len(),
{
    if acc.len() > 0 {
        let a = acc.drop_last();
        assert(items_all(a, f)) by {
            assert forall|i: int, j: int| 0 <= i < a.len() && 0 <= j < a[i].len() implies #[trigger] f(a[i][j]) by {
                assert(a[i] == acc[i]);
            }
        }
        lemma_cross_all(a, d, f);
        let m = d.map_values(|c: Seq<PatternModel>| acc.last() + c);
        assert forall|i: int, j: int| 0 <= i < m.len() && 0 <= j < m[i].len() implies #[trigger] f(m[i][j]) by {
            assert(m[i] == acc.last() + d[i]);
            if j < acc.last().len() {
                assert(f(acc[acc.len() - 1][j]));
            } else {
                assert(f(d[i][j - acc.last().len()]));
            }
        }
        let r = cross(a, d) + m;
        assert forall|i: int, j: int| 0 <= i < r.len() && 0 <= j < r[i].len() implies #[trigger] f(r[i][j]) by {
            if i < cross(a, d).len() {
                assert(r[i] == cross(a, d)[i]);
            } else {
                assert(r[i] == m[i - cross(a, d).len()]);
            }
        }
    }
}

proof fn lemma_product_all(ds: Seq<Branches>, f: spec_fn(PatternModel) -> bool)
    requires
        forall|k: int| 0 <= k < ds.len() ==> items_all(#[trigger] ds[k], f),
    ensures
        items_all(product(ds), f),
    decreases ds.len(),
{
    if ds.len() > 0 {
        lemma_product_all(ds.drop_last(), f);
        assert(items_all(ds[ds.len() - 1], f));
        lemma_cross_all(product(ds.drop_last()), ds.last(), f);
    }
}

proof fn lemma_flatten_all(ds: Seq<Branches>, f: spec_fn(PatternModel) -> bool)
    requires
        forall|k: int| 0 <= k < ds.len() ==> items_all(#[trigger] ds[k], f),
    ensures
        items_all(flatten(ds), f),
    decreases ds.len(),
{
    if ds.len() > 0 {
        lemma_flatten_all(ds.drop_last(), f);
        assert(items_all(ds[ds.len() - 1], f));
        let a = flatten(ds.drop_last());
        let r = a + ds.last();
        assert forall|i: int, j: int| 0 <= i < r.len() && 0 <= j < r[i].len() implies #[trigger] f(r[i][j]) by {
            if i < a.len() {
                assert(r[i] == a[i]);
            } else {
                assert(r[i] == ds.last()[i - a.len()]);
            }
        }
    }
}

proof fn lemma_negate_canonical(d: Branches)
    requires
        items_all(d, |x: PatternModel| canonical_item(x)),
    ensures
        canonical_item(negate(d)),
{
    let f = |x: PatternModel| canonical_item(x);
    if d.len() == 1 {
        let c = d[0];
        assert forall|i: int| 0 <= i < c.len() implies #[trigger] canonical_item(c[i]) by {
            assert(f(d[0][i]));
        }
        lemma_canonical_items(c);
        assert(canonical_body(PatternModel::Conj(c)));
    } else {
        let ds = d.map_values(|c: Seq<PatternModel>| PatternModel::Conj(c));
        assert forall|j: int| 0 <= j < ds.len() implies (#[trigger] ds[j] is Conj && canonical_items(ds[j]->Conj_0)) by {
            assert(ds[j] == PatternModel::Conj(d[j]));
            assert forall|k: int| 0 <= k < d[j].len() implies #[trigger] canonical_item(d[j][k]) by {
                assert(f(d[j][k]));
            }
            lemma_canonical_items(d[j]);
        }
        lemma_canonical_conjunctions(ds);
        let c = seq![disjunction_of(d)];
        assert(c[0] == PatternModel::Disj(ds));
        assert(canonical_body(PatternModel::Conj(c)));
    }
}

/// The normal form of any pattern is made of canonical items only.
pub proof fn lemma_normal_canonical(p: PatternModel)
    ensures
        items_all(normal(p), |x: PatternModel| canonical_item(x)),
    decreases p,
{
    let f = |x: PatternModel| canonical_item(x);
    match p {
        PatternModel::Stmt(s) => {
            assert(normal(p)[0][0] == p);
        },
        PatternModel::Neg(b) => {
            lemma_normal_canonical(*b);
            let n = negate(normal(*b));
            lemma_negate_canonical(normal(*b));
            assert(normal(p)[0][0] == n);
        },
        PatternModel::Conj(cs) => {
            lemma_normals(cs);
            assert forall|k: int| 0 <= k < normals(cs).len() implies items_all(#[trigger] normals(cs)[k], f) by {
                lemma_normal_canonical(cs[k]);
            }
            lemma_product_all(normals(cs), f);
        },
        PatternModel::Disj(cs) => {
            lemma_normals(cs);
            assert forall|k: int| 0 <= k < normals(cs).len() implies items_all(#[trigger] normals(cs)[k], f) by {
                lemma_normal_canonical(cs[k]);
            }
            lemma_flatten_all(normals(cs), f);
        },
    }
}

proof fn lemma_cross_single(a: Seq<PatternModel>, d: Branches)
    ensures
        cross(seq![a], d) == d.map_values(|c: Seq<PatternModel>| a + c),
{
    assert(seq![a].drop_last() =~= Seq::<Seq<PatternModel>>::empty());
    assert(cross(Seq::<Seq<PatternModel>>::empty(), d) == Seq::<Seq<PatternModel>>::empty());
    assert(cross(seq![a], d) =~= d.map_values(|c: Seq<PatternModel>| a + c));
}

/// A conjunction of canonical items normalises to itself.
proof fn lemma_items_fixed(c: Seq<PatternModel>)
    requires
        canonical_items(c),
    ensures
        product(normals(c)) == seq![c],
    decreases c,
{
    if c.len() == 0 {
        assert(normals(c) =~= Seq::<Branches>::empty());
        assert(c =~= Seq::<PatternModel>::empty());
    } else {
        let a = c.drop_last();
        lemma_items_fixed(a);
        lemma_item_fixed(c.last());
        assert(normals(c).drop_last() =~= normals(a));
        lemma_cross_single(a, seq![seq![c.last()]]);
        assert(a + seq![c.last()] =~= c);
        assert(product(normals(c)) =~= seq![c]);
    }
}

/// A canonical item normalises to the one conjunction of itself.
proof fn lemma_item_fixed(p: PatternModel)
    requires
        canonical_item(p),
    ensures
        normal(p) == seq![seq![p]],
    decreases p,
{
    match p {
        PatternModel::Neg(b) => {
            lemma_body_fixed(*b);
        },
        _ => {},
    }
}

/// The body of a canonical negation is left as it is by normalisation and negation.
proof fn lemma_body_fixed(b: PatternModel)
    requires
        canonical_body(b),
    ensures
        negate(normal(b)) == PatternModel::Neg(Box::new(b)),
    decreases b,
{
    match b {
        PatternModel::Conj(c) => {
            if canonical_items(c) {
                lemma_items_fixed(c);
            } else {
                let ds = c[0]->Disj_0;
                lemma_conjunctions_fixed(ds);
                let d = ds.map_values(|x: PatternModel| x->Conj_0);
                lemma_normals(c);
                assert(normals(c).drop_last() =~= Seq::<Branches>::empty());
                assert(normals(c).last() == normal(c[0]));
                lemma_cross_single(Seq::empty(), d);
                assert(c.len() == 1);
                assert(c[0] == PatternModel::Disj(ds));
                assert(normal(c[0]) == flatten(normals(ds)));
                assert(normals(c).drop_last() =~= Seq::<Branches>::empty());
                assert(product(Seq::<Branches>::empty()) == seq![Seq::<PatternModel>::empty()]);
                assert(product(normals(c)) == cross(seq![Seq::<PatternModel>::empty()], d));
                let m = d.map_values(|x: Seq<PatternModel>| Seq::<PatternModel>::empty() + x);
                assert forall|i: int| 0 <= i < m.len() implies m[i] == d[i] by {
                    assert(m[i] =~= d[i]);
                }
                assert(m =~= d);
                assert(normal(b) =~= d);
                lemma_canonical_conjunctions(ds);
                assert(d.map_values(|cc: Seq<PatternModel>| PatternModel::Conj(cc)) =~= ds);
                assert(seq![disjunction_of(d)] =~= c);
            }
        },
        _ => {},
    }
}

/// Canonical conjunctions normalise, one after the other, to their own item lists.
proof fn lemma_conjunctions_fixed(ds: Seq<PatternModel>)
    requires
        canonical_conjunctions(ds),
    ensures
        flatten(normals(ds)) == ds.map_values(|x: PatternModel| x->Conj_0),
    decreases ds,
{
    if ds.len() > 0 {
        let a = ds.drop_last();
        lemma_conjunctions_fixed(a);
        lemma_items_fixed(ds.last()->Conj_0);
        assert(normals(ds).drop_last() =~= normals(a));
        assert(ds.last() == PatternModel::Conj(ds.last()->Conj_0));
        assert(normal(ds.last()) == seq![ds.last()->Conj_0]);
        assert(flatten(normals(ds)) == flatten(normals(a)) + seq![ds.last()->Conj_0]);
        assert(flatten(normals(ds)) =~= ds.map_values(|x: PatternModel| x->Conj_0));
    } else {
        assert(flatten(normals(ds)) =~= ds.map_values(|x: PatternModel| x->Conj_0));
    }
}

/// Normalising twice gives what normalising once gives.
pub proof fn lemma_normalise_idempotent(p: PatternModel)
    ensures
        normalised(normalised(p)) == normalised(p),
{
    let d = normal(p);
    lemma_normal_canonical(p);
    let ds = d.map_values(|c: Seq<PatternModel>| PatternModel::Conj(c));
    assert forall|j: int| 0 <= j < ds.len() implies (#[trigger] ds[j] is Conj && canonical_items(ds[j]->Conj_0)) by {
        assert(ds[j] == PatternModel::Conj(d[j]));
        assert forall|k: int| 0 <= k < d[j].len() implies #[trigger] canonical_item(d[j][k]) by {
            let f = |x: PatternModel| canonical_item(x);
            assert(f(d[j][k]));
        }
        lemma_canonical_items(d[j]);
    }
    lemma_canonical_conjunctions(ds);
    lemma_conjunctions_fixed(ds);
    assert(ds.map_values(|x: PatternModel| x->Conj_0) =~= d);
}

/// The normal form is a disjunction whose every member is a conjunction of statements and
/// negations of normalised bodies.
pub proof fn lemma_normalise_canonical(p: PatternModel)
    ensures
        normalised(p) is Disj,
        forall|i: int| 0 <= i < normalised(p)->Disj_0.len() ==> {
            &&& #[trigger] normalised(p)->Disj_0[i] is Conj
            &&& canonical_items(normalised(p)->Disj_0[i]->Conj_0)
        },
{
    let d = normal(p);
    lemma_normal_canonical(p);
    assert forall|i: int| 0 <= i < normalised(p)->Disj_0.len() implies {
        &&& #[trigger] normalised(p)->Disj_0[i] is Conj
        &&& canonical_items(normalised(p)->Disj_0[i]->Conj_0)
    } by {
        assert(normalised(p)->Disj_0[i] == PatternModel::Conj(d[i]));
        assert forall|k: int| 0 <= k < d[i].len() implies #[trigger] canonical_item(d[i][k]) by {
            let f = |x: PatternModel| canonical_item(x);
            assert(f(d[i][k]));
        }
        lemma_canonical_items(d[i]);
    }
}

proof fn lemma_normal_disjunction_free(p: PatternModel)
    requires
        negations_single(p),
    ensures
        items_all(normal(p), |x: PatternModel| disjunction_free(x)),
    decreases p,
{
    let f = |x: PatternModel| disjunction_free(x);
    match p {
        PatternModel::Stmt(s) => {
            assert(normal(p)[0][0] == p);
        },
        PatternModel::Neg(b) => {
            lemma_normal_disjunction_free(*b);
            let d = normal(*b);
            assert forall|i: int| 0 <= i < d[0].len() implies #[trigger] disjunction_free(d[0][i]) by {
                assert(f(d[0][i]));
            }
            lemma_all_disjunction_free(d[0]);
            let n = PatternModel::Neg(Box::new(PatternModel::Conj(d[0])));
            assert(disjunction_free(PatternModel::Conj(d[0])));
            assert(disjunction_free(n));
            assert(normal(p)[0][0] == n);
        },
        PatternModel::Conj(cs) => {
            lemma_normals(cs);
            lemma_all_negations_single(cs);
            assert forall|k: int| 0 <= k < normals(cs).len() implies items_all(#[trigger] normals(cs)[k], f) by {
                lemma_normal_disjunction_free(cs[k]);
            }
            lemma_product_all(normals(cs), f);
        },
        PatternModel::Disj(cs) => {
            lemma_normals(cs);
            lemma_all_negations_single(cs);
            assert forall|k: int| 0 <= k < normals(cs).len() implies items_all(#[trigger] normals(cs)[k], f) by {
                lemma_normal_disjunction_free(cs[k]);
            }
            lemma_flatten_all(normals(cs), f);
        },
    }
}

/// Where every negation's body normalises to one branch, no member of the normal form holds
/// a disjunction at any depth.
pub proof fn lemma_normalise_disjunction_free(p: PatternModel)
    requires
        negations_single(p),
    ensures
        forall|i: int| 0 <= i < normalised(p)->Disj_0.len() ==> #[trigger] disjunction_free(normalised(p)->Disj_0[i]),
{
    let d = normal(p);
    lemma_normal_disjunction_free(p);
    assert forall|i: int| 0 <= i < normalised(p)->Disj_0.len() implies #[trigger] disjunction_free(normalised(p)->Disj_0[i]) by {
        assert(normalised(p)->Disj_0[i] == PatternModel::Conj(d[i]));
        assert forall|k: int| 0 <= k < d[i].len() implies #[trigger] disjunction_free(d[i][k]) by {
            let f = |x: PatternModel| disjunction_free(x);
            assert(f(d[i][k]));
        }
        lemma_all_disjunction_free(d[i]);
    }
}

} // verus!
