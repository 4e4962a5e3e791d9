//! What the steps of the engine leave alone: facts that the laws of the
//! engine are proved from.

use crate::engine::{
    blocked_is, blocking, cascade, dependents, is_blocking, outstanding, resolve_all, resolve_one,
    waits_for, CascadeView,
};
use crate::marks::{removable, remove_marks_store};
use crate::model::{MarkView, PackageView, RelationView};
use crate::relations::{
    chosen, edge_choice, linked, resolves, without, wrapped, Choice, PkgRelationView,
};
use crate::seqs::{
    first_where, lemma_filter_disjoint, lemma_filter_members, lemma_first_where_is, not_where,
};
use crate::store::{has_name, on_pkg, StoreView};
use vstd::prelude::*;

verus! {

/// The package found under a name has that name and is a row of the store.
pub proof fn lemma_package_named(s: StoreView, name: Seq<char>)
    ensures
        s.package_named(name) matches Some(p) ==> p.name == name && s.packages.contains(p),
{
    lemma_first_where_is(s.packages, has_name(name));
}

/// In a valid store, packages found under different names have different
/// ids.
pub proof fn lemma_distinct_ids(s: StoreView, a: Seq<char>, b: Seq<char>)
    requires
        s.valid(),
        a != b,
        s.package_named(a) is Some,
        s.package_named(b) is Some,
    ensures
        s.package_named(a).unwrap().id != s.package_named(b).unwrap().id,
{
    lemma_package_named(s, a);
    lemma_package_named(s, b);
    let x = s.package_named(a).unwrap();
    let y = s.package_named(b).unwrap();
    let i = choose|i: int| 0 <= i < s.packages.len() && s.packages[i] == x;
    let j = choose|j: int| 0 <= j < s.packages.len() && s.packages[j] == y;
    if i < j {
        assert(s.packages[i].id != s.packages[j].id);
    } else if j < i {
        assert(s.packages[j].id != s.packages[i].id);
    }
}

/// The blocking edges that a choice finds, looked up.
pub open spec fn looked_up(s: StoreView, c: Choice) -> Seq<PkgRelationView> {
    wrapped(s, s.relations.filter(chosen(c))).filter(blocking())
}

/// Every looked-up blocking edge comes from a row of the relation table
/// that the choice takes, whose packages exist and whose kind blocks.
pub proof fn lemma_looked_up_from_row(s: StoreView, c: Choice, j: int) -> (row: RelationView)
    requires
        0 <= j < looked_up(s, c).len(),
    ensures
        s.relations.contains(row),
        chosen(c)(row),
        resolves(s)(row),
        is_blocking(row.relation),
        looked_up(s, c)[j] == linked(s)(row),
{
    let rows = s.relations.filter(chosen(c));
    let kept = rows.filter(resolves(s));
    let w = kept.map_values(linked(s));
    let f = w.filter(blocking());
    lemma_filter_members(w, blocking());
    assert(w.contains(f[j]));
    let k = choose|k: int| 0 <= k < w.len() && w[k] == f[j];
    lemma_filter_members(rows, resolves(s));
    assert(rows.contains(kept[k]));
    lemma_filter_members(s.relations, chosen(c));
    let i = choose|i: int| 0 <= i < rows.len() && rows[i] == kept[k];
    assert(s.relations.contains(rows[i]));
    assert(blocking()(f[j]));
    kept[k]
}

/// Every row that the choice takes, whose packages exist and whose kind
/// blocks, is among the looked-up blocking edges.
pub proof fn lemma_row_is_looked_up(s: StoreView, c: Choice, row: RelationView) -> (j: int)
    requires
        s.relations.contains(row),
        chosen(c)(row),
        resolves(s)(row),
        is_blocking(row.relation),
    ensures
        0 <= j < looked_up(s, c).len(),
        looked_up(s, c)[j] == linked(s)(row),
{
    let rows = s.relations.filter(chosen(c));
    let kept = rows.filter(resolves(s));
    let w = kept.map_values(linked(s));
    let f = w.filter(blocking());
    lemma_filter_members(s.relations, chosen(c));
    let i = choose|i: int| 0 <= i < s.relations.len() && s.relations[i] == row;
    assert(rows.contains(s.relations[i]));
    lemma_filter_members(rows, resolves(s));
    let i2 = choose|i2: int| 0 <= i2 < rows.len() && rows[i2] == row;
    assert(kept.contains(rows[i2]));
    let k = choose|k: int| 0 <= k < kept.len() && kept[k] == row;
    assert(w[k] == linked(s)(row));
    lemma_filter_members(w, blocking());
    assert(blocking()(w[k]));
    assert(f.contains(w[k]));
    choose|j: int| 0 <= j < f.len() && f[j] == w[k]
}

/// Whether `b` holds the packagers, packages and assignments of `a`, and of
/// its marks and relations some or all, but nothing new.
pub open spec fn shrinks(a: StoreView, b: StoreView) -> bool {
    &&& a.packagers == b.packagers
    &&& a.packages == b.packages
    &&& a.assignments == b.assignments
    &&& forall|m: MarkView| b.marks.contains(m) ==> a.marks.contains(m)
    &&& forall|r: RelationView| b.relations.contains(r) ==> a.relations.contains(r)
}

/// Removing marks only shrinks the store.
pub proof fn lemma_remove_marks_shrinks(
    s: StoreView,
    name: Seq<char>,
    filter: Option<Seq<Seq<char>>>,
)
    ensures
        shrinks(s, remove_marks_store(s, name, filter)),
        remove_marks_store(s, name, filter).relations == s.relations,
{
    match s.package_named(name) {
        None => {},
        Some(p) => {
            lemma_filter_members(s.marks, not_where(removable(p.id, filter)));
        },
    }
}

/// Removing edges only shrinks the store.
pub proof fn lemma_without_shrinks(s: StoreView, c: Choice)
    ensures
        shrinks(s, without(s, c)),
        without(s, c).marks == s.marks,
{
    lemma_filter_members(s.relations, not_where(chosen(c)));
}

/// Looking again at one package only shrinks the store.
pub proof fn lemma_resolve_one_shrinks(c: CascadeView, done: Seq<char>, p: PackageView)
    ensures
        shrinks(c.store, resolve_one(c, done, p).store),
{
    let s = c.store;
    let out = outstanding(s, p.name);
    match first_where(out, waits_for(done)) {
        None => {},
        Some(rel) => {
            let edge = edge_choice(rel.relation, rel.request.name, rel.required.name);
            let only = Some(seq![rel.relation]);
            let s1 = remove_marks_store(s, rel.request.name, only);
            lemma_remove_marks_shrinks(s, rel.request.name, only);
            lemma_without_shrinks(s1, edge);
            lemma_without_shrinks(s, edge);
        },
    }
}

/// Looking again at any number of packages only shrinks the store.
pub proof fn lemma_resolve_all_shrinks(
    c: CascadeView,
    done: Seq<char>,
    edges: Seq<PkgRelationView>,
    n: nat,
)
    requires
        n <= edges.len(),
    ensures
        shrinks(c.store, resolve_all(c, done, edges, n).store),
    decreases n,
{
    if n > 0 {
        lemma_resolve_all_shrinks(c, done, edges, (n - 1) as nat);
        lemma_resolve_one_shrinks(
            resolve_all(c, done, edges, (n - 1) as nat),
            done,
            edges[n - 1].request,
        );
    }
}

/// Resolving the dependents of a package only shrinks the store.
pub proof fn lemma_cascade_shrinks(s: StoreView, done: Seq<char>)
    ensures
        shrinks(s, cascade(s, done).store),
{
    let edges = dependents(s, done);
    if edges.len() > 0 {
        lemma_resolve_all_shrinks(
            CascadeView { store: s, replies: Seq::empty(), error: None },
            done,
            edges,
            edges.len(),
        );
    }
}

/// The rows of the relation table whose blocked package is named `name`.
pub open spec fn rows_of(s: StoreView, name: Seq<char>) -> Seq<RelationView> {
    s.relations.filter(chosen(blocked_is(name)))
}

/// The marks on the package with id `pkg`.
pub open spec fn marks_on(s: StoreView, pkg: i64) -> Seq<MarkView> {
    s.marks.filter(on_pkg(pkg))
}

/// Removing an edge of one package leaves the rows of every other package
/// as they are.
pub proof fn lemma_without_other_rows(
    s: StoreView,
    relation: Seq<char>,
    request: Seq<char>,
    required: Seq<char>,
    name: Seq<char>,
)
    requires
        request != name,
    ensures
        rows_of(without(s, edge_choice(relation, request, required)), name) == rows_of(s, name),
{
    let gone = chosen(edge_choice(relation, request, required));
    let keep = chosen(blocked_is(name));
    assert forall|i: int| 0 <= i < s.relations.len() && keep(#[trigger] s.relations[i]) implies !gone(
        s.relations[i],
    ) by {
        let r = s.relations[i];
        if gone(r) {
            assert(seq![request].contains(r.request));
            assert(seq![name].contains(r.request));
        }
    }
    lemma_filter_disjoint(s.relations, gone, keep);
}

/// Removing marks from one package leaves the marks on every package with
/// another id as they are.
pub proof fn lemma_remove_marks_other_pkg(
    s: StoreView,
    name: Seq<char>,
    filter: Option<Seq<Seq<char>>>,
    pkg: i64,
)
    requires
        s.package_named(name) matches Some(p) ==> p.id != pkg,
    ensures
        marks_on(remove_marks_store(s, name, filter), pkg) == marks_on(s, pkg),
{
    match s.package_named(name) {
        None => {},
        Some(p) => {
            lemma_filter_disjoint(s.marks, removable(p.id, filter), on_pkg(pkg));
        },
    }
}

/// The blocking edges that a package waits on depend on the package's own
/// rows, the packagers and the packages alone.
pub proof fn lemma_outstanding_frame(a: StoreView, b: StoreView, name: Seq<char>)
    requires
        a.same_people_and_packages(b),
        rows_of(a, name) == rows_of(b, name),
    ensures
        outstanding(a, name) == outstanding(b, name),
{
    crate::relations::lemma_wrapped_frame(a, b, rows_of(a, name));
}

/// A blocking edge that a package waits on names that package as the
/// blocked one, and comes from a row of the package with the same kind and
/// the same blocker.
pub proof fn lemma_outstanding_shape(s: StoreView, name: Seq<char>, j: int) -> (row: RelationView)
    requires
        0 <= j < outstanding(s, name).len(),
    ensures
        s.relations.contains(row),
        row.request == name,
        resolves(s)(row),
        is_blocking(row.relation),
        outstanding(s, name)[j] == linked(s)(row),
        outstanding(s, name)[j].request.name == name,
        outstanding(s, name)[j].request == s.package_named(name).unwrap(),
        outstanding(s, name)[j].required.name == row.required,
        outstanding(s, name)[j].relation == row.relation,
{
    let row = lemma_looked_up_from_row(s, blocked_is(name), j);
    assert(seq![name].contains(row.request));
    lemma_package_named(s, row.request);
    lemma_package_named(s, row.required);
    row
}

} // verus!
