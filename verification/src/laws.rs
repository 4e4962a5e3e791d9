//! What holds of every store when a package is completed.

use crate::assignments::{assignment_id, assignment_to_drop, drop_assign_store};
use crate::engine::{
    cascade, complete, dependents, done_marks, outstanding, resolve_all, resolve_one, waits_for,
    CascadeView, WorkflowError,
};
use crate::frames::{
    lemma_cascade_shrinks, lemma_distinct_ids, lemma_outstanding_frame, lemma_outstanding_shape,
    lemma_package_named, lemma_remove_marks_other_pkg, lemma_remove_marks_shrinks,
    lemma_resolve_one_shrinks, lemma_row_is_looked_up, lemma_without_other_rows, marks_on, rows_of,
    shrinks,
};
use crate::marks::{named, removable, remove_marks_result, remove_marks_store};
use crate::model::{Assignment, MarkView, PackageView, RelationView};
use crate::packagers::{assignee_of, links};
use crate::relations::{chosen, edge_choice, without, PkgRelationView};
use crate::routes::deleted;
use crate::seqs::{
    any_where, first_where, lemma_filter_any, lemma_filter_commute, lemma_filter_members,
    lemma_filter_removed, lemma_first_where_hit, lemma_first_where_is, lemma_first_where_miss,
    not_where,
};
use crate::store::{assigns_pkg, has_uid, held_by, on_pkg, StoreView};
use vstd::prelude::*;

verus! {

/// Completing a package that has no assignee fails with
/// `PreconditionFailed`; a request that reports such a package as done
/// leaves the store as it was and sends no notice, whatever else it says.
pub proof fn law_no_assignee_no_change(
    s: StoreView,
    name: Seq<char>,
    expected: Seq<char>,
    token: Seq<char>,
    status: Seq<char>,
)
    requires
        assignee_of(s, name) is None,
    ensures
        complete(s, name) == Err::<crate::engine::CompletionView, WorkflowError>(
            WorkflowError::PreconditionFailed,
        ),
        deleted(s, expected, token, name, status).store == s,
        deleted(s, expected, token, name, status).notices == Seq::<Seq<char>>::empty(),
{
}

/// Whether all assignments of the package named `name` are one and the same
/// assignment: they share one id.
pub open spec fn singly_assigned(s: StoreView, name: Seq<char>) -> bool {
    s.package_named(name) matches Some(p) ==> forall|i: int, j: int|
        0 <= i < s.assignments.len() && 0 <= j < s.assignments.len() && (
        #[trigger] s.assignments[i]).pkg == p.id && (#[trigger] s.assignments[j]).pkg == p.id
            ==> s.assignments[i].id == s.assignments[j].id
}

/// Completing a package leaves the packagers and the packages as they were.
pub proof fn law_completion_keeps_packages(s: StoreView, name: Seq<char>)
    requires
        complete(s, name) is Ok,
    ensures
        complete(s, name)->Ok_0.store.same_people_and_packages(s),
        s.valid() ==> complete(s, name)->Ok_0.store.valid(),
{
    let who = assignee_of(s, name).unwrap();
    let s2 = drop_assign_store(s, name, who.tg_uid);
    let s3 = remove_marks_store(s2, name, Some(done_marks()));
    lemma_remove_marks_shrinks(s2, name, Some(done_marks()));
    lemma_cascade_shrinks(s3, name);
}

/// Completing a package a second time, after the first time removed its
/// assignment, fails with `PreconditionFailed`: nothing is done twice.
pub proof fn law_completion_is_not_repeated(s: StoreView, name: Seq<char>)
    requires
        complete(s, name) is Ok,
        singly_assigned(s, name),
    ensures
        assignee_of(complete(s, name)->Ok_0.store, name) is None,
        complete(complete(s, name)->Ok_0.store, name) == Err::<
            crate::engine::CompletionView,
            WorkflowError,
        >(WorkflowError::PreconditionFailed),
{
    let who = assignee_of(s, name).unwrap();
    let p = s.package_named(name).unwrap();
    let a = first_where(s.assignments, assigns_pkg(p.id)).unwrap();
    lemma_first_where_is(s.assignments, assigns_pkg(p.id));
    lemma_first_where_is(s.packagers, has_uid(a.assignee));
    let ia = choose|i: int| 0 <= i < s.assignments.len() && s.assignments[i] == a;
    assert(held_by(who.tg_uid)(s.assignments[ia]));
    assert(links(who.tg_uid, p.id)(s.assignments[ia]));
    lemma_first_where_is(s.assignments, links(who.tg_uid, p.id));
    let b = first_where(s.assignments, links(who.tg_uid, p.id)).unwrap();
    assert(assignment_to_drop(s, name, who.tg_uid) == Ok::<Assignment, crate::store::StoreError>(b));
    let ib = choose|i: int| 0 <= i < s.assignments.len() && s.assignments[i] == b;
    assert(s.assignments[ib].pkg == p.id);
    let s2 = drop_assign_store(s, name, who.tg_uid);
    let left = s.assignments.filter(not_where(assignment_id(b.id)));
    assert(s2.assignments == left);
    lemma_filter_members(s.assignments, not_where(assignment_id(b.id)));
    assert forall|k: int| 0 <= k < left.len() implies !assigns_pkg(p.id)(#[trigger] left[k]) by {
        let x = left[k];
        assert(s.assignments.contains(x));
        let ix = choose|i: int| 0 <= i < s.assignments.len() && s.assignments[i] == x;
        if x.pkg == p.id {
            assert(s.assignments[ix].id == s.assignments[ib].id);
        }
    }
    lemma_first_where_miss(left, assigns_pkg(p.id));
    let s3 = remove_marks_store(s2, name, Some(done_marks()));
    lemma_remove_marks_shrinks(s2, name, Some(done_marks()));
    lemma_cascade_shrinks(s3, name);
    let t = complete(s, name)->Ok_0.store;
    assert(t == cascade(s3, name).store);
    assert(t.assignments == left);
    assert(t.packages == s.packages);
}

/// Whether the package with id `pkg` carries a mark named `kind`.
pub open spec fn has_mark(s: StoreView, pkg: i64, kind: Seq<char>) -> bool {
    any_where(marks_on(s, pkg), named(kind))
}

/// Whether the relation table holds an edge of the given kind from
/// `request` to `required`.
pub open spec fn has_edge(
    s: StoreView,
    relation: Seq<char>,
    request: Seq<char>,
    required: Seq<char>,
) -> bool {
    any_where(s.relations, chosen(edge_choice(relation, request, required)))
}

/// Looking again at one package leaves the rows and the marks of every
/// package with another name as they are.
pub proof fn lemma_other_package_untouched(
    c: CascadeView,
    done: Seq<char>,
    at: PackageView,
    name: Seq<char>,
)
    requires
        c.store.valid(),
        c.store.package_named(name) is Some,
        at.name != name,
    ensures
        rows_of(resolve_one(c, done, at).store, name) == rows_of(c.store, name),
        marks_on(resolve_one(c, done, at).store, c.store.package_named(name).unwrap().id)
            == marks_on(c.store, c.store.package_named(name).unwrap().id),
{
    let s = c.store;
    let id = s.package_named(name).unwrap().id;
    let out = outstanding(s, at.name);
    match first_where(out, waits_for(done)) {
        None => {},
        Some(rel) => {
            lemma_first_where_is(out, waits_for(done));
            let j = choose|j: int| 0 <= j < out.len() && out[j] == rel;
            let row = lemma_outstanding_shape(s, at.name, j);
            lemma_distinct_ids(s, at.name, name);
            let only = Some(seq![rel.relation]);
            let s1 = remove_marks_store(s, at.name, only);
            lemma_remove_marks_other_pkg(s, at.name, only, id);
            lemma_without_other_rows(s1, rel.relation, at.name, rel.required.name, name);
            lemma_without_other_rows(s, rel.relation, at.name, rel.required.name, name);
        },
    }
}

/// The rows of a package are rows of the relation table whose blocked
/// package it is, and every such row is one of them.
pub proof fn lemma_rows_of_members(s: StoreView, name: Seq<char>)
    ensures
        forall|r: RelationView| #[trigger]
            rows_of(s, name).contains(r) ==> s.relations.contains(r) && r.request == name,
        forall|r: RelationView| #[trigger]
            s.relations.contains(r) && r.request == name ==> rows_of(s, name).contains(r),
{
    let keep = chosen(crate::engine::blocked_is(name));
    lemma_filter_members(s.relations, keep);
    let f = rows_of(s, name);
    assert forall|r: RelationView| #[trigger] f.contains(r) implies s.relations.contains(r)
        && r.request == name by {
        let k = choose|k: int| 0 <= k < f.len() && f[k] == r;
        assert(s.relations.contains(f[k]));
        assert(keep(f[k]));
        assert(seq![name].contains(r.request));
    }
    assert forall|r: RelationView| #[trigger]
        s.relations.contains(r) && r.request == name implies f.contains(r) by {
        let i = choose|i: int| 0 <= i < s.relations.len() && s.relations[i] == r;
        assert(seq![name][0] == r.request);
        assert(keep(s.relations[i]));
    }
}

/// What is known of a package with a single blocker before that blocker is
/// completed: its rows and its marks are those of the store `s0`.
pub open spec fn waiting(t: StoreView, s0: StoreView, name: Seq<char>, id: i64) -> bool {
    &&& t.same_people_and_packages(s0)
    &&& rows_of(t, name) == rows_of(s0, name)
    &&& marks_on(t, id) == marks_on(s0, id)
}

/// A package is unblocked: it carries no mark of the kind, and no edge of
/// the kind leads from it to the blocker.
pub open spec fn unblocked(
    t: StoreView,
    s0: StoreView,
    name: Seq<char>,
    id: i64,
    kind: Seq<char>,
    done: Seq<char>,
) -> bool {
    &&& t.same_people_and_packages(s0)
    &&& !has_mark(t, id, kind)
    &&& !has_edge(t, kind, name, done)
}

/// What the law of the last blocker asks of the store: the package named
/// `name` waits on exactly one blocking edge, which is of kind `kind` and
/// waits for `done`, and carries a mark of that kind.
pub open spec fn one_blocker(s: StoreView, name: Seq<char>, kind: Seq<char>, done: Seq<char>) -> bool {
    &&& s.valid()
    &&& s.package_named(name) is Some
    &&& name != done
    &&& outstanding(s, name).len() == 1
    &&& outstanding(s, name)[0].relation == kind
    &&& outstanding(s, name)[0].required.name == done
    &&& has_mark(s, s.package_named(name).unwrap().id, kind)
}

/// Shrinking a store does not bring back a mark or an edge.
pub proof fn lemma_unblocked_stays(
    t: StoreView,
    u: StoreView,
    s0: StoreView,
    name: Seq<char>,
    id: i64,
    kind: Seq<char>,
    done: Seq<char>,
)
    requires
        unblocked(t, s0, name, id, kind, done),
        shrinks(t, u),
    ensures
        unblocked(u, s0, name, id, kind, done),
{
    lemma_filter_members(t.marks, on_pkg(id));
    lemma_filter_members(u.marks, on_pkg(id));
    if has_mark(u, id, kind) {
        let f = marks_on(u, id);
        let k = choose|k: int| 0 <= k < f.len() && named(kind)(#[trigger] f[k]);
        assert(u.marks.contains(f[k]));
        assert(t.marks.contains(f[k]));
        let i = choose|i: int| 0 <= i < t.marks.len() && t.marks[i] == f[k];
        assert(on_pkg(id)(f[k]));
        assert(marks_on(t, id).contains(t.marks[i]));
        let k2 = choose|k2: int| 0 <= k2 < marks_on(t, id).len() && marks_on(t, id)[k2] == f[k];
        assert(named(kind)(marks_on(t, id)[k2]));
    }
    if has_edge(u, kind, name, done) {
        let e = chosen(edge_choice(kind, name, done));
        let k = choose|k: int| 0 <= k < u.relations.len() && e(#[trigger] u.relations[k]);
        assert(u.relations.contains(u.relations[k]));
        assert(t.relations.contains(u.relations[k]));
        let i = choose|i: int| 0 <= i < t.relations.len() && t.relations[i] == u.relations[k];
        assert(e(t.relations[i]));
    }
}

/// Looking again at a package whose single blocker is done removes the
/// package's marks of the edge's kind and the edge.
pub proof fn lemma_last_blocker_step(
    c: CascadeView,
    s0: StoreView,
    at: PackageView,
    name: Seq<char>,
    kind: Seq<char>,
    done: Seq<char>,
)
    requires
        one_blocker(s0, name, kind, done),
        waiting(c.store, s0, name, s0.package_named(name).unwrap().id),
        at.name == name,
    ensures
        unblocked(
            resolve_one(c, done, at).store,
            s0,
            name,
            s0.package_named(name).unwrap().id,
            kind,
            done,
        ),
{
    let t = c.store;
    let id = s0.package_named(name).unwrap().id;
    lemma_outstanding_frame(t, s0, name);
    let out = outstanding(t, name);
    assert(waits_for(done)(out[0]));
    lemma_first_where_hit(out, waits_for(done), 0);
    let rel = out[0];
    let row = lemma_outstanding_shape(t, name, 0);
    let only = Some(seq![kind]);
    // the package carries a mark of the kind, so the removal succeeds
    let f = marks_on(t, id);
    let k = choose|k: int| 0 <= k < f.len() && named(kind)(#[trigger] f[k]);
    lemma_filter_members(t.marks, on_pkg(id));
    assert(t.marks.contains(f[k]));
    let i = choose|i: int| 0 <= i < t.marks.len() && t.marks[i] == f[k];
    assert(on_pkg(id)(f[k]));
    assert(seq![kind][0] == f[k].kind);
    assert(removable(id, only)(t.marks[i]));
    lemma_filter_any(t.marks, removable(id, only));
    assert(remove_marks_result(t, name, only) is Ok);
    let s1 = remove_marks_store(t, name, only);
    let edge = edge_choice(kind, name, done);
    let u = without(s1, edge);
    assert(resolve_one(c, done, at).store == u);
    lemma_filter_removed(t.marks, removable(id, only));
    lemma_filter_removed(s1.relations, chosen(edge));
    if has_mark(u, id, kind) {
        let g = marks_on(u, id);
        let k2 = choose|k2: int| 0 <= k2 < g.len() && named(kind)(#[trigger] g[k2]);
        lemma_filter_members(u.marks, on_pkg(id));
        assert(u.marks.contains(g[k2]));
        let i2 = choose|i2: int| 0 <= i2 < u.marks.len() && u.marks[i2] == g[k2];
        assert(on_pkg(id)(g[k2]));
        assert(seq![kind][0] == g[k2].kind);
        assert(removable(id, only)(u.marks[i2]));
    }
}

/// Looking again at the dependents of `done`, one after the other, unblocks
/// a package with a single blocker as soon as its turn comes, and leaves it
/// unblocked.
pub proof fn lemma_last_blocker_run(
    c0: CascadeView,
    s0: StoreView,
    edges: Seq<PkgRelationView>,
    n: nat,
    name: Seq<char>,
    kind: Seq<char>,
    done: Seq<char>,
)
    requires
        n <= edges.len(),
        one_blocker(s0, name, kind, done),
        waiting(c0.store, s0, name, s0.package_named(name).unwrap().id),
    ensures
        ({
            let id = s0.package_named(name).unwrap().id;
            let t = resolve_all(c0, done, edges, n).store;
            unblocked(t, s0, name, id, kind, done) || (waiting(t, s0, name, id) && forall|k: int|
                0 <= k < n ==> (#[trigger] edges[k]).request.name != name)
        }),
    decreases n,
{
    if n > 0 {
        let id = s0.package_named(name).unwrap().id;
        lemma_last_blocker_run(c0, s0, edges, (n - 1) as nat, name, kind, done);
        let c = resolve_all(c0, done, edges, (n - 1) as nat);
        let at = edges[n - 1].request;
        lemma_resolve_one_shrinks(c, done, at);
        if unblocked(c.store, s0, name, id, kind, done) {
            lemma_unblocked_stays(c.store, resolve_one(c, done, at).store, s0, name, id, kind, done);
        } else if at.name == name {
            lemma_last_blocker_step(c, s0, at, name, kind, done);
        } else {
            lemma_other_package_untouched(c, done, at, name);
        }
    }
}

/// Completing the only blocker of a package unblocks it: where the package
/// named `name` waits on exactly one blocking edge, of kind `kind` and
/// waiting for `done`, and carries a mark of that kind, completing `done`
/// removes every mark of that kind from the package and removes the edge.
pub proof fn law_last_blocker_unblocks(
    s: StoreView,
    name: Seq<char>,
    kind: Seq<char>,
    done: Seq<char>,
)
    requires
        one_blocker(s, name, kind, done),
        complete(s, done) is Ok,
    ensures
        !has_mark(complete(s, done)->Ok_0.store, s.package_named(name).unwrap().id, kind),
        !has_edge(complete(s, done)->Ok_0.store, kind, name, done),
{
    let id = s.package_named(name).unwrap().id;
    let who = assignee_of(s, done).unwrap();
    let s2 = drop_assign_store(s, done, who.tg_uid);
    let s3 = remove_marks_store(s2, done, Some(done_marks()));
    assert(s2.package_named(done) is Some);
    lemma_distinct_ids(s, done, name);
    lemma_remove_marks_other_pkg(s2, done, Some(done_marks()), id);
    lemma_remove_marks_shrinks(s2, done, Some(done_marks()));
    assert(marks_on(s2, id) == marks_on(s, id));
    assert(rows_of(s3, name) == rows_of(s, name));
    assert(waiting(s3, s, name, id));
    // the package is among the dependents of `done`
    let row = lemma_outstanding_shape(s, name, 0);
    assert(s3.relations.contains(row));
    assert(seq![done][0] == row.required);
    let j = lemma_row_is_looked_up(s3, crate::engine::blocker_is(done), row);
    let edges = dependents(s3, done);
    lemma_package_named(s3, name);
    assert(edges[j].request.name == name);
    let c0 = CascadeView { store: s3, replies: Seq::empty(), error: None };
    lemma_last_blocker_run(c0, s, edges, edges.len(), name, kind, done);
    assert(complete(s, done)->Ok_0.store == resolve_all(c0, done, edges, edges.len()).store);
}

/// What the law of the two blockers asks of the store: the package named
/// `name` waits on exactly two blocking edges, both of kind `kind`, one
/// waiting for `done` and one for `other`.
pub open spec fn two_blockers(
    s: StoreView,
    name: Seq<char>,
    kind: Seq<char>,
    done: Seq<char>,
    other: Seq<char>,
) -> bool {
    &&& s.valid()
    &&& s.package_named(name) is Some
    &&& name != done
    &&& done != other
    &&& outstanding(s, name).len() == 2
    &&& outstanding(s, name)[0].relation == kind
    &&& outstanding(s, name)[1].relation == kind
    &&& {
        ||| outstanding(s, name)[0].required.name == done && outstanding(
            s,
            name,
        )[1].required.name == other
        ||| outstanding(s, name)[0].required.name == other && outstanding(
            s,
            name,
        )[1].required.name == done
    }
}

/// One blocker of a package is released: of the package's rows in `s0` only
/// the edge of kind `kind` to `done` is gone, and its marks are those of `s0`.
pub open spec fn released(
    t: StoreView,
    s0: StoreView,
    name: Seq<char>,
    id: i64,
    kind: Seq<char>,
    done: Seq<char>,
) -> bool {
    &&& t.same_people_and_packages(s0)
    &&& rows_of(t, name) == rows_of(s0, name).filter(
        not_where(chosen(edge_choice(kind, name, done))),
    )
    &&& marks_on(t, id) == marks_on(s0, id)
}

/// Looking again at a package with two blockers, one of which is done,
/// removes the edge to that one and nothing else of the package.
pub proof fn lemma_one_of_two_step(
    c: CascadeView,
    s0: StoreView,
    at: PackageView,
    name: Seq<char>,
    kind: Seq<char>,
    done: Seq<char>,
    other: Seq<char>,
)
    requires
        two_blockers(s0, name, kind, done, other),
        waiting(c.store, s0, name, s0.package_named(name).unwrap().id),
        at.name == name,
    ensures
        released(
            resolve_one(c, done, at).store,
            s0,
            name,
            s0.package_named(name).unwrap().id,
            kind,
            done,
        ),
{
    let t = c.store;
    lemma_outstanding_frame(t, s0, name);
    let out = outstanding(t, name);
    let i: int = if out[0].required.name == done {
        0
    } else {
        1
    };
    assert(waits_for(done)(out[i]));
    lemma_first_where_hit(out, waits_for(done), i);
    let row = lemma_outstanding_shape(t, name, i);
    let edge = chosen(edge_choice(kind, name, done));
    assert(resolve_one(c, done, at).store == without(t, edge_choice(kind, name, done)));
    lemma_filter_commute(t.relations, not_where(edge), chosen(crate::engine::blocked_is(name)));
}

/// Looking again at a package one of whose two blockers was released
/// already changes nothing.
pub proof fn lemma_released_step(
    c: CascadeView,
    s0: StoreView,
    at: PackageView,
    name: Seq<char>,
    kind: Seq<char>,
    done: Seq<char>,
    other: Seq<char>,
)
    requires
        two_blockers(s0, name, kind, done, other),
        released(c.store, s0, name, s0.package_named(name).unwrap().id, kind, done),
        at.name == name,
    ensures
        resolve_one(c, done, at) == c,
{
    let t = c.store;
    let out = outstanding(t, name);
    let edge = chosen(edge_choice(kind, name, done));
    if first_where(out, waits_for(done)) is Some {
        let rel = first_where(out, waits_for(done)).unwrap();
        lemma_first_where_is(out, waits_for(done));
        let j = choose|j: int| 0 <= j < out.len() && out[j] == rel;
        let row = lemma_outstanding_shape(t, name, j);
        lemma_rows_of_members(t, name);
        assert(rows_of(t, name).contains(row));
        lemma_filter_members(rows_of(s0, name), not_where(edge));
        let f = rows_of(s0, name).filter(not_where(edge));
        let k = choose|k: int| 0 <= k < f.len() && f[k] == row;
        assert(not_where(edge)(f[k]));
        assert(rows_of(s0, name).contains(f[k]));
        lemma_rows_of_members(s0, name);
        assert(s0.relations.contains(row));
        assert(seq![name][0] == row.request);
        let j0 = lemma_row_is_looked_up(s0, crate::engine::blocked_is(name), row);
        lemma_package_named(s0, row.required);
        assert(outstanding(s0, name)[j0].relation == row.relation);
        assert(row.relation == kind);
        assert(seq![done][0] == row.required);
        assert(edge(row));
    }
}

/// Looking again at the dependents of `done`, one after the other, releases
/// a package with two blockers from `done` when its turn comes, and leaves
/// the rest of it alone.
pub proof fn lemma_one_of_two_run(
    c0: CascadeView,
    s0: StoreView,
    edges: Seq<PkgRelationView>,
    n: nat,
    name: Seq<char>,
    kind: Seq<char>,
    done: Seq<char>,
    other: Seq<char>,
)
    requires
        n <= edges.len(),
        two_blockers(s0, name, kind, done, other),
        waiting(c0.store, s0, name, s0.package_named(name).unwrap().id),
    ensures
        ({
            let id = s0.package_named(name).unwrap().id;
            let t = resolve_all(c0, done, edges, n).store;
            released(t, s0, name, id, kind, done) || (waiting(t, s0, name, id) && forall|k: int|
                0 <= k < n ==> (#[trigger] edges[k]).request.name != name)
        }),
    decreases n,
{
    if n > 0 {
        let id = s0.package_named(name).unwrap().id;
        lemma_one_of_two_run(c0, s0, edges, (n - 1) as nat, name, kind, done, other);
        let c = resolve_all(c0, done, edges, (n - 1) as nat);
        let at = edges[n - 1].request;
        lemma_resolve_one_shrinks(c, done, at);
        if at.name == name {
            if released(c.store, s0, name, id, kind, done) {
                lemma_released_step(c, s0, at, name, kind, done, other);
            } else {
                lemma_one_of_two_step(c, s0, at, name, kind, done, other);
            }
        } else {
            lemma_other_package_untouched(c, done, at, name);
        }
    }
}

/// Completing one of two blockers of a package releases the package from
/// that one only: where the package named `name` waits on exactly two
/// blocking edges of kind `kind`, for `done` and for `other`, completing
/// `done` removes the edge to `done` and no other row of the package, keeps
/// the edge to `other`, and leaves every mark of the package in place.
pub proof fn law_one_of_two_blockers(
    s: StoreView,
    name: Seq<char>,
    kind: Seq<char>,
    done: Seq<char>,
    other: Seq<char>,
)
    requires
        two_blockers(s, name, kind, done, other),
        complete(s, done) is Ok,
    ensures
        !has_edge(complete(s, done)->Ok_0.store, kind, name, done),
        has_edge(complete(s, done)->Ok_0.store, kind, name, other),
        rows_of(complete(s, done)->Ok_0.store, name) == rows_of(s, name).filter(
            not_where(chosen(edge_choice(kind, name, done))),
        ),
        marks_on(complete(s, done)->Ok_0.store, s.package_named(name).unwrap().id) == marks_on(
            s,
            s.package_named(name).unwrap().id,
        ),
{
    let id = s.package_named(name).unwrap().id;
    let who = assignee_of(s, done).unwrap();
    let s2 = drop_assign_store(s, done, who.tg_uid);
    let s3 = remove_marks_store(s2, done, Some(done_marks()));
    assert(s2.package_named(done) is Some);
    lemma_distinct_ids(s, done, name);
    lemma_remove_marks_other_pkg(s2, done, Some(done_marks()), id);
    lemma_remove_marks_shrinks(s2, done, Some(done_marks()));
    assert(marks_on(s2, id) == marks_on(s, id));
    assert(rows_of(s3, name) == rows_of(s, name));
    assert(waiting(s3, s, name, id));
    let out = outstanding(s, name);
    let i: int = if out[0].required.name == done {
        0
    } else {
        1
    };
    let row = lemma_outstanding_shape(s, name, i);
    let row2 = lemma_outstanding_shape(s, name, 1 - i);
    assert(s3.relations.contains(row));
    assert(seq![done][0] == row.required);
    let j = lemma_row_is_looked_up(s3, crate::engine::blocker_is(done), row);
    let edges = dependents(s3, done);
    lemma_package_named(s3, name);
    assert(edges[j].request.name == name);
    let c0 = CascadeView { store: s3, replies: Seq::empty(), error: None };
    lemma_one_of_two_run(c0, s, edges, edges.len(), name, kind, done, other);
    let t = complete(s, done)->Ok_0.store;
    assert(t == resolve_all(c0, done, edges, edges.len()).store);
    assert(released(t, s, name, id, kind, done));
    let edge = chosen(edge_choice(kind, name, done));
    let f = rows_of(s, name).filter(not_where(edge));
    lemma_rows_of_members(t, name);
    lemma_rows_of_members(s, name);
    lemma_filter_members(rows_of(s, name), not_where(edge));
    if has_edge(t, kind, name, done) {
        let k = choose|k: int| 0 <= k < t.relations.len() && edge(#[trigger] t.relations[k]);
        let r = t.relations[k];
        assert(t.relations.contains(r));
        assert(seq![name].contains(r.request));
        assert(rows_of(t, name).contains(r));
        let k2 = choose|k2: int| 0 <= k2 < f.len() && f[k2] == r;
        assert(not_where(edge)(f[k2]));
    }
    // the edge to `other` is kept
    assert(rows_of(s, name).contains(row2));
    let i2 = choose|i2: int| 0 <= i2 < rows_of(s, name).len() && rows_of(s, name)[i2] == row2;
    assert(!edge(row2)) by {
        if edge(row2) {
            assert(seq![done].contains(row2.required));
        }
    }
    assert(not_where(edge)(rows_of(s, name)[i2]));
    assert(f.contains(rows_of(s, name)[i2]));
    assert(rows_of(t, name).contains(row2));
    assert(t.relations.contains(row2));
    let i3 = choose|i3: int| 0 <= i3 < t.relations.len() && t.relations[i3] == row2;
    assert(seq![name][0] == row2.request);
    assert(seq![other][0] == row2.required);
    assert(chosen(edge_choice(kind, name, other))(t.relations[i3]));
}

} // verus!
