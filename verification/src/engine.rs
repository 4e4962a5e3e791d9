//! What happens when a package is done: its assignment is dropped, its
//! blocking marks are cleared, and the packages that waited for it are looked
//! at again.

use crate::assignments::{assignment_to_drop, drop_assign, drop_assign_store};
use crate::marks::{remove_marks_result, remove_marks_store, Mark};
use crate::model::{PackageView, Packager};
use crate::notices::{
    announce, announce_text, cascade_failed, cascade_failed_text, cc, cc_text, drop_failed,
    drop_failed_text, marks_failed, marks_failed_text, partial, partial_text, unblocked,
    unblocked_text, unmarked, unmarked_text,
};
use crate::packagers::{assignee_of, FindPackagerBy};
use crate::relations::{
    chosen, edge_choice, pkg_relations_view, without, wrap_up_result, wrapped, Choice, PkgRelation,
    PkgRelationSearchBy, PkgRelationView,
};
use crate::seqs::{
    first_where, lemma_filter_empty, lemma_filter_step, lemma_first_where_hit,
    lemma_first_where_miss,
};
use crate::store::{Missing, Store, StoreError, StoreView};
use crate::text::{same_text, strs_view, texts_view};
use crate::vocab::{all_blocking_marks, BlockingMark, RelationKind};
use vstd::prelude::*;

verus! {

/// Whether a relation kind is one of the two that block a package.
pub open spec fn is_blocking(kind: Seq<char>) -> bool {
    RelationKind::parse_text(kind) is Some
}

/// The edges of a blocking kind.
pub open spec fn blocking() -> spec_fn(PkgRelationView) -> bool {
    |r: PkgRelationView| is_blocking(r.relation)
}

/// The edges whose blocker is named `done`.
pub open spec fn waits_for(done: Seq<char>) -> spec_fn(PkgRelationView) -> bool {
    |r: PkgRelationView| r.required.name == done
}

/// The choice of the edges whose blocked package is named `name`.
pub open spec fn blocked_is(name: Seq<char>) -> Choice {
    Choice { relation: None, request: Some(seq![name]), required: None }
}

/// The choice of the edges whose blocker is named `name`.
pub open spec fn blocker_is(name: Seq<char>) -> Choice {
    Choice { relation: None, request: None, required: Some(seq![name]) }
}

/// The blocking edges that the package named `name` still waits on, looked
/// up, in the order of the relation table.
pub open spec fn outstanding(s: StoreView, name: Seq<char>) -> Seq<PkgRelationView> {
    wrapped(s, s.relations.filter(chosen(blocked_is(name)))).filter(blocking())
}

/// The blocking edges that wait on the package named `done`, looked up, in
/// the order of the relation table.
pub open spec fn dependents(s: StoreView, done: Seq<char>) -> Seq<PkgRelationView> {
    wrapped(s, s.relations.filter(chosen(blocker_is(done)))).filter(blocking())
}

/// The names the clearing of blocking marks asks for when a package is done.
pub open spec fn done_marks() -> Seq<Seq<char>> {
    all_blocking_marks().map_values(|m: BlockingMark| m.name_text())
}

/// The earlier of two errors: the one already recorded, else the new one.
pub open spec fn first_error(recorded: Option<StoreError>, new: Option<StoreError>) -> Option<
    StoreError,
> {
    if recorded is Some {
        recorded
    } else {
        new
    }
}

/// The error of a result, if it is one.
pub open spec fn error_of<T>(r: Result<T, StoreError>) -> Option<StoreError> {
    match r {
        Ok(_) => None,
        Err(e) => Some(e),
    }
}

/// Where resolving dependents stands: the store so far, the notices so far,
/// and the first error met.
pub struct CascadeView {
    pub store: StoreView,
    pub replies: Seq<Seq<char>>,
    pub error: Option<StoreError>,
}

/// The replies with a ping added for the author of an edge, where it has one.
pub open spec fn with_cc(replies: Seq<Seq<char>>, rel: PkgRelationView) -> Seq<Seq<char>> {
    match rel.created_by {
        Some(author) => replies.push(cc_text(author.alias, author.tg_uid as int)),
        None => replies,
    }
}

/// Looks again at one package that waited for `done`.
///
/// Among the blocking edges that the package still waits on, the first one
/// that waits for `done` is the edge at hand; without one, nothing happens.
/// Its author is pinged. Where it is the package's only blocking edge, the
/// package's marks of the edge's kind are removed and the package is
/// reported unblocked; where that removal fails, the error is recorded and
/// the package is left as it is. Where the package waits on more, it is
/// reported to have lost one blocker and keeps its marks. Then every copy of
/// the edge at hand is removed.
pub open spec fn resolve_one(c: CascadeView, done: Seq<char>, p: PackageView) -> CascadeView {
    let s = c.store;
    let out = outstanding(s, p.name);
    match first_where(out, waits_for(done)) {
        None => c,
        Some(rel) => {
            let replies = with_cc(c.replies, rel);
            let edge = edge_choice(rel.relation, rel.request.name, rel.required.name);
            if out.len() == 1 {
                let only = Some(seq![rel.relation]);
                match remove_marks_result(s, rel.request.name, only) {
                    Err(e) => CascadeView { store: s, replies, error: first_error(c.error, Some(e)) },
                    Ok(_) => {
                        let s1 = remove_marks_store(s, rel.request.name, only);
                        CascadeView {
                            store: without(s1, edge),
                            replies: replies.push(
                                unblocked_text(rel.request.name, done, rel.relation),
                            ),
                            error: first_error(
                                c.error,
                                error_of(wrap_up_result(s1, s1.relations.filter(chosen(edge)))),
                            ),
                        }
                    },
                }
            } else {
                CascadeView {
                    store: without(s, edge),
                    replies: replies.push(partial_text(done, rel.request.name, rel.relation)),
                    error: first_error(
                        c.error,
                        error_of(wrap_up_result(s, s.relations.filter(chosen(edge)))),
                    ),
                }
            }
        },
    }
}

/// Looks again at the first `n` of the packages that waited for `done`, one
/// after the other.
pub open spec fn resolve_all(c: CascadeView, done: Seq<char>, edges: Seq<PkgRelationView>, n: nat)
    -> CascadeView
    decreases n,
{
    if n == 0 {
        c
    } else {
        resolve_one(resolve_all(c, done, edges, (n - 1) as nat), done, edges[n - 1].request)
    }
}

/// Resolving the dependents of `done`: where no blocking edge waits for it,
/// nothing changes and `NotFound` is reported; else each edge's blocked
/// package is looked at again, in the order of the relation table.
pub open spec fn cascade(s: StoreView, done: Seq<char>) -> CascadeView {
    let edges = dependents(s, done);
    if edges.len() == 0 {
        CascadeView {
            store: s,
            replies: Seq::empty(),
            error: Some(StoreError::NotFound(Missing::Relation)),
        }
    } else {
        resolve_all(
            CascadeView { store: s, replies: Seq::empty(), error: None },
            done,
            edges,
            edges.len(),
        )
    }
}

/// What resolving dependents reports.
pub struct CascadeReport {
    /// The notices, in the order in which they are to be sent.
    pub replies: Vec<String>,
    /// The first error met, if any. `NotFound` of a relation says that
    /// nothing waited for the package.
    pub error: Option<StoreError>,
}

/// Whether a relation kind is one of the two that block a package.
pub fn kind_blocks(kind: &str) -> (r: bool)
    ensures
        r == is_blocking(kind@),
{
    RelationKind::from_name(kind).is_some()
}

/// The looked-up edges of a blocking kind among `rels`.
fn keep_blocking(rels: &Vec<PkgRelation>) -> (r: Vec<PkgRelation>)
    ensures
        pkg_relations_view(r@) == pkg_relations_view(rels@).filter(blocking()),
{
    let ghost all = pkg_relations_view(rels@);
    let mut kept: Vec<PkgRelation> = Vec::new();
    let mut i: usize = 0;
    while i < rels.len()
        invariant
            i <= rels.len(),
            all == pkg_relations_view(rels@),
            pkg_relations_view(kept@) == all.take(i as int).filter(blocking()),
        decreases rels.len() - i,
    {
        proof {
            lemma_filter_step(all, blocking(), i as int);
        }
        if kind_blocks(rels[i].relation.as_str()) {
            let ghost before = kept@;
            kept.push(rels[i].clone());
            proof {
                assert(pkg_relations_view(kept@) =~= pkg_relations_view(before).push(
                    rels@[i as int]@,
                ));
            }
        }
        i += 1;
    }
    proof {
        assert(all.take(rels.len() as int) =~= all);
    }
    kept
}

/// The looked-up blocking edges found by a search in one direction; none
/// where the search finds nothing.
fn blocking_edges(store: &Store, name: &str, blocked_side: bool) -> (r: Vec<PkgRelation>)
    ensures
        pkg_relations_view(r@) == if blocked_side {
            outstanding(store@, name@)
        } else {
            dependents(store@, name@)
        },
{
    let names: [&str; 1] = [name];
    proof {
        assert(strs_view(names@) =~= seq![name@]);
    }
    let by = if blocked_side {
        PkgRelationSearchBy::Related(names.as_slice())
    } else {
        PkgRelationSearchBy::Require(names.as_slice())
    };
    match PkgRelation::search(store, by) {
        Ok(rels) => keep_blocking(&rels),
        Err(_) => {
            proof {
                let c = if blocked_side {
                    blocked_is(name@)
                } else {
                    blocker_is(name@)
                };
                lemma_filter_empty(wrapped(store@, store@.relations.filter(chosen(c))), blocking());
            }
            Vec::new()
        },
    }
}

/// The position of the first edge in `rels` that waits for `done`.
fn position_of(rels: &Vec<PkgRelation>, done: &str) -> (r: Option<usize>)
    ensures
        match r {
            Some(i) => i < rels.len() && first_where(
                pkg_relations_view(rels@),
                waits_for(done@),
            ) == Some(rels@[i as int]@),
            None => first_where(pkg_relations_view(rels@), waits_for(done@)) is None,
        },
{
    let ghost all = pkg_relations_view(rels@);
    let mut i: usize = 0;
    while i < rels.len()
        invariant
            i <= rels.len(),
            all == pkg_relations_view(rels@),
            forall|j: int| 0 <= j < i ==> !waits_for(done@)(#[trigger] all[j]),
        decreases rels.len() - i,
    {
        if same_text(rels[i].required.name.as_str(), done) {
            proof {
                assert(waits_for(done@)(all[i as int]));
                lemma_first_where_hit(all, waits_for(done@), i as int);
            }
            return Some(i);
        }
        i += 1;
    }
    proof {
        lemma_first_where_miss(all, waits_for(done@));
    }
    None
}

/// Records `new` unless an error is already recorded.
fn record(recorded: Option<StoreError>, new: Option<StoreError>) -> (r: Option<StoreError>)
    ensures
        r == first_error(recorded, new),
{
    if recorded.is_some() {
        recorded
    } else {
        new
    }
}

/// Looks again at one package that waited for `pkgname`.
fn resolve_package(
    store: &mut Store,
    pkgname: &str,
    blocked: &str,
    report: &mut CascadeReport,
    Ghost(before): Ghost<CascadeView>,
    Ghost(p): Ghost<PackageView>,
)
    requires
        before.store == old(store)@,
        before.replies == texts_view(old(report).replies@),
        before.error == old(report).error,
        p.name == blocked@,
    ensures
        resolve_one(before, pkgname@, p) == (CascadeView {
            store: final(store)@,
            replies: texts_view(final(report).replies@),
            error: final(report).error,
        }),
{
    let relation = blocking_edges(store, blocked, true);
    let Some(position) = position_of(&relation, pkgname) else {
        return ;
    };
    let rel = &relation[position];
    if let Some(author) = &rel.created_by {
        let ghost replies = report.replies@;
        let text = cc(author.alias.as_str(), author.tg_uid);
        report.replies.push(text);
        proof {
            assert(texts_view(report.replies@) =~= texts_view(replies).push(text@));
        }
    }
    assert(texts_view(report.replies@) == with_cc(before.replies, rel@));
    if relation.len() == 1 {
        let only: [&str; 1] = [rel.relation.as_str()];
        proof {
            assert(strs_view(only@) =~= seq![rel.relation@]);
        }
        match Mark::remove(store, rel.request.name.as_str(), Some(only.as_slice())) {
            Err(e) => {
                report.error = record(report.error, Some(e));
                return ;
            },
            Ok(_) => {
                let ghost replies = report.replies@;
                let text = unblocked(
                    rel.request.name.as_str(),
                    pkgname,
                    rel.relation.as_str(),
                );
                report.replies.push(text);
                proof {
                    assert(texts_view(report.replies@) =~= texts_view(replies).push(text@));
                }
            },
        }
    } else {
        let ghost replies = report.replies@;
        let text = partial(pkgname, rel.request.name.as_str(), rel.relation.as_str());
        report.replies.push(text);
        proof {
            assert(texts_view(report.replies@) =~= texts_view(replies).push(text@));
        }
    }
    let removed = PkgRelation::remove_edge(
        store,
        rel.relation.as_str(),
        rel.request.name.as_str(),
        rel.required.name.as_str(),
    );
    let failure = match removed {
        Ok(_) => None,
        Err(e) => Some(e),
    };
    report.error = record(report.error, failure);
}

/// Resolves the packages that waited for `pkgname`, which is done.
///
/// Every package is attempted: an error on one is recorded, the first one
/// only, and the next package is still looked at. What was changed before an
/// error stays changed.
pub fn clear_related_package(store: &mut Store, pkgname: &str) -> (r: CascadeReport)
    ensures
        cascade(old(store)@, pkgname@) == (CascadeView {
            store: final(store)@,
            replies: texts_view(r.replies@),
            error: r.error,
        }),
        old(store)@.valid() ==> final(store)@.valid(),
{
    proof {
        crate::frames::lemma_cascade_shrinks(store@, pkgname@);
    }
    let requested = blocking_edges(store, pkgname, false);
    let mut report = CascadeReport { replies: Vec::new(), error: None };
    if requested.len() == 0 {
        report.error = Some(StoreError::NotFound(Missing::Relation));
        proof {
            assert(texts_view(report.replies@) =~= Seq::<Seq<char>>::empty());
        }
        return report;
    }
    let ghost s0 = store@;
    let ghost edges = dependents(s0, pkgname@);
    let ghost start = CascadeView { store: s0, replies: Seq::empty(), error: None };
    proof {
        assert(texts_view(report.replies@) =~= Seq::<Seq<char>>::empty());
    }
    let mut i: usize = 0;
    while i < requested.len()
        invariant
            i <= requested.len(),
            edges == pkg_relations_view(requested@),
            resolve_all(start, pkgname@, edges, i as nat) == (CascadeView {
                store: store@,
                replies: texts_view(report.replies@),
                error: report.error,
            }),
        decreases requested.len() - i,
    {
        let ghost before = resolve_all(start, pkgname@, edges, i as nat);
        let ghost p = edges[i as int].request;
        assert(p == requested@[i as int].request@);
        resolve_package(
            store,
            pkgname,
            requested[i].request.name.as_str(),
            &mut report,
            Ghost(before),
            Ghost(p),
        );
        i += 1;
    }
    report
}

/// Why completing a package did not start.
#[derive(Clone, Copy, PartialEq, Eq, Structural, Debug)]
pub enum WorkflowError {
    /// The package has no assignee to report to.
    PreconditionFailed,
}

/// What completing a package leaves behind: the store and the notices.
pub struct CompletionView {
    pub store: StoreView,
    pub notices: Seq<Seq<char>>,
}

/// The notices after the attempt to drop the assignment.
pub open spec fn after_drop(
    notices: Seq<Seq<char>>,
    dropped: Result<crate::model::Assignment, StoreError>,
) -> Seq<Seq<char>> {
    match dropped {
        Ok(_) => notices,
        Err(e) => notices.push(drop_failed_text(e)),
    }
}

/// The notices after the attempt to clear the blocking marks.
pub open spec fn after_unmark(
    notices: Seq<Seq<char>>,
    name: Seq<char>,
    cleared: Result<Seq<Seq<char>>, StoreError>,
) -> Seq<Seq<char>> {
    match cleared {
        Ok(names) => notices.push(unmarked_text(name, names)),
        Err(e) => notices.push(marks_failed_text(name, e)),
    }
}

/// The notices after resolving the dependents: the replies, and a failure
/// notice for any error but the one that says that nothing waited.
pub open spec fn after_cascade(notices: Seq<Seq<char>>, name: Seq<char>, c: CascadeView) -> Seq<
    Seq<char>,
> {
    let all = notices + c.replies;
    match c.error {
        Some(e) => if e == StoreError::NotFound(Missing::Relation) {
            all
        } else {
            all.push(cascade_failed_text(name, e))
        },
        None => all,
    }
}

/// Completing the package named `name`.
///
/// Without an assignee nothing happens and the precondition is reported as
/// failed. Else the assignee is told, the assignment is dropped, the
/// blocking marks are cleared and the dependents are resolved, in this
/// order. A step that fails adds a notice and the next step still runs.
pub open spec fn complete(s: StoreView, name: Seq<char>) -> Result<CompletionView, WorkflowError> {
    match assignee_of(s, name) {
        None => Err(WorkflowError::PreconditionFailed),
        Some(who) => {
            let n1 = seq![announce_text(name, who.alias, who.tg_uid as int)];
            let n2 = after_drop(n1, assignment_to_drop(s, name, who.tg_uid));
            let s2 = drop_assign_store(s, name, who.tg_uid);
            let n3 = after_unmark(n2, name, remove_marks_result(s2, name, Some(done_marks())));
            let s3 = remove_marks_store(s2, name, Some(done_marks()));
            let c = cascade(s3, name);
            Ok(CompletionView { store: c.store, notices: after_cascade(n3, name, c) })
        },
    }
}

/// Completes a package: tells the assignee, drops the assignment, clears the
/// blocking marks and resolves the dependents. Returns the notices to send,
/// in order. Fails, and changes nothing, where the package has no assignee.
pub fn complete_package(store: &mut Store, pkgname: &str) -> (r: Result<Vec<String>, WorkflowError>)
    ensures
        match complete(old(store)@, pkgname@) {
            Ok(c) => r is Ok && texts_view(r->Ok_0@) == c.notices && final(store)@ == c.store,
            Err(e) => r == Err::<Vec<String>, WorkflowError>(e) && final(store)@ == old(store)@,
        },
        old(store)@.valid() ==> final(store)@.valid(),
{
    let Ok(packager) = Packager::search(store, FindPackagerBy::Pkgname(pkgname)) else {
        return Err(WorkflowError::PreconditionFailed);
    };
    let mut notices: Vec<String> = Vec::new();
    let text = announce(pkgname, packager.alias.as_str(), packager.tg_uid);
    notices.push(text);
    proof {
        assert(texts_view(notices@) =~= seq![text@]);
    }
    if let Err(e) = drop_assign(store, pkgname, packager.tg_uid) {
        let ghost before = notices@;
        let text = drop_failed(e);
        notices.push(text);
        proof {
            assert(texts_view(notices@) =~= texts_view(before).push(text@));
        }
    }
    let marks = BlockingMark::all();
    let matches: [&str; 8] = [
        marks[0].name(),
        marks[1].name(),
        marks[2].name(),
        marks[3].name(),
        marks[4].name(),
        marks[5].name(),
        marks[6].name(),
        marks[7].name(),
    ];
    proof {
        assert(strs_view(matches@) =~= done_marks());
    }
    let ghost before = notices@;
    let text = match Mark::remove(store, pkgname, Some(matches.as_slice())) {
        Ok(deleted) => unmarked(pkgname, &deleted),
        Err(e) => marks_failed(pkgname, e),
    };
    notices.push(text);
    proof {
        assert(texts_view(notices@) =~= texts_view(before).push(text@));
    }
    let ghost n3 = texts_view(notices@);
    let report = clear_related_package(store, pkgname);
    let mut i: usize = 0;
    while i < report.replies.len()
        invariant
            i <= report.replies.len(),
            texts_view(notices@) == n3 + texts_view(report.replies@).take(i as int),
        decreases report.replies.len() - i,
    {
        let ghost before = notices@;
        notices.push(report.replies[i].clone());
        proof {
            assert(texts_view(notices@) =~= texts_view(before).push(report.replies@[i as int]@));
            assert(texts_view(report.replies@).take(i as int + 1) =~= texts_view(
                report.replies@,
            ).take(i as int).push(report.replies@[i as int]@));
        }
        i += 1;
    }
    proof {
        assert(texts_view(report.replies@).take(report.replies.len() as int) =~= texts_view(
            report.replies@,
        ));
    }
    if let Some(e) = report.error {
        let benign = match e {
            StoreError::NotFound(Missing::Relation) => true,
            _ => false,
        };
        if !benign {
            let ghost before = notices@;
            let text = cascade_failed(pkgname, e);
            notices.push(text);
            proof {
                assert(texts_view(notices@) =~= texts_view(before).push(text@));
            }
        }
    }
    Ok(notices)
}

} // verus!
