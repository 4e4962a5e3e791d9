//! The blocking edges between packages: finding and removing them.

use crate::model::{
    packagers_view, packages_view, relations_view, PackageView, Packager, PackagerView, Relation,
    RelationView,
};
use crate::packages::Pkg;
use crate::seqs::{lemma_filter_map_step, lemma_filter_step, not_where};
use crate::store::{Missing, Store, StoreError, StoreView};
use crate::text::{contains_text, same_text, strs_view};
use vstd::prelude::*;

verus! {

/// A blocking edge with both packages and its author looked up.
pub struct PkgRelation {
    /// The kind of the edge.
    pub relation: String,
    /// The package that is blocked.
    pub request: Pkg,
    /// The package that it waits for.
    pub required: Pkg,
    /// The packager who recorded the edge, where the edge names one and the
    /// store knows them.
    pub created_by: Option<Packager>,
}

/// What a [`PkgRelation`] says.
pub struct PkgRelationView {
    pub relation: Seq<char>,
    pub request: PackageView,
    pub required: PackageView,
    pub created_by: Option<PackagerView>,
}

/// The view of a packager who may be absent.
pub open spec fn opt_packager_view(p: Option<Packager>) -> Option<PackagerView> {
    match p {
        Some(q) => Some(q@),
        None => None,
    }
}

impl View for PkgRelation {
    type V = PkgRelationView;

    open spec fn view(&self) -> PkgRelationView {
        PkgRelationView {
            relation: self.relation@,
            request: self.request@,
            required: self.required@,
            created_by: opt_packager_view(self.created_by),
        }
    }
}

impl Clone for PkgRelation {
    fn clone(&self) -> (r: Self)
        ensures
            r@ == self@,
    {
        PkgRelation {
            relation: self.relation.clone(),
            request: self.request.clone(),
            required: self.required.clone(),
            created_by: match &self.created_by {
                Some(p) => Some(p.clone()),
                None => None,
            },
        }
    }
}

/// The views of a run of looked-up edges.
pub open spec fn pkg_relations_view(v: Seq<PkgRelation>) -> Seq<PkgRelationView> {
    v.map_values(|r: PkgRelation| r@)
}

/// In which direction to look for edges.
pub enum PkgRelationSearchBy<'a> {
    /// The edges whose blocker (`required`) is one of these names.
    Require(&'a [&'a str]),
    /// The edges whose blocked package (`request`) is one of these names.
    Related(&'a [&'a str]),
}

/// A choice of edges: each part that is present must hold of an edge.
pub struct Choice {
    /// The kind the edge must have.
    pub relation: Option<Seq<char>>,
    /// The names one of which the blocked package must have.
    pub request: Option<Seq<Seq<char>>>,
    /// The names one of which the blocker must have.
    pub required: Option<Seq<Seq<char>>>,
}

/// The edges that a choice takes.
pub open spec fn chosen(c: Choice) -> spec_fn(RelationView) -> bool {
    |r: RelationView|
        {
            &&& c.relation matches Some(k) ==> r.relation == k
            &&& c.request matches Some(names) ==> names.contains(r.request)
            &&& c.required matches Some(names) ==> names.contains(r.required)
        }
}

/// The choice that a search direction and an optional kind make.
pub open spec fn choice_of(relation: Option<Seq<char>>, by: PkgRelationSearchBy) -> Choice {
    match by {
        PkgRelationSearchBy::Require(names) => Choice {
            relation,
            request: None,
            required: Some(strs_view(names@)),
        },
        PkgRelationSearchBy::Related(names) => Choice {
            relation,
            request: Some(strs_view(names@)),
            required: None,
        },
    }
}

/// The choice of the one edge of a given kind between two named packages.
pub open spec fn edge_choice(relation: Seq<char>, request: Seq<char>, required: Seq<char>) -> Choice {
    Choice { relation: Some(relation), request: Some(seq![request]), required: Some(seq![required]) }
}

/// The edges both of whose packages exist.
pub open spec fn resolves(s: StoreView) -> spec_fn(RelationView) -> bool {
    |r: RelationView| s.package_named(r.request) is Some && s.package_named(r.required) is Some
}

/// An edge with its packages and its author looked up.
pub open spec fn linked(s: StoreView) -> spec_fn(RelationView) -> PkgRelationView {
    |r: RelationView|
        PkgRelationView {
            relation: r.relation,
            request: s.package_named(r.request).unwrap(),
            required: s.package_named(r.required).unwrap(),
            created_by: s.packager_opt(r.created_by),
        }
}

/// The rows that can be looked up, looked up: a row one of whose packages
/// does not exist is passed over in silence.
pub open spec fn wrapped(s: StoreView, rows: Seq<RelationView>) -> Seq<PkgRelationView> {
    rows.filter(resolves(s)).map_values(linked(s))
}

/// What a lookup of rows returns: the looked-up rows, or `NotFound` where
/// there is none.
pub open spec fn wrap_up_result(s: StoreView, rows: Seq<RelationView>) -> Result<
    Seq<PkgRelationView>,
    StoreError,
> {
    if wrapped(s, rows).len() == 0 {
        Err(StoreError::NotFound(Missing::Relation))
    } else {
        Ok(wrapped(s, rows))
    }
}

/// Whether an exec result is the given looked-up rows or the given error.
pub open spec fn agrees(
    r: Result<Vec<PkgRelation>, StoreError>,
    want: Result<Seq<PkgRelationView>, StoreError>,
) -> bool {
    match want {
        Ok(rows) => r is Ok && pkg_relations_view(r->Ok_0@) == rows,
        Err(e) => r == Err::<Vec<PkgRelation>, StoreError>(e),
    }
}

/// The store without the edges that a choice takes.
pub open spec fn without(s: StoreView, c: Choice) -> StoreView {
    StoreView { relations: s.relations.filter(not_where(chosen(c))), ..s }
}

/// A choice in executable form.
struct Picker<'a> {
    relation: Option<&'a str>,
    request: Option<&'a [&'a str]>,
    required: Option<&'a [&'a str]>,
}

impl<'a> Picker<'a> {
    spec fn choice(self) -> Choice {
        Choice {
            relation: match self.relation {
                Some(k) => Some(k@),
                None => None,
            },
            request: match self.request {
                Some(n) => Some(strs_view(n@)),
                None => None,
            },
            required: match self.required {
                Some(n) => Some(strs_view(n@)),
                None => None,
            },
        }
    }

    fn of(relation: Option<&'a str>, by: &PkgRelationSearchBy<'a>) -> (r: Picker<'a>)
        ensures
            r.choice() == choice_of(
                match relation {
                    Some(k) => Some(k@),
                    None => None,
                },
                *by,
            ),
    {
        match by {
            PkgRelationSearchBy::Require(names) => Picker {
                relation,
                request: None,
                required: Some(*names),
            },
            PkgRelationSearchBy::Related(names) => Picker {
                relation,
                request: Some(*names),
                required: None,
            },
        }
    }

    fn takes(&self, row: &Relation) -> (r: bool)
        ensures
            r == chosen(self.choice())(row@),
    {
        let kind_ok = match self.relation {
            Some(k) => same_text(row.relation.as_str(), k),
            None => true,
        };
        let request_ok = match self.request {
            Some(n) => contains_text(n, row.request.as_str()),
            None => true,
        };
        let required_ok = match self.required {
            Some(n) => contains_text(n, row.required.as_str()),
            None => true,
        };
        kind_ok && request_ok && required_ok
    }
}

/// Splits the relation table into the rows that a picker takes and the rest.
fn split(store: &Store, picker: &Picker<'_>) -> (r: (Vec<Relation>, Vec<Relation>))
    ensures
        relations_view(r.0@) == store@.relations.filter(chosen(picker.choice())),
        relations_view(r.1@) == store@.relations.filter(not_where(chosen(picker.choice()))),
{
    let rows = store.relations();
    let ghost s = store@;
    let ghost hit = chosen(picker.choice());
    let mut taken: Vec<Relation> = Vec::new();
    let mut rest: Vec<Relation> = Vec::new();
    let mut i: usize = 0;
    while i < rows.len()
        invariant
            i <= rows.len(),
            relations_view(rows@) == s.relations,
            hit == chosen(picker.choice()),
            relations_view(taken@) == s.relations.take(i as int).filter(hit),
            relations_view(rest@) == s.relations.take(i as int).filter(not_where(hit)),
        decreases rows.len() - i,
    {
        proof {
            lemma_filter_step(s.relations, hit, i as int);
            lemma_filter_step(s.relations, not_where(hit), i as int);
            assert(s.relations[i as int] == rows@[i as int]@);
        }
        if picker.takes(&rows[i]) {
            let ghost before = taken@;
            taken.push(rows[i].clone());
            proof {
                assert(relations_view(taken@) =~= relations_view(before).push(rows@[i as int]@));
            }
        } else {
            let ghost before = rest@;
            rest.push(rows[i].clone());
            proof {
                assert(relations_view(rest@) =~= relations_view(before).push(rows@[i as int]@));
            }
        }
        i += 1;
    }
    proof {
        assert(s.relations.take(rows.len() as int) =~= s.relations);
    }
    (taken, rest)
}

impl PkgRelation {
    /// Looks up the packages and the author of each row. A row one of whose
    /// packages does not exist is passed over. Fails with `NotFound` where
    /// no row is left.
    pub fn wrap_up(store: &Store, row: Vec<Relation>) -> (r: Result<Vec<PkgRelation>, StoreError>)
        ensures
            agrees(r, wrap_up_result(store@, relations_view(row@))),
    {
        let ghost s = store@;
        let ghost rows = relations_view(row@);
        let packages = store.packages();
        let packagers = store.packagers();
        let mut ret: Vec<PkgRelation> = Vec::new();
        let mut i: usize = 0;
        while i < row.len()
            invariant
                i <= row.len(),
                s == store@,
                rows == relations_view(row@),
                packages_view(packages@) == s.packages,
                packagers_view(packagers@) == s.packagers,
                pkg_relations_view(ret@) == rows.take(i as int).filter(resolves(s)).map_values(
                    linked(s),
                ),
            decreases row.len() - i,
        {
            proof {
                lemma_filter_map_step(rows, resolves(s), linked(s), i as int);
                assert(rows[i as int] == row@[i as int]@);
            }
            let request = store.find_package(row[i].request.as_str());
            let required = store.find_package(row[i].required.as_str());
            if let (Some(a), Some(b)) = (request, required) {
                let created_by: Option<Packager> = match row[i].created_by {
                    Some(uid) => match store.find_packager(uid) {
                        Some(at) => {
                            assert(s.packagers[at as int] == packagers@[at as int]@);
                            Some(packagers[at].clone())
                        },
                        None => None,
                    },
                    None => None,
                };
                assert(s.packages[a as int] == packages@[a as int]@);
                assert(s.packages[b as int] == packages@[b as int]@);
                let pkg_relation = PkgRelation {
                    relation: row[i].relation.clone(),
                    request: Pkg::of(&packages[a]),
                    required: Pkg::of(&packages[b]),
                    created_by,
                };
                let ghost before = ret@;
                ret.push(pkg_relation);
                proof {
                    assert(pkg_relation@ == linked(s)(rows[i as int]));
                    assert(pkg_relations_view(ret@) =~= pkg_relations_view(before).push(
                        pkg_relation@,
                    ));
                }
            }
            i += 1;
        }
        proof {
            assert(rows.take(row.len() as int) =~= rows);
            assert(pkg_relations_view(ret@).len() == ret@.len());
        }
        if ret.len() == 0 {
            return Err(StoreError::NotFound(Missing::Relation));
        }
        Ok(ret)
    }

    /// Finds the edges whose blocker, or whose blocked package, is one of the
    /// given names, and looks them up. Fails with `NotFound` where none is
    /// found.
    pub fn search(store: &Store, prop: PkgRelationSearchBy<'_>) -> (r: Result<
        Vec<PkgRelation>,
        StoreError,
    >)
        ensures
            agrees(
                r,
                wrap_up_result(store@, store@.relations.filter(chosen(choice_of(None, prop)))),
            ),
    {
        let picker = Picker::of(None, &prop);
        let (taken, _) = split(store, &picker);
        PkgRelation::wrap_up(store, taken)
    }

    /// Removes the edges of the given kind whose blocker, or whose blocked
    /// package, is one of the given names, and returns them looked up. The
    /// edges are removed also where the lookup then fails with `NotFound`.
    pub fn remove(store: &mut Store, relation: &str, prop: PkgRelationSearchBy<'_>) -> (r: Result<
        Vec<PkgRelation>,
        StoreError,
    >)
        ensures
            agrees(
                r,
                wrap_up_result(
                    old(store)@,
                    old(store)@.relations.filter(chosen(choice_of(Some(relation@), prop))),
                ),
            ),
            final(store)@ == without(old(store)@, choice_of(Some(relation@), prop)),
            old(store)@.valid() ==> final(store)@.valid(),
    {
        let picker = Picker::of(Some(relation), &prop);
        let (taken, rest) = split(store, &picker);
        let ghost before = store@;
        store.replace_relations(rest);
        proof {
            assert(store@.packages == before.packages);
            assert(store@.packagers == before.packagers);
            lemma_wrapped_frame(before, store@, relations_view(taken@));
        }
        PkgRelation::wrap_up(store, taken)
    }

    /// Removes the edge of the given kind from `request` to `required`, every
    /// copy of it, and returns what was removed, looked up.
    pub fn remove_edge(store: &mut Store, relation: &str, request: &str, required: &str) -> (r:
        Result<Vec<PkgRelation>, StoreError>)
        ensures
            agrees(
                r,
                wrap_up_result(
                    old(store)@,
                    old(store)@.relations.filter(
                        chosen(edge_choice(relation@, request@, required@)),
                    ),
                ),
            ),
            final(store)@ == without(old(store)@, edge_choice(relation@, request@, required@)),
            old(store)@.valid() ==> final(store)@.valid(),
    {
        let from: [&str; 1] = [request];
        let to: [&str; 1] = [required];
        let picker = Picker {
            relation: Some(relation),
            request: Some(from.as_slice()),
            required: Some(to.as_slice()),
        };
        proof {
            assert(strs_view(from@) =~= seq![request@]);
            assert(strs_view(to@) =~= seq![required@]);
        }
        let (taken, rest) = split(store, &picker);
        let ghost before = store@;
        store.replace_relations(rest);
        proof {
            lemma_wrapped_frame(before, store@, relations_view(taken@));
        }
        PkgRelation::wrap_up(store, taken)
    }
}

/// Looking rows up depends on the packagers and the packages alone.
pub proof fn lemma_wrapped_frame(a: StoreView, b: StoreView, rows: Seq<RelationView>)
    requires
        a.same_people_and_packages(b),
    ensures
        wrapped(a, rows) == wrapped(b, rows),
        wrap_up_result(a, rows) == wrap_up_result(b, rows),
{
    assert forall|i: int| 0 <= i < rows.len() implies resolves(a)(#[trigger] rows[i]) == resolves(
        b,
    )(rows[i]) by {}
    crate::seqs::lemma_filter_agree(rows, resolves(a), resolves(b));
    let kept = rows.filter(resolves(a));
    assert(kept.map_values(linked(a)) =~= kept.map_values(linked(b)));
}

} // verus!
