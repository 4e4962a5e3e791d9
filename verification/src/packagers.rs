//! Who a packager is, and who looks after which packages.

use crate::model::{packagers_view, Assignment, PackageView, Packager, PackagerView};
use crate::seqs::{
    any_where, first_where, lemma_filter_map_step, lemma_first_where_hit, lemma_first_where_miss,
    lemma_map_step,
};
use crate::store::{assigns_pkg, Missing, Store, StoreError, StoreView};
use crate::text::texts_view;
use vstd::prelude::*;

verus! {

/// How to look for a packager.
pub enum FindPackagerBy<'a> {
    /// The packager who is assigned to the package of this name.
    Pkgname(&'a str),
    /// The packager with this `tg_uid`.
    TgId(i64),
}

/// The packager that a lookup names: by `tg_uid` the packager who has it; by
/// package name the packager of the first assignment of the package with that
/// name.
pub open spec fn find_packager(s: StoreView, by: FindPackagerBy) -> Option<PackagerView> {
    match by {
        FindPackagerBy::TgId(uid) => s.packager(uid),
        FindPackagerBy::Pkgname(name) => assignee_of(s, name@),
    }
}

/// The packager who is assigned to the package of the given name: the
/// packager of the first assignment of that package.
pub open spec fn assignee_of(s: StoreView, name: Seq<char>) -> Option<PackagerView> {
    match s.package_named(name) {
        None => None,
        Some(p) => match first_where(s.assignments, assigns_pkg(p.id)) {
            None => None,
            Some(a) => s.packager(a.assignee),
        },
    }
}

/// The assignments that give the package `pkg` to the packager `uid`.
pub open spec fn links(uid: i64, pkg: i64) -> spec_fn(Assignment) -> bool {
    |a: Assignment| a.assignee == uid && a.pkg == pkg
}

/// The packages that some assignment gives to the packager `uid`.
pub open spec fn owned_by(assignments: Seq<Assignment>, uid: i64) -> spec_fn(PackageView) -> bool {
    |p: PackageView| any_where(assignments, links(uid, p.id))
}

/// The name of a package.
pub open spec fn name_of() -> spec_fn(PackageView) -> Seq<char> {
    |p: PackageView| p.name
}

/// One packager with the names of the packages assigned to them.
pub struct WorkListUnit {
    /// The packager's display name.
    pub alias: String,
    /// The names of the packager's packages, in the order of the package table.
    pub assign: Vec<String>,
}

/// What a [`WorkListUnit`] says.
pub struct WorkListUnitView {
    pub alias: Seq<char>,
    pub assign: Seq<Seq<char>>,
}

impl View for WorkListUnit {
    type V = WorkListUnitView;

    open spec fn view(&self) -> WorkListUnitView {
        WorkListUnitView { alias: self.alias@, assign: texts_view(self.assign@) }
    }
}

/// The views of a run of work-list entries.
pub open spec fn work_list_view(v: Seq<WorkListUnit>) -> Seq<WorkListUnitView> {
    v.map_values(|u: WorkListUnit| u@)
}

/// The work-list entry of one packager.
pub open spec fn work_unit(s: StoreView) -> spec_fn(PackagerView) -> WorkListUnitView {
    |p: PackagerView|
        WorkListUnitView {
            alias: p.alias,
            assign: s.packages.filter(owned_by(s.assignments, p.tg_uid)).map_values(name_of()),
        }
}

/// The work list: one entry per packager, in the order of the packager table.
pub open spec fn working_list(s: StoreView) -> Seq<WorkListUnitView> {
    s.packagers.map_values(work_unit(s))
}

impl Packager {
    /// Finds a packager by `tg_uid`, or as the assignee of a package.
    /// Fails with `NotFound` where there is no such packager, which for a
    /// package name includes a package without assignment.
    pub fn search(store: &Store, props: FindPackagerBy<'_>) -> (r: Result<Packager, StoreError>)
        ensures
            match find_packager(store@, props) {
                Some(p) => r is Ok && r->Ok_0@ == p,
                None => r == Err::<Packager, StoreError>(StoreError::NotFound(Missing::Packager)),
            },
    {
        let uid: i64 = match props {
            FindPackagerBy::TgId(uid) => uid,
            FindPackagerBy::Pkgname(name) => {
                let Some(at) = store.find_package(name) else {
                    return Err(StoreError::NotFound(Missing::Packager));
                };
                let pkg_id: i64 = store.packages()[at].id;
                let Some(a) = first_assignment_of(store.assignments(), pkg_id) else {
                    return Err(StoreError::NotFound(Missing::Packager));
                };
                a.assignee
            },
        };
        match store.find_packager(uid) {
            Some(at) => Ok(store.packagers()[at].clone()),
            None => Err(StoreError::NotFound(Missing::Packager)),
        }
    }
}

/// The first assignment of the package with id `pkg`.
fn first_assignment_of(assignments: &Vec<Assignment>, pkg: i64) -> (r: Option<Assignment>)
    ensures
        r == first_where(assignments@, assigns_pkg(pkg)),
{
    let mut i: usize = 0;
    while i < assignments.len()
        invariant
            i <= assignments.len(),
            forall|j: int| 0 <= j < i ==> !assigns_pkg(pkg)(#[trigger] assignments@[j]),
        decreases assignments.len() - i,
    {
        if assignments[i].pkg == pkg {
            proof {
                lemma_first_where_hit(assignments@, assigns_pkg(pkg), i as int);
            }
            return Some(assignments[i]);
        }
        i += 1;
    }
    proof {
        lemma_first_where_miss(assignments@, assigns_pkg(pkg));
    }
    None
}

/// Whether some assignment gives the package `pkg` to the packager `uid`.
fn is_owner(assignments: &Vec<Assignment>, uid: i64, pkg: i64) -> (r: bool)
    ensures
        r == any_where(assignments@, links(uid, pkg)),
{
    let mut i: usize = 0;
    while i < assignments.len()
        invariant
            i <= assignments.len(),
            forall|j: int| 0 <= j < i ==> !links(uid, pkg)(#[trigger] assignments@[j]),
        decreases assignments.len() - i,
    {
        if assignments[i].assignee == uid && assignments[i].pkg == pkg {
            assert(links(uid, pkg)(assignments@[i as int]));
            return true;
        }
        i += 1;
    }
    false
}

/// Lists every packager with the names of the packages assigned to them; a
/// packager without packages is listed with none.
pub fn get_working_list(store: &Store) -> (r: Vec<WorkListUnit>)
    ensures
        work_list_view(r@) == working_list(store@),
{
    let packagers = store.packagers();
    let packages = store.packages();
    let assignments = store.assignments();
    let ghost s = store@;
    let mut list: Vec<WorkListUnit> = Vec::new();
    let mut i: usize = 0;
    while i < packagers.len()
        invariant
            i <= packagers.len(),
            s == store@,
            packagers_view(packagers@) == s.packagers,
            crate::model::packages_view(packages@) == s.packages,
            assignments@ == s.assignments,
            work_list_view(list@) == s.packagers.take(i as int).map_values(work_unit(s)),
        decreases packagers.len() - i,
    {
        let uid: i64 = packagers[i].tg_uid;
        let ghost owned = owned_by(s.assignments, uid);
        let mut assign: Vec<String> = Vec::new();
        let mut j: usize = 0;
        while j < packages.len()
            invariant
                j <= packages.len(),
                crate::model::packages_view(packages@) == s.packages,
                assignments@ == s.assignments,
                owned == owned_by(s.assignments, uid),
                texts_view(assign@) == s.packages.take(j as int).filter(owned).map_values(
                    name_of(),
                ),
            decreases packages.len() - j,
        {
            proof {
                lemma_filter_map_step(s.packages, owned, name_of(), j as int);
                assert(s.packages[j as int] == packages@[j as int]@);
            }
            if is_owner(assignments, uid, packages[j].id) {
                let ghost before = assign@;
                assign.push(packages[j].name.clone());
                proof {
                    assert(texts_view(assign@) =~= texts_view(before).push(
                        packages@[j as int].name@,
                    ));
                }
            }
            j += 1;
        }
        proof {
            assert(s.packages.take(packages.len() as int) =~= s.packages);
            lemma_map_step(s.packagers, work_unit(s), i as int);
            assert(s.packagers[i as int] == packagers@[i as int]@);
        }
        let ghost before = list@;
        let unit = WorkListUnit { alias: packagers[i].alias.clone(), assign };
        list.push(unit);
        proof {
            assert(unit@ == work_unit(s)(s.packagers[i as int]));
            assert(work_list_view(list@) =~= work_list_view(before).push(unit@));
        }
        i += 1;
    }
    proof {
        assert(s.packagers.take(packagers.len() as int) =~= s.packagers);
    }
    list
}

} // verus!
