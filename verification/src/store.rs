//! The store: the five tables, what it means for them to be well formed, and
//! how rows enter them.

use crate::model::{
    marks_view, packagers_view, packages_view, relations_view, Assignment, Mark, MarkView,
    Package, PackageView, Packager, PackagerView, Relation, RelationView,
};
use crate::seqs::{any_where, first_where, lemma_first_where_is};
use vstd::prelude::*;

verus! {

/// What a lookup did not find.
#[derive(Clone, Copy, PartialEq, Eq, Structural, Debug)]
pub enum Missing {
    /// No packager matched.
    Packager,
    /// No package matched.
    Package,
    /// No relation matched.
    Relation,
}

/// Why a store operation did not do what was asked.
#[derive(Clone, Copy, PartialEq, Eq, Structural, Debug)]
pub enum StoreError {
    /// No row matched the lookup.
    NotFound(Missing),
    /// A removal matched no row.
    NothingRemoved,
    /// The packager holds no assignment at all.
    NoAssignments,
    /// The packager holds assignments, but none for the package.
    NotAssigned,
    /// A row with the same unique key is already there.
    Duplicate,
}

/// The five tables as mathematical sequences, in insertion order.
pub struct StoreView {
    pub packagers: Seq<PackagerView>,
    pub packages: Seq<PackageView>,
    pub assignments: Seq<Assignment>,
    pub marks: Seq<MarkView>,
    pub relations: Seq<RelationView>,
}

/// The packagers whose `tg_uid` is `uid`.
pub open spec fn has_uid(uid: i64) -> spec_fn(PackagerView) -> bool {
    |p: PackagerView| p.tg_uid == uid
}

/// The packages whose id is `id`.
pub open spec fn has_id(id: i64) -> spec_fn(PackageView) -> bool {
    |p: PackageView| p.id == id
}

/// The packages whose name is `name`.
pub open spec fn has_name(name: Seq<char>) -> spec_fn(PackageView) -> bool {
    |p: PackageView| p.name == name
}

/// The assignments of the package with id `pkg`.
pub open spec fn assigns_pkg(pkg: i64) -> spec_fn(Assignment) -> bool {
    |a: Assignment| a.pkg == pkg
}

/// The assignments held by the packager `uid`.
pub open spec fn held_by(uid: i64) -> spec_fn(Assignment) -> bool {
    |a: Assignment| a.assignee == uid
}

/// The marks on the package with id `pkg`.
pub open spec fn on_pkg(pkg: i64) -> spec_fn(MarkView) -> bool {
    |m: MarkView| m.marked_for == pkg
}

impl StoreView {
    /// No two packagers share a `tg_uid`, and no two packages share an id or
    /// a name.
    pub open spec fn valid(self) -> bool {
        &&& forall|i: int, j: int|
            0 <= i < j < self.packagers.len() ==> (#[trigger] self.packagers[i]).tg_uid != (
            #[trigger] self.packagers[j]).tg_uid
        &&& forall|i: int, j: int|
            0 <= i < j < self.packages.len() ==> (#[trigger] self.packages[i]).id != (
            #[trigger] self.packages[j]).id
        &&& forall|i: int, j: int|
            0 <= i < j < self.packages.len() ==> (#[trigger] self.packages[i]).name != (
            #[trigger] self.packages[j]).name
    }

    /// The packager with the given `tg_uid`.
    pub open spec fn packager(self, uid: i64) -> Option<PackagerView> {
        first_where(self.packagers, has_uid(uid))
    }

    /// The package with the given name.
    pub open spec fn package_named(self, name: Seq<char>) -> Option<PackageView> {
        first_where(self.packages, has_name(name))
    }

    /// The packager, if any, that an optional `tg_uid` refers to.
    pub open spec fn packager_opt(self, uid: Option<i64>) -> Option<PackagerView> {
        match uid {
            Some(u) => self.packager(u),
            None => None,
        }
    }

    /// Whether two stores hold the same packagers and packages.
    pub open spec fn same_people_and_packages(self, other: StoreView) -> bool {
        self.packagers == other.packagers && self.packages == other.packages
    }
}

/// The durable home of packagers, packages, assignments, marks and relations.
///
/// A store made by [`Store::new`] and filled through its own methods is
/// always `valid`: every method that changes it keeps it so.
pub struct Store {
    packagers: Vec<Packager>,
    packages: Vec<Package>,
    assignments: Vec<Assignment>,
    marks: Vec<Mark>,
    relations: Vec<Relation>,
}

impl View for Store {
    type V = StoreView;

    closed spec fn view(&self) -> StoreView {
        StoreView {
            packagers: packagers_view(self.packagers@),
            packages: packages_view(self.packages@),
            assignments: self.assignments@,
            marks: marks_view(self.marks@),
            relations: relations_view(self.relations@),
        }
    }
}

impl Store {
    /// A store with five empty tables.
    pub fn new() -> (r: Store)
        ensures
            r@.packagers.len() == 0,
            r@.packages.len() == 0,
            r@.assignments.len() == 0,
            r@.marks.len() == 0,
            r@.relations.len() == 0,
            r@.valid(),
    {
        Store {
            packagers: Vec::new(),
            packages: Vec::new(),
            assignments: Vec::new(),
            marks: Vec::new(),
            relations: Vec::new(),
        }
    }

    /// Adds a packager. Refused with `Duplicate`, and nothing changes, where
    /// a packager with that `tg_uid` is already there.
    pub fn add_packager(&mut self, packager: Packager) -> (r: Result<(), StoreError>)
        ensures
            old(self)@.packager(packager.tg_uid) is Some ==> r == Err::<(), StoreError>(
                StoreError::Duplicate,
            ) && final(self)@ == old(self)@,
            old(self)@.packager(packager.tg_uid) is None ==> r is Ok && final(self)@ == (StoreView {
                packagers: old(self)@.packagers.push(packager@),
                ..old(self)@
            }),
            old(self)@.valid() ==> final(self)@.valid(),
    {
        if self.find_packager(packager.tg_uid).is_some() {
            return Err(StoreError::Duplicate);
        }
        proof {
            lemma_first_where_is(self@.packagers, has_uid(packager.tg_uid));
        }
        let ghost before = self@;
        self.packagers.push(packager);
        proof {
            assert(self@.packagers =~= before.packagers.push(packager@));
            assert(self@.packages == before.packages);
        }
        Ok(())
    }

    /// Adds a package. Refused with `Duplicate`, and nothing changes, where a
    /// package with that id or that name is already there.
    pub fn add_package(&mut self, package: Package) -> (r: Result<(), StoreError>)
        ensures
            ({
                let taken = any_where(old(self)@.packages, has_id(package.id)) || any_where(
                    old(self)@.packages,
                    has_name(package.name@),
                );
                if taken {
                    r == Err::<(), StoreError>(StoreError::Duplicate) && final(self)@ == old(self)@
                } else {
                    r is Ok && final(self)@ == (StoreView {
                        packages: old(self)@.packages.push(package@),
                        ..old(self)@
                    })
                }
            }),
            old(self)@.valid() ==> final(self)@.valid(),
    {
        let mut i: usize = 0;
        while i < self.packages.len()
            invariant
                i <= self.packages.len(),
                forall|j: int|
                    0 <= j < i ==> self.packages@[j].id != package.id && self.packages@[j].name@
                        != package.name@,
            decreases self.packages.len() - i,
        {
            if self.packages[i].id == package.id {
                proof {
                    assert(has_id(package.id)(self@.packages[i as int]));
                }
                return Err(StoreError::Duplicate);
            }
            if self.packages[i].name == package.name {
                proof {
                    assert(has_name(package.name@)(self@.packages[i as int]));
                }
                return Err(StoreError::Duplicate);
            }
            i += 1;
        }
        proof {
            assert forall|j: int| 0 <= j < self@.packages.len() implies !has_id(package.id)(
                #[trigger] self@.packages[j],
            ) && !has_name(package.name@)(self@.packages[j]) by {
                assert(self@.packages[j] == self.packages@[j]@);
            }
        }
        let ghost before = self@;
        self.packages.push(package);
        proof {
            assert(self@.packages =~= before.packages.push(package@));
            assert(self@.packagers == before.packagers);
        }
        Ok(())
    }

    /// Adds an assignment.
    pub fn add_assignment(&mut self, assignment: Assignment)
        ensures
            final(self)@ == (StoreView {
                assignments: old(self)@.assignments.push(assignment),
                ..old(self)@
            }),
            old(self)@.valid() ==> final(self)@.valid(),
    {
        let ghost before = self@;
        self.assignments.push(assignment);
        proof {
            assert(self@.packagers == before.packagers);
            assert(self@.packages == before.packages);
        }
    }

    /// Adds a mark. The package it names need not exist: such a mark is
    /// never listed and never removed.
    pub fn add_mark(&mut self, mark: Mark)
        ensures
            final(self)@ == (StoreView { marks: old(self)@.marks.push(mark@), ..old(self)@ }),
            old(self)@.valid() ==> final(self)@.valid(),
    {
        let ghost before = self@;
        self.marks.push(mark);
        proof {
            assert(self@.packagers == before.packagers);
            assert(self@.packages == before.packages);
            assert(self@.marks =~= before.marks.push(mark@));
        }
    }

    /// Adds a relation, provided both of its packages exist. Refused with
    /// `NotFound`, and nothing changes, where one of them does not.
    pub fn add_relation(&mut self, relation: Relation) -> (r: Result<(), StoreError>)
        ensures
            ({
                let both = old(self)@.package_named(relation.request@) is Some && old(
                    self,
                )@.package_named(relation.required@) is Some;
                if both {
                    r is Ok && final(self)@ == (StoreView {
                        relations: old(self)@.relations.push(relation@),
                        ..old(self)@
                    })
                } else {
                    r == Err::<(), StoreError>(StoreError::NotFound(Missing::Package))
                        && final(self)@ == old(self)@
                }
            }),
            old(self)@.valid() ==> final(self)@.valid(),
    {
        let a = self.find_package(relation.request.as_str());
        let b = self.find_package(relation.required.as_str());
        if a.is_none() || b.is_none() {
            return Err(StoreError::NotFound(Missing::Package));
        }
        let ghost before = self@;
        self.relations.push(relation);
        proof {
            assert(self@.packagers == before.packagers);
            assert(self@.packages == before.packages);
            assert(self@.relations =~= before.relations.push(relation@));
        }
        Ok(())
    }


    /// The packager rows, in insertion order.
    pub fn packagers(&self) -> (r: &Vec<Packager>)
        ensures
            packagers_view(r@) == self@.packagers,
    {
        &self.packagers
    }

    /// The package rows, in insertion order.
    pub fn packages(&self) -> (r: &Vec<Package>)
        ensures
            packages_view(r@) == self@.packages,
    {
        &self.packages
    }

    /// The assignment rows, in insertion order.
    pub fn assignments(&self) -> (r: &Vec<Assignment>)
        ensures
            r@ == self@.assignments,
    {
        &self.assignments
    }

    /// The mark rows, in insertion order.
    pub fn marks(&self) -> (r: &Vec<Mark>)
        ensures
            marks_view(r@) == self@.marks,
    {
        &self.marks
    }

    /// The relation rows, in insertion order.
    pub fn relations(&self) -> (r: &Vec<Relation>)
        ensures
            relations_view(r@) == self@.relations,
    {
        &self.relations
    }

    /// Puts `rows` in place of the assignment table.
    pub(crate) fn replace_assignments(&mut self, rows: Vec<Assignment>)
        ensures
            final(self)@ == (StoreView { assignments: rows@, ..old(self)@ }),
    {
        self.assignments = rows;
    }

    /// Puts `rows` in place of the mark table.
    pub(crate) fn replace_marks(&mut self, rows: Vec<Mark>)
        ensures
            final(self)@ == (StoreView { marks: marks_view(rows@), ..old(self)@ }),
    {
        self.marks = rows;
    }

    /// Puts `rows` in place of the relation table.
    pub(crate) fn replace_relations(&mut self, rows: Vec<Relation>)
        ensures
            final(self)@ == (StoreView { relations: relations_view(rows@), ..old(self)@ }),
    {
        self.relations = rows;
    }

    /// The position of the package with the given name.
    pub(crate) fn find_package(&self, name: &str) -> (r: Option<usize>)
        ensures
            match r {
                Some(i) => i < self@.packages.len() && self@.package_named(name@) == Some(
                    self@.packages[i as int],
                ),
                None => self@.package_named(name@) is None,
            },
    {
        let wanted = name.to_owned();
        let mut i: usize = 0;
        while i < self.packages.len()
            invariant
                i <= self.packages.len(),
                wanted@ == name@,
                forall|j: int| 0 <= j < i ==> !has_name(name@)(#[trigger] self@.packages[j]),
            decreases self.packages.len() - i,
        {
            if self.packages[i].name == wanted {
                proof {
                    assert(has_name(name@)(self@.packages[i as int]));
                    crate::seqs::lemma_first_where_hit(self@.packages, has_name(name@), i as int);
                }
                return Some(i);
            }
            i += 1;
        }
        proof {
            crate::seqs::lemma_first_where_miss(self@.packages, has_name(name@));
        }
        None
    }

    /// The position of the packager with the given `tg_uid`.
    pub(crate) fn find_packager(&self, uid: i64) -> (r: Option<usize>)
        ensures
            match r {
                Some(i) => i < self@.packagers.len() && self@.packager(uid) == Some(
                    self@.packagers[i as int],
                ),
                None => self@.packager(uid) is None,
            },
    {
        let mut i: usize = 0;
        while i < self.packagers.len()
            invariant
                i <= self.packagers.len(),
                forall|j: int| 0 <= j < i ==> !has_uid(uid)(#[trigger] self@.packagers[j]),
            decreases self.packagers.len() - i,
        {
            if self.packagers[i].tg_uid == uid {
                proof {
                    assert(has_uid(uid)(self@.packagers[i as int]));
                    crate::seqs::lemma_first_where_hit(self@.packagers, has_uid(uid), i as int);
                }
                return Some(i);
            }
            i += 1;
        }
        proof {
            crate::seqs::lemma_first_where_miss(self@.packagers, has_uid(uid));
        }
        None
    }
}

} // verus!
