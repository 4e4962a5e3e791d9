//! Looking packages up.

use crate::model::{packages_view, Package, PackageView};
use crate::seqs::lemma_filter_map_step;
use crate::store::{has_id, has_name, Store, StoreView};
use vstd::prelude::*;

verus! {

/// A package as a query reports it.
pub struct Pkg {
    /// The package's id.
    pub id: i64,
    /// The package's name.
    pub name: String,
}

impl View for Pkg {
    type V = PackageView;

    open spec fn view(&self) -> PackageView {
        PackageView { id: self.id, name: self.name@ }
    }
}

impl Clone for Pkg {
    fn clone(&self) -> (r: Self)
        ensures
            r@ == self@,
    {
        Pkg { id: self.id, name: self.name.clone() }
    }
}

/// The views of a run of reported packages.
pub open spec fn pkgs_view(v: Seq<Pkg>) -> Seq<PackageView> {
    v.map_values(|p: Pkg| p@)
}

/// How to look for packages.
pub enum SearchPkgBy {
    /// The package with this id.
    Id(i64),
    /// The package with this name.
    Name(String),
}

/// The packages that a search asks for.
pub open spec fn pkg_hits(by: SearchPkgBy) -> spec_fn(PackageView) -> bool {
    match by {
        SearchPkgBy::Id(id) => has_id(id),
        SearchPkgBy::Name(name) => has_name(name@),
    }
}

/// A package row as it is.
pub open spec fn same_pkg() -> spec_fn(PackageView) -> PackageView {
    |p: PackageView| p
}

/// The packages that a search finds, in the order of the package table.
pub open spec fn found_pkgs(s: StoreView, by: SearchPkgBy) -> Seq<PackageView> {
    s.packages.filter(pkg_hits(by)).map_values(same_pkg())
}

impl Pkg {
    /// The report of a package row.
    pub fn of(row: &Package) -> (r: Pkg)
        ensures
            r@ == row@,
    {
        Pkg { id: row.id, name: row.name.clone() }
    }

    /// Finds the packages with a given id or a given name; none is no error.
    pub fn search(store: &Store, prop: SearchPkgBy) -> (r: Vec<Pkg>)
        ensures
            pkgs_view(r@) == found_pkgs(store@, prop),
    {
        let packages = store.packages();
        let ghost s = store@;
        let ghost hits = pkg_hits(prop);
        let mut found: Vec<Pkg> = Vec::new();
        let mut i: usize = 0;
        while i < packages.len()
            invariant
                i <= packages.len(),
                packages_view(packages@) == s.packages,
                hits == pkg_hits(prop),
                pkgs_view(found@) == s.packages.take(i as int).filter(hits).map_values(same_pkg()),
            decreases packages.len() - i,
        {
            proof {
                lemma_filter_map_step(s.packages, hits, same_pkg(), i as int);
                assert(s.packages[i as int] == packages@[i as int]@);
            }
            let hit = match &prop {
                SearchPkgBy::Id(id) => packages[i].id == *id,
                SearchPkgBy::Name(name) => packages[i].name == *name,
            };
            if hit {
                let ghost before = found@;
                found.push(Pkg::of(&packages[i]));
                proof {
                    assert(pkgs_view(found@) =~= pkgs_view(before).push(packages@[i as int]@));
                }
            }
            i += 1;
        }
        proof {
            assert(s.packages.take(packages.len() as int) =~= s.packages);
        }
        found
    }
}

} // verus!
