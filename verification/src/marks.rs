//! The status marks on packages: finding, listing and removing them.

use crate::model::{marks_view, opt_text_view, packages_view, MarkView, PackageView, PackagerView};
use crate::seqs::{
    any_where, lemma_filter_all, lemma_filter_any, lemma_filter_map_step, lemma_filter_step,
    not_where,
};
use crate::store::{on_pkg, Missing, Store, StoreError, StoreView};
use crate::text::{contains_text, join, join_text, strs_view, texts_view};
use vstd::prelude::*;

verus! {

/// A mark as a query reports it.
pub struct Mark {
    /// The tag itself.
    pub name: String,
    /// When the mark was set, in seconds since the Unix epoch.
    pub marked_at: i64,
    /// The `tg_uid` of the packager who set the mark, where one is known.
    pub marked_by: Option<i64>,
    /// The display name of that packager, where a listing resolved it.
    pub by: Option<String>,
    /// The chat message that the mark came from.
    pub msg_id: i64,
    /// Free text that came with the mark.
    pub comment: Option<String>,
    /// The id of the package that carries the mark.
    pub for_pkg: i64,
}

/// What a reported [`Mark`] says.
pub struct MarkInfo {
    pub name: Seq<char>,
    pub marked_at: i64,
    pub marked_by: Option<i64>,
    pub by: Option<Seq<char>>,
    pub msg_id: i64,
    pub comment: Option<Seq<char>>,
    pub for_pkg: i64,
}

impl View for Mark {
    type V = MarkInfo;

    open spec fn view(&self) -> MarkInfo {
        MarkInfo {
            name: self.name@,
            marked_at: self.marked_at,
            marked_by: self.marked_by,
            by: opt_text_view(self.by),
            msg_id: self.msg_id,
            comment: opt_text_view(self.comment),
            for_pkg: self.for_pkg,
        }
    }
}

/// The views of a run of reported marks.
pub open spec fn mark_infos(v: Seq<Mark>) -> Seq<MarkInfo> {
    v.map_values(|m: Mark| m@)
}

/// The report of a mark row, with the author's display name as given.
pub open spec fn info_of(m: MarkView, by: Option<Seq<char>>) -> MarkInfo {
    MarkInfo {
        name: m.kind,
        marked_at: m.marked_at,
        marked_by: m.marked_by,
        by: by,
        msg_id: m.msg_id,
        comment: m.comment,
        for_pkg: m.marked_for,
    }
}

/// The report of a mark row whose author was not looked up.
pub open spec fn plain_info() -> spec_fn(MarkView) -> MarkInfo {
    |m: MarkView| info_of(m, None)
}

/// The display name of a packager who may be absent.
pub open spec fn alias_of(p: Option<PackagerView>) -> Option<Seq<char>> {
    match p {
        Some(q) => Some(q.alias),
        None => None,
    }
}

/// The report of a mark row with its author resolved: the display name of
/// the packager that `marked_by` names, where the mark has an author and the
/// store knows that packager.
pub open spec fn resolved_info(s: StoreView) -> spec_fn(MarkView) -> MarkInfo {
    |m: MarkView| info_of(m, alias_of(s.packager_opt(m.marked_by)))
}

/// How to look for marks.
pub enum SearchMarksBy<'a> {
    /// The marks on the package with this id.
    PkgId(i64),
    /// The marks whose name is the given patterns joined by commas; with a
    /// single pattern, the marks of that name.
    NamePats(&'a [&'a str]),
}

/// The marks whose name is `name`.
pub open spec fn named(name: Seq<char>) -> spec_fn(MarkView) -> bool {
    |m: MarkView| m.kind == name
}

/// The marks that a search asks for.
pub open spec fn mark_hits(by: SearchMarksBy) -> spec_fn(MarkView) -> bool {
    match by {
        SearchMarksBy::PkgId(id) => on_pkg(id),
        SearchMarksBy::NamePats(patterns) => named(join_text(strs_view(patterns@), ","@)),
    }
}

/// The marks that a search finds, in the order of the mark table.
pub open spec fn found_marks(s: StoreView, by: SearchMarksBy) -> Seq<MarkInfo> {
    s.marks.filter(mark_hits(by)).map_values(plain_info())
}

/// One package with the marks it carries.
pub struct MarkListUnit {
    /// The package's name.
    pub name: String,
    /// The package's marks, in the order of the mark table.
    pub marks: Vec<Mark>,
}

/// What a [`MarkListUnit`] says.
pub struct MarkListUnitView {
    pub name: Seq<char>,
    pub marks: Seq<MarkInfo>,
}

impl View for MarkListUnit {
    type V = MarkListUnitView;

    open spec fn view(&self) -> MarkListUnitView {
        MarkListUnitView { name: self.name@, marks: mark_infos(self.marks@) }
    }
}

/// The views of a run of mark-list entries.
pub open spec fn mark_list_view(v: Seq<MarkListUnit>) -> Seq<MarkListUnitView> {
    v.map_values(|u: MarkListUnit| u@)
}

/// The packages that carry at least one of `marks`.
pub open spec fn is_marked(marks: Seq<MarkView>) -> spec_fn(PackageView) -> bool {
    |p: PackageView| any_where(marks, on_pkg(p.id))
}

/// The mark-list entry of one package.
pub open spec fn mark_unit(s: StoreView) -> spec_fn(PackageView) -> MarkListUnitView {
    |p: PackageView|
        MarkListUnitView {
            name: p.name,
            marks: s.marks.filter(on_pkg(p.id)).map_values(resolved_info(s)),
        }
}

/// The mark list: one entry for each package that carries a mark, in the
/// order of the package table. A mark whose package does not exist appears
/// nowhere.
pub open spec fn mark_list(s: StoreView) -> Seq<MarkListUnitView> {
    s.packages.filter(is_marked(s.marks)).map_values(mark_unit(s))
}

/// The name filter of a removal as a sequence of texts.
pub open spec fn filter_view(matches: Option<&[&str]>) -> Option<Seq<Seq<char>>> {
    match matches {
        Some(m) => Some(strs_view(m@)),
        None => None,
    }
}

/// The marks that a removal takes: those on the package `pkg`, and, where
/// there is a filter, only those whose name is in it.
pub open spec fn removable(pkg: i64, filter: Option<Seq<Seq<char>>>) -> spec_fn(MarkView) -> bool {
    |m: MarkView|
        m.marked_for == pkg && match filter {
            Some(f) => f.contains(m.kind),
            None => true,
        }
}

/// The name of a mark.
pub open spec fn kind_of() -> spec_fn(MarkView) -> Seq<char> {
    |m: MarkView| m.kind
}

/// What removing marks returns: the names of the removed marks, in the order
/// of the mark table and with repetitions; `NotFound` for an unknown
/// package; `NothingRemoved` where no mark of the package passes the filter.
pub open spec fn remove_marks_result(
    s: StoreView,
    name: Seq<char>,
    filter: Option<Seq<Seq<char>>>,
) -> Result<Seq<Seq<char>>, StoreError> {
    match s.package_named(name) {
        None => Err(StoreError::NotFound(Missing::Package)),
        Some(p) => {
            let gone = s.marks.filter(removable(p.id, filter));
            if gone.len() == 0 {
                Err(StoreError::NothingRemoved)
            } else {
                Ok(gone.map_values(kind_of()))
            }
        },
    }
}

/// The store after removing marks: the marks that the removal takes are
/// gone, everything else is as before.
pub open spec fn remove_marks_store(
    s: StoreView,
    name: Seq<char>,
    filter: Option<Seq<Seq<char>>>,
) -> StoreView {
    match s.package_named(name) {
        None => s,
        Some(p) => StoreView { marks: s.marks.filter(not_where(removable(p.id, filter))), ..s },
    }
}

/// A removal that fails leaves the store as it was.
pub proof fn lemma_failed_removal_changes_nothing(
    s: StoreView,
    name: Seq<char>,
    filter: Option<Seq<Seq<char>>>,
)
    requires
        remove_marks_result(s, name, filter) is Err,
    ensures
        remove_marks_store(s, name, filter) == s,
{
    match s.package_named(name) {
        None => {},
        Some(p) => {
            let hit = removable(p.id, filter);
            lemma_filter_any(s.marks, hit);
            assert forall|i: int| 0 <= i < s.marks.len() implies not_where(hit)(
                #[trigger] s.marks[i],
            ) by {
                if hit(s.marks[i]) {
                    assert(any_where(s.marks, hit));
                }
            }
            lemma_filter_all(s.marks, not_where(hit));
        },
    }
}

impl Mark {
    /// The report of a mark row, with the author's display name as given.
    pub fn of(row: &crate::model::Mark, by: Option<String>) -> (r: Mark)
        ensures
            r@ == info_of(row@, opt_text_view(by)),
    {
        Mark {
            name: row.kind.clone(),
            marked_at: row.marked_at,
            marked_by: row.marked_by,
            by,
            msg_id: row.msg_id,
            comment: crate::model::clone_opt_text(&row.comment),
            for_pkg: row.marked_for,
        }
    }

    /// Finds marks by package id, or by name. Authors are not looked up.
    pub fn search(store: &Store, prop: SearchMarksBy<'_>) -> (r: Vec<Mark>)
        ensures
            mark_infos(r@) == found_marks(store@, prop),
    {
        let rows = store.marks();
        let ghost s = store@;
        let ghost hits = mark_hits(prop);
        let wanted: String = match &prop {
            SearchMarksBy::PkgId(_) => String::new(),
            SearchMarksBy::NamePats(patterns) => join_strs(patterns, ","),
        };
        let mut found: Vec<Mark> = Vec::new();
        let mut i: usize = 0;
        while i < rows.len()
            invariant
                i <= rows.len(),
                marks_view(rows@) == s.marks,
                hits == mark_hits(prop),
                prop matches SearchMarksBy::NamePats(patterns) ==> wanted@ == join_text(
                    strs_view(patterns@),
                    ","@,
                ),
                mark_infos(found@) == s.marks.take(i as int).filter(hits).map_values(plain_info()),
            decreases rows.len() - i,
        {
            proof {
                lemma_filter_map_step(s.marks, hits, plain_info(), i as int);
                assert(s.marks[i as int] == rows@[i as int]@);
            }
            let hit = match &prop {
                SearchMarksBy::PkgId(id) => rows[i].marked_for == *id,
                SearchMarksBy::NamePats(_) => rows[i].kind == wanted,
            };
            if hit {
                let ghost before = found@;
                let m = Mark::of(&rows[i], None);
                found.push(m);
                proof {
                    assert(mark_infos(found@) =~= mark_infos(before).push(m@));
                }
            }
            i += 1;
        }
        proof {
            assert(s.marks.take(rows.len() as int) =~= s.marks);
        }
        found
    }

    /// Lists the packages that carry marks, each with its marks and the
    /// display names of their authors.
    pub fn fetch_all(store: &Store) -> (r: Vec<MarkListUnit>)
        ensures
            mark_list_view(r@) == mark_list(store@),
    {
        let packages = store.packages();
        let ghost s = store@;
        let mut list: Vec<MarkListUnit> = Vec::new();
        let mut i: usize = 0;
        while i < packages.len()
            invariant
                i <= packages.len(),
                s == store@,
                packages_view(packages@) == s.packages,
                mark_list_view(list@) == s.packages.take(i as int).filter(
                    is_marked(s.marks),
                ).map_values(mark_unit(s)),
            decreases packages.len() - i,
        {
            let marks = resolved_marks_of(store, packages[i].id);
            proof {
                lemma_filter_map_step(s.packages, is_marked(s.marks), mark_unit(s), i as int);
                assert(s.packages[i as int] == packages@[i as int]@);
                lemma_filter_any(s.marks, on_pkg(packages@[i as int].id));
                assert(mark_infos(marks@).len() == marks@.len());
                assert(is_marked(s.marks)(s.packages[i as int]) == (marks@.len() > 0));
            }
            if marks.len() > 0 {
                let ghost before = list@;
                let unit = MarkListUnit { name: packages[i].name.clone(), marks };
                list.push(unit);
                proof {
                    assert(unit@ == mark_unit(s)(s.packages[i as int]));
                    assert(mark_list_view(list@) =~= mark_list_view(before).push(unit@));
                }
            }
            i += 1;
        }
        proof {
            assert(s.packages.take(packages.len() as int) =~= s.packages);
        }
        list
    }

    /// Removes the marks of a package: all of them without a filter, else
    /// those whose name is in the filter. Returns the names of the removed
    /// marks. Fails with `NotFound` for an unknown package and with
    /// `NothingRemoved` where no mark was removed; a failure changes nothing.
    pub fn remove(store: &mut Store, pkgname: &str, matches: Option<&[&str]>) -> (r: Result<
        Vec<String>,
        StoreError,
    >)
        ensures
            match remove_marks_result(old(store)@, pkgname@, filter_view(matches)) {
                Ok(names) => r is Ok && texts_view(r->Ok_0@) == names,
                Err(e) => r == Err::<Vec<String>, StoreError>(e),
            },
            final(store)@ == remove_marks_store(old(store)@, pkgname@, filter_view(matches)),
            r is Err ==> final(store)@ == old(store)@,
            old(store)@.valid() ==> final(store)@.valid(),
    {
        let ghost s = store@;
        let ghost filter = filter_view(matches);
        proof {
            if remove_marks_result(s, pkgname@, filter) is Err {
                lemma_failed_removal_changes_nothing(s, pkgname@, filter);
            }
        }
        let Some(at) = store.find_package(pkgname) else {
            return Err(StoreError::NotFound(Missing::Package));
        };
        let pkg_id: i64 = store.packages()[at].id;
        assert(s.package_named(pkgname@) == Some(s.packages[at as int]));
        assert(s.packages[at as int].id == pkg_id);
        let ghost hit = removable(pkg_id, filter);
        let rows = store.marks();
        let mut kept: Vec<crate::model::Mark> = Vec::new();
        let mut names: Vec<String> = Vec::new();
        let mut i: usize = 0;
        while i < rows.len()
            invariant
                i <= rows.len(),
                marks_view(rows@) == s.marks,
                filter == filter_view(matches),
                hit == removable(pkg_id, filter),
                marks_view(kept@) == s.marks.take(i as int).filter(not_where(hit)),
                texts_view(names@) == s.marks.take(i as int).filter(hit).map_values(kind_of()),
            decreases rows.len() - i,
        {
            proof {
                lemma_filter_map_step(s.marks, hit, kind_of(), i as int);
                lemma_filter_step(s.marks, not_where(hit), i as int);
                assert(s.marks[i as int] == rows@[i as int]@);
            }
            let takes = rows[i].marked_for == pkg_id && match matches {
                Some(m) => contains_text(m, rows[i].kind.as_str()),
                None => true,
            };
            if takes {
                let ghost before = names@;
                names.push(rows[i].kind.clone());
                proof {
                    assert(texts_view(names@) =~= texts_view(before).push(rows@[i as int].kind@));
                }
            } else {
                let ghost before = kept@;
                kept.push(rows[i].clone());
                proof {
                    assert(marks_view(kept@) =~= marks_view(before).push(rows@[i as int]@));
                }
            }
            i += 1;
        }
        proof {
            assert(s.marks.take(rows.len() as int) =~= s.marks);
        }
        if names.len() == 0 {
            return Err(StoreError::NothingRemoved);
        }
        store.replace_marks(kept);
        Ok(names)
    }
}

/// Joins borrowed texts with `sep` between neighbours.
pub fn join_strs(parts: &[&str], sep: &str) -> (r: String)
    ensures
        r@ == join_text(strs_view(parts@), sep@),
{
    let mut owned: Vec<String> = Vec::new();
    let mut i: usize = 0;
    while i < parts.len()
        invariant
            i <= parts.len(),
            texts_view(owned@) == strs_view(parts@).take(i as int),
        decreases parts.len() - i,
    {
        let ghost before = owned@;
        owned.push(parts[i].to_owned());
        proof {
            assert(texts_view(owned@) =~= texts_view(before).push(parts@[i as int]@));
            assert(strs_view(parts@).take(i as int + 1) =~= strs_view(parts@).take(i as int).push(
                parts@[i as int]@,
            ));
        }
        i += 1;
    }
    proof {
        assert(strs_view(parts@).take(parts.len() as int) =~= strs_view(parts@));
    }
    join(&owned, sep)
}

/// The marks on the package with id `pkg`, each with its author resolved.
fn resolved_marks_of(store: &Store, pkg: i64) -> (r: Vec<Mark>)
    ensures
        mark_infos(r@) == store@.marks.filter(on_pkg(pkg)).map_values(resolved_info(store@)),
{
    let rows = store.marks();
    let packagers = store.packagers();
    let ghost s = store@;
    let mut found: Vec<Mark> = Vec::new();
    let mut i: usize = 0;
    while i < rows.len()
        invariant
            i <= rows.len(),
            s == store@,
            marks_view(rows@) == s.marks,
            crate::model::packagers_view(packagers@) == s.packagers,
            mark_infos(found@) == s.marks.take(i as int).filter(on_pkg(pkg)).map_values(
                resolved_info(s),
            ),
        decreases rows.len() - i,
    {
        proof {
            lemma_filter_map_step(s.marks, on_pkg(pkg), resolved_info(s), i as int);
            assert(s.marks[i as int] == rows@[i as int]@);
        }
        if rows[i].marked_for == pkg {
            let by: Option<String> = match rows[i].marked_by {
                Some(uid) => match store.find_packager(uid) {
                    Some(at) => {
                        assert(s.packagers[at as int] == packagers@[at as int]@);
                        Some(packagers[at].alias.clone())
                    },
                    None => None,
                },
                None => None,
            };
            let ghost before = found@;
            let m = Mark::of(&rows[i], by);
            found.push(m);
            proof {
                assert(m@ == resolved_info(s)(s.marks[i as int]));
                assert(mark_infos(found@) =~= mark_infos(before).push(m@));
            }
        }
        i += 1;
    }
    proof {
        assert(s.marks.take(rows.len() as int) =~= s.marks);
    }
    found
}

} // verus!
