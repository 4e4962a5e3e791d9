use package_tracker::assignments::drop_assign;
use package_tracker::marks::{Mark, SearchMarksBy};
use package_tracker::model;
use package_tracker::packagers::{get_working_list, FindPackagerBy};
use package_tracker::packages::{Pkg, SearchPkgBy};
use package_tracker::relations::{PkgRelation, PkgRelationSearchBy};
use package_tracker::store::{Missing, Store, StoreError};

fn packager(uid: i64, alias: &str) -> model::Packager {
    model::Packager { tg_uid: uid, alias: alias.to_string() }
}

fn package(id: i64, name: &str) -> model::Package {
    model::Package { id, name: name.to_string() }
}

fn assignment(id: i64, pkg: i64, assignee: i64) -> model::Assignment {
    model::Assignment { id, pkg, assignee, assigned_at: 1_700_000_000 + id }
}

fn mark(id: i64, kind: &str, pkg: i64, by: Option<i64>) -> model::Mark {
    model::Mark {
        id,
        kind: kind.to_string(),
        comment: None,
        msg_id: 100 + id,
        marked_by: by,
        marked_at: 1_700_000_000,
        marked_for: pkg,
    }
}

fn relation(kind: &str, request: &str, required: &str, by: Option<i64>) -> model::Relation {
    model::Relation {
        relation: kind.to_string(),
        request: request.to_string(),
        required: required.to_string(),
        created_by: by,
    }
}

fn mark_kinds(store: &Store, pkg: i64) -> Vec<String> {
    store.marks().iter().filter(|m| m.marked_for == pkg).map(|m| m.kind.clone()).collect()
}

fn small_store() -> Store {
    let mut s = Store::new();
    s.add_packager(packager(1, "alice")).unwrap();
    s.add_packager(packager(2, "bob")).unwrap();
    s.add_packager(packager(3, "carol")).unwrap();
    s.add_package(package(10, "rustup")).unwrap();
    s.add_package(package(11, "cargo")).unwrap();
    s.add_package(package(12, "ltrace")).unwrap();
    s.add_assignment(assignment(100, 10, 1));
    s.add_assignment(assignment(101, 12, 1));
    s.add_assignment(assignment(102, 11, 2));
    s.add_mark(mark(1000, "ftbfs", 10, Some(1)));
    s.add_mark(mark(1001, "leaf", 10, Some(2)));
    s.add_mark(mark(1002, "outdated", 11, None));
    s
}

#[test]
fn a_new_store_is_empty() {
    let s = Store::new();
    assert!(s.packagers().is_empty());
    assert!(s.packages().is_empty());
    assert!(s.assignments().is_empty());
    assert!(s.marks().is_empty());
    assert!(s.relations().is_empty());
}

#[test]
fn duplicate_keys_are_refused_and_change_nothing() {
    let mut s = small_store();
    assert_eq!(s.add_packager(packager(1, "other")), Err(StoreError::Duplicate));
    assert_eq!(s.packagers().len(), 3);
    assert_eq!(s.add_package(package(10, "fresh")), Err(StoreError::Duplicate));
    assert_eq!(s.add_package(package(99, "cargo")), Err(StoreError::Duplicate));
    assert_eq!(s.packages().len(), 3);
    assert_eq!(s.add_package(package(99, "fresh")), Ok(()));
    assert_eq!(s.packages().len(), 4);
}

#[test]
fn a_relation_needs_both_packages() {
    let mut s = small_store();
    assert_eq!(
        s.add_relation(relation("missing_dep", "cargo", "nowhere", Some(1))),
        Err(StoreError::NotFound(Missing::Package))
    );
    assert_eq!(
        s.add_relation(relation("missing_dep", "nowhere", "cargo", Some(1))),
        Err(StoreError::NotFound(Missing::Package))
    );
    assert!(s.relations().is_empty());
    assert_eq!(s.add_relation(relation("missing_dep", "cargo", "rustup", Some(1))), Ok(()));
    assert_eq!(s.relations().len(), 1);
}

#[test]
fn packager_is_found_by_id_and_by_package() {
    let s = small_store();
    let a = model::Packager::search(&s, FindPackagerBy::TgId(2)).ok().unwrap();
    assert_eq!((a.tg_uid, a.alias.as_str()), (2, "bob"));
    let b = model::Packager::search(&s, FindPackagerBy::Pkgname("ltrace")).ok().unwrap();
    assert_eq!((b.tg_uid, b.alias.as_str()), (1, "alice"));
}

#[test]
fn packager_lookup_fails_with_not_found() {
    let mut s = small_store();
    s.add_package(package(13, "orphan")).unwrap();
    s.add_package(package(14, "ghosted")).unwrap();
    s.add_assignment(assignment(103, 14, 77));
    let missing = Err(StoreError::NotFound(Missing::Packager));
    assert_eq!(model::Packager::search(&s, FindPackagerBy::TgId(9)).map(|p| p.tg_uid), missing);
    assert_eq!(
        model::Packager::search(&s, FindPackagerBy::Pkgname("nowhere")).map(|p| p.tg_uid),
        missing
    );
    assert_eq!(
        model::Packager::search(&s, FindPackagerBy::Pkgname("orphan")).map(|p| p.tg_uid),
        missing
    );
    assert_eq!(
        model::Packager::search(&s, FindPackagerBy::Pkgname("ghosted")).map(|p| p.tg_uid),
        missing
    );
}

#[test]
fn working_list_has_one_entry_per_packager() {
    let s = small_store();
    let list = get_working_list(&s);
    let got: Vec<(String, Vec<String>)> =
        list.into_iter().map(|u| (u.alias, u.assign)).collect();
    assert_eq!(
        got,
        vec![
            ("alice".to_string(), vec!["rustup".to_string(), "ltrace".to_string()]),
            ("bob".to_string(), vec!["cargo".to_string()]),
            ("carol".to_string(), vec![]),
        ]
    );
}

#[test]
fn marks_are_found_by_package_and_by_name() {
    let s = small_store();
    let on_rustup = Mark::search(&s, SearchMarksBy::PkgId(10));
    let names: Vec<&str> = on_rustup.iter().map(|m| m.name.as_str()).collect();
    assert_eq!(names, vec!["ftbfs", "leaf"]);
    assert!(on_rustup.iter().all(|m| m.by.is_none() && m.for_pkg == 10));
    assert_eq!(on_rustup[0].marked_by, Some(1));
    assert_eq!(on_rustup[0].msg_id, 1100);

    let leafs = Mark::search(&s, SearchMarksBy::NamePats(&["leaf"]));
    assert_eq!(leafs.len(), 1);
    assert_eq!(leafs[0].for_pkg, 10);
    assert!(Mark::search(&s, SearchMarksBy::NamePats(&["leaf", "ftbfs"])).is_empty());
    assert!(Mark::search(&s, SearchMarksBy::PkgId(12)).is_empty());
}

#[test]
fn mark_list_names_authors_and_skips_unmarked_packages() {
    let mut s = small_store();
    s.add_mark(mark(1003, "stray", 555, Some(1)));
    s.add_mark(mark(1004, "stuck", 11, Some(404)));
    let list = Mark::fetch_all(&s);
    assert_eq!(list.len(), 2);
    assert_eq!(list[0].name, "rustup");
    let first: Vec<(&str, Option<&str>)> =
        list[0].marks.iter().map(|m| (m.name.as_str(), m.by.as_deref())).collect();
    assert_eq!(first, vec![("ftbfs", Some("alice")), ("leaf", Some("bob"))]);
    assert_eq!(list[1].name, "cargo");
    let second: Vec<(&str, Option<&str>)> =
        list[1].marks.iter().map(|m| (m.name.as_str(), m.by.as_deref())).collect();
    assert_eq!(second, vec![("outdated", None), ("stuck", None)]);
}

#[test]
fn removing_ftbfs_leaves_leaf() {
    let mut s = small_store();
    let removed = Mark::remove(&mut s, "rustup", Some(&["ftbfs"]));
    assert_eq!(removed, Ok(vec!["ftbfs".to_string()]));
    assert_eq!(mark_kinds(&s, 10), vec!["leaf".to_string()]);
    let listing = Mark::fetch_all(&s);
    let rustup: Vec<&str> = listing[0].marks.iter().map(|m| m.name.as_str()).collect();
    assert_eq!(listing[0].name, "rustup");
    assert_eq!(rustup, vec!["leaf"]);
    assert_eq!(mark_kinds(&s, 11), vec!["outdated".to_string()]);
}

#[test]
fn removing_a_nonexistent_mark_removes_nothing() {
    let mut s = Store::new();
    s.add_package(package(10, "rustup")).unwrap();
    s.add_mark(mark(1, "leaf", 10, None));
    assert_eq!(
        Mark::remove(&mut s, "rustup", Some(&["nonexistent"])),
        Err(StoreError::NothingRemoved)
    );
    assert_eq!(mark_kinds(&s, 10), vec!["leaf".to_string()]);
}

#[test]
fn removing_marks_edge_cases() {
    let mut s = small_store();
    assert_eq!(
        Mark::remove(&mut s, "nowhere", None),
        Err(StoreError::NotFound(Missing::Package))
    );
    assert_eq!(Mark::remove(&mut s, "ltrace", None), Err(StoreError::NothingRemoved));
    assert_eq!(Mark::remove(&mut s, "rustup", Some(&[])), Err(StoreError::NothingRemoved));
    assert_eq!(s.marks().len(), 3);
    s.add_mark(mark(1005, "leaf", 10, None));
    assert_eq!(
        Mark::remove(&mut s, "rustup", None),
        Ok(vec!["ftbfs".to_string(), "leaf".to_string(), "leaf".to_string()])
    );
    assert!(mark_kinds(&s, 10).is_empty());
    assert_eq!(s.marks().len(), 1);
}

#[test]
fn dropping_an_assignment() {
    let mut s = small_store();
    assert_eq!(drop_assign(&mut s, "rustup", 3), Err(StoreError::NoAssignments));
    assert_eq!(drop_assign(&mut s, "nowhere", 1), Err(StoreError::NotFound(Missing::Package)));
    assert_eq!(drop_assign(&mut s, "cargo", 1), Err(StoreError::NotAssigned));
    assert_eq!(s.assignments().len(), 3);
    assert_eq!(drop_assign(&mut s, "rustup", 1), Ok(()));
    let left: Vec<i64> = s.assignments().iter().map(|a| a.id).collect();
    assert_eq!(left, vec![101, 102]);
    assert_eq!(drop_assign(&mut s, "rustup", 1), Err(StoreError::NotAssigned));
}

#[test]
fn packages_are_found_by_id_and_by_name() {
    let s = small_store();
    let by_id = Pkg::search(&s, SearchPkgBy::Id(11));
    assert_eq!(by_id.len(), 1);
    assert_eq!((by_id[0].id, by_id[0].name.as_str()), (11, "cargo"));
    let by_name = Pkg::search(&s, SearchPkgBy::Name("ltrace".to_string()));
    assert_eq!(by_name.len(), 1);
    assert_eq!(by_name[0].id, 12);
    assert!(Pkg::search(&s, SearchPkgBy::Id(0)).is_empty());
    assert!(Pkg::search(&s, SearchPkgBy::Name("Cargo".to_string())).is_empty());
}

fn linked_store() -> Store {
    let mut s = small_store();
    s.add_relation(relation("missing_dep", "cargo", "rustup", Some(2))).unwrap();
    s.add_relation(relation("outdated_dep", "ltrace", "rustup", None)).unwrap();
    s.add_relation(relation("outdated_dep", "ltrace", "cargo", Some(404))).unwrap();
    s
}

fn edges(found: &[PkgRelation]) -> Vec<(String, String, String, Option<String>)> {
    found
        .iter()
        .map(|r| {
            (
                r.relation.clone(),
                r.request.name.clone(),
                r.required.name.clone(),
                r.created_by.as_ref().map(|p| p.alias.clone()),
            )
        })
        .collect()
}

fn edge(kind: &str, request: &str, required: &str, by: Option<&str>) -> (String, String, String, Option<String>) {
    (kind.to_string(), request.to_string(), required.to_string(), by.map(|s| s.to_string()))
}

#[test]
fn relations_are_found_in_both_directions() {
    let s = linked_store();
    let waiting = PkgRelation::search(&s, PkgRelationSearchBy::Require(&["rustup"])).ok().unwrap();
    assert_eq!(
        edges(&waiting),
        vec![
            edge("missing_dep", "cargo", "rustup", Some("bob")),
            edge("outdated_dep", "ltrace", "rustup", None),
        ]
    );
    assert_eq!(waiting[0].request.id, 11);
    assert_eq!(waiting[0].required.id, 10);
    let blockers = PkgRelation::search(&s, PkgRelationSearchBy::Related(&["ltrace"])).ok().unwrap();
    assert_eq!(
        edges(&blockers),
        vec![
            edge("outdated_dep", "ltrace", "rustup", None),
            edge("outdated_dep", "ltrace", "cargo", None),
        ]
    );
    let several =
        PkgRelation::search(&s, PkgRelationSearchBy::Related(&["ltrace", "cargo"])).ok().unwrap();
    assert_eq!(several.len(), 3);
    assert_eq!(
        PkgRelation::search(&s, PkgRelationSearchBy::Require(&["ltrace"])).err(),
        Some(StoreError::NotFound(Missing::Relation))
    );
    assert_eq!(
        PkgRelation::search(&s, PkgRelationSearchBy::Related(&[])).err(),
        Some(StoreError::NotFound(Missing::Relation))
    );
}

#[test]
fn rows_with_unknown_packages_are_passed_over() {
    let s = linked_store();
    let rows = vec![
        relation("missing_dep", "cargo", "vanished", Some(1)),
        relation("missing_dep", "cargo", "rustup", Some(3)),
    ];
    let found = PkgRelation::wrap_up(&s, rows).ok().unwrap();
    assert_eq!(edges(&found), vec![edge("missing_dep", "cargo", "rustup", Some("carol"))]);
    let none = vec![relation("missing_dep", "vanished", "rustup", Some(1))];
    assert_eq!(
        PkgRelation::wrap_up(&s, none).err(),
        Some(StoreError::NotFound(Missing::Relation))
    );
    assert_eq!(
        PkgRelation::wrap_up(&s, vec![]).err(),
        Some(StoreError::NotFound(Missing::Relation))
    );
}

#[test]
fn relations_are_removed_by_kind_and_direction() {
    let mut s = linked_store();
    let gone =
        PkgRelation::remove(&mut s, "outdated_dep", PkgRelationSearchBy::Require(&["rustup"]))
            .ok()
            .unwrap();
    assert_eq!(edges(&gone), vec![edge("outdated_dep", "ltrace", "rustup", None)]);
    assert_eq!(s.relations().len(), 2);
    assert_eq!(
        PkgRelation::remove(&mut s, "outdated_dep", PkgRelationSearchBy::Require(&["rustup"]))
            .err(),
        Some(StoreError::NotFound(Missing::Relation))
    );
    assert_eq!(s.relations().len(), 2);
    let more = PkgRelation::remove(&mut s, "outdated_dep", PkgRelationSearchBy::Related(&["ltrace"]))
        .ok()
        .unwrap();
    assert_eq!(edges(&more), vec![edge("outdated_dep", "ltrace", "cargo", None)]);
    let left: Vec<&str> = s.relations().iter().map(|r| r.relation.as_str()).collect();
    assert_eq!(left, vec!["missing_dep"]);
}

#[test]
fn one_edge_is_removed_with_all_its_copies() {
    let mut s = linked_store();
    s.add_relation(relation("missing_dep", "cargo", "rustup", None)).unwrap();
    s.add_relation(relation("outdated_dep", "cargo", "rustup", None)).unwrap();
    let gone = PkgRelation::remove_edge(&mut s, "missing_dep", "cargo", "rustup").ok().unwrap();
    assert_eq!(gone.len(), 2);
    let left: Vec<(&str, &str, &str)> = s
        .relations()
        .iter()
        .map(|r| (r.relation.as_str(), r.request.as_str(), r.required.as_str()))
        .collect();
    assert_eq!(
        left,
        vec![
            ("outdated_dep", "ltrace", "rustup"),
            ("outdated_dep", "ltrace", "cargo"),
            ("outdated_dep", "cargo", "rustup"),
        ]
    );
    assert_eq!(
        PkgRelation::remove_edge(&mut s, "missing_dep", "cargo", "rustup").err(),
        Some(StoreError::NotFound(Missing::Relation))
    );
}
