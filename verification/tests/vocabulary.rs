use package_tracker::vocab::{BlockingMark, RelationKind, StatusKind};

#[test]
fn relation_kinds_are_read_back_from_their_names() {
    for kind in [RelationKind::OutdatedDep, RelationKind::MissingDep] {
        assert_eq!(RelationKind::from_name(kind.name()), Some(kind));
    }
    assert_eq!(RelationKind::OutdatedDep.name(), "outdated_dep");
    assert_eq!(RelationKind::MissingDep.name(), "missing_dep");
    assert_eq!(RelationKind::from_name("outdated"), None);
    assert_eq!(RelationKind::from_name("Missing_dep"), None);
    assert_eq!(RelationKind::from_name(""), None);
}

#[test]
fn status_kinds_are_read_back_from_their_names() {
    for kind in [StatusKind::Ftbfs, StatusKind::Leaf] {
        assert_eq!(StatusKind::from_name(kind.name()), Some(kind));
    }
    assert_eq!(StatusKind::from_name("ftbfs"), Some(StatusKind::Ftbfs));
    assert_eq!(StatusKind::from_name("leaf"), Some(StatusKind::Leaf));
    assert_eq!(StatusKind::from_name("done"), None);
}

#[test]
fn the_cleared_marks_are_eight_names_in_order() {
    let names: Vec<&str> = BlockingMark::all().iter().map(|m| m.name()).collect();
    assert_eq!(
        names,
        vec![
            "outdated",
            "stuck",
            "ready",
            "outdated_dep",
            "missing_dep",
            "unknown",
            "ignore",
            "failing",
        ]
    );
}

#[test]
fn the_mark_of_a_relation_has_the_name_of_the_relation() {
    for kind in [RelationKind::OutdatedDep, RelationKind::MissingDep] {
        assert_eq!(BlockingMark::of_relation(kind).name(), kind.name());
    }
}
