use package_tracker::engine::{
    clear_related_package, complete_package, kind_blocks, WorkflowError,
};
use package_tracker::model;
use package_tracker::routes::{
    delete, pkg, MsgResp, ReqStatus, RouteDeletePathSegment, RouteDeleteQuery,
};
use package_tracker::store::{Missing, Store, StoreError};

fn person(uid: i64, alias: &str) -> model::Packager {
    model::Packager { tg_uid: uid, alias: alias.to_string() }
}

fn pack(id: i64, name: &str) -> model::Package {
    model::Package { id, name: name.to_string() }
}

fn own(id: i64, pkg: i64, assignee: i64) -> model::Assignment {
    model::Assignment { id, pkg, assignee, assigned_at: 0 }
}

fn tag(id: i64, kind: &str, pkg: i64) -> model::Mark {
    model::Mark {
        id,
        kind: kind.to_string(),
        comment: Some("why".to_string()),
        msg_id: 1,
        marked_by: Some(1),
        marked_at: 0,
        marked_for: pkg,
    }
}

fn link(kind: &str, request: &str, required: &str, by: Option<i64>) -> model::Relation {
    model::Relation {
        relation: kind.to_string(),
        request: request.to_string(),
        required: required.to_string(),
        created_by: by,
    }
}

fn kinds_on(store: &Store, pkg: i64) -> Vec<String> {
    store.marks().iter().filter(|m| m.marked_for == pkg).map(|m| m.kind.clone()).collect()
}

fn triples(store: &Store) -> Vec<(String, String, String)> {
    store
        .relations()
        .iter()
        .map(|r| (r.relation.clone(), r.request.clone(), r.required.clone()))
        .collect()
}

fn triple(kind: &str, request: &str, required: &str) -> (String, String, String) {
    (kind.to_string(), request.to_string(), required.to_string())
}

/// q (id 1, owned by alice), p (id 2), q2 (id 3), r (id 4).
fn base() -> Store {
    let mut s = Store::new();
    s.add_packager(person(1, "alice")).unwrap();
    s.add_packager(person(2, "bob")).unwrap();
    s.add_package(pack(1, "q")).unwrap();
    s.add_package(pack(2, "p")).unwrap();
    s.add_package(pack(3, "q2")).unwrap();
    s.add_package(pack(4, "r")).unwrap();
    s.add_assignment(own(1, 1, 1));
    s
}

const ANNOUNCE_Q: &str =
    "<code>(auto-merge)</code> ping <a href=\"tg://user?id=1\">alice</a>: q 已出包";
const NO_MARKS_Q: &str =
    "fail to delete marks for q: \n<code>No marks found for this package</code>";
const CC_BOB: &str = "<code>(auto-cc)</code> ping <a href=\"tg://user?id=2\">bob</a>:";

#[test]
fn blocking_kinds_are_the_two_dependency_kinds() {
    assert!(kind_blocks("outdated_dep"));
    assert!(kind_blocks("missing_dep"));
    assert!(!kind_blocks("outdated"));
    assert!(!kind_blocks(""));
}

#[test]
fn completing_without_assignee_fails_and_changes_nothing() {
    let mut s = base();
    s.add_mark(tag(1, "outdated", 2));
    s.add_relation(link("missing_dep", "r", "p", Some(2))).unwrap();
    assert_eq!(complete_package(&mut s, "p"), Err(WorkflowError::PreconditionFailed));
    assert_eq!(complete_package(&mut s, "nowhere"), Err(WorkflowError::PreconditionFailed));
    assert_eq!(s.assignments().len(), 1);
    assert_eq!(kinds_on(&s, 2), vec!["outdated".to_string()]);
    assert_eq!(triples(&s), vec![triple("missing_dep", "r", "p")]);
}

#[test]
fn the_last_blocker_unblocks_the_dependent() {
    let mut s = base();
    s.add_mark(tag(1, "missing_dep", 2));
    s.add_mark(tag(2, "leaf", 2));
    s.add_mark(tag(3, "missing_dep", 2));
    s.add_relation(link("missing_dep", "p", "q", Some(2))).unwrap();
    let notices = complete_package(&mut s, "q").unwrap();
    assert_eq!(kinds_on(&s, 2), vec!["leaf".to_string()]);
    assert!(triples(&s).is_empty());
    assert!(s.assignments().is_empty());
    assert_eq!(
        notices,
        vec![
            ANNOUNCE_Q.to_string(),
            NO_MARKS_Q.to_string(),
            CC_BOB.to_string(),
            "<code>(auto-unmark)</code> p 因 q 已出包，不再标记为 \"missing_dep\"".to_string(),
        ]
    );
}

#[test]
fn one_of_two_blockers_leaves_the_mark() {
    let mut s = base();
    s.add_mark(tag(1, "outdated_dep", 2));
    s.add_relation(link("outdated_dep", "p", "q", Some(2))).unwrap();
    s.add_relation(link("outdated_dep", "p", "q2", None)).unwrap();
    let notices = complete_package(&mut s, "q").unwrap();
    assert_eq!(kinds_on(&s, 2), vec!["outdated_dep".to_string()]);
    assert_eq!(triples(&s), vec![triple("outdated_dep", "p", "q2")]);
    assert_eq!(
        notices,
        vec![
            ANNOUNCE_Q.to_string(),
            NO_MARKS_Q.to_string(),
            CC_BOB.to_string(),
            "<code>(auto-unmark)</code> q 已从 p 的 outdated_dep 状态中移除".to_string(),
        ]
    );
}

#[test]
fn completing_twice_fails_the_second_time() {
    let mut s = base();
    s.add_mark(tag(1, "outdated", 1));
    s.add_mark(tag(2, "missing_dep", 2));
    s.add_relation(link("missing_dep", "p", "q", None)).unwrap();
    assert!(complete_package(&mut s, "q").is_ok());
    let marks = s.marks().len();
    let relations = s.relations().len();
    assert_eq!(complete_package(&mut s, "q"), Err(WorkflowError::PreconditionFailed));
    assert_eq!(s.marks().len(), marks);
    assert_eq!(s.relations().len(), relations);
    assert!(s.assignments().is_empty());
}

#[test]
fn the_cleared_marks_are_listed() {
    let mut s = base();
    s.add_mark(tag(1, "outdated", 1));
    s.add_mark(tag(2, "ftbfs", 1));
    s.add_mark(tag(3, "failing", 1));
    s.add_mark(tag(4, "stuck", 2));
    let notices = complete_package(&mut s, "q").unwrap();
    assert_eq!(
        notices,
        vec![
            ANNOUNCE_Q.to_string(),
            "<code>(auto-unmark)</code> q 已出包，不再标记为：outdated,failing".to_string(),
        ]
    );
    assert_eq!(kinds_on(&s, 1), vec!["ftbfs".to_string()]);
    assert_eq!(kinds_on(&s, 2), vec!["stuck".to_string()]);
}

#[test]
fn the_assignment_is_dropped_with_all_its_copies() {
    let mut s = Store::new();
    s.add_packager(person(1, "alice")).unwrap();
    s.add_packager(person(2, "bob")).unwrap();
    s.add_package(pack(1, "q")).unwrap();
    s.add_package(pack(2, "p")).unwrap();
    s.add_assignment(own(1, 1, 1));
    s.add_assignment(own(1, 1, 1));
    s.add_assignment(own(2, 2, 2));
    s.add_mark(tag(1, "ready", 1));
    let notices = complete_package(&mut s, "q").unwrap();
    let left: Vec<i64> = s.assignments().iter().map(|a| a.id).collect();
    assert_eq!(left, vec![2]);
    assert_eq!(
        notices,
        vec![
            ANNOUNCE_Q.to_string(),
            "<code>(auto-unmark)</code> q 已出包，不再标记为：ready".to_string(),
        ]
    );
}

#[test]
fn a_second_assignee_takes_over_after_the_first_is_done() {
    let mut s = base();
    s.add_assignment(own(2, 1, 2));
    assert!(complete_package(&mut s, "q").is_ok());
    let left: Vec<i64> = s.assignments().iter().map(|a| a.id).collect();
    assert_eq!(left, vec![2]);
    let again = complete_package(&mut s, "q").unwrap();
    assert_eq!(
        again[0],
        "<code>(auto-merge)</code> ping <a href=\"tg://user?id=2\">bob</a>: q 已出包"
    );
    assert!(s.assignments().is_empty());
    assert_eq!(complete_package(&mut s, "q"), Err(WorkflowError::PreconditionFailed));
}

#[test]
fn cascade_without_dependents_reports_not_found() {
    let mut s = base();
    s.add_relation(link("other", "p", "q", None)).unwrap();
    let report = clear_related_package(&mut s, "q");
    assert!(report.replies.is_empty());
    assert_eq!(report.error, Some(StoreError::NotFound(Missing::Relation)));
    assert_eq!(triples(&s), vec![triple("other", "p", "q")]);
}

#[test]
fn cascade_goes_on_after_an_error() {
    let mut s = base();
    // p has lost its mark already: clearing it fails; r is still resolved
    s.add_mark(tag(1, "outdated_dep", 4));
    s.add_relation(link("missing_dep", "p", "q", None)).unwrap();
    s.add_relation(link("outdated_dep", "r", "q", Some(2))).unwrap();
    let report = clear_related_package(&mut s, "q");
    assert_eq!(report.error, Some(StoreError::NothingRemoved));
    assert_eq!(
        report.replies,
        vec![
            CC_BOB.to_string(),
            "<code>(auto-unmark)</code> r 因 q 已出包，不再标记为 \"outdated_dep\"".to_string(),
        ]
    );
    assert_eq!(triples(&s), vec![triple("missing_dep", "p", "q")]);
    assert!(kinds_on(&s, 4).is_empty());

    let mut again = base();
    again.add_relation(link("missing_dep", "p", "q", None)).unwrap();
    let notices = complete_package(&mut again, "q").unwrap();
    assert_eq!(
        notices,
        vec![
            ANNOUNCE_Q.to_string(),
            NO_MARKS_Q.to_string(),
            "fail to clean related package for q\n\nDetails:\nNo marks found for this package"
                .to_string(),
        ]
    );
}

#[test]
fn two_kinds_between_one_pair_are_two_edges() {
    let mut s = base();
    s.add_mark(tag(1, "outdated_dep", 2));
    s.add_mark(tag(2, "missing_dep", 2));
    s.add_relation(link("outdated_dep", "p", "q", None)).unwrap();
    s.add_relation(link("missing_dep", "p", "q", None)).unwrap();
    let report = clear_related_package(&mut s, "q");
    assert_eq!(report.error, None);
    assert_eq!(
        report.replies,
        vec![
            "<code>(auto-unmark)</code> q 已从 p 的 outdated_dep 状态中移除".to_string(),
            "<code>(auto-unmark)</code> p 因 q 已出包，不再标记为 \"missing_dep\"".to_string(),
        ]
    );
    assert!(triples(&s).is_empty());
    assert_eq!(kinds_on(&s, 2), vec!["outdated_dep".to_string()]);
}

#[test]
fn edges_of_other_kinds_do_not_count_as_blockers() {
    let mut s = base();
    s.add_mark(tag(1, "missing_dep", 2));
    s.add_relation(link("missing_dep", "p", "q", None)).unwrap();
    s.add_relation(link("conflicts", "p", "q2", None)).unwrap();
    let report = clear_related_package(&mut s, "q");
    assert_eq!(report.error, None);
    assert_eq!(report.replies.len(), 1);
    assert!(kinds_on(&s, 2).is_empty());
    assert_eq!(triples(&s), vec![triple("conflicts", "p", "q2")]);
}

fn ask(pkgname: &str, status: &str, token: &str) -> (RouteDeletePathSegment, RouteDeleteQuery) {
    (
        RouteDeletePathSegment { pkgname: pkgname.to_string(), status: status.to_string() },
        RouteDeleteQuery { token: token.to_string() },
    )
}

fn told(r: &MsgResp) -> (u16, ReqStatus, &str, &str) {
    (r.code, r.status, r.msg.as_str(), r.detail.as_str())
}

#[test]
fn a_wrong_token_is_forbidden() {
    let mut s = base();
    let (path, q) = ask("q", "ftbfs", "guess");
    let out = delete(&path, &q, "secret", &mut s);
    assert_eq!(told(&out.response), (403, ReqStatus::Fail, "forbidden", "invalid token"));
    assert!(out.notices.is_empty());
    assert_eq!(s.assignments().len(), 1);
}

#[test]
fn an_unknown_status_is_a_bad_request() {
    let mut s = base();
    let (path, q) = ask("q", "done", "secret");
    let out = delete(&path, &q, "secret", &mut s);
    assert_eq!(
        told(&out.response),
        (400, ReqStatus::Fail, "bad request", "Required 'ftbfs' or 'leaf', get done")
    );
    assert!(out.notices.is_empty());
    assert_eq!(s.assignments().len(), 1);
}

#[test]
fn a_package_without_assignee_is_a_bad_request() {
    let mut s = base();
    let (path, q) = ask("p", "leaf", "secret");
    let out = delete(&path, &q, "secret", &mut s);
    assert_eq!(
        told(&out.response),
        (400, ReqStatus::Fail, "bad request", "fail to fetch packager")
    );
    assert!(out.notices.is_empty());
}

#[test]
fn a_good_request_completes_the_package() {
    let mut s = base();
    s.add_mark(tag(1, "ignore", 1));
    let (path, q) = ask("q", "leaf", "secret");
    let out = delete(&path, &q, "secret", &mut s);
    assert_eq!(
        told(&out.response),
        (200, ReqStatus::Done, "Request success", "package deleted")
    );
    assert_eq!(
        out.notices,
        vec![
            ANNOUNCE_Q.to_string(),
            "<code>(auto-unmark)</code> q 已出包，不再标记为：ignore".to_string(),
        ]
    );
    assert!(s.assignments().is_empty());
    assert!(s.marks().is_empty());
}

#[test]
fn response_classes() {
    assert_eq!(told(&MsgResp::new_200_msg("d")), (200, ReqStatus::Done, "Request success", "d"));
    assert_eq!(told(&MsgResp::new_500_resp("m", "d")), (500, ReqStatus::Fail, "m", "d"));
    assert_eq!(told(&MsgResp::new_403_resp("d")), (403, ReqStatus::Fail, "forbidden", "d"));
    assert_eq!(told(&MsgResp::new_400_resp("d")), (400, ReqStatus::Fail, "bad request", "d"));
}

#[test]
fn the_dashboard_snapshot_has_both_lists() {
    let mut s = base();
    s.add_mark(tag(1, "stuck", 2));
    let snap = pkg(&s);
    let work: Vec<(&str, Vec<&str>)> = snap
        .work_list
        .iter()
        .map(|u| (u.alias.as_str(), u.assign.iter().map(|n| n.as_str()).collect()))
        .collect();
    assert_eq!(work, vec![("alice", vec!["q"]), ("bob", vec![])]);
    assert_eq!(snap.mark_list.len(), 1);
    assert_eq!(snap.mark_list[0].name, "p");
    assert_eq!(snap.mark_list[0].marks[0].name, "stuck");
    assert_eq!(snap.mark_list[0].marks[0].by.as_deref(), Some("alice"));
    assert_eq!(snap.mark_list[0].marks[0].comment.as_deref(), Some("why"));
}
