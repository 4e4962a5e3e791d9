use package_tracker::notices::{
    announce, cascade_failed, cc, drop_failed, gen_mention_link, marks_failed, partial, unblocked,
    unmarked,
};
use package_tracker::store::{Missing, StoreError};
use package_tracker::text::{build_placeholder, contains_text, decimal, join, same_text};

#[test]
fn decimal_of_zero_and_small_numbers() {
    assert_eq!(decimal(0), "0");
    assert_eq!(decimal(7), "7");
    assert_eq!(decimal(10), "10");
    assert_eq!(decimal(1200), "1200");
    assert_eq!(decimal(-1), "-1");
    assert_eq!(decimal(-305), "-305");
}

#[test]
fn decimal_of_the_extremes() {
    assert_eq!(decimal(i64::MAX), "9223372036854775807");
    assert_eq!(decimal(i64::MIN), "-9223372036854775808");
    assert_eq!(decimal(i64::MIN), i64::MIN.to_string());
    assert_eq!(decimal(-1001624975109), "-1001624975109");
}

#[test]
fn join_puts_the_separator_between_neighbours_only() {
    let none: Vec<String> = vec![];
    assert_eq!(join(&none, ","), "");
    assert_eq!(join(&vec!["a".to_string()], ","), "a");
    assert_eq!(join(&vec!["a".to_string(), "b".to_string(), "c".to_string()], ", "), "a, b, c");
    assert_eq!(join(&vec!["".to_string(), "".to_string()], "-"), "-");
}

#[test]
fn placeholders_are_question_marks_between_commas() {
    assert_eq!(build_placeholder(0), "");
    assert_eq!(build_placeholder(1), "?");
    assert_eq!(build_placeholder(3), "?,?,?");
}

#[test]
fn texts_compare_by_content() {
    assert!(same_text("leaf", "leaf"));
    assert!(!same_text("leaf", "leaf "));
    assert!(same_text("", ""));
    assert!(contains_text(&["ftbfs", "leaf"], "leaf"));
    assert!(!contains_text(&["ftbfs", "leaf"], "lea"));
    assert!(!contains_text(&[], "leaf"));
}

#[test]
fn mention_link_is_an_anchor_to_the_user_id() {
    assert_eq!(gen_mention_link("Alice", 42), "<a href=\"tg://user?id=42\">Alice</a>");
    assert_eq!(gen_mention_link("", -7), "<a href=\"tg://user?id=-7\"></a>");
}

#[test]
fn notices_read_as_expected() {
    assert_eq!(
        announce("rustup", "Alice", 42),
        "<code>(auto-merge)</code> ping <a href=\"tg://user?id=42\">Alice</a>: rustup 已出包"
    );
    assert_eq!(
        drop_failed(StoreError::NotAssigned),
        "<code>(auto-merge)</code> failed: 这个 package 不在你的认领记录里"
    );
    assert_eq!(
        drop_failed(StoreError::NoAssignments),
        "<code>(auto-merge)</code> failed: 你还没有认领任何 package"
    );
    assert_eq!(
        unmarked("rustup", &vec!["outdated".to_string(), "stuck".to_string()]),
        "<code>(auto-unmark)</code> rustup 已出包，不再标记为：outdated,stuck"
    );
    assert_eq!(
        marks_failed("rustup", StoreError::NothingRemoved),
        "fail to delete marks for rustup: \n<code>No marks found for this package</code>"
    );
    assert_eq!(
        cascade_failed("rustup", StoreError::NothingRemoved),
        "fail to clean related package for rustup\n\nDetails:\nNo marks found for this package"
    );
    assert_eq!(
        cc("Bob", 7),
        "<code>(auto-cc)</code> ping <a href=\"tg://user?id=7\">Bob</a>:"
    );
    assert_eq!(
        unblocked("cargo", "rustup", "missing_dep"),
        "<code>(auto-unmark)</code> cargo 因 rustup 已出包，不再标记为 \"missing_dep\""
    );
    assert_eq!(
        partial("rustup", "cargo", "outdated_dep"),
        "<code>(auto-unmark)</code> rustup 已从 cargo 的 outdated_dep 状态中移除"
    );
}

#[test]
fn every_store_error_has_its_own_words() {
    let all = [
        StoreError::NotFound(Missing::Packager),
        StoreError::NotFound(Missing::Package),
        StoreError::NotFound(Missing::Relation),
        StoreError::NothingRemoved,
        StoreError::NoAssignments,
        StoreError::NotAssigned,
        StoreError::Duplicate,
    ];
    for (i, a) in all.iter().enumerate() {
        for (j, b) in all.iter().enumerate() {
            assert_eq!(i == j, a.message() == b.message());
        }
    }
    assert_eq!(StoreError::NotFound(Missing::Package).message(), "package doesn't exist");
}
