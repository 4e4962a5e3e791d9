//! The texts of the notices that completing a package produces.

use crate::store::{Missing, StoreError};
use crate::text::{decimal, decimal_text, join, join_text, texts_view};
use vstd::prelude::*;

verus! {

/// A link that mentions a chat member: an anchor to the member's id around
/// the name to show.
pub open spec fn mention_link_text(name: Seq<char>, id: int) -> Seq<char> {
    "<a href=\"tg://user?id="@ + decimal_text(id) + "\">"@ + name + "</a>"@
}

/// Generates the link that mentions the chat member `id` under `name`.
pub fn gen_mention_link(name: &str, id: i64) -> (r: String)
    ensures
        r@ == mention_link_text(name@, id as int),
{
    let mut out = "<a href=\"tg://user?id=".to_owned();
    out.append(decimal(id).as_str());
    out.append("\">");
    out.append(name);
    out.append("</a>");
    out
}

/// What a store error says to a reader.
pub open spec fn error_text(e: StoreError) -> Seq<char> {
    match e {
        StoreError::NotFound(Missing::Packager) => "no packager found"@,
        StoreError::NotFound(Missing::Package) => "package doesn't exist"@,
        StoreError::NotFound(Missing::Relation) => "no relation found"@,
        StoreError::NothingRemoved => "No marks found for this package"@,
        StoreError::NoAssignments => "你还没有认领任何 package"@,
        StoreError::NotAssigned => "这个 package 不在你的认领记录里"@,
        StoreError::Duplicate => "a row with this key already exists"@,
    }
}

impl StoreError {
    /// The error in words.
    pub fn message(&self) -> (r: String)
        ensures
            r@ == error_text(*self),
    {
        match self {
            StoreError::NotFound(Missing::Packager) => "no packager found".to_owned(),
            StoreError::NotFound(Missing::Package) => "package doesn't exist".to_owned(),
            StoreError::NotFound(Missing::Relation) => "no relation found".to_owned(),
            StoreError::NothingRemoved => "No marks found for this package".to_owned(),
            StoreError::NoAssignments => "你还没有认领任何 package".to_owned(),
            StoreError::NotAssigned => "这个 package 不在你的认领记录里".to_owned(),
            StoreError::Duplicate => "a row with this key already exists".to_owned(),
        }
    }
}

/// The confirmation that a package is done, addressed to its assignee.
pub open spec fn announce_text(pkgname: Seq<char>, alias: Seq<char>, uid: int) -> Seq<char> {
    "<code>(auto-merge)</code> ping "@ + mention_link_text(alias, uid) + ": "@ + pkgname
        + " 已出包"@
}

/// The notice that the assignment could not be dropped.
pub open spec fn drop_failed_text(e: StoreError) -> Seq<char> {
    "<code>(auto-merge)</code> failed: "@ + error_text(e)
}

/// The notice that lists the marks that were cleared from the package.
pub open spec fn unmarked_text(pkgname: Seq<char>, marks: Seq<Seq<char>>) -> Seq<char> {
    "<code>(auto-unmark)</code> "@ + pkgname + " 已出包，不再标记为："@ + join_text(marks, ","@)
}

/// The notice that no mark could be cleared from the package.
pub open spec fn marks_failed_text(pkgname: Seq<char>, e: StoreError) -> Seq<char> {
    "fail to delete marks for "@ + pkgname + ": \n<code>"@ + error_text(e) + "</code>"@
}

/// The notice that resolving the package's dependents failed.
pub open spec fn cascade_failed_text(pkgname: Seq<char>, e: StoreError) -> Seq<char> {
    "fail to clean related package for "@ + pkgname + "\n\nDetails:\n"@ + error_text(e)
}

/// The notice that pings the packager who recorded a blocking edge.
pub open spec fn cc_text(alias: Seq<char>, uid: int) -> Seq<char> {
    "<code>(auto-cc)</code> ping "@ + mention_link_text(alias, uid) + ":"@
}

/// The notice that `blocked` lost its last blocker and with it the mark of
/// the edge's kind.
pub open spec fn unblocked_text(blocked: Seq<char>, done: Seq<char>, relation: Seq<char>) -> Seq<
    char,
> {
    "<code>(auto-unmark)</code> "@ + blocked + " 因 "@ + done + " 已出包，不再标记为 \""@ + relation
        + "\""@
}

/// The notice that `done` no longer blocks `blocked`, which still waits for
/// other packages.
pub open spec fn partial_text(done: Seq<char>, blocked: Seq<char>, relation: Seq<char>) -> Seq<
    char,
> {
    "<code>(auto-unmark)</code> "@ + done + " 已从 "@ + blocked + " 的 "@ + relation
        + " 状态中移除"@
}

/// Writes the confirmation that a package is done.
pub fn announce(pkgname: &str, alias: &str, uid: i64) -> (r: String)
    ensures
        r@ == announce_text(pkgname@, alias@, uid as int),
{
    let mut out = "<code>(auto-merge)</code> ping ".to_owned();
    out.append(gen_mention_link(alias, uid).as_str());
    out.append(": ");
    out.append(pkgname);
    out.append(" 已出包");
    out
}

/// Writes the notice that the assignment could not be dropped.
pub fn drop_failed(e: StoreError) -> (r: String)
    ensures
        r@ == drop_failed_text(e),
{
    let mut out = "<code>(auto-merge)</code> failed: ".to_owned();
    out.append(e.message().as_str());
    out
}

/// Writes the notice that lists the cleared marks.
pub fn unmarked(pkgname: &str, marks: &Vec<String>) -> (r: String)
    ensures
        r@ == unmarked_text(pkgname@, texts_view(marks@)),
{
    let mut out = "<code>(auto-unmark)</code> ".to_owned();
    out.append(pkgname);
    out.append(" 已出包，不再标记为：");
    out.append(join(marks, ",").as_str());
    out
}

/// Writes the notice that no mark could be cleared.
pub fn marks_failed(pkgname: &str, e: StoreError) -> (r: String)
    ensures
        r@ == marks_failed_text(pkgname@, e),
{
    let mut out = "fail to delete marks for ".to_owned();
    out.append(pkgname);
    out.append(": \n<code>");
    out.append(e.message().as_str());
    out.append("</code>");
    out
}

/// Writes the notice that resolving the dependents failed.
pub fn cascade_failed(pkgname: &str, e: StoreError) -> (r: String)
    ensures
        r@ == cascade_failed_text(pkgname@, e),
{
    let mut out = "fail to clean related package for ".to_owned();
    out.append(pkgname);
    out.append("\n\nDetails:\n");
    out.append(e.message().as_str());
    out
}

/// Writes the notice that pings the author of a blocking edge.
pub fn cc(alias: &str, uid: i64) -> (r: String)
    ensures
        r@ == cc_text(alias@, uid as int),
{
    let mut out = "<code>(auto-cc)</code> ping ".to_owned();
    out.append(gen_mention_link(alias, uid).as_str());
    out.append(":");
    out
}

/// Writes the notice that a package lost its last blocker.
pub fn unblocked(blocked: &str, done: &str, relation: &str) -> (r: String)
    ensures
        r@ == unblocked_text(blocked@, done@, relation@),
{
    let mut out = "<code>(auto-unmark)</code> ".to_owned();
    out.append(blocked);
    out.append(" 因 ");
    out.append(done);
    out.append(" 已出包，不再标记为 \"");
    out.append(relation);
    out.append("\"");
    out
}

/// Writes the notice that a package lost one of several blockers.
pub fn partial(done: &str, blocked: &str, relation: &str) -> (r: String)
    ensures
        r@ == partial_text(done@, blocked@, relation@),
{
    let mut out = "<code>(auto-unmark)</code> ".to_owned();
    out.append(done);
    out.append(" 已从 ");
    out.append(blocked);
    out.append(" 的 ");
    out.append(relation);
    out.append(" 状态中移除");
    out
}

} // verus!
