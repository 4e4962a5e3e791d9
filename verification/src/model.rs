//! The rows that the store keeps, one type per table, and the mathematical
//! view of each.

use vstd::prelude::*;

verus! {

/// A maintainer, known by the identity of an external chat account.
pub struct Packager {
    /// The chat account's id; no two packagers share one.
    pub tg_uid: i64,
    /// The name the packager is shown under.
    pub alias: String,
}

/// What a [`Packager`] row says.
pub struct PackagerView {
    pub tg_uid: i64,
    pub alias: Seq<char>,
}

impl View for Packager {
    type V = PackagerView;

    open spec fn view(&self) -> PackagerView {
        PackagerView { tg_uid: self.tg_uid, alias: self.alias@ }
    }
}

impl Clone for Packager {
    fn clone(&self) -> (r: Self)
        ensures
            r@ == self@,
    {
        Packager { tg_uid: self.tg_uid, alias: self.alias.clone() }
    }
}

/// A tracked package.
pub struct Package {
    /// The package's id; no two packages share one.
    pub id: i64,
    /// The package's name; no two packages share one.
    pub name: String,
}

/// What a [`Package`] row says.
pub struct PackageView {
    pub id: i64,
    pub name: Seq<char>,
}

impl View for Package {
    type V = PackageView;

    open spec fn view(&self) -> PackageView {
        PackageView { id: self.id, name: self.name@ }
    }
}

impl Clone for Package {
    fn clone(&self) -> (r: Self)
        ensures
            r@ == self@,
    {
        Package { id: self.id, name: self.name.clone() }
    }
}

/// The statement that a packager owns a package.
#[derive(Clone, Copy, PartialEq, Eq, Structural, Debug)]
pub struct Assignment {
    /// The assignment's own id.
    pub id: i64,
    /// The id of the package that is owned.
    pub pkg: i64,
    /// The `tg_uid` of the packager who owns it.
    pub assignee: i64,
    /// When the assignment was made, in seconds since the Unix epoch.
    pub assigned_at: i64,
}

/// A status tag on a package.
pub struct Mark {
    /// The mark's own id.
    pub id: i64,
    /// The tag itself, from an open vocabulary.
    pub kind: String,
    /// Free text that came with the mark.
    pub comment: Option<String>,
    /// The chat message that the mark came from.
    pub msg_id: i64,
    /// The `tg_uid` of the packager who set the mark, where one is known.
    pub marked_by: Option<i64>,
    /// When the mark was set, in seconds since the Unix epoch.
    pub marked_at: i64,
    /// The id of the package that carries the mark.
    pub marked_for: i64,
}

/// What a [`Mark`] row says.
pub struct MarkView {
    pub id: i64,
    pub kind: Seq<char>,
    pub comment: Option<Seq<char>>,
    pub msg_id: i64,
    pub marked_by: Option<i64>,
    pub marked_at: i64,
    pub marked_for: i64,
}

/// The view of a text that may be absent.
pub open spec fn opt_text_view(t: Option<String>) -> Option<Seq<char>> {
    match t {
        Some(s) => Some(s@),
        None => None,
    }
}

impl View for Mark {
    type V = MarkView;

    open spec fn view(&self) -> MarkView {
        MarkView {
            id: self.id,
            kind: self.kind@,
            comment: opt_text_view(self.comment),
            msg_id: self.msg_id,
            marked_by: self.marked_by,
            marked_at: self.marked_at,
            marked_for: self.marked_for,
        }
    }
}

/// A copy of a text that may be absent.
pub fn clone_opt_text(t: &Option<String>) -> (r: Option<String>)
    ensures
        opt_text_view(r) == opt_text_view(*t),
{
    match t {
        Some(s) => Some(s.clone()),
        None => None,
    }
}

impl Clone for Mark {
    fn clone(&self) -> (r: Self)
        ensures
            r@ == self@,
    {
        Mark {
            id: self.id,
            kind: self.kind.clone(),
            comment: clone_opt_text(&self.comment),
            msg_id: self.msg_id,
            marked_by: self.marked_by,
            marked_at: self.marked_at,
            marked_for: self.marked_for,
        }
    }
}

/// A blocking edge between two packages, both given by name: `request`
/// cannot be built until `required` is done.
pub struct Relation {
    /// The kind of the edge, `outdated_dep` or `missing_dep`.
    pub relation: String,
    /// The name of the package that is blocked.
    pub request: String,
    /// The name of the package that it waits for.
    pub required: String,
    /// The `tg_uid` of the packager who recorded the edge, where one is known.
    pub created_by: Option<i64>,
}

/// What a [`Relation`] row says.
pub struct RelationView {
    pub relation: Seq<char>,
    pub request: Seq<char>,
    pub required: Seq<char>,
    pub created_by: Option<i64>,
}

impl View for Relation {
    type V = RelationView;

    open spec fn view(&self) -> RelationView {
        RelationView {
            relation: self.relation@,
            request: self.request@,
            required: self.required@,
            created_by: self.created_by,
        }
    }
}

impl Clone for Relation {
    fn clone(&self) -> (r: Self)
        ensures
            r@ == self@,
    {
        Relation {
            relation: self.relation.clone(),
            request: self.request.clone(),
            required: self.required.clone(),
            created_by: self.created_by,
        }
    }
}

/// The views of a run of packager rows.
pub open spec fn packagers_view(v: Seq<Packager>) -> Seq<PackagerView> {
    v.map_values(|p: Packager| p@)
}

/// The views of a run of package rows.
pub open spec fn packages_view(v: Seq<Package>) -> Seq<PackageView> {
    v.map_values(|p: Package| p@)
}

/// The views of a run of mark rows.
pub open spec fn marks_view(v: Seq<Mark>) -> Seq<MarkView> {
    v.map_values(|m: Mark| m@)
}

/// The views of a run of relation rows.
pub open spec fn relations_view(v: Seq<Relation>) -> Seq<RelationView> {
    v.map_values(|r: Relation| r@)
}

} // verus!
