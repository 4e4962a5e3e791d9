//! The fixed vocabularies at the boundary of the engine. The store keeps
//! names as plain text; here each name that the engine itself gives or asks
//! for has a variant, and each variant its name.

use vstd::prelude::*;

verus! {

/// The kinds of edge that block a package.
#[derive(Clone, Copy, PartialEq, Eq, Structural, Debug)]
pub enum RelationKind {
    /// The package needs a newer version of another one.
    OutdatedDep,
    /// The package needs another one that is not there.
    MissingDep,
}

impl RelationKind {
    /// The name of the kind in the store.
    pub open spec fn name_text(self) -> Seq<char> {
        match self {
            RelationKind::OutdatedDep => "outdated_dep"@,
            RelationKind::MissingDep => "missing_dep"@,
        }
    }

    /// The kind that a name stands for, if it stands for one.
    pub open spec fn parse_text(name: Seq<char>) -> Option<RelationKind> {
        if name == "outdated_dep"@ {
            Some(RelationKind::OutdatedDep)
        } else if name == "missing_dep"@ {
            Some(RelationKind::MissingDep)
        } else {
            None
        }
    }

    /// The name of the kind in the store.
    pub fn name(&self) -> (r: &'static str)
        ensures
            r@ == self.name_text(),
    {
        match self {
            RelationKind::OutdatedDep => "outdated_dep",
            RelationKind::MissingDep => "missing_dep",
        }
    }

    /// Reads a kind from its name.
    pub fn from_name(name: &str) -> (r: Option<RelationKind>)
        ensures
            r == RelationKind::parse_text(name@),
    {
        if crate::text::same_text(name, "outdated_dep") {
            Some(RelationKind::OutdatedDep)
        } else if crate::text::same_text(name, "missing_dep") {
            Some(RelationKind::MissingDep)
        } else {
            None
        }
    }
}

/// The status kinds that a report of a finished package may carry.
#[derive(Clone, Copy, PartialEq, Eq, Structural, Debug)]
pub enum StatusKind {
    /// The package failed to build from source before.
    Ftbfs,
    /// The package is a leaf of the dependency graph.
    Leaf,
}

impl StatusKind {
    /// The name of the status kind in a request.
    pub open spec fn name_text(self) -> Seq<char> {
        match self {
            StatusKind::Ftbfs => "ftbfs"@,
            StatusKind::Leaf => "leaf"@,
        }
    }

    /// The status kind that a name stands for, if it stands for one.
    pub open spec fn parse_text(name: Seq<char>) -> Option<StatusKind> {
        if name == "ftbfs"@ {
            Some(StatusKind::Ftbfs)
        } else if name == "leaf"@ {
            Some(StatusKind::Leaf)
        } else {
            None
        }
    }

    /// The name of the status kind in a request.
    pub fn name(&self) -> (r: &'static str)
        ensures
            r@ == self.name_text(),
    {
        match self {
            StatusKind::Ftbfs => "ftbfs",
            StatusKind::Leaf => "leaf",
        }
    }

    /// Reads a status kind from its name.
    pub fn from_name(name: &str) -> (r: Option<StatusKind>)
        ensures
            r == StatusKind::parse_text(name@),
    {
        if crate::text::same_text(name, "ftbfs") {
            Some(StatusKind::Ftbfs)
        } else if crate::text::same_text(name, "leaf") {
            Some(StatusKind::Leaf)
        } else {
            None
        }
    }
}

/// The marks that are cleared from a package when it is done.
#[derive(Clone, Copy, PartialEq, Eq, Structural, Debug)]
pub enum BlockingMark {
    Outdated,
    Stuck,
    Ready,
    OutdatedDep,
    MissingDep,
    Unknown,
    Ignore,
    Failing,
}

impl BlockingMark {
    /// The name of the mark in the store.
    pub open spec fn name_text(self) -> Seq<char> {
        match self {
            BlockingMark::Outdated => "outdated"@,
            BlockingMark::Stuck => "stuck"@,
            BlockingMark::Ready => "ready"@,
            BlockingMark::OutdatedDep => "outdated_dep"@,
            BlockingMark::MissingDep => "missing_dep"@,
            BlockingMark::Unknown => "unknown"@,
            BlockingMark::Ignore => "ignore"@,
            BlockingMark::Failing => "failing"@,
        }
    }

    /// The name of the mark in the store.
    pub fn name(&self) -> (r: &'static str)
        ensures
            r@ == self.name_text(),
    {
        match self {
            BlockingMark::Outdated => "outdated",
            BlockingMark::Stuck => "stuck",
            BlockingMark::Ready => "ready",
            BlockingMark::OutdatedDep => "outdated_dep",
            BlockingMark::MissingDep => "missing_dep",
            BlockingMark::Unknown => "unknown",
            BlockingMark::Ignore => "ignore",
            BlockingMark::Failing => "failing",
        }
    }

    /// The mark that mirrors a kind of blocking edge: a blocked package
    /// carries the mark of the same name as the edge.
    pub fn of_relation(kind: RelationKind) -> (r: BlockingMark)
        ensures
            r.name_text() == kind.name_text(),
    {
        match kind {
            RelationKind::OutdatedDep => BlockingMark::OutdatedDep,
            RelationKind::MissingDep => BlockingMark::MissingDep,
        }
    }

    /// The cleared marks, in the order in which they are asked for.
    pub fn all() -> (r: [BlockingMark; 8])
        ensures
            r@ == all_blocking_marks(),
    {
        let r = [
            BlockingMark::Outdated,
            BlockingMark::Stuck,
            BlockingMark::Ready,
            BlockingMark::OutdatedDep,
            BlockingMark::MissingDep,
            BlockingMark::Unknown,
            BlockingMark::Ignore,
            BlockingMark::Failing,
        ];
        assert(r@ =~= all_blocking_marks());
        r
    }
}

/// The cleared marks, in the order in which they are asked for.
pub open spec fn all_blocking_marks() -> Seq<BlockingMark> {
    seq![
        BlockingMark::Outdated,
        BlockingMark::Stuck,
        BlockingMark::Ready,
        BlockingMark::OutdatedDep,
        BlockingMark::MissingDep,
        BlockingMark::Unknown,
        BlockingMark::Ignore,
        BlockingMark::Failing,
    ]
}

/// A kind of blocking edge is read back from its own name, and a name reads
/// as a kind only where it is that kind's name.
pub proof fn law_relation_kind_round_trip(kind: RelationKind, name: Seq<char>)
    ensures
        RelationKind::parse_text(kind.name_text()) == Some(kind),
        RelationKind::parse_text(name) == Some(kind) ==> name == kind.name_text(),
{
    reveal_strlit("outdated_dep");
    reveal_strlit("missing_dep");
    assert("outdated_dep"@.len() != "missing_dep"@.len());
}

/// A status kind is read back from its own name, and a name reads as a
/// status kind only where it is that kind's name.
pub proof fn law_status_kind_round_trip(kind: StatusKind, name: Seq<char>)
    ensures
        StatusKind::parse_text(kind.name_text()) == Some(kind),
        StatusKind::parse_text(name) == Some(kind) ==> name == kind.name_text(),
{
    reveal_strlit("ftbfs");
    reveal_strlit("leaf");
    assert("ftbfs"@.len() != "leaf"@.len());
}

} // verus!
