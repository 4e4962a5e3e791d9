//! Giving a package up.

use crate::model::Assignment;
use crate::packagers::links;
use crate::seqs::{
    any_where, first_where, lemma_filter_step, lemma_first_where_hit, lemma_first_where_miss,
    not_where,
};
use crate::store::{held_by, Missing, Store, StoreError, StoreView};
use vstd::prelude::*;

verus! {

/// The assignments with the given id.
pub open spec fn assignment_id(id: i64) -> spec_fn(Assignment) -> bool {
    |a: Assignment| a.id == id
}

/// The assignment that dropping `name` for the packager `uid` removes: the
/// packager's first assignment of the package with that name. `NoAssignments`
/// where the packager holds none at all; else `NotFound` for an unknown
/// package; else `NotAssigned` where none of them is for the package.
pub open spec fn assignment_to_drop(s: StoreView, name: Seq<char>, uid: i64) -> Result<
    Assignment,
    StoreError,
> {
    if !any_where(s.assignments, held_by(uid)) {
        Err(StoreError::NoAssignments)
    } else {
        match s.package_named(name) {
            None => Err(StoreError::NotFound(Missing::Package)),
            Some(p) => match first_where(s.assignments, links(uid, p.id)) {
                None => Err(StoreError::NotAssigned),
                Some(a) => Ok(a),
            },
        }
    }
}

/// The store after dropping an assignment: every assignment with the id of
/// the one to drop is gone; where there is none to drop, nothing changes.
pub open spec fn drop_assign_store(s: StoreView, name: Seq<char>, uid: i64) -> StoreView {
    match assignment_to_drop(s, name, uid) {
        Ok(a) => StoreView {
            assignments: s.assignments.filter(not_where(assignment_id(a.id))),
            ..s
        },
        Err(_) => s,
    }
}

/// Removes the packager's assignment of the named package.
pub fn drop_assign(store: &mut Store, pkgname: &str, packager: i64) -> (r: Result<(), StoreError>)
    ensures
        match assignment_to_drop(old(store)@, pkgname@, packager) {
            Ok(_) => r is Ok,
            Err(e) => r == Err::<(), StoreError>(e),
        },
        final(store)@ == drop_assign_store(old(store)@, pkgname@, packager),
        old(store)@.valid() ==> final(store)@.valid(),
{
    let ghost s = store@;
    let rows = store.assignments();
    let mut holds_any = false;
    let mut i: usize = 0;
    while i < rows.len()
        invariant
            i <= rows.len(),
            holds_any == any_where(rows@.take(i as int), held_by(packager)),
        decreases rows.len() - i,
    {
        proof {
            let a = rows@.take(i as int);
            let b = rows@.take(i as int + 1);
            assert(b =~= a.push(rows@[i as int]));
            if any_where(a, held_by(packager)) {
                let k = choose|k: int| 0 <= k < a.len() && held_by(packager)(#[trigger] a[k]);
                assert(held_by(packager)(b[k]));
            }
            if held_by(packager)(rows@[i as int]) {
                assert(held_by(packager)(b[i as int]));
            }
            if any_where(b, held_by(packager)) && !held_by(packager)(rows@[i as int]) {
                let k = choose|k: int| 0 <= k < b.len() && held_by(packager)(#[trigger] b[k]);
                assert(held_by(packager)(a[k]));
            }
        }
        if rows[i].assignee == packager {
            holds_any = true;
        }
        i += 1;
    }
    proof {
        assert(rows@.take(rows.len() as int) =~= rows@);
    }
    if !holds_any {
        return Err(StoreError::NoAssignments);
    }
    let Some(at) = store.find_package(pkgname) else {
        return Err(StoreError::NotFound(Missing::Package));
    };
    let pkg_id: i64 = store.packages()[at].id;
    assert(s.packages[at as int].id == pkg_id);
    let mut pending: Option<Assignment> = None;
    let mut j: usize = 0;
    while j < rows.len() && pending.is_none()
        invariant
            j <= rows.len(),
            forall|k: int| 0 <= k < j && pending is None ==> !links(packager, pkg_id)(
                #[trigger] rows@[k],
            ),
            pending is Some ==> first_where(rows@, links(packager, pkg_id)) == pending,
        decreases rows.len() - j + (if pending is None { 1nat } else { 0nat }),
    {
        if rows[j].assignee == packager && rows[j].pkg == pkg_id {
            proof {
                lemma_first_where_hit(rows@, links(packager, pkg_id), j as int);
            }
            pending = Some(rows[j]);
        } else {
            j += 1;
        }
    }
    let Some(drop) = pending else {
        proof {
            lemma_first_where_miss(rows@, links(packager, pkg_id));
        }
        return Err(StoreError::NotAssigned);
    };
    let ghost gone = not_where(assignment_id(drop.id));
    let mut kept: Vec<Assignment> = Vec::new();
    let mut k: usize = 0;
    while k < rows.len()
        invariant
            k <= rows.len(),
            gone == not_where(assignment_id(drop.id)),
            kept@ == rows@.take(k as int).filter(gone),
        decreases rows.len() - k,
    {
        proof {
            lemma_filter_step(rows@, gone, k as int);
        }
        if rows[k].id != drop.id {
            kept.push(rows[k]);
        }
        k += 1;
    }
    proof {
        assert(rows@.take(rows.len() as int) =~= rows@);
    }
    store.replace_assignments(kept);
    Ok(())
}

} // verus!
