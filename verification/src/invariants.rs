//! Preservation of well-formedness through the elementary transitions of
//! the model. The executable checker leans on these lemmas to maintain,
//! at every instruction index, the exclusivity discipline of borrows.

use crate::instruction::Instruction;
use crate::model::{
    any_borrow_overlap, any_mut_overlap, apply_move_out, borrow_conflict_at, borrow_mut_model,
    borrow_shared_model, copy_model, declare_model, declared_state, drop_owned_rev, drop_place,
    ensure_destination, ensure_place, enter_scope_model, exit_scope_model, find_index,
    mark_ancestors_partial, move_model, mut_conflict_at, read_error, read_model, register_owner,
    release_inside_from, release_model, release_one, release_scope_from, run_model,
    set_place_and_inside, step_model, take_error, wf, write_conflict, write_model, CheckerModel,
    PlaceModel,
};
use crate::place::{path_same, paths_overlap, PathModel};
use crate::state::OwnershipState;
use vstd::prelude::*;

verus! {

/// A found place index is inside the arena and names the sought path.
pub proof fn lemma_find_index(places: Seq<PlaceModel>, path: PathModel)
    requires
        places.len() <= usize::MAX,
    ensures
        match find_index(places, path) {
            Some(i) => i < places.len() && path_same(places[i as int].path, path),
            None => true,
        },
    decreases places.len(),
{
    if places.len() == 0 {
    } else if path_same(places.last().path, path) {
    } else {
        lemma_find_index(places.drop_last(), path);
        match find_index(places.drop_last(), path) {
            Some(i) => {
                assert(places.drop_last()[i as int] == places[i as int]);
            },
            None => {},
        }
    }
}

/// Appending a place whose state carries no borrow keeps the state
/// well-formed.
pub proof fn lemma_append_place_wf(c: CheckerModel, pm: PlaceModel, st: OwnershipState)
    requires
        wf(c),
        !(st is SharedBorrowed),
        !(st is MutBorrowed),
    ensures
        wf(CheckerModel { places: c.places.push(pm), states: c.states.push(st), ..c }),
{
    let c2 = CheckerModel { places: c.places.push(pm), states: c.states.push(st), ..c };
    let n = c.places.len() as int;
    assert forall|p: int, q: int|
        #![trigger c2.states[p], c2.states[q]]
        0 <= p < c2.places.len() && 0 <= q < c2.places.len() && paths_overlap(
            c2.places[p].path,
            c2.places[q].path,
        ) && c2.states[p] is MutBorrowed implies (!(c2.states[q] is SharedBorrowed) && (
    c2.states[q] is MutBorrowed ==> p == q)) by {
        if p < n && q < n {
            assert(c2.states[p] == c.states[p]);
            assert(c2.states[q] == c.states[q]);
            assert(c2.places[p] == c.places[p]);
            assert(c2.places[q] == c.places[q]);
        } else if p == n {
            assert(c2.states[p] == st);
        } else {
            assert(c2.states[q] == st);
        }
    }
}

/// Rewriting a place and its interior to a borrow-free state keeps the
/// state well-formed.
pub proof fn lemma_set_nonborrow_wf(c: CheckerModel, pid: usize, st: OwnershipState)
    requires
        wf(c),
        !(st is SharedBorrowed),
        !(st is MutBorrowed),
    ensures
        wf(set_place_and_inside(c, pid, st)),
{
    let c2 = set_place_and_inside(c, pid, st);
    assert forall|p: int, q: int|
        #![trigger c2.states[p], c2.states[q]]
        0 <= p < c2.places.len() && 0 <= q < c2.places.len() && paths_overlap(
            c2.places[p].path,
            c2.places[q].path,
        ) && c2.states[p] is MutBorrowed implies (!(c2.states[q] is SharedBorrowed) && (
    c2.states[q] is MutBorrowed ==> p == q)) by {
        assert(c2.states[p] == c.states[p]);
        if c2.states[q] is SharedBorrowed || c2.states[q] is MutBorrowed {
            assert(c2.states[q] == c.states[q]);
        }
    }
}

/// Marking owned ancestors partially moved keeps the state well-formed.
pub proof fn lemma_mark_ancestors_wf(c: CheckerModel, path: PathModel)
    requires
        wf(c),
    ensures
        wf(mark_ancestors_partial(c, path)),
{
    let c2 = mark_ancestors_partial(c, path);
    assert forall|p: int, q: int|
        #![trigger c2.states[p], c2.states[q]]
        0 <= p < c2.places.len() && 0 <= q < c2.places.len() && paths_overlap(
            c2.places[p].path,
            c2.places[q].path,
        ) && c2.states[p] is MutBorrowed implies (!(c2.states[q] is SharedBorrowed) && (
    c2.states[q] is MutBorrowed ==> p == q)) by {
        assert(c2.states[p] == c.states[p]);
        if c2.states[q] is SharedBorrowed || c2.states[q] is MutBorrowed {
            assert(c2.states[q] == c.states[q]);
        }
    }
}

/// Releasing one borrow keeps the state well-formed and touches only the
/// borrow records and the state table.
pub proof fn lemma_release_one_wf(c: CheckerModel, b: usize)
    requires
        wf(c),
        b < c.borrows.len(),
    ensures
        wf(release_one(c, b)),
        release_one(c, b).places == c.places,
        release_one(c, b).scopes == c.scopes,
        release_one(c, b).stack == c.stack,
        release_one(c, b).diags == c.diags,
        release_one(c, b).borrows.len() == c.borrows.len(),
{
    let c2 = release_one(c, b);
    let target = c.borrows[b as int].target as int;
    assert forall|p: int, q: int|
        #![trigger c2.states[p], c2.states[q]]
        0 <= p < c2.places.len() && 0 <= q < c2.places.len() && paths_overlap(
            c2.places[p].path,
            c2.places[q].path,
        ) && c2.states[p] is MutBorrowed implies (!(c2.states[q] is SharedBorrowed) && (
    c2.states[q] is MutBorrowed ==> p == q)) by {
        assert(c2.states[p] == c.states[p] || p == target);
        if p == target {
            assert(!(c2.states[p] is MutBorrowed));
        } else {
            if q == target {
                if c2.states[q] is SharedBorrowed {
                    assert(c.states[q] is SharedBorrowed);
                }
                if c2.states[q] is MutBorrowed {
                    assert(c.states[q] is MutBorrowed);
                }
            }
        }
    }
}

/// Releasing the borrows rooted in a place keeps the state well-formed
/// and touches only the borrow records and the state table.
pub proof fn lemma_release_inside_wf(c: CheckerModel, pid: usize, i: nat)
    requires
        wf(c),
        c.borrows.len() <= usize::MAX,
    ensures
        wf(release_inside_from(c, pid, i)),
        release_inside_from(c, pid, i).places == c.places,
        release_inside_from(c, pid, i).scopes == c.scopes,
        release_inside_from(c, pid, i).stack == c.stack,
        release_inside_from(c, pid, i).diags == c.diags,
        release_inside_from(c, pid, i).borrows.len() == c.borrows.len(),
    decreases c.borrows.len() - i,
{
    if i >= c.borrows.len() {
    } else {
        let b = c.borrows[i as int];
        if !b.released && b.target < c.places.len() && crate::place::path_contains(
            c.places[pid as int].path,
            c.places[b.target as int].path,
        ) {
            lemma_release_one_wf(c, i as usize);
            lemma_release_inside_wf(release_one(c, i as usize), pid, i + 1);
        } else {
            lemma_release_inside_wf(c, pid, i + 1);
        }
    }
}

/// Dropping a place keeps the state well-formed and touches only the
/// borrow records and the state table.
pub proof fn lemma_drop_place_wf(c: CheckerModel, pid: usize)
    requires
        wf(c),
        c.borrows.len() <= usize::MAX,
    ensures
        wf(drop_place(c, pid)),
        drop_place(c, pid).places == c.places,
        drop_place(c, pid).scopes == c.scopes,
        drop_place(c, pid).stack == c.stack,
        drop_place(c, pid).diags == c.diags,
        drop_place(c, pid).borrows.len() == c.borrows.len(),
{
    if pid < c.places.len() && c.states[pid as int] is Owned {
        lemma_release_inside_wf(c, pid, 0);
        lemma_set_nonborrow_wf(release_inside_from(c, pid, 0), pid, OwnershipState::MovedOut);
    }
}

/// Recording a place in a scope keeps the state well-formed.
pub proof fn lemma_register_owner_wf(c: CheckerModel, sid: usize, pid: usize)
    requires
        wf(c),
        sid < c.scopes.len(),
        pid < c.places.len(),
    ensures
        wf(register_owner(c, sid, pid)),
{
    let c2 = register_owner(c, sid, pid);
    assert forall|s: int, k: int|
        0 <= s < c2.scopes.len() && 0 <= k < c2.scopes[s].owned.len() implies #[trigger] c2.scopes[s].owned[k]
        < c2.places.len() by {
        if s == sid {
            if k < c.scopes[s].owned.len() {
                assert(c2.scopes[s].owned[k] == c.scopes[s].owned[k]);
            }
        } else {
            assert(c2.scopes[s] == c.scopes[s]);
        }
    }
}

/// Dropping a list of places keeps the state well-formed and touches only
/// the borrow records and the state table.
pub proof fn lemma_drop_owned_rev_wf(c: CheckerModel, owned: Seq<usize>)
    requires
        wf(c),
        c.borrows.len() <= usize::MAX,
    ensures
        wf(drop_owned_rev(c, owned)),
        drop_owned_rev(c, owned).places == c.places,
        drop_owned_rev(c, owned).scopes == c.scopes,
        drop_owned_rev(c, owned).stack == c.stack,
        drop_owned_rev(c, owned).diags == c.diags,
        drop_owned_rev(c, owned).borrows.len() == c.borrows.len(),
    decreases owned.len(),
{
    if owned.len() == 0 {
    } else {
        lemma_drop_place_wf(c, owned.last());
        lemma_drop_owned_rev_wf(drop_place(c, owned.last()), owned.drop_last());
    }
}

/// Releasing the borrows of a scope keeps the state well-formed and
/// touches only the borrow records and the state table.
pub proof fn lemma_release_scope_wf(c: CheckerModel, sid: usize, i: nat)
    requires
        wf(c),
        c.borrows.len() <= usize::MAX,
    ensures
        wf(release_scope_from(c, sid, i)),
        release_scope_from(c, sid, i).places == c.places,
        release_scope_from(c, sid, i).scopes == c.scopes,
        release_scope_from(c, sid, i).stack == c.stack,
        release_scope_from(c, sid, i).diags == c.diags,
        release_scope_from(c, sid, i).borrows.len() == c.borrows.len(),
    decreases c.borrows.len() - i,
{
    if i >= c.borrows.len() {
    } else {
        let b = c.borrows[i as int];
        if !b.released && b.scope == sid {
            lemma_release_one_wf(c, i as usize);
            lemma_release_scope_wf(release_one(c, i as usize), sid, i + 1);
        } else {
            lemma_release_scope_wf(c, sid, i + 1);
        }
    }
}

/// Resolving a path keeps the state well-formed, creates at most one
/// place per projection, touches nothing else, and hands back an index
/// inside the arena naming the sought path — provided the arena and the
/// created places fit the machine's indices.
pub proof fn lemma_ensure_place_wf(c: CheckerModel, path: PathModel)
    requires
        wf(c),
        c.places.len() + path.projs.len() <= usize::MAX,
    ensures
        wf(ensure_place(c, path).0),
        match ensure_place(c, path).1 {
            Some(i) => i < ensure_place(c, path).0.places.len() && path_same(
                ensure_place(c, path).0.places[i as int].path,
                path,
            ),
            None => true,
        },
        ensure_place(c, path).0.borrows == c.borrows,
        ensure_place(c, path).0.scopes == c.scopes,
        ensure_place(c, path).0.stack == c.stack,
        ensure_place(c, path).0.diags == c.diags,
        c.places.len() <= ensure_place(c, path).0.places.len(),
        ensure_place(c, path).0.places.len() <= c.places.len() + path.projs.len(),
    decreases path.projs.len(),
{
    if path.projs.len() == 0 {
        lemma_find_index(c.places, path);
    } else {
        lemma_ensure_place_wf(c, crate::place::path_parent(path));
        let (c1, parent) = ensure_place(c, crate::place::path_parent(path));
        match parent {
            None => {},
            Some(pi) => {
                lemma_find_index(c1.places, path);
                match find_index(c1.places, path) {
                    Some(i) => {},
                    None => {
                        let created = PlaceModel {
                            path,
                            parent: Some(pi),
                            kind: c1.places[pi as int].kind,
                        };
                        lemma_append_place_wf(
                            c1,
                            created,
                            crate::model::inherited_state(c1.states[pi as int]),
                        );
                    },
                }
            },
        }
    }
}

/// Resolving a transfer destination keeps the state well-formed and
/// leaves the borrows, the stack and the diagnostics alone.
pub proof fn lemma_ensure_destination_wf(c: CheckerModel, path: PathModel)
    requires
        wf(c),
        c.places.len() + path.projs.len() + 1 <= usize::MAX,
    ensures
        wf(ensure_destination(c, path).0),
        ensure_destination(c, path).0.borrows == c.borrows,
        ensure_destination(c, path).0.stack == c.stack,
        ensure_destination(c, path).0.diags == c.diags,
        ensure_destination(c, path).0.scopes.len() == c.scopes.len(),
        ensure_destination(c, path).0.places.len() <= c.places.len() + path.projs.len() + 1,
{
    lemma_ensure_place_wf(c, path);
    let (c1, found) = ensure_place(c, path);
    match found {
        Some(i) => {},
        None => if path.projs.len() == 0 {
            let pid = c1.places.len() as usize;
            let pm = PlaceModel { path, parent: None, kind: crate::state::TypeKind::Owned };
            lemma_append_place_wf(c1, pm, OwnershipState::Uninitialized);
            let c2 = CheckerModel {
                places: c1.places.push(pm),
                states: c1.states.push(OwnershipState::Uninitialized),
                ..c1
            };
            lemma_register_owner_wf(c2, c2.stack.last(), pid);
        } else {
        },
    }
}

/// How many places one instruction can add to the arena: one per
/// projection it resolves, and one for a declared or implicitly declared
/// root.
pub open spec fn step_room(inst: Instruction) -> int {
    match inst {
        Instruction::Declare { .. } => 1int,
        Instruction::Move { src, dst } => src@.projs.len() + dst@.projs.len() + 1int,
        Instruction::Copy { src, dst } => src@.projs.len() + dst@.projs.len() + 1int,
        Instruction::BorrowShared { place } => place@.projs.len() as int,
        Instruction::BorrowMut { place } => place@.projs.len() as int,
        Instruction::Read { place } => place@.projs.len() as int,
        Instruction::Write { place } => place@.projs.len() as int,
        _ => 0int,
    }
}

/// Whether the machine's indices have room for one step of `inst` from
/// state `c`: each step adds at most `step_room(inst)` places, one borrow
/// and one scope.
pub open spec fn step_fits(c: CheckerModel, inst: Instruction) -> bool {
    &&& c.places.len() + step_room(inst) <= usize::MAX
    &&& c.borrows.len() + 1 <= usize::MAX
    &&& c.scopes.len() + 1 <= usize::MAX
}

/// A declaration keeps the state well-formed.
proof fn lemma_declare_wf(
    c: CheckerModel,
    path: PathModel,
    kind: crate::state::TypeKind,
    init: bool,
    idx: usize,
)
    requires
        wf(c),
        c.places.len() + 1 <= usize::MAX,
    ensures
        wf(declare_model(c, path, kind, init, idx)),
        declare_model(c, path, kind, init, idx).places.len() <= c.places.len() + 1,
        declare_model(c, path, kind, init, idx).borrows.len() == c.borrows.len(),
        declare_model(c, path, kind, init, idx).scopes.len() == c.scopes.len(),
{
    if path.projs.len() != 0 {
    } else {
        lemma_find_index(c.places, path);
        match find_index(c.places, path) {
            None => {
                let pid = c.places.len() as usize;
                let pm = PlaceModel { path, parent: None, kind };
                lemma_append_place_wf(c, pm, declared_state(init));
                let c1 = CheckerModel {
                    places: c.places.push(pm),
                    states: c.states.push(declared_state(init)),
                    ..c
                };
                lemma_register_owner_wf(c1, c1.stack.last(), pid);
            },
            Some(pid) => {
                if any_borrow_overlap(c, path) {
                } else {
                    let c1 = CheckerModel {
                        places: c.places.update(
                            pid as int,
                            PlaceModel { kind, ..c.places[pid as int] },
                        ),
                        ..c
                    };
                    assert(wf(c1)) by {
                        assert forall|p: int, q: int|
                            #![trigger c1.states[p], c1.states[q]]
                            0 <= p < c1.places.len() && 0 <= q < c1.places.len()
                                && paths_overlap(c1.places[p].path, c1.places[q].path)
                                && c1.states[p] is MutBorrowed implies (!(c1.states[q]
                        is SharedBorrowed) && (c1.states[q] is MutBorrowed ==> p == q)) by {
                            assert(c1.places[p].path == c.places[p].path);
                            assert(c1.places[q].path == c.places[q].path);
                        }
                    }
                    lemma_set_nonborrow_wf(c1, pid, declared_state(init));
                    let c2 = set_place_and_inside(c1, pid, declared_state(init));
                    lemma_register_owner_wf(c2, c2.stack.last(), pid);
                }
            },
        }
    }
}

/// A move keeps the state well-formed.
proof fn lemma_move_wf(c: CheckerModel, src: PathModel, dst: PathModel, idx: usize)
    requires
        wf(c),
        c.places.len() + src.projs.len() + dst.projs.len() + 1 <= usize::MAX,
    ensures
        wf(move_model(c, src, dst, idx)),
        move_model(c, src, dst, idx).places.len() <= c.places.len() + src.projs.len()
            + dst.projs.len() + 1,
        move_model(c, src, dst, idx).borrows.len() == c.borrows.len(),
        move_model(c, src, dst, idx).scopes.len() <= c.scopes.len(),
{
    lemma_ensure_place_wf(c, src);
    let (c1, srco) = ensure_place(c, src);
    match srco {
        None => {},
        Some(s) => match take_error(c1, s, src) {
            Some(kind) => {},
            None => {
                lemma_ensure_destination_wf(c1, dst);
                let (c2, dsto) = ensure_destination(c1, dst);
                match dsto {
                    None => {},
                    Some(d) => {
                        lemma_set_nonborrow_wf(c2, s, OwnershipState::MovedOut);
                        lemma_mark_ancestors_wf(
                            set_place_and_inside(c2, s, OwnershipState::MovedOut),
                            c2.places[s as int].path,
                        );
                        lemma_set_nonborrow_wf(apply_move_out(c2, s), d, OwnershipState::Owned);
                    },
                }
            },
        },
    }
}

/// A copy keeps the state well-formed.
proof fn lemma_copy_wf(c: CheckerModel, src: PathModel, dst: PathModel, idx: usize)
    requires
        wf(c),
        c.places.len() + src.projs.len() + dst.projs.len() + 1 <= usize::MAX,
    ensures
        wf(copy_model(c, src, dst, idx)),
        copy_model(c, src, dst, idx).places.len() <= c.places.len() + src.projs.len()
            + dst.projs.len() + 1,
        copy_model(c, src, dst, idx).borrows.len() == c.borrows.len(),
        copy_model(c, src, dst, idx).scopes.len() <= c.scopes.len(),
{
    lemma_ensure_place_wf(c, src);
    let (c1, srco) = ensure_place(c, src);
    match srco {
        None => {},
        Some(s) => {
            if c1.places[s as int].kind is Owned {
                match take_error(c1, s, src) {
                    Some(kind) => {},
                    None => {
                        lemma_ensure_destination_wf(c1, dst);
                        let (c2, dsto) = ensure_destination(c1, dst);
                        match dsto {
                            None => {},
                            Some(d) => {
                                lemma_set_nonborrow_wf(c2, s, OwnershipState::MovedOut);
                                lemma_mark_ancestors_wf(
                                    set_place_and_inside(c2, s, OwnershipState::MovedOut),
                                    c2.places[s as int].path,
                                );
                                lemma_set_nonborrow_wf(
                                    apply_move_out(c2, s),
                                    d,
                                    OwnershipState::Owned,
                                );
                            },
                        }
                    },
                }
            } else {
                match read_error(c1, s, src) {
                    Some(kind) => {},
                    None => {
                        lemma_ensure_destination_wf(c1, dst);
                        let (c2, dsto) = ensure_destination(c1, dst);
                        match dsto {
                            None => {},
                            Some(d) => {
                                lemma_set_nonborrow_wf(c2, d, OwnershipState::Owned);
                            },
                        }
                    },
                }
            }
        },
    }
}

/// A shared borrow keeps the state well-formed.
proof fn lemma_borrow_shared_wf(c: CheckerModel, path: PathModel, idx: usize)
    requires
        wf(c),
        c.places.len() + path.projs.len() <= usize::MAX,
        c.borrows.len() + 1 <= usize::MAX,
    ensures
        wf(borrow_shared_model(c, path, idx)),
        borrow_shared_model(c, path, idx).places.len() <= c.places.len() + path.projs.len(),
        borrow_shared_model(c, path, idx).borrows.len() <= c.borrows.len() + 1,
        borrow_shared_model(c, path, idx).scopes.len() == c.scopes.len(),
{
    lemma_ensure_place_wf(c, path);
    let (c1, found) = ensure_place(c, path);
    match found {
        None => {},
        Some(pid) => {
            assert(c1.places[pid as int].path =~= path);
            match c1.states[pid as int] {
                OwnershipState::MovedOut => {},
                OwnershipState::Uninitialized => {},
                OwnershipState::PartiallyMoved => {},
                _ => {
                    if any_mut_overlap(c1, path) {
                    } else {
                        let c2 = CheckerModel {
                            borrows: c1.borrows.push(
                                crate::state::BorrowRec {
                                    target: pid,
                                    mutable: false,
                                    created_at: idx,
                                    scope: c1.stack.last(),
                                    released: false,
                                },
                            ),
                            ..c1
                        };
                        let new_state = match c2.states[pid as int] {
                            OwnershipState::SharedBorrowed { count } => OwnershipState::SharedBorrowed {
                                count: (count + 1) as usize,
                            },
                            _ => OwnershipState::SharedBorrowed { count: 1 },
                        };
                        let c3 = CheckerModel {
                            states: c2.states.update(pid as int, new_state),
                            ..c2
                        };
                        assert forall|p: int, q: int|
                            #![trigger c3.states[p], c3.states[q]]
                            0 <= p < c3.places.len() && 0 <= q < c3.places.len()
                                && paths_overlap(c3.places[p].path, c3.places[q].path)
                                && c3.states[p] is MutBorrowed implies (!(c3.states[q]
                        is SharedBorrowed) && (c3.states[q] is MutBorrowed ==> p == q)) by {
                            assert(c3.states[p] == c1.states[p]);
                            if q == pid {
                                assert(mut_conflict_at(c1, path, p));
                            } else {
                                assert(c3.states[q] == c1.states[q]);
                            }
                        }
                        assert(wf(c3));
                    }
                },
            }
        },
    }
}

/// An exclusive borrow keeps the state well-formed.
proof fn lemma_borrow_mut_wf(c: CheckerModel, path: PathModel, idx: usize)
    requires
        wf(c),
        c.places.len() + path.projs.len() <= usize::MAX,
        c.borrows.len() + 1 <= usize::MAX,
    ensures
        wf(borrow_mut_model(c, path, idx)),
        borrow_mut_model(c, path, idx).places.len() <= c.places.len() + path.projs.len(),
        borrow_mut_model(c, path, idx).borrows.len() <= c.borrows.len() + 1,
        borrow_mut_model(c, path, idx).scopes.len() == c.scopes.len(),
{
    lemma_ensure_place_wf(c, path);
    let (c1, found) = ensure_place(c, path);
    match found {
        None => {},
        Some(pid) => {
            assert(c1.places[pid as int].path =~= path);
            match c1.states[pid as int] {
                OwnershipState::MovedOut => {},
                OwnershipState::Uninitialized => {},
                OwnershipState::PartiallyMoved => {},
                _ => {
                    if any_borrow_overlap(c1, path) {
                    } else {
                        let bid = c1.borrows.len() as usize;
                        let c2 = CheckerModel {
                            borrows: c1.borrows.push(
                                crate::state::BorrowRec {
                                    target: pid,
                                    mutable: true,
                                    created_at: idx,
                                    scope: c1.stack.last(),
                                    released: false,
                                },
                            ),
                            ..c1
                        };
                        let c3 = CheckerModel {
                            states: c2.states.update(
                                pid as int,
                                OwnershipState::MutBorrowed { borrower: bid },
                            ),
                            ..c2
                        };
                        assert forall|p: int, q: int|
                            #![trigger c3.states[p], c3.states[q]]
                            0 <= p < c3.places.len() && 0 <= q < c3.places.len()
                                && paths_overlap(c3.places[p].path, c3.places[q].path)
                                && c3.states[p] is MutBorrowed implies (!(c3.states[q]
                        is SharedBorrowed) && (c3.states[q] is MutBorrowed ==> p == q)) by {
                            if p != pid {
                                assert(c3.states[p] == c1.states[p]);
                                if q == pid {
                                    assert(borrow_conflict_at(c1, path, p));
                                } else {
                                    assert(c3.states[q] == c1.states[q]);
                                }
                            } else {
                                if q != pid {
                                    assert(c3.states[q] == c1.states[q]);
                                    if c3.states[q] is SharedBorrowed || c3.states[q]
                                        is MutBorrowed {
                                        assert(borrow_conflict_at(c1, path, q));
                                    }
                                }
                            }
                        }
                        assert(wf(c3));
                    }
                },
            }
        },
    }
}

/// A read keeps the state well-formed.
proof fn lemma_read_wf(c: CheckerModel, path: PathModel, idx: usize)
    requires
        wf(c),
        c.places.len() + path.projs.len() <= usize::MAX,
    ensures
        wf(read_model(c, path, idx)),
        read_model(c, path, idx).places.len() <= c.places.len() + path.projs.len(),
        read_model(c, path, idx).borrows.len() == c.borrows.len(),
        read_model(c, path, idx).scopes.len() == c.scopes.len(),
{
    lemma_ensure_place_wf(c, path);
}

/// A write keeps the state well-formed.
proof fn lemma_write_wf(c: CheckerModel, path: PathModel, idx: usize)
    requires
        wf(c),
        c.places.len() + path.projs.len() <= usize::MAX,
    ensures
        wf(write_model(c, path, idx)),
        write_model(c, path, idx).places.len() <= c.places.len() + path.projs.len(),
        write_model(c, path, idx).borrows.len() == c.borrows.len(),
        write_model(c, path, idx).scopes.len() == c.scopes.len(),
{
    lemma_ensure_place_wf(c, path);
    let (c1, found) = ensure_place(c, path);
    match found {
        None => {},
        Some(pid) => match c1.states[pid as int] {
            OwnershipState::MovedOut => {},
            _ => if write_conflict(c1, path, pid) {
            } else if c1.states[pid as int] is MutBorrowed {
            } else {
                lemma_set_nonborrow_wf(c1, pid, OwnershipState::Owned);
            },
        },
    }
}

/// An explicit release keeps the state well-formed.
proof fn lemma_release_model_wf(c: CheckerModel, b: usize, idx: usize)
    requires
        wf(c),
    ensures
        wf(release_model(c, b, idx)),
        release_model(c, b, idx).places.len() == c.places.len(),
        release_model(c, b, idx).borrows.len() == c.borrows.len(),
        release_model(c, b, idx).scopes.len() == c.scopes.len(),
{
    if b >= c.borrows.len() || c.borrows[b as int].released {
    } else {
        lemma_release_one_wf(c, b);
    }
}

/// A scope entry keeps the state well-formed.
proof fn lemma_enter_wf(c: CheckerModel)
    requires
        wf(c),
        c.scopes.len() + 1 <= usize::MAX,
    ensures
        wf(enter_scope_model(c)),
        enter_scope_model(c).places.len() == c.places.len(),
        enter_scope_model(c).borrows.len() == c.borrows.len(),
        enter_scope_model(c).scopes.len() == c.scopes.len() + 1,
{
    let c2 = enter_scope_model(c);
    assert forall|s: int, k: int|
        0 <= s < c2.scopes.len() && 0 <= k < c2.scopes[s].owned.len() implies #[trigger] c2.scopes[s].owned[k]
        < c2.places.len() by {
        if s < c.scopes.len() {
            assert(c2.scopes[s] == c.scopes[s]);
        }
    }
}

/// A scope exit keeps the state well-formed.
proof fn lemma_exit_model_wf(c: CheckerModel, idx: usize)
    requires
        wf(c),
        c.borrows.len() <= usize::MAX,
    ensures
        wf(exit_scope_model(c, idx)),
        exit_scope_model(c, idx).places.len() == c.places.len(),
        exit_scope_model(c, idx).borrows.len() == c.borrows.len(),
        exit_scope_model(c, idx).scopes.len() == c.scopes.len(),
{
    if c.stack.len() <= 1 {
    } else {
        let sid = c.stack.last();
        let c1 = CheckerModel {
            stack: c.stack.drop_last(),
            scopes: c.scopes.update(
                sid as int,
                crate::state::ScopeModel { is_open: false, ..c.scopes[sid as int] },
            ),
            ..c
        };
        assert(wf(c1)) by {
            assert(c1.stack[0] == c.stack[0]);
            assert forall|s: int, k: int|
                0 <= s < c1.scopes.len() && 0 <= k < c1.scopes[s].owned.len() implies #[trigger] c1.scopes[s].owned[k]
                < c1.places.len() by {
                if s != sid {
                    assert(c1.scopes[s] == c.scopes[s]);
                } else {
                    assert(c1.scopes[s].owned == c.scopes[sid as int].owned);
                }
            }
        }
        lemma_drop_owned_rev_wf(c1, c.scopes[sid as int].owned);
        lemma_release_scope_wf(drop_owned_rev(c1, c.scopes[sid as int].owned), sid, 0);
    }
}

/// One step of the model keeps a well-formed state well-formed, and grows
/// the tables by at most the step's room: one borrow, one scope, and
/// `step_room` places.
pub proof fn lemma_step_wf(c: CheckerModel, inst: Instruction, idx: usize)
    requires
        wf(c),
        step_fits(c, inst),
    ensures
        wf(step_model(c, inst, idx)),
        step_model(c, inst, idx).places.len() <= c.places.len() + step_room(inst),
        step_model(c, inst, idx).borrows.len() <= c.borrows.len() + 1,
        step_model(c, inst, idx).scopes.len() <= c.scopes.len() + 1,
{
    match inst {
        Instruction::Declare { place, kind, init } => lemma_declare_wf(c, place@, kind, init, idx),
        Instruction::Move { src, dst } => lemma_move_wf(c, src@, dst@, idx),
        Instruction::Copy { src, dst } => lemma_copy_wf(c, src@, dst@, idx),
        Instruction::BorrowShared { place } => lemma_borrow_shared_wf(c, place@, idx),
        Instruction::BorrowMut { place } => lemma_borrow_mut_wf(c, place@, idx),
        Instruction::ReleaseBorrow { borrow } => lemma_release_model_wf(c, borrow, idx),
        Instruction::Read { place } => lemma_read_wf(c, place@, idx),
        Instruction::Write { place } => lemma_write_wf(c, place@, idx),
        Instruction::EnterScope => lemma_enter_wf(c),
        Instruction::ExitScope => lemma_exit_model_wf(c, idx),
    }
}

/// How many places a whole walk can create.
pub open spec fn walk_room(instrs: Seq<Instruction>) -> int
    decreases instrs.len(),
{
    if instrs.len() == 0 {
        0
    } else {
        walk_room(instrs.drop_last()) + step_room(instrs.last())
    }
}

/// A walk never needs less room than any of its prefixes.
pub proof fn lemma_walk_room_prefix(instrs: Seq<Instruction>, n: int)
    requires
        0 <= n <= instrs.len(),
    ensures
        walk_room(instrs.take(n)) <= walk_room(instrs),
    decreases instrs.len() - n,
{
    if n == instrs.len() {
        assert(instrs.take(n) =~= instrs);
    } else {
        lemma_walk_room_prefix(instrs, n + 1);
        assert(instrs.take(n + 1).drop_last() =~= instrs.take(n));
        assert(instrs.take(n + 1).last() == instrs[n]);
        assert(step_room(instrs[n]) >= 0);
    }
}

/// Walking any instruction sequence whose footprint fits the machine's
/// indices reaches a well-formed state, with as many places as the walk
/// had room for at most, and no more borrows than instructions nor more
/// scopes than instructions and the root.
pub proof fn lemma_run_wf(instrs: Seq<Instruction>)
    requires
        walk_room(instrs) <= usize::MAX,
        instrs.len() + 1 <= usize::MAX,
    ensures
        wf(run_model(instrs)),
        run_model(instrs).places.len() <= walk_room(instrs),
        run_model(instrs).borrows.len() <= instrs.len(),
        run_model(instrs).scopes.len() <= instrs.len() + 1,
    decreases instrs.len(),
{
    if instrs.len() == 0 {
    } else {
        let prefix = instrs.drop_last();
        assert(step_room(instrs.last()) >= 0);
        lemma_run_wf(prefix);
        lemma_step_wf(run_model(prefix), instrs.last(), (instrs.len() - 1) as usize);
    }
}

} // verus!
