//! The mathematical semantics of the checker: a functional model of its
//! state and one spec-level transition per instruction. The executable
//! checker is proved to follow this model step by step, which pins down
//! the diagnostics of a whole walk as a function of the instruction
//! sequence alone.

use crate::diag::{diag_model, DiagModel, DiagnosticKind};
use crate::instruction::Instruction;
use crate::place::{
    path_contains, path_parent, path_same, path_strictly_contains, paths_overlap, PathModel,
};
use crate::state::{BorrowRec, OwnershipState, ScopeModel, TypeKind};
use vstd::prelude::*;

verus! {

/// The mathematical value of one arena entry: a place, its parent, and
/// the kind it was declared with.
#[verifier::ext_equal]
pub struct PlaceModel {
    pub path: PathModel,
    pub parent: Option<usize>,
    pub kind: TypeKind,
}

/// The mathematical value of the whole checker state: the place arena,
/// the parallel table of ownership states, the borrow records, the scope
/// tree, the stack of open scopes, and the diagnostics collected so far.
#[verifier::ext_equal]
pub struct CheckerModel {
    pub places: Seq<PlaceModel>,
    pub states: Seq<OwnershipState>,
    pub borrows: Seq<BorrowRec>,
    pub scopes: Seq<ScopeModel>,
    pub stack: Seq<usize>,
    pub diags: Seq<DiagModel>,
}

/// The state of a fresh checker: nothing declared, no borrows, no
/// findings, and a single open root scope.
pub open spec fn init_model() -> CheckerModel {
    CheckerModel {
        places: Seq::empty(),
        states: Seq::empty(),
        borrows: Seq::empty(),
        scopes: seq![
            ScopeModel { parent: None, owned: Seq::empty(), is_open: true },
        ],
        stack: seq![0usize],
        diags: Seq::empty(),
    }
}

/// The index of the place named by `path` in the arena, scanning from the
/// newest entry.
pub open spec fn find_index(places: Seq<PlaceModel>, path: PathModel) -> Option<usize>
    decreases places.len(),
{
    if places.len() == 0 {
        None
    } else if path_same(places.last().path, path) {
        Some((places.len() - 1) as usize)
    } else {
        find_index(places.drop_last(), path)
    }
}

/// The state a freshly materialized child place starts in, given the
/// state of its parent: a child of a moved-out or uninitialized place is
/// in that same state, any other parent hands its children owned storage.
pub open spec fn inherited_state(parent: OwnershipState) -> OwnershipState {
    match parent {
        OwnershipState::MovedOut => OwnershipState::MovedOut,
        OwnershipState::Uninitialized => OwnershipState::Uninitialized,
        _ => OwnershipState::Owned,
    }
}

/// Resolves `path` to its arena index, materializing missing child places
/// along the way. A path whose root was never declared resolves to
/// nothing and leaves the state unchanged.
pub open spec fn ensure_place(c: CheckerModel, path: PathModel) -> (CheckerModel, Option<usize>)
    decreases path.projs.len(),
{
    if path.projs.len() == 0 {
        (c, find_index(c.places, path))
    } else {
        let (c1, parent) = ensure_place(c, path_parent(path));
        match parent {
            None => (c1, None),
            Some(pi) => match find_index(c1.places, path) {
                Some(i) => (c1, Some(i)),
                None => {
                    let created = PlaceModel {
                        path,
                        parent: Some(pi),
                        kind: c1.places[pi as int].kind,
                    };
                    let c2 = CheckerModel {
                        places: c1.places.push(created),
                        states: c1.states.push(inherited_state(c1.states[pi as int])),
                        ..c1
                    };
                    (c2, Some((c2.places.len() - 1) as usize))
                },
            },
        }
    }
}

/// Appends a fresh diagnostic of the given kind.
pub open spec fn with_diag(
    c: CheckerModel,
    kind: DiagnosticKind,
    idx: usize,
    path: Option<PathModel>,
) -> CheckerModel {
    CheckerModel { diags: c.diags.push(diag_model(kind, idx, path)), ..c }
}

/// Whether the place `i` overlaps `path` and is exclusively borrowed.
pub open spec fn mut_conflict_at(c: CheckerModel, path: PathModel, i: int) -> bool {
    paths_overlap(c.places[i].path, path) && c.states[i] is MutBorrowed
}

/// Whether the place `i` overlaps `path` and carries any active borrow.
pub open spec fn borrow_conflict_at(c: CheckerModel, path: PathModel, i: int) -> bool {
    paths_overlap(c.places[i].path, path) && (c.states[i] is SharedBorrowed || c.states[i]
        is MutBorrowed)
}

/// Whether the place `i`, not being `pid` itself, overlaps `path` and is
/// exclusively borrowed.
pub open spec fn mut_elsewhere_at(c: CheckerModel, path: PathModel, pid: usize, i: int) -> bool {
    i != pid && paths_overlap(c.places[i].path, path) && c.states[i] is MutBorrowed
}

/// Whether the place `i` carries a borrow that forbids a write to the
/// place `pid` named by `path`: any overlapping shared borrow, or an
/// overlapping exclusive borrow held on a different place.
pub open spec fn write_conflict_at(c: CheckerModel, path: PathModel, pid: usize, i: int) -> bool {
    paths_overlap(c.places[i].path, path) && (c.states[i] is SharedBorrowed || (c.states[i]
        is MutBorrowed && i != pid))
}

/// Whether some place overlapping `path` is exclusively borrowed.
pub open spec fn any_mut_overlap(c: CheckerModel, path: PathModel) -> bool {
    exists|i: int| 0 <= i < c.places.len() && #[trigger] mut_conflict_at(c, path, i)
}

/// Whether some place overlapping `path` carries any active borrow.
pub open spec fn any_borrow_overlap(c: CheckerModel, path: PathModel) -> bool {
    exists|i: int| 0 <= i < c.places.len() && #[trigger] borrow_conflict_at(c, path, i)
}

/// Whether some place overlapping `path` other than the place `pid`
/// itself is exclusively borrowed.
pub open spec fn mut_overlap_elsewhere(c: CheckerModel, path: PathModel, pid: usize) -> bool {
    exists|i: int| 0 <= i < c.places.len() && #[trigger] mut_elsewhere_at(c, path, pid, i)
}

/// Whether some place overlapping `path` carries a borrow that forbids a
/// write to the place `pid`: any shared borrow, or an exclusive borrow
/// held on a different place. A write to the one place an exclusive
/// borrow targets is the write performed through that borrow.
pub open spec fn write_conflict(c: CheckerModel, path: PathModel, pid: usize) -> bool {
    exists|i: int| 0 <= i < c.places.len() && #[trigger] write_conflict_at(c, path, pid, i)
}

/// Rewrites the state of `pid` and of every place strictly inside it to
/// `st`, leaving all others unchanged.
pub open spec fn set_place_and_inside(c: CheckerModel, pid: usize, st: OwnershipState) -> CheckerModel {
    CheckerModel {
        states: Seq::new(
            c.states.len(),
            |i: int|
                if i == pid || (0 <= i < c.places.len() && path_strictly_contains(
                    c.places[pid as int].path,
                    c.places[i].path,
                )) {
                    st
                } else {
                    c.states[i]
                },
        ),
        ..c
    }
}

/// Marks every owned strict ancestor of `path` partially moved.
pub open spec fn mark_ancestors_partial(c: CheckerModel, path: PathModel) -> CheckerModel {
    CheckerModel {
        states: Seq::new(
            c.states.len(),
            |i: int|
                if 0 <= i < c.places.len() && path_strictly_contains(c.places[i].path, path)
                    && c.states[i] is Owned {
                    OwnershipState::PartiallyMoved
                } else {
                    c.states[i]
                },
        ),
        ..c
    }
}

/// Ends the borrow `b`: marks it released and reverts its target's state,
/// one shared borrower fewer or, at zero, owned again.
pub open spec fn release_one(c: CheckerModel, b: usize) -> CheckerModel {
    let target = c.borrows[b as int].target;
    let released = BorrowRec { released: true, ..c.borrows[b as int] };
    let new_state = match c.states[target as int] {
        OwnershipState::SharedBorrowed { count } => if count <= 1 {
            OwnershipState::Owned
        } else {
            OwnershipState::SharedBorrowed { count: (count - 1) as usize }
        },
        OwnershipState::MutBorrowed { .. } => OwnershipState::Owned,
        s => s,
    };
    CheckerModel {
        borrows: c.borrows.update(b as int, released),
        states: c.states.update(target as int, new_state),
        ..c
    }
}

/// Releases, in creation order starting at borrow `i`, every still active
/// borrow whose target lies at or inside the place `pid`.
pub open spec fn release_inside_from(c: CheckerModel, pid: usize, i: nat) -> CheckerModel
    decreases c.borrows.len() - i,
{
    if i >= c.borrows.len() {
        c
    } else {
        let b = c.borrows[i as int];
        let c1 = if !b.released && b.target < c.places.len() && path_contains(
            c.places[pid as int].path,
            c.places[b.target as int].path,
        ) {
            release_one(c, i as usize)
        } else {
            c
        };
        release_inside_from(c1, pid, i + 1)
    }
}

/// Drops the place `pid` if it still owns its value: the borrows rooted
/// at or inside it end, and the place and everything inside it is moved
/// out. A place in any other state is left alone.
pub open spec fn drop_place(c: CheckerModel, pid: usize) -> CheckerModel {
    if pid < c.places.len() && c.states[pid as int] is Owned {
        set_place_and_inside(release_inside_from(c, pid, 0), pid, OwnershipState::MovedOut)
    } else {
        c
    }
}

/// Drops the given places in reverse order, newest declaration first.
pub open spec fn drop_owned_rev(c: CheckerModel, owned: Seq<usize>) -> CheckerModel
    decreases owned.len(),
{
    if owned.len() == 0 {
        c
    } else {
        drop_owned_rev(drop_place(c, owned.last()), owned.drop_last())
    }
}

/// Releases, in creation order starting at borrow `i`, every still active
/// borrow that was created in scope `sid`.
pub open spec fn release_scope_from(c: CheckerModel, sid: usize, i: nat) -> CheckerModel
    decreases c.borrows.len() - i,
{
    if i >= c.borrows.len() {
        c
    } else {
        let b = c.borrows[i as int];
        let c1 = if !b.released && b.scope == sid {
            release_one(c, i as usize)
        } else {
            c
        };
        release_scope_from(c1, sid, i + 1)
    }
}

/// Records the place `pid` as declared in scope `sid`.
pub open spec fn register_owner(c: CheckerModel, sid: usize, pid: usize) -> CheckerModel {
    CheckerModel {
        scopes: c.scopes.update(
            sid as int,
            ScopeModel { owned: c.scopes[sid as int].owned.push(pid), ..c.scopes[sid as int] },
        ),
        ..c
    }
}

/// The state a declaration leaves its place in.
pub open spec fn declared_state(init: bool) -> OwnershipState {
    if init {
        OwnershipState::Owned
    } else {
        OwnershipState::Uninitialized
    }
}

/// The transition of a declaration. Only a root can be declared; a fresh
/// root joins the arena and the innermost scope, while redeclaring a
/// known root resets it and everything inside it, provided no active
/// borrow still reaches it.
pub open spec fn declare_model(
    c: CheckerModel,
    path: PathModel,
    kind: TypeKind,
    init: bool,
    idx: usize,
) -> CheckerModel {
    if path.projs.len() != 0 {
        with_diag(c, DiagnosticKind::UnknownPlace, idx, Some(path))
    } else {
        match find_index(c.places, path) {
            None => {
                let pid = c.places.len() as usize;
                let c1 = CheckerModel {
                    places: c.places.push(PlaceModel { path, parent: None, kind }),
                    states: c.states.push(declared_state(init)),
                    ..c
                };
                register_owner(c1, c1.stack.last(), pid)
            },
            Some(pid) => {
                if any_borrow_overlap(c, path) {
                    with_diag(c, DiagnosticKind::BorrowConflict, idx, Some(path))
                } else {
                    let c1 = CheckerModel {
                        places: c.places.update(
                            pid as int,
                            PlaceModel { kind, ..c.places[pid as int] },
                        ),
                        ..c
                    };
                    let c2 = set_place_and_inside(c1, pid, declared_state(init));
                    register_owner(c2, c2.stack.last(), pid)
                }
            },
        }
    }
}

/// The transition that invalidates a moved-out source: the source and
/// everything inside it is moved out, and, for a child move, every owned
/// ancestor becomes partially moved.
pub open spec fn apply_move_out(c: CheckerModel, src: usize) -> CheckerModel {
    let c1 = set_place_and_inside(c, src, OwnershipState::MovedOut);
    mark_ancestors_partial(c1, c.places[src as int].path)
}

/// The transition that fills a destination: the destination and
/// everything inside it becomes owned.
pub open spec fn apply_fill(c: CheckerModel, dst: usize) -> CheckerModel {
    set_place_and_inside(c, dst, OwnershipState::Owned)
}

/// Resolves a transfer destination: a bare undeclared root is declared on
/// the spot, in the innermost scope; any other path resolves as usual.
pub open spec fn ensure_destination(c: CheckerModel, path: PathModel) -> (CheckerModel, Option<
    usize,
>) {
    let (c1, found) = ensure_place(c, path);
    match found {
        Some(i) => (c1, Some(i)),
        None => if path.projs.len() == 0 {
            let pid = c1.places.len() as usize;
            let c2 = CheckerModel {
                places: c1.places.push(
                    PlaceModel { path, parent: None, kind: TypeKind::Owned },
                ),
                states: c1.states.push(OwnershipState::Uninitialized),
                ..c1
            };
            (register_owner(c2, c2.stack.last(), pid), Some(pid))
        } else {
            (c1, None)
        },
    }
}

/// The checks a source must pass before its value is taken as a whole:
/// present, not partially gone, and free of overlapping borrows. The
/// result is the diagnostic the source earns, if any.
pub open spec fn take_error(c: CheckerModel, src: usize, path: PathModel) -> Option<
    DiagnosticKind,
> {
    match c.states[src as int] {
        OwnershipState::MovedOut => Some(DiagnosticKind::UseAfterMove),
        OwnershipState::Uninitialized => Some(DiagnosticKind::UseAfterMove),
        OwnershipState::PartiallyMoved => Some(DiagnosticKind::UseOfPartiallyMovedValue),
        _ => if any_borrow_overlap(c, path) {
            Some(DiagnosticKind::BorrowConflict)
        } else {
            None
        },
    }
}

/// The transition of a move.
pub open spec fn move_model(c: CheckerModel, src: PathModel, dst: PathModel, idx: usize) -> CheckerModel {
    let (c1, srco) = ensure_place(c, src);
    match srco {
        None => with_diag(c1, DiagnosticKind::UnknownPlace, idx, Some(src)),
        Some(s) => match take_error(c1, s, src) {
            Some(kind) => with_diag(c1, kind, idx, Some(src)),
            None => {
                let (c2, dsto) = ensure_destination(c1, dst);
                match dsto {
                    None => with_diag(c2, DiagnosticKind::UnknownPlace, idx, Some(dst)),
                    Some(d) => apply_fill(apply_move_out(c2, s), d),
                }
            },
        },
    }
}

/// The checks a source must pass before its value is read as a whole:
/// present, not partially gone, and not sitting under an exclusive borrow
/// held on another place. The result is the diagnostic the read earns, if
/// any.
pub open spec fn read_error(c: CheckerModel, pid: usize, path: PathModel) -> Option<
    DiagnosticKind,
> {
    match c.states[pid as int] {
        OwnershipState::MovedOut => Some(DiagnosticKind::UseAfterMove),
        OwnershipState::Uninitialized => Some(DiagnosticKind::UseAfterMove),
        OwnershipState::PartiallyMoved => Some(DiagnosticKind::UseOfPartiallyMovedValue),
        _ => if mut_overlap_elsewhere(c, path, pid) {
            Some(DiagnosticKind::BorrowConflict)
        } else {
            None
        },
    }
}

/// The transition of a copy: the source is read, and the destination
/// filled. A source place that does not hold a copyable value is
/// transferred instead, exactly as a move, mirroring what assignment of
/// an owned value does.
pub open spec fn copy_model(c: CheckerModel, src: PathModel, dst: PathModel, idx: usize) -> CheckerModel {
    let (c1, srco) = ensure_place(c, src);
    match srco {
        None => with_diag(c1, DiagnosticKind::UnknownPlace, idx, Some(src)),
        Some(s) => if c1.places[s as int].kind is Owned {
            match take_error(c1, s, src) {
                Some(kind) => with_diag(c1, kind, idx, Some(src)),
                None => {
                    let (c2, dsto) = ensure_destination(c1, dst);
                    match dsto {
                        None => with_diag(c2, DiagnosticKind::UnknownPlace, idx, Some(dst)),
                        Some(d) => apply_fill(apply_move_out(c2, s), d),
                    }
                },
            }
        } else {
            match read_error(c1, s, src) {
                Some(kind) => with_diag(c1, kind, idx, Some(src)),
                None => {
                    let (c2, dsto) = ensure_destination(c1, dst);
                    match dsto {
                        None => with_diag(c2, DiagnosticKind::UnknownPlace, idx, Some(dst)),
                        Some(d) => apply_fill(c2, d),
                    }
                },
            }
        },
    }
}

/// The transition of a shared borrow.
pub open spec fn borrow_shared_model(c: CheckerModel, path: PathModel, idx: usize) -> CheckerModel {
    let (c1, found) = ensure_place(c, path);
    match found {
        None => with_diag(c1, DiagnosticKind::UnknownPlace, idx, Some(path)),
        Some(pid) => match c1.states[pid as int] {
            OwnershipState::MovedOut => with_diag(
                c1,
                DiagnosticKind::UseAfterMove,
                idx,
                Some(path),
            ),
            OwnershipState::Uninitialized => with_diag(
                c1,
                DiagnosticKind::UseAfterMove,
                idx,
                Some(path),
            ),
            OwnershipState::PartiallyMoved => with_diag(
                c1,
                DiagnosticKind::UseOfPartiallyMovedValue,
                idx,
                Some(path),
            ),
            _ => if any_mut_overlap(c1, path) {
                with_diag(c1, DiagnosticKind::BorrowConflict, idx, Some(path))
            } else {
                let c2 = CheckerModel {
                    borrows: c1.borrows.push(
                        BorrowRec {
                            target: pid,
                            mutable: false,
                            created_at: idx,
                            scope: c1.stack.last(),
                            released: false,
                        },
                    ),
                    ..c1
                };
                let new_state = match c2.states[pid as int] {
                    OwnershipState::SharedBorrowed { count } => OwnershipState::SharedBorrowed {
                        count: (count + 1) as usize,
                    },
                    _ => OwnershipState::SharedBorrowed { count: 1 },
                };
                CheckerModel { states: c2.states.update(pid as int, new_state), ..c2 }
            },
        },
    }
}

/// The transition of an exclusive borrow.
pub open spec fn borrow_mut_model(c: CheckerModel, path: PathModel, idx: usize) -> CheckerModel {
    let (c1, found) = ensure_place(c, path);
    match found {
        None => with_diag(c1, DiagnosticKind::UnknownPlace, idx, Some(path)),
        Some(pid) => match c1.states[pid as int] {
            OwnershipState::MovedOut => with_diag(
                c1,
                DiagnosticKind::UseAfterMove,
                idx,
                Some(path),
            ),
            OwnershipState::Uninitialized => with_diag(
                c1,
                DiagnosticKind::UseAfterMove,
                idx,
                Some(path),
            ),
            OwnershipState::PartiallyMoved => with_diag(
                c1,
                DiagnosticKind::UseOfPartiallyMovedValue,
                idx,
                Some(path),
            ),
            _ => if any_borrow_overlap(c1, path) {
                with_diag(c1, DiagnosticKind::BorrowConflict, idx, Some(path))
            } else {
                let bid = c1.borrows.len() as usize;
                let c2 = CheckerModel {
                    borrows: c1.borrows.push(
                        BorrowRec {
                            target: pid,
                            mutable: true,
                            created_at: idx,
                            scope: c1.stack.last(),
                            released: false,
                        },
                    ),
                    ..c1
                };
                CheckerModel {
                    states: c2.states.update(
                        pid as int,
                        OwnershipState::MutBorrowed { borrower: bid },
                    ),
                    ..c2
                }
            },
        },
    }
}

/// The transition of an explicit borrow release.
pub open spec fn release_model(c: CheckerModel, b: usize, idx: usize) -> CheckerModel {
    if b >= c.borrows.len() || c.borrows[b as int].released {
        with_diag(c, DiagnosticKind::DoubleRelease, idx, None)
    } else {
        release_one(c, b)
    }
}

/// The transition of a whole-value read. A successful read changes
/// nothing.
pub open spec fn read_model(c: CheckerModel, path: PathModel, idx: usize) -> CheckerModel {
    let (c1, found) = ensure_place(c, path);
    match found {
        None => with_diag(c1, DiagnosticKind::UnknownPlace, idx, Some(path)),
        Some(pid) => match read_error(c1, pid, path) {
            Some(kind) => with_diag(c1, kind, idx, Some(path)),
            None => c1,
        },
    }
}

/// The transition of a whole-value write: the place becomes owned (a
/// write initializes or repairs it), unless the write goes through the
/// exclusive borrow held on that very place, which leaves the borrow
/// standing.
pub open spec fn write_model(c: CheckerModel, path: PathModel, idx: usize) -> CheckerModel {
    let (c1, found) = ensure_place(c, path);
    match found {
        None => with_diag(c1, DiagnosticKind::UnknownPlace, idx, Some(path)),
        Some(pid) => match c1.states[pid as int] {
            OwnershipState::MovedOut => with_diag(
                c1,
                DiagnosticKind::UseAfterMove,
                idx,
                Some(path),
            ),
            _ => if write_conflict(c1, path, pid) {
                with_diag(c1, DiagnosticKind::BorrowConflict, idx, Some(path))
            } else if c1.states[pid as int] is MutBorrowed {
                c1
            } else {
                apply_fill(c1, pid)
            },
        },
    }
}

/// The transition of a scope entry: a fresh open scope is pushed.
pub open spec fn enter_scope_model(c: CheckerModel) -> CheckerModel {
    let sid = c.scopes.len() as usize;
    CheckerModel {
        scopes: c.scopes.push(
            ScopeModel { parent: Some(c.stack.last()), owned: Seq::empty(), is_open: true },
        ),
        stack: c.stack.push(sid),
        ..c
    }
}

/// The transition of a scope exit: the innermost scope closes, the places
/// it owns are dropped newest first, and the borrows created in it end.
/// Exiting with only the root scope open is unbalanced.
pub open spec fn exit_scope_model(c: CheckerModel, idx: usize) -> CheckerModel {
    if c.stack.len() <= 1 {
        with_diag(c, DiagnosticKind::UnbalancedScope, idx, None)
    } else {
        let sid = c.stack.last();
        let c1 = CheckerModel {
            stack: c.stack.drop_last(),
            scopes: c.scopes.update(
                sid as int,
                ScopeModel { is_open: false, ..c.scopes[sid as int] },
            ),
            ..c
        };
        let c2 = drop_owned_rev(c1, c.scopes[sid as int].owned);
        release_scope_from(c2, sid, 0)
    }
}

/// One step of the checker: the transition of `inst` at instruction index
/// `idx`.
pub open spec fn step_model(c: CheckerModel, inst: Instruction, idx: usize) -> CheckerModel {
    match inst {
        Instruction::Declare { place, kind, init } => declare_model(c, place@, kind, init, idx),
        Instruction::Move { src, dst } => move_model(c, src@, dst@, idx),
        Instruction::Copy { src, dst } => copy_model(c, src@, dst@, idx),
        Instruction::BorrowShared { place } => borrow_shared_model(c, place@, idx),
        Instruction::BorrowMut { place } => borrow_mut_model(c, place@, idx),
        Instruction::ReleaseBorrow { borrow } => release_model(c, borrow, idx),
        Instruction::Read { place } => read_model(c, place@, idx),
        Instruction::Write { place } => write_model(c, place@, idx),
        Instruction::EnterScope => enter_scope_model(c),
        Instruction::ExitScope => exit_scope_model(c, idx),
    }
}

/// The checker state after walking the whole instruction sequence from a
/// fresh start.
pub open spec fn run_model(instrs: Seq<Instruction>) -> CheckerModel
    decreases instrs.len(),
{
    if instrs.len() == 0 {
        init_model()
    } else {
        step_model(
            run_model(instrs.drop_last()),
            instrs.last(),
            (instrs.len() - 1) as usize,
        )
    }
}

/// The exclusivity discipline: wherever an exclusive borrow is active, no
/// overlapping place carries a shared borrow, and no other overlapping
/// place carries an exclusive one.
pub open spec fn exclusive(c: CheckerModel) -> bool {
    forall|p: int, q: int|
        #![trigger c.states[p], c.states[q]]
        0 <= p < c.places.len() && 0 <= q < c.places.len() && paths_overlap(
            c.places[p].path,
            c.places[q].path,
        ) && c.states[p] is MutBorrowed ==> (!(c.states[q] is SharedBorrowed) && (c.states[q]
            is MutBorrowed ==> p == q))
}

/// Well-formedness of a checker state: the tables agree in length, the
/// scope stack is rooted and points at real scopes, every recorded index
/// is in range, shared-borrow counts never exceed the number of borrow
/// records, and the exclusivity discipline holds.
pub open spec fn wf(c: CheckerModel) -> bool {
    &&& c.states.len() == c.places.len()
    &&& c.scopes.len() >= 1
    &&& c.stack.len() >= 1
    &&& c.stack[0] == 0usize
    &&& forall|i: int| 0 <= i < c.stack.len() ==> #[trigger] c.stack[i] < c.scopes.len()
    &&& forall|s: int, k: int|
        0 <= s < c.scopes.len() && 0 <= k < c.scopes[s].owned.len()
            ==> #[trigger] c.scopes[s].owned[k] < c.places.len()
    &&& forall|b: int| 0 <= b < c.borrows.len() ==> #[trigger] c.borrows[b].target < c.places.len()
    &&& forall|p: int|
        #![trigger c.states[p]]
        0 <= p < c.states.len() && c.states[p] is SharedBorrowed ==> c.states[p]->count
            <= c.borrows.len()
    &&& exclusive(c)
}

} // verus!
