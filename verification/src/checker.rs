//! The executable checker. It owns the place arena, the ownership state
//! table, the borrow records, the scope tree and the collected
//! diagnostics of one analysis run, and follows the mathematical model
//! step by step.

use crate::diag::{diag_model, opt_path_view, DiagModel, Diagnostic, DiagnosticKind};
use crate::instruction::Instruction;
use crate::invariants::{
    lemma_append_place_wf, lemma_drop_place_wf, lemma_find_index, lemma_mark_ancestors_wf,
    lemma_register_owner_wf, lemma_release_one_wf, lemma_set_nonborrow_wf,
};
use crate::model::{
    any_borrow_overlap, any_mut_overlap, apply_fill, apply_move_out, borrow_conflict_at,
    borrow_mut_model, borrow_shared_model, copy_model, declare_model, declared_state,
    drop_owned_rev, drop_place, ensure_destination, ensure_place, enter_scope_model,
    exit_scope_model, find_index, init_model, mark_ancestors_partial, move_model, mut_conflict_at,
    mut_elsewhere_at, mut_overlap_elsewhere, read_error, read_model, register_owner,
    release_inside_from, release_model, release_one, release_scope_from, run_model,
    set_place_and_inside, step_model, take_error, wf, with_diag, write_conflict,
    write_conflict_at, write_model, CheckerModel, PlaceModel,
};
use crate::place::{
    path_parent, path_prefix_model, path_same, paths_overlap, place_contains,
    place_contains_strictly, places_overlap, PlacePath,
};
use crate::state::{BorrowRec, OwnershipState, ScopeModel, ScopeRec, TypeKind};
use vstd::prelude::*;

verus! {

/// One entry of the place arena: the path of the place, its parent, and
/// the kind it was declared with.
#[derive(Clone, PartialEq, Eq, Debug)]
pub struct PlaceRec {
    /// The path naming this place.
    pub path: PlacePath,
    /// The arena index of the immediate parent, absent for a root.
    pub parent: Option<usize>,
    /// The kind the place was declared with.
    pub kind: TypeKind,
}

impl View for PlaceRec {
    type V = PlaceModel;

    open spec fn view(&self) -> PlaceModel {
        PlaceModel { path: self.path@, parent: self.parent, kind: self.kind }
    }
}

/// The mathematical value of a place arena.
pub open spec fn places_view(s: Seq<PlaceRec>) -> Seq<PlaceModel> {
    s.map_values(|p: PlaceRec| p@)
}

/// The mathematical value of a scope list.
pub open spec fn scopes_view(s: Seq<ScopeRec>) -> Seq<ScopeModel> {
    s.map_values(|p: ScopeRec| p@)
}

/// The mathematical value of a diagnostic list.
pub open spec fn diags_view(s: Seq<Diagnostic>) -> Seq<DiagModel> {
    s.map_values(|p: Diagnostic| p@)
}

/// The checker of one analysis run. Nothing survives across runs: each
/// walk starts from a fresh value.
pub struct Checker {
    places: Vec<PlaceRec>,
    states: Vec<OwnershipState>,
    borrows: Vec<BorrowRec>,
    scopes: Vec<ScopeRec>,
    stack: Vec<usize>,
    diags: Vec<Diagnostic>,
}

impl View for Checker {
    type V = CheckerModel;

    closed spec fn view(&self) -> CheckerModel {
        CheckerModel {
            places: places_view(self.places@),
            states: self.states@,
            borrows: self.borrows@,
            scopes: scopes_view(self.scopes@),
            stack: self.stack@,
            diags: diags_view(self.diags@),
        }
    }
}

impl Checker {
    /// Builds a fresh checker: an empty table under a single open root
    /// scope.
    pub fn new() -> (r: Checker)
        ensures
            r@ == init_model(),
            wf(r@),
    {
        let mut scopes: Vec<ScopeRec> = Vec::new();
        scopes.push(ScopeRec { parent: None, owned: Vec::new(), is_open: true });
        let mut stack: Vec<usize> = Vec::new();
        stack.push(0usize);
        let r = Checker {
            places: Vec::new(),
            states: Vec::new(),
            borrows: Vec::new(),
            scopes,
            stack,
            diags: Vec::new(),
        };
        proof {
            assert(r@.scopes =~= init_model().scopes);
            assert(r@.stack =~= init_model().stack);
            assert(r@.places =~= init_model().places);
            assert(r@.diags =~= init_model().diags);
            assert(r@ =~= init_model());
        }
        r
    }

    /// Records a diagnostic of the given kind at instruction `idx`.
    fn report(&mut self, kind: DiagnosticKind, idx: usize, path: Option<PlacePath>)
        ensures
            final(self)@ == with_diag(old(self)@, kind, idx, opt_path_view(path)),
            wf(old(self)@) ==> wf(final(self)@),
    {
        let ghost c0 = self@;
        let d = Diagnostic::new(kind, idx, path);
        self.diags.push(d);
        proof {
            assert(self@.diags =~= c0.diags.push(diag_model(kind, idx, opt_path_view(path))));
            assert(self@ =~= with_diag(c0, kind, idx, opt_path_view(path)));
        }
    }

    /// Looks the path up in the arena, newest entry first.
    fn find(&self, path: &PlacePath) -> (r: Option<usize>)
        ensures
            r == find_index(self@.places, path@),
    {
        let ghost v = self@.places;
        let mut i: usize = self.places.len();
        proof {
            assert(v.subrange(0, i as int) =~= v);
        }
        while i > 0
            invariant
                i <= self.places.len(),
                v == self@.places,
                v.len() == self.places@.len(),
                find_index(v, path@) == find_index(v.subrange(0, i as int), path@),
            decreases i,
        {
            i = i - 1;
            let hit = self.places[i].path.same_place(path);
            proof {
                assert(v.subrange(0, i + 1 as int).last() == v[i as int]);
                assert(v[i as int].path == self.places@[i as int].path@);
            }
            if hit {
                proof {
                    assert(find_index(v.subrange(0, i + 1 as int), path@) == Some(i));
                }
                return Some(i);
            }
            proof {
                assert(v.subrange(0, i + 1 as int).drop_last() =~= v.subrange(0, i as int));
            }
        }
        proof {
            assert(v.subrange(0, 0) =~= Seq::<PlaceModel>::empty());
        }
        None
    }

    /// Whether some place overlapping `path` is exclusively borrowed.
    fn has_mut_overlap(&self, path: &PlacePath) -> (r: bool)
        requires
            self@.states.len() == self@.places.len(),
        ensures
            r == any_mut_overlap(self@, path@),
    {
        let n = self.places.len();
        let mut i: usize = 0;
        while i < n
            invariant
                n == self.places.len(),
                self@.states.len() == self@.places.len(),
                0 <= i <= n,
                forall|j: int| 0 <= j < i ==> !#[trigger] mut_conflict_at(self@, path@, j),
            decreases n - i,
        {
            let overlapping = places_overlap(&self.places[i].path, path);
            let is_mut = match self.states[i] {
                OwnershipState::MutBorrowed { .. } => true,
                _ => false,
            };
            if overlapping && is_mut {
                proof {
                    assert(mut_conflict_at(self@, path@, i as int));
                }
                return true;
            }
            proof {
                assert(!mut_conflict_at(self@, path@, i as int));
            }
            i += 1;
        }
        false
    }

    /// Whether some place overlapping `path` carries any active borrow.
    fn has_borrow_overlap(&self, path: &PlacePath) -> (r: bool)
        requires
            self@.states.len() == self@.places.len(),
        ensures
            r == any_borrow_overlap(self@, path@),
    {
        let n = self.places.len();
        let mut i: usize = 0;
        while i < n
            invariant
                n == self.places.len(),
                self@.states.len() == self@.places.len(),
                0 <= i <= n,
                forall|j: int| 0 <= j < i ==> !#[trigger] borrow_conflict_at(self@, path@, j),
            decreases n - i,
        {
            let overlapping = places_overlap(&self.places[i].path, path);
            let borrowed = match self.states[i] {
                OwnershipState::SharedBorrowed { .. } => true,
                OwnershipState::MutBorrowed { .. } => true,
                _ => false,
            };
            if overlapping && borrowed {
                proof {
                    assert(borrow_conflict_at(self@, path@, i as int));
                }
                return true;
            }
            proof {
                assert(!borrow_conflict_at(self@, path@, i as int));
            }
            i += 1;
        }
        false
    }

    /// Whether some place other than `pid` overlapping `path` is
    /// exclusively borrowed.
    fn has_mut_elsewhere(&self, path: &PlacePath, pid: usize) -> (r: bool)
        requires
            self@.states.len() == self@.places.len(),
        ensures
            r == mut_overlap_elsewhere(self@, path@, pid),
    {
        let n = self.places.len();
        let mut i: usize = 0;
        while i < n
            invariant
                n == self.places.len(),
                self@.states.len() == self@.places.len(),
                0 <= i <= n,
                forall|j: int| 0 <= j < i ==> !#[trigger] mut_elsewhere_at(self@, path@, pid, j),
            decreases n - i,
        {
            let overlapping = places_overlap(&self.places[i].path, path);
            let is_mut = match self.states[i] {
                OwnershipState::MutBorrowed { .. } => true,
                _ => false,
            };
            if i != pid && overlapping && is_mut {
                proof {
                    assert(mut_elsewhere_at(self@, path@, pid, i as int));
                }
                return true;
            }
            proof {
                assert(!mut_elsewhere_at(self@, path@, pid, i as int));
            }
            i += 1;
        }
        false
    }

    /// Whether some borrow forbids a write to the place `pid` named by
    /// `path`.
    fn has_write_conflict(&self, path: &PlacePath, pid: usize) -> (r: bool)
        requires
            self@.states.len() == self@.places.len(),
        ensures
            r == write_conflict(self@, path@, pid),
    {
        let n = self.places.len();
        let mut i: usize = 0;
        while i < n
            invariant
                n == self.places.len(),
                self@.states.len() == self@.places.len(),
                0 <= i <= n,
                forall|j: int| 0 <= j < i ==> !#[trigger] write_conflict_at(self@, path@, pid, j),
            decreases n - i,
        {
            let overlapping = places_overlap(&self.places[i].path, path);
            let hit = match self.states[i] {
                OwnershipState::SharedBorrowed { .. } => true,
                OwnershipState::MutBorrowed { .. } => i != pid,
                _ => false,
            };
            if overlapping && hit {
                proof {
                    assert(write_conflict_at(self@, path@, pid, i as int));
                }
                return true;
            }
            proof {
                assert(!write_conflict_at(self@, path@, pid, i as int));
            }
            i += 1;
        }
        false
    }

    /// Rewrites the state of `pid` and of every place strictly inside it.
    fn set_inside(&mut self, pid: usize, st: OwnershipState)
        requires
            old(self)@.states.len() == old(self)@.places.len(),
            pid < old(self)@.places.len(),
        ensures
            final(self)@ == set_place_and_inside(old(self)@, pid, st),
    {
        let ghost c0 = self@;
        let n = self.states.len();
        let mut i: usize = 0;
        while i < n
            invariant
                n == self.states.len(),
                n == c0.states.len(),
                pid < n,
                self.places@.len() == n,
                self.places@ == old(self).places@,
                self.borrows@ == old(self).borrows@,
                self.scopes@ == old(self).scopes@,
                self.stack@ == old(self).stack@,
                self.diags@ == old(self).diags@,
                c0 == old(self)@,
                0 <= i <= n,
                forall|j: int|
                    0 <= j < i ==> self@.states[j] == #[trigger] set_place_and_inside(
                        c0,
                        pid,
                        st,
                    ).states[j],
                forall|j: int| i <= j < n ==> self@.states[j] == c0.states[j],
            decreases n - i,
        {
            let hit = i == pid || place_contains_strictly(
                &self.places[pid].path,
                &self.places[i].path,
            );
            if hit {
                self.states[i] = st;
            }
            i += 1;
        }
        proof {
            assert(self@.states =~= set_place_and_inside(c0, pid, st).states);
            assert(self@ =~= set_place_and_inside(c0, pid, st));
        }
    }

    /// Marks every owned strict ancestor of `path` partially moved.
    fn mark_ancestors(&mut self, path: &PlacePath)
        requires
            old(self)@.states.len() == old(self)@.places.len(),
        ensures
            final(self)@ == mark_ancestors_partial(old(self)@, path@),
    {
        let ghost c0 = self@;
        let n = self.states.len();
        let mut i: usize = 0;
        while i < n
            invariant
                n == self.states.len(),
                n == c0.states.len(),
                self.places@.len() == n,
                self.places@ == old(self).places@,
                self.borrows@ == old(self).borrows@,
                self.scopes@ == old(self).scopes@,
                self.stack@ == old(self).stack@,
                self.diags@ == old(self).diags@,
                c0 == old(self)@,
                0 <= i <= n,
                forall|j: int|
                    0 <= j < i ==> self@.states[j] == #[trigger] mark_ancestors_partial(
                        c0,
                        path@,
                    ).states[j],
                forall|j: int| i <= j < n ==> self@.states[j] == c0.states[j],
            decreases n - i,
        {
            let ancestor = place_contains_strictly(&self.places[i].path, path);
            let owned_now = match self.states[i] {
                OwnershipState::Owned => true,
                _ => false,
            };
            if ancestor && owned_now {
                self.states[i] = OwnershipState::PartiallyMoved;
            }
            i += 1;
        }
        proof {
            assert(self@.states =~= mark_ancestors_partial(c0, path@).states);
            assert(self@ =~= mark_ancestors_partial(c0, path@));
        }
    }

    /// Ends the borrow `b` and reverts its target's state.
    fn release_borrow_at(&mut self, b: usize)
        requires
            wf(old(self)@),
            b < old(self)@.borrows.len(),
        ensures
            final(self)@ == release_one(old(self)@, b),
            wf(final(self)@),
    {
        let ghost c0 = self@;
        let rec = self.borrows[b];
        self.borrows[b] = BorrowRec { released: true, ..rec };
        let t = rec.target;
        match self.states[t] {
            OwnershipState::SharedBorrowed { count } => {
                if count <= 1 {
                    self.states[t] = OwnershipState::Owned;
                } else {
                    self.states[t] = OwnershipState::SharedBorrowed { count: count - 1 };
                }
            },
            OwnershipState::MutBorrowed { .. } => {
                self.states[t] = OwnershipState::Owned;
            },
            _ => {
                proof {
                    assert(self@.states =~= c0.states.update(
                        t as int,
                        release_one(c0, b).states[t as int],
                    ));
                }
            },
        }
        proof {
            assert(self@.states =~= release_one(c0, b).states);
            assert(self@ =~= release_one(c0, b));
            lemma_release_one_wf(c0, b);
        }
    }

    /// Resolves `path` to its arena index, materializing missing child
    /// places along the way.
    fn ensure(&mut self, path: &PlacePath) -> (r: Option<usize>)
        requires
            wf(old(self)@),
        ensures
            final(self)@ == ensure_place(old(self)@, path@).0,
            r == ensure_place(old(self)@, path@).1,
            wf(final(self)@),
            old(self)@.places.len() <= final(self)@.places.len(),
            match r {
                Some(i) => i < final(self)@.places.len() && path_same(
                    final(self)@.places[i as int].path,
                    path@,
                ),
                None => true,
            },
    {
        let ghost c0 = self@;
        let mut cur_path = PlacePath::for_root(path.root);
        proof {
            assert(cur_path@ =~= path_prefix_model(path@, 0));
        }
        let mut cur = self.find(&cur_path);
        proof {
            vstd::std_specs::vec::axiom_spec_len(&self.places);
            lemma_find_index(self@.places, cur_path@);
        }
        let n = path.projections.len();
        let mut k: usize = 0;
        while k < n
            invariant
                wf(self@),
                wf(c0),
                c0 == old(self)@,
                n == path.projections.len(),
                0 <= k <= n,
                c0.places.len() <= self@.places.len(),
                cur_path@ == path_prefix_model(path@, k as int),
                cur_path.root == path.root,
                self@ == ensure_place(c0, path_prefix_model(path@, k as int)).0,
                cur == ensure_place(c0, path_prefix_model(path@, k as int)).1,
                match cur {
                    Some(i) => i < self@.places.len() && path_same(
                        self@.places[i as int].path,
                        path_prefix_model(path@, k as int),
                    ),
                    None => true,
                },
            decreases n - k,
        {
            cur_path.projections.push(path.projections[k]);
            proof {
                assert(cur_path@.projs =~= path_prefix_model(path@, (k + 1) as int).projs);
                assert(path_parent(path_prefix_model(path@, (k + 1) as int)) =~= path_prefix_model(
                    path@,
                    k as int,
                ));
            }
            match cur {
                None => {},
                Some(pi) => {
                    let f = self.find(&cur_path);
                    proof {
                        vstd::std_specs::vec::axiom_spec_len(&self.places);
                        lemma_find_index(self@.places, cur_path@);
                    }
                    match f {
                        Some(i) => {
                            cur = Some(i);
                        },
                        None => {
                            let ghost pre = self@;
                            let kind = self.places[pi].kind;
                            let inherited = match self.states[pi] {
                                OwnershipState::MovedOut => OwnershipState::MovedOut,
                                OwnershipState::Uninitialized => OwnershipState::Uninitialized,
                                _ => OwnershipState::Owned,
                            };
                            let new_idx = self.places.len();
                            let rec = PlaceRec {
                                path: cur_path.duplicate(),
                                parent: Some(pi),
                                kind,
                            };
                            proof {
                                lemma_append_place_wf(pre, rec@, inherited);
                            }
                            self.places.push(rec);
                            self.states.push(inherited);
                            cur = Some(new_idx);
                            proof {
                                assert(self@.places =~= pre.places.push(rec@));
                                assert(self@ =~= (CheckerModel {
                                    places: pre.places.push(rec@),
                                    states: pre.states.push(inherited),
                                    ..pre
                                }));
                            }
                        },
                    }
                },
            }
            k += 1;
        }
        proof {
            assert(path_prefix_model(path@, n as int) =~= path@);
        }
        cur
    }

    /// Resolves a transfer destination: a bare undeclared root is
    /// declared on the spot, in the innermost scope.
    fn ensure_dst(&mut self, path: &PlacePath) -> (r: Option<usize>)
        requires
            wf(old(self)@),
        ensures
            final(self)@ == ensure_destination(old(self)@, path@).0,
            r == ensure_destination(old(self)@, path@).1,
            wf(final(self)@),
            old(self)@.places.len() <= final(self)@.places.len(),
            match r {
                Some(i) => i < final(self)@.places.len(),
                None => true,
            },
    {
        let ghost c0 = self@;
        let found = self.ensure(path);
        match found {
            Some(i) => Some(i),
            None => {
                if path.projections.len() == 0 {
                    let ghost pre = self@;
                    let pid = self.places.len();
                    let rec = PlaceRec {
                        path: path.duplicate(),
                        parent: None,
                        kind: TypeKind::Owned,
                    };
                    proof {
                        lemma_append_place_wf(pre, rec@, OwnershipState::Uninitialized);
                    }
                    self.places.push(rec);
                    self.states.push(OwnershipState::Uninitialized);
                    proof {
                        assert(self@.places =~= pre.places.push(rec@));
                        assert(self@ =~= (CheckerModel {
                            places: pre.places.push(rec@),
                            states: pre.states.push(OwnershipState::Uninitialized),
                            ..pre
                        }));
                    }
                    self.register_in_current(pid);
                    Some(pid)
                } else {
                    None
                }
            },
        }
    }

    /// The diagnostic a whole-value take of the place `pid` earns, if
    /// any.
    fn take_error_of(&self, pid: usize, path: &PlacePath) -> (r: Option<DiagnosticKind>)
        requires
            self@.states.len() == self@.places.len(),
            pid < self@.places.len(),
        ensures
            r == take_error(self@, pid, path@),
    {
        match self.states[pid] {
            OwnershipState::MovedOut => Some(DiagnosticKind::UseAfterMove),
            OwnershipState::Uninitialized => Some(DiagnosticKind::UseAfterMove),
            OwnershipState::PartiallyMoved => Some(DiagnosticKind::UseOfPartiallyMovedValue),
            _ => {
                if self.has_borrow_overlap(path) {
                    Some(DiagnosticKind::BorrowConflict)
                } else {
                    None
                }
            },
        }
    }

    /// The diagnostic a whole-value read of the place `pid` earns, if
    /// any.
    fn read_error_of(&self, pid: usize, path: &PlacePath) -> (r: Option<DiagnosticKind>)
        requires
            self@.states.len() == self@.places.len(),
            pid < self@.places.len(),
        ensures
            r == read_error(self@, pid, path@),
    {
        match self.states[pid] {
            OwnershipState::MovedOut => Some(DiagnosticKind::UseAfterMove),
            OwnershipState::Uninitialized => Some(DiagnosticKind::UseAfterMove),
            OwnershipState::PartiallyMoved => Some(DiagnosticKind::UseOfPartiallyMovedValue),
            _ => {
                if self.has_mut_elsewhere(path, pid) {
                    Some(DiagnosticKind::BorrowConflict)
                } else {
                    None
                }
            },
        }
    }

    /// Walks one declaration.
    fn do_declare(&mut self, place: &PlacePath, kind: TypeKind, init: bool, idx: usize)
        requires
            wf(old(self)@),
        ensures
            final(self)@ == declare_model(old(self)@, place@, kind, init, idx),
            wf(final(self)@),
    {
        let ghost c0 = self@;
        if place.projections.len() != 0 {
            self.report(DiagnosticKind::UnknownPlace, idx, Some(place.duplicate()));
            return;
        }
        let st = if init {
            OwnershipState::Owned
        } else {
            OwnershipState::Uninitialized
        };
        proof {
            assert(st == declared_state(init));
        }
        let f = self.find(place);
        proof {
            vstd::std_specs::vec::axiom_spec_len(&self.places);
            lemma_find_index(self@.places, place@);
        }
        match f {
            None => {
                let ghost pre = self@;
                let pid = self.places.len();
                let rec = PlaceRec { path: place.duplicate(), parent: None, kind };
                proof {
                    lemma_append_place_wf(pre, rec@, st);
                }
                self.places.push(rec);
                self.states.push(st);
                proof {
                    assert(self@.places =~= pre.places.push(rec@));
                    assert(self@ =~= (CheckerModel {
                        places: pre.places.push(rec@),
                        states: pre.states.push(st),
                        ..pre
                    }));
                }
                self.register_in_current(pid);
            },
            Some(pid) => {
                if self.has_borrow_overlap(place) {
                    self.report(DiagnosticKind::BorrowConflict, idx, Some(place.duplicate()));
                } else {
                    let ghost pre = self@;
                    self.places[pid].kind = kind;
                    let ghost c1 = self@;
                    proof {
                        assert(c1.places =~= pre.places.update(
                            pid as int,
                            PlaceModel { kind, ..pre.places[pid as int] },
                        ));
                        assert(c1 =~= (CheckerModel {
                            places: pre.places.update(
                                pid as int,
                                PlaceModel { kind, ..pre.places[pid as int] },
                            ),
                            ..pre
                        }));
                        assert(wf(c1)) by {
                            assert forall|p: int, q: int|
                                #![trigger c1.states[p], c1.states[q]]
                                0 <= p < c1.places.len() && 0 <= q < c1.places.len()
                                    && paths_overlap(c1.places[p].path, c1.places[q].path)
                                    && c1.states[p] is MutBorrowed implies (!(c1.states[q]
                            is SharedBorrowed) && (c1.states[q] is MutBorrowed ==> p == q)) by {
                                assert(c1.places[p].path == pre.places[p].path);
                                assert(c1.places[q].path == pre.places[q].path);
                                assert(c1.states[p] == pre.states[p]);
                                assert(c1.states[q] == pre.states[q]);
                            }
                        }
                        lemma_set_nonborrow_wf(c1, pid, st);
                    }
                    self.set_inside(pid, st);
                    self.register_in_current(pid);
                }
            },
        }
    }

    /// Walks one whole-value read.
    fn do_read(&mut self, place: &PlacePath, idx: usize)
        requires
            wf(old(self)@),
        ensures
            final(self)@ == read_model(old(self)@, place@, idx),
            wf(final(self)@),
    {
        let found = self.ensure(place);
        match found {
            None => {
                self.report(DiagnosticKind::UnknownPlace, idx, Some(place.duplicate()));
            },
            Some(pid) => {
                let err = self.read_error_of(pid, place);
                match err {
                    Some(kind) => {
                        self.report(kind, idx, Some(place.duplicate()));
                    },
                    None => {},
                }
            },
        }
    }

    /// Walks one whole-value write.
    fn do_write(&mut self, place: &PlacePath, idx: usize)
        requires
            wf(old(self)@),
        ensures
            final(self)@ == write_model(old(self)@, place@, idx),
            wf(final(self)@),
    {
        let found = self.ensure(place);
        match found {
            None => {
                self.report(DiagnosticKind::UnknownPlace, idx, Some(place.duplicate()));
            },
            Some(pid) => {
                match self.states[pid] {
                    OwnershipState::MovedOut => {
                        self.report(DiagnosticKind::UseAfterMove, idx, Some(place.duplicate()));
                    },
                    _ => {
                        if self.has_write_conflict(place, pid) {
                            self.report(
                                DiagnosticKind::BorrowConflict,
                                idx,
                                Some(place.duplicate()),
                            );
                        } else {
                            let through_borrow = match self.states[pid] {
                                OwnershipState::MutBorrowed { .. } => true,
                                _ => false,
                            };
                            if !through_borrow {
                                let ghost c1 = self@;
                                proof {
                                    lemma_set_nonborrow_wf(c1, pid, OwnershipState::Owned);
                                }
                                self.set_inside(pid, OwnershipState::Owned);
                            }
                        }
                    },
                }
            },
        }
    }

    /// Walks one explicit borrow release.
    fn do_release(&mut self, b: usize, idx: usize)
        requires
            wf(old(self)@),
        ensures
            final(self)@ == release_model(old(self)@, b, idx),
            wf(final(self)@),
    {
        let known = b < self.borrows.len();
        if !known || self.borrows[b].released {
            self.report(DiagnosticKind::DoubleRelease, idx, None);
        } else {
            self.release_borrow_at(b);
        }
    }

    /// Applies the transitions of a successful transfer: the source
    /// moves out and the destination fills.
    fn apply_transfer(&mut self, s: usize, d: usize)
        requires
            wf(old(self)@),
            s < old(self)@.places.len(),
            d < old(self)@.places.len(),
        ensures
            final(self)@ == apply_fill(apply_move_out(old(self)@, s), d),
            wf(final(self)@),
    {
        let ghost c2 = self@;
        let src_path = self.places[s].path.duplicate();
        proof {
            lemma_set_nonborrow_wf(c2, s, OwnershipState::MovedOut);
        }
        self.set_inside(s, OwnershipState::MovedOut);
        proof {
            lemma_mark_ancestors_wf(self@, src_path@);
            assert(src_path@ == c2.places[s as int].path);
        }
        self.mark_ancestors(&src_path);
        proof {
            assert(self@ == apply_move_out(c2, s));
            lemma_set_nonborrow_wf(self@, d, OwnershipState::Owned);
        }
        self.set_inside(d, OwnershipState::Owned);
    }

    /// Walks one move.
    fn do_move(&mut self, src: &PlacePath, dst: &PlacePath, idx: usize)
        requires
            wf(old(self)@),
        ensures
            final(self)@ == move_model(old(self)@, src@, dst@, idx),
            wf(final(self)@),
    {
        let srco = self.ensure(src);
        match srco {
            None => {
                self.report(DiagnosticKind::UnknownPlace, idx, Some(src.duplicate()));
            },
            Some(s) => {
                let err = self.take_error_of(s, src);
                match err {
                    Some(kind) => {
                        self.report(kind, idx, Some(src.duplicate()));
                    },
                    None => {
                        let dsto = self.ensure_dst(dst);
                        match dsto {
                            None => {
                                self.report(
                                    DiagnosticKind::UnknownPlace,
                                    idx,
                                    Some(dst.duplicate()),
                                );
                            },
                            Some(d) => {
                                self.apply_transfer(s, d);
                            },
                        }
                    },
                }
            },
        }
    }

    /// Walks one copy.
    fn do_copy(&mut self, src: &PlacePath, dst: &PlacePath, idx: usize)
        requires
            wf(old(self)@),
        ensures
            final(self)@ == copy_model(old(self)@, src@, dst@, idx),
            wf(final(self)@),
    {
        let srco = self.ensure(src);
        match srco {
            None => {
                self.report(DiagnosticKind::UnknownPlace, idx, Some(src.duplicate()));
            },
            Some(s) => {
                let owned_kind = match self.places[s].kind {
                    TypeKind::Owned => true,
                    TypeKind::Copyable => false,
                };
                if owned_kind {
                    let err = self.take_error_of(s, src);
                    match err {
                        Some(kind) => {
                            self.report(kind, idx, Some(src.duplicate()));
                        },
                        None => {
                            let dsto = self.ensure_dst(dst);
                            match dsto {
                                None => {
                                    self.report(
                                        DiagnosticKind::UnknownPlace,
                                        idx,
                                        Some(dst.duplicate()),
                                    );
                                },
                                Some(d) => {
                                    self.apply_transfer(s, d);
                                },
                            }
                        },
                    }
                } else {
                    let err = self.read_error_of(s, src);
                    match err {
                        Some(kind) => {
                            self.report(kind, idx, Some(src.duplicate()));
                        },
                        None => {
                            let dsto = self.ensure_dst(dst);
                            match dsto {
                                None => {
                                    self.report(
                                        DiagnosticKind::UnknownPlace,
                                        idx,
                                        Some(dst.duplicate()),
                                    );
                                },
                                Some(d) => {
                                    let ghost c2 = self@;
                                    proof {
                                        lemma_set_nonborrow_wf(c2, d, OwnershipState::Owned);
                                    }
                                    self.set_inside(d, OwnershipState::Owned);
                                },
                            }
                        },
                    }
                }
            },
        }
    }

    /// Walks one shared borrow.
    fn do_borrow_shared(&mut self, place: &PlacePath, idx: usize)
        requires
            wf(old(self)@),
        ensures
            final(self)@ == borrow_shared_model(old(self)@, place@, idx),
            wf(final(self)@),
    {
        let found = self.ensure(place);
        match found {
            None => {
                self.report(DiagnosticKind::UnknownPlace, idx, Some(place.duplicate()));
            },
            Some(pid) => {
                match self.states[pid] {
                    OwnershipState::MovedOut => {
                        self.report(DiagnosticKind::UseAfterMove, idx, Some(place.duplicate()));
                    },
                    OwnershipState::Uninitialized => {
                        self.report(DiagnosticKind::UseAfterMove, idx, Some(place.duplicate()));
                    },
                    OwnershipState::PartiallyMoved => {
                        self.report(
                            DiagnosticKind::UseOfPartiallyMovedValue,
                            idx,
                            Some(place.duplicate()),
                        );
                    },
                    _ => {
                        if self.has_mut_overlap(place) {
                            self.report(
                                DiagnosticKind::BorrowConflict,
                                idx,
                                Some(place.duplicate()),
                            );
                        } else {
                            let ghost c1 = self@;
                            let top = self.stack.len() - 1;
                            let sc = self.stack[top];
                            self.borrows.push(
                                BorrowRec {
                                    target: pid,
                                    mutable: false,
                                    created_at: idx,
                                    scope: sc,
                                    released: false,
                                },
                            );
                            proof {
                                vstd::std_specs::vec::axiom_spec_len(&self.borrows);
                            }
                            let new_state = match self.states[pid] {
                                OwnershipState::SharedBorrowed { count } => OwnershipState::SharedBorrowed {
                                    count: count + 1,
                                },
                                _ => OwnershipState::SharedBorrowed { count: 1 },
                            };
                            self.states[pid] = new_state;
                            let ghost c3 = self@;
                            proof {
                                assert(c1.places[pid as int].path =~= place@);
                                let c2g = CheckerModel {
                                    borrows: c1.borrows.push(
                                        BorrowRec {
                                            target: pid,
                                            mutable: false,
                                            created_at: idx,
                                            scope: c1.stack.last(),
                                            released: false,
                                        },
                                    ),
                                    ..c1
                                };
                                let new_g = match c2g.states[pid as int] {
                                    OwnershipState::SharedBorrowed { count } => OwnershipState::SharedBorrowed {
                                        count: (count + 1) as usize,
                                    },
                                    _ => OwnershipState::SharedBorrowed { count: 1 },
                                };
                                assert(c3 =~= (CheckerModel {
                                    states: c2g.states.update(pid as int, new_g),
                                    ..c2g
                                }));
                                assert(c3 == borrow_shared_model(old(self)@, place@, idx));
                                assert forall|p: int, q: int|
                                    #![trigger c3.states[p], c3.states[q]]
                                    0 <= p < c3.places.len() && 0 <= q < c3.places.len()
                                        && paths_overlap(c3.places[p].path, c3.places[q].path)
                                        && c3.states[p] is MutBorrowed implies (!(c3.states[q]
                                is SharedBorrowed) && (c3.states[q] is MutBorrowed ==> p
                                == q)) by {
                                    assert(c3.states[p] == c1.states[p]);
                                    assert(c3.places[p] == c1.places[p]);
                                    assert(c3.places[q] == c1.places[q]);
                                    if q == pid {
                                        assert(mut_conflict_at(c1, place@, p));
                                        assert(any_mut_overlap(c1, place@));
                                    } else {
                                        assert(c3.states[q] == c1.states[q]);
                                    }
                                }
                                assert(wf(c3));
                            }
                        }
                    },
                }
            },
        }
    }

    /// Walks one exclusive borrow.
    fn do_borrow_mut(&mut self, place: &PlacePath, idx: usize)
        requires
            wf(old(self)@),
        ensures
            final(self)@ == borrow_mut_model(old(self)@, place@, idx),
            wf(final(self)@),
    {
        let found = self.ensure(place);
        match found {
            None => {
                self.report(DiagnosticKind::UnknownPlace, idx, Some(place.duplicate()));
            },
            Some(pid) => {
                match self.states[pid] {
                    OwnershipState::MovedOut => {
                        self.report(DiagnosticKind::UseAfterMove, idx, Some(place.duplicate()));
                    },
                    OwnershipState::Uninitialized => {
                        self.report(DiagnosticKind::UseAfterMove, idx, Some(place.duplicate()));
                    },
                    OwnershipState::PartiallyMoved => {
                        self.report(
                            DiagnosticKind::UseOfPartiallyMovedValue,
                            idx,
                            Some(place.duplicate()),
                        );
                    },
                    _ => {
                        if self.has_borrow_overlap(place) {
                            self.report(
                                DiagnosticKind::BorrowConflict,
                                idx,
                                Some(place.duplicate()),
                            );
                        } else {
                            let ghost c1 = self@;
                            let bid = self.borrows.len();
                            let top = self.stack.len() - 1;
                            let sc = self.stack[top];
                            self.borrows.push(
                                BorrowRec {
                                    target: pid,
                                    mutable: true,
                                    created_at: idx,
                                    scope: sc,
                                    released: false,
                                },
                            );
                            self.states[pid] = OwnershipState::MutBorrowed { borrower: bid };
                            let ghost c3 = self@;
                            proof {
                                assert(c1.places[pid as int].path =~= place@);
                                let c2g = CheckerModel {
                                    borrows: c1.borrows.push(
                                        BorrowRec {
                                            target: pid,
                                            mutable: true,
                                            created_at: idx,
                                            scope: c1.stack.last(),
                                            released: false,
                                        },
                                    ),
                                    ..c1
                                };
                                assert(c3 =~= (CheckerModel {
                                    states: c2g.states.update(
                                        pid as int,
                                        OwnershipState::MutBorrowed { borrower: bid },
                                    ),
                                    ..c2g
                                }));
                                assert(c3 == borrow_mut_model(old(self)@, place@, idx));
                                assert forall|p: int, q: int|
                                    #![trigger c3.states[p], c3.states[q]]
                                    0 <= p < c3.places.len() && 0 <= q < c3.places.len()
                                        && paths_overlap(c3.places[p].path, c3.places[q].path)
                                        && c3.states[p] is MutBorrowed implies (!(c3.states[q]
                                is SharedBorrowed) && (c3.states[q] is MutBorrowed ==> p
                                == q)) by {
                                    assert(c3.places[p] == c1.places[p]);
                                    assert(c3.places[q] == c1.places[q]);
                                    if p != pid {
                                        assert(c3.states[p] == c1.states[p]);
                                        if q == pid {
                                            assert(paths_overlap(c1.places[p].path, place@));
                                            assert(borrow_conflict_at(c1, place@, p));
                                            assert(any_borrow_overlap(c1, place@));
                                        } else {
                                            assert(c3.states[q] == c1.states[q]);
                                        }
                                    } else {
                                        if q != pid {
                                            assert(c3.states[q] == c1.states[q]);
                                            if c3.states[q] is SharedBorrowed || c3.states[q]
                                                is MutBorrowed {
                                                assert(paths_overlap(
                                                    c1.places[q].path,
                                                    place@,
                                                ));
                                                assert(borrow_conflict_at(c1, place@, q));
                                                assert(any_borrow_overlap(c1, place@));
                                            }
                                        }
                                    }
                                }
                                assert(wf(c3));
                            }
                        }
                    },
                }
            },
        }
    }

    /// Drops the place `pid` if it still owns its value.
    fn drop_place_at(&mut self, pid: usize)
        requires
            wf(old(self)@),
        ensures
            final(self)@ == drop_place(old(self)@, pid),
            wf(final(self)@),
    {
        let ghost c0 = self@;
        proof {
            vstd::std_specs::vec::axiom_spec_len(&self.borrows);
            lemma_drop_place_wf(c0, pid);
        }
        let in_range = pid < self.places.len();
        let owned_now = in_range && match self.states[pid] {
            OwnershipState::Owned => true,
            _ => false,
        };
        if !owned_now {
            return;
        }
        let n = self.borrows.len();
        let mut i: usize = 0;
        while i < n
            invariant
                wf(self@),
                n == self.borrows.len(),
                pid < self@.places.len(),
                self@.places == c0.places,
                self@.scopes == c0.scopes,
                self@.stack == c0.stack,
                self@.diags == c0.diags,
                0 <= i <= n,
                release_inside_from(c0, pid, 0) == release_inside_from(self@, pid, i as nat),
            decreases n - i,
        {
            let rec = self.borrows[i];
            let inside = !rec.released && rec.target < self.places.len() && place_contains(
                &self.places[pid].path,
                &self.places[rec.target].path,
            );
            if inside {
                self.release_borrow_at(i);
            }
            i += 1;
        }
        proof {
            assert(release_inside_from(self@, pid, n as nat) == self@);
            lemma_set_nonborrow_wf(self@, pid, OwnershipState::MovedOut);
        }
        self.set_inside(pid, OwnershipState::MovedOut);
    }

    /// Walks one scope entry.
    fn do_enter(&mut self)
        requires
            wf(old(self)@),
        ensures
            final(self)@ == enter_scope_model(old(self)@),
            wf(final(self)@),
    {
        let ghost c0 = self@;
        let top = self.stack.len() - 1;
        let parent = self.stack[top];
        let sid = self.scopes.len();
        self.scopes.push(ScopeRec { parent: Some(parent), owned: Vec::new(), is_open: true });
        self.stack.push(sid);
        let ghost c2 = self@;
        proof {
            assert(c2.scopes =~= c0.scopes.push(
                ScopeModel { parent: Some(c0.stack.last()), owned: Seq::empty(), is_open: true },
            ));
            assert(c2 =~= enter_scope_model(c0));
            assert forall|s: int, k: int|
                0 <= s < c2.scopes.len() && 0 <= k < c2.scopes[s].owned.len() implies #[trigger] c2.scopes[s].owned[k]
                < c2.places.len() by {
                if s < c0.scopes.len() {
                    assert(c2.scopes[s] == c0.scopes[s]);
                }
            }
            assert(wf(c2));
        }
    }

    /// Walks one scope exit.
    fn do_exit(&mut self, idx: usize)
        requires
            wf(old(self)@),
        ensures
            final(self)@ == exit_scope_model(old(self)@, idx),
            wf(final(self)@),
    {
        let ghost c0 = self@;
        if self.stack.len() <= 1 {
            self.report(DiagnosticKind::UnbalancedScope, idx, None);
            return;
        }
        let top = self.stack.len() - 1;
        let sid = self.stack[top];
        self.stack.pop();
        self.scopes[sid].is_open = false;
        let ghost c1 = self@;
        proof {
            assert(c1.scopes =~= c0.scopes.update(
                sid as int,
                ScopeModel { is_open: false, ..c0.scopes[sid as int] },
            ));
            assert(c1 =~= (CheckerModel {
                stack: c0.stack.drop_last(),
                scopes: c0.scopes.update(
                    sid as int,
                    ScopeModel { is_open: false, ..c0.scopes[sid as int] },
                ),
                ..c0
            }));
            assert(wf(c1)) by {
                assert(c1.stack[0] == c0.stack[0]);
                assert forall|s: int, k: int|
                    0 <= s < c1.scopes.len() && 0 <= k < c1.scopes[s].owned.len() implies #[trigger] c1.scopes[s].owned[k]
                    < c1.places.len() by {
                    if s != sid {
                        assert(c1.scopes[s] == c0.scopes[s]);
                    } else {
                        assert(c1.scopes[s].owned == c0.scopes[sid as int].owned);
                    }
                }
            }
        }
        let ghost owned0 = c0.scopes[sid as int].owned;
        let mut k: usize = self.scopes[sid].owned.len();
        proof {
            assert(owned0.subrange(0, k as int) =~= owned0);
        }
        while k > 0
            invariant
                wf(self@),
                sid < self.scopes@.len(),
                self@.scopes == c1.scopes,
                self@.places == c1.places,
                self@.stack == c1.stack,
                self@.diags == c1.diags,
                self@.borrows.len() == c1.borrows.len(),
                owned0 == c1.scopes[sid as int].owned,
                k <= owned0.len(),
                drop_owned_rev(c1, owned0) == drop_owned_rev(self@, owned0.subrange(0, k as int)),
            decreases k,
        {
            k = k - 1;
            let pid = self.scopes[sid].owned[k];
            let ghost pre = self@;
            proof {
                assert(owned0.subrange(0, (k + 1) as int).last() == owned0[k as int]);
                assert(owned0.subrange(0, (k + 1) as int).drop_last() =~= owned0.subrange(
                    0,
                    k as int,
                ));
                vstd::std_specs::vec::axiom_spec_len(&self.borrows);
                lemma_drop_place_wf(pre, pid);
            }
            self.drop_place_at(pid);
        }
        proof {
            assert(owned0.subrange(0, 0) =~= Seq::<usize>::empty());
            assert(drop_owned_rev(self@, owned0.subrange(0, 0)) == self@);
        }
        let ghost c2 = self@;
        let n = self.borrows.len();
        let mut i: usize = 0;
        while i < n
            invariant
                wf(self@),
                n == self.borrows.len(),
                release_scope_from(c2, sid, 0) == release_scope_from(self@, sid, i as nat),
            decreases n - i,
        {
            let rec = self.borrows[i];
            if !rec.released && rec.scope == sid {
                self.release_borrow_at(i);
            }
            i += 1;
        }
        proof {
            assert(release_scope_from(self@, sid, n as nat) == self@);
            assert(self@ == exit_scope_model(c0, idx));
        }
    }

    /// Walks one instruction at index `idx`.
    pub fn step(&mut self, inst: &Instruction, idx: usize)
        requires
            wf(old(self)@),
        ensures
            final(self)@ == step_model(old(self)@, *inst, idx),
            wf(final(self)@),
    {
        match inst {
            Instruction::Declare { place, kind, init } => {
                self.do_declare(place, *kind, *init, idx);
            },
            Instruction::Move { src, dst } => {
                self.do_move(src, dst, idx);
            },
            Instruction::Copy { src, dst } => {
                self.do_copy(src, dst, idx);
            },
            Instruction::BorrowShared { place } => {
                self.do_borrow_shared(place, idx);
            },
            Instruction::BorrowMut { place } => {
                self.do_borrow_mut(place, idx);
            },
            Instruction::ReleaseBorrow { borrow } => {
                self.do_release(*borrow, idx);
            },
            Instruction::Read { place } => {
                self.do_read(place, idx);
            },
            Instruction::Write { place } => {
                self.do_write(place, idx);
            },
            Instruction::EnterScope => {
                self.do_enter();
            },
            Instruction::ExitScope => {
                self.do_exit(idx);
            },
        }
    }

    /// The diagnostics collected so far, oldest first.
    pub fn diagnostics(self) -> (r: Vec<Diagnostic>)
        ensures
            diags_view(r@) == self@.diags,
    {
        self.diags
    }

    /// Walks the whole instruction sequence from a fresh start and
    /// returns the collected diagnostics, in instruction order. An empty
    /// result means the sequence respects the ownership discipline. The
    /// walk is total: every rule violation is recorded and the offending
    /// instruction skipped, never fatal.
    pub fn check(instructions: &Vec<Instruction>) -> (r: Vec<Diagnostic>)
        ensures
            diags_view(r@) == run_model(instructions@).diags,
    {
        let mut ck = Checker::new();
        let n = instructions.len();
        proof {
            assert(instructions@.subrange(0, 0) =~= Seq::<Instruction>::empty());
        }
        let mut i: usize = 0;
        while i < n
            invariant
                n == instructions.len(),
                0 <= i <= n,
                wf(ck@),
                ck@ == run_model(instructions@.subrange(0, i as int)),
            decreases n - i,
        {
            ck.step(&instructions[i], i);
            proof {
                assert(instructions@.subrange(0, (i + 1) as int).drop_last()
                    =~= instructions@.subrange(0, i as int));
                assert(instructions@.subrange(0, (i + 1) as int).last() == instructions@[i as int]);
            }
            i += 1;
        }
        proof {
            assert(instructions@.subrange(0, n as int) =~= instructions@);
        }
        ck.diagnostics()
    }

    /// Records the place `pid` as declared in the innermost scope.
    fn register_in_current(&mut self, pid: usize)
        requires
            wf(old(self)@),
            pid < old(self)@.places.len(),
        ensures
            final(self)@ == register_owner(old(self)@, old(self)@.stack.last(), pid),
            wf(final(self)@),
    {
        let ghost c0 = self@;
        let top = self.stack.len() - 1;
        let sid = self.stack[top];
        self.scopes[sid].owned.push(pid);
        proof {
            assert(self@.scopes =~= register_owner(c0, c0.stack.last(), pid).scopes);
            assert(self@ =~= register_owner(c0, c0.stack.last(), pid));
            lemma_register_owner_wf(c0, c0.stack.last(), pid);
        }
    }
}

} // verus!
