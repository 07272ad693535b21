//! The standing guarantees of the checker, stated on their own.

use crate::diag::DiagModel;
use crate::instruction::Instruction;
use crate::invariants::{lemma_run_wf, lemma_walk_room_prefix, walk_room};
use crate::model::{exclusive, run_model, wf, CheckerModel};
use vstd::prelude::*;

verus! {

/// Walking the same instruction sequence twice yields identical
/// diagnostics: the result of a walk is a function of the sequence alone,
/// and no state survives from one run into the next. `Checker::check`
/// promises that its result is exactly `run_model(instructions).diags`,
/// so any two of its results on one sequence coincide.
pub proof fn lemma_check_deterministic(
    instrs: Seq<Instruction>,
    d1: Seq<DiagModel>,
    d2: Seq<DiagModel>,
)
    requires
        d1 == run_model(instrs).diags,
        d2 == run_model(instrs).diags,
    ensures
        d1 == d2,
{
}

/// The exclusivity invariant: in every well-formed checker state —
/// `Checker::new` builds one and `Checker::step` preserves them, so the
/// table satisfies this at every instruction index of every walk — no
/// place is exclusively borrowed while an overlapping place carries a
/// shared borrow, and no two distinct overlapping places are exclusively
/// borrowed at once.
pub proof fn lemma_exclusivity(c: CheckerModel)
    requires
        wf(c),
    ensures
        exclusive(c),
{
}

/// The exclusivity invariant over a whole walk: for every instruction
/// sequence whose footprint fits the machine's indices — every sequence
/// the executable checker can be handed does — the table satisfies the
/// exclusivity discipline at every instruction index, that is, after
/// every prefix of the walk.
pub proof fn lemma_walk_exclusive(instrs: Seq<Instruction>, n: int)
    requires
        0 <= n <= instrs.len(),
        walk_room(instrs) <= usize::MAX,
        instrs.len() + 1 <= usize::MAX,
    ensures
        exclusive(run_model(instrs.take(n))),
{
    lemma_walk_room_prefix(instrs, n);
    lemma_run_wf(instrs.take(n));
}

} // verus!
