//! Diagnostics: structured findings of the checker. They are collected,
//! never thrown; the walk over an instruction sequence always runs to the
//! end and returns the findings as a batch.

use crate::place::{PathModel, PlacePath};
use vstd::prelude::*;
use vstd::string::StringExecFns;

verus! {

/// The kinds of rule violation the checker reports.
#[derive(Clone, Copy, PartialEq, Eq, Structural, Debug)]
pub enum DiagnosticKind {
    /// A place was read, written, moved or borrowed after being moved out.
    UseAfterMove,
    /// A whole value was used while one of its children was moved out.
    UseOfPartiallyMovedValue,
    /// An operation collided with an active borrow: a conflicting borrow,
    /// a move out of a borrowed place, or an access past an exclusive
    /// borrow held elsewhere.
    BorrowConflict,
    /// An instruction named a place whose root was never declared.
    UnknownPlace,
    /// A scope exit without a matching open scope.
    UnbalancedScope,
    /// A release of a borrow that is unknown or already released.
    DoubleRelease,
}

/// One finding: its kind, the instruction it arose at, the place involved
/// (absent for scope and borrow bookkeeping errors), and a fixed
/// human-readable cause.
#[derive(Clone, PartialEq, Eq, Debug)]
pub struct Diagnostic {
    /// What rule was broken.
    pub kind: DiagnosticKind,
    /// The index of the offending instruction in the checked sequence.
    pub instruction_index: usize,
    /// The place the instruction operated on, where one was named.
    pub place_path: Option<PlacePath>,
    /// A short description of the cause.
    pub message: String,
}

/// The mathematical value of a `Diagnostic`.
#[verifier::ext_equal]
pub struct DiagModel {
    pub kind: DiagnosticKind,
    pub instruction_index: usize,
    pub place_path: Option<PathModel>,
    pub message: Seq<char>,
}

impl View for Diagnostic {
    type V = DiagModel;

    open spec fn view(&self) -> DiagModel {
        DiagModel {
            kind: self.kind,
            instruction_index: self.instruction_index,
            place_path: match self.place_path {
                Some(p) => Some(p@),
                None => None,
            },
            message: self.message@,
        }
    }
}

/// The fixed message that accompanies each diagnostic kind.
pub open spec fn kind_message(kind: DiagnosticKind) -> Seq<char> {
    match kind {
        DiagnosticKind::UseAfterMove => "use of a value after it was moved out"@,
        DiagnosticKind::UseOfPartiallyMovedValue => "whole use of a partially moved value"@,
        DiagnosticKind::BorrowConflict => "operation conflicts with an active borrow"@,
        DiagnosticKind::UnknownPlace => "the named place was never declared"@,
        DiagnosticKind::UnbalancedScope => "scope exit without a matching open scope"@,
        DiagnosticKind::DoubleRelease => "borrow is unknown or was already released"@,
    }
}

/// The mathematical value of an optional place path.
pub open spec fn opt_path_view(p: Option<PlacePath>) -> Option<PathModel> {
    match p {
        Some(q) => Some(q@),
        None => None,
    }
}

/// The mathematical value of a fresh diagnostic of the given kind.
pub open spec fn diag_model(
    kind: DiagnosticKind,
    instruction_index: usize,
    place_path: Option<PathModel>,
) -> DiagModel {
    DiagModel { kind, instruction_index, place_path, message: kind_message(kind) }
}

impl Diagnostic {
    /// Builds the diagnostic of the given kind at the given instruction,
    /// about the given place.
    pub fn new(kind: DiagnosticKind, instruction_index: usize, place_path: Option<PlacePath>) -> (
        r: Diagnostic)
        ensures
            r@ == diag_model(kind, instruction_index, opt_path_view(place_path)),
    {
        let message = match kind {
            DiagnosticKind::UseAfterMove => String::from_str(
                "use of a value after it was moved out",
            ),
            DiagnosticKind::UseOfPartiallyMovedValue => String::from_str(
                "whole use of a partially moved value",
            ),
            DiagnosticKind::BorrowConflict => String::from_str(
                "operation conflicts with an active borrow",
            ),
            DiagnosticKind::UnknownPlace => String::from_str(
                "the named place was never declared",
            ),
            DiagnosticKind::UnbalancedScope => String::from_str(
                "scope exit without a matching open scope",
            ),
            DiagnosticKind::DoubleRelease => String::from_str(
                "borrow is unknown or was already released",
            ),
        };
        Diagnostic { kind, instruction_index, place_path, message }
    }
}

} // verus!
