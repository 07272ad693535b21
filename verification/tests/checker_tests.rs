use borrowck::checker::Checker;
use borrowck::diag::{Diagnostic, DiagnosticKind};
use borrowck::instruction::Instruction;
use borrowck::place::{PlacePath, Projection};
use borrowck::state::TypeKind;

fn root(name: u64) -> PlacePath {
    PlacePath { root: name, projections: Vec::new() }
}

fn field(name: u64, f: u64) -> PlacePath {
    PlacePath { root: name, projections: vec![Projection::Field(f)] }
}

fn element(name: u64, i: u64) -> PlacePath {
    PlacePath { root: name, projections: vec![Projection::Index(i)] }
}

fn declare(name: u64) -> Instruction {
    Instruction::Declare { place: root(name), kind: TypeKind::Owned, init: true }
}

fn run(instructions: Vec<Instruction>) -> Vec<Diagnostic> {
    Checker::check(&instructions)
}

const A: u64 = 0;
const B: u64 = 1;

#[test]
fn move_then_use() {
    let diags = run(vec![
        declare(A),
        Instruction::Move { src: root(A), dst: root(B) },
        Instruction::Read { place: root(A) },
    ]);
    assert_eq!(diags.len(), 1);
    assert_eq!(diags[0].kind, DiagnosticKind::UseAfterMove);
    assert_eq!(diags[0].instruction_index, 2);
    assert_eq!(diags[0].place_path, Some(root(A)));
}

#[test]
fn shared_borrows_compose() {
    let diags = run(vec![
        declare(A),
        Instruction::BorrowShared { place: root(A) },
        Instruction::BorrowShared { place: root(A) },
        Instruction::Read { place: root(A) },
    ]);
    assert_eq!(diags.len(), 0);
}

#[test]
fn mutable_exclusivity() {
    let diags = run(vec![
        declare(A),
        Instruction::BorrowMut { place: root(A) },
        Instruction::BorrowShared { place: root(A) },
    ]);
    assert_eq!(diags.len(), 1);
    assert_eq!(diags[0].kind, DiagnosticKind::BorrowConflict);
    assert_eq!(diags[0].instruction_index, 2);
}

#[test]
fn scope_drop_releases_borrows() {
    let diags = run(vec![
        Instruction::EnterScope,
        declare(A),
        Instruction::BorrowShared { place: root(A) },
        Instruction::ExitScope,
        Instruction::BorrowMut { place: root(A) },
    ]);
    assert_eq!(diags.len(), 0);
}

#[test]
fn partial_move_then_whole_read() {
    let diags = run(vec![
        declare(A),
        Instruction::Move { src: field(A, 0), dst: root(B) },
        Instruction::Read { place: root(A) },
    ]);
    assert_eq!(diags.len(), 1);
    assert_eq!(diags[0].kind, DiagnosticKind::UseOfPartiallyMovedValue);
    assert_eq!(diags[0].instruction_index, 2);
}

#[test]
fn partial_move_then_other_field_read() {
    let diags = run(vec![
        declare(A),
        Instruction::Move { src: field(A, 0), dst: root(B) },
        Instruction::Read { place: field(A, 1) },
    ]);
    assert_eq!(diags.len(), 0);
}

#[test]
fn check_is_idempotent() {
    let program = vec![
        declare(A),
        Instruction::BorrowMut { place: root(A) },
        Instruction::BorrowShared { place: root(A) },
        Instruction::Move { src: root(A), dst: root(B) },
        Instruction::Read { place: root(A) },
    ];
    let first = Checker::check(&program);
    let second = Checker::check(&program);
    assert_eq!(first, second);
}

#[test]
fn unknown_place_is_reported() {
    let diags = run(vec![Instruction::Read { place: root(A) }]);
    assert_eq!(diags.len(), 1);
    assert_eq!(diags[0].kind, DiagnosticKind::UnknownPlace);
    assert_eq!(diags[0].instruction_index, 0);
}

#[test]
fn double_release_is_reported() {
    let diags = run(vec![
        declare(A),
        Instruction::BorrowShared { place: root(A) },
        Instruction::ReleaseBorrow { borrow: 0 },
        Instruction::ReleaseBorrow { borrow: 0 },
    ]);
    assert_eq!(diags.len(), 1);
    assert_eq!(diags[0].kind, DiagnosticKind::DoubleRelease);
    assert_eq!(diags[0].instruction_index, 3);
}

#[test]
fn unknown_borrow_release_is_reported() {
    let diags = run(vec![Instruction::ReleaseBorrow { borrow: 7 }]);
    assert_eq!(diags.len(), 1);
    assert_eq!(diags[0].kind, DiagnosticKind::DoubleRelease);
}

#[test]
fn unbalanced_scope_is_reported() {
    let diags = run(vec![Instruction::ExitScope]);
    assert_eq!(diags.len(), 1);
    assert_eq!(diags[0].kind, DiagnosticKind::UnbalancedScope);
    assert_eq!(diags[0].place_path, None);
}

#[test]
fn release_frees_the_place() {
    let diags = run(vec![
        declare(A),
        Instruction::BorrowShared { place: root(A) },
        Instruction::ReleaseBorrow { borrow: 0 },
        Instruction::BorrowMut { place: root(A) },
    ]);
    assert_eq!(diags.len(), 0);
}

#[test]
fn copy_of_copyable_keeps_source() {
    let diags = run(vec![
        Instruction::Declare { place: root(A), kind: TypeKind::Copyable, init: true },
        Instruction::Copy { src: root(A), dst: root(B) },
        Instruction::Read { place: root(A) },
        Instruction::Read { place: root(B) },
    ]);
    assert_eq!(diags.len(), 0);
}

#[test]
fn copy_of_owned_transfers() {
    let diags = run(vec![
        declare(A),
        Instruction::Copy { src: root(A), dst: root(B) },
        Instruction::Read { place: root(A) },
    ]);
    assert_eq!(diags.len(), 1);
    assert_eq!(diags[0].kind, DiagnosticKind::UseAfterMove);
    assert_eq!(diags[0].instruction_index, 2);
}

#[test]
fn write_initializes_a_declared_place() {
    let diags = run(vec![
        Instruction::Declare { place: root(A), kind: TypeKind::Owned, init: false },
        Instruction::Write { place: root(A) },
        Instruction::Read { place: root(A) },
    ]);
    assert_eq!(diags.len(), 0);
}

#[test]
fn read_of_uninitialized_is_reported() {
    let diags = run(vec![
        Instruction::Declare { place: root(A), kind: TypeKind::Owned, init: false },
        Instruction::Read { place: root(A) },
    ]);
    assert_eq!(diags.len(), 1);
    assert_eq!(diags[0].kind, DiagnosticKind::UseAfterMove);
}

#[test]
fn write_through_the_exclusive_borrow_is_permitted() {
    let diags = run(vec![
        declare(A),
        Instruction::BorrowMut { place: root(A) },
        Instruction::Write { place: root(A) },
    ]);
    assert_eq!(diags.len(), 0);
}

#[test]
fn write_under_shared_borrow_conflicts() {
    let diags = run(vec![
        declare(A),
        Instruction::BorrowShared { place: root(A) },
        Instruction::Write { place: root(A) },
    ]);
    assert_eq!(diags.len(), 1);
    assert_eq!(diags[0].kind, DiagnosticKind::BorrowConflict);
    assert_eq!(diags[0].instruction_index, 2);
}

#[test]
fn move_out_of_borrowed_place_conflicts() {
    let diags = run(vec![
        declare(A),
        Instruction::BorrowShared { place: root(A) },
        Instruction::Move { src: root(A), dst: root(B) },
    ]);
    assert_eq!(diags.len(), 1);
    assert_eq!(diags[0].kind, DiagnosticKind::BorrowConflict);
}

#[test]
fn scope_exit_drops_owned_places() {
    let diags = run(vec![
        Instruction::EnterScope,
        declare(A),
        Instruction::ExitScope,
        Instruction::Read { place: root(A) },
    ]);
    assert_eq!(diags.len(), 1);
    assert_eq!(diags[0].kind, DiagnosticKind::UseAfterMove);
    assert_eq!(diags[0].instruction_index, 3);
}

#[test]
fn field_borrow_blocks_whole_borrow() {
    let diags = run(vec![
        declare(A),
        Instruction::BorrowMut { place: field(A, 0) },
        Instruction::BorrowShared { place: root(A) },
    ]);
    assert_eq!(diags.len(), 1);
    assert_eq!(diags[0].kind, DiagnosticKind::BorrowConflict);
}

#[test]
fn distinct_fields_may_be_borrowed_apart() {
    let diags = run(vec![
        declare(A),
        Instruction::BorrowMut { place: field(A, 0) },
        Instruction::BorrowMut { place: field(A, 1) },
    ]);
    assert_eq!(diags.len(), 0);
}

#[test]
fn array_elements_overlap_conservatively() {
    let diags = run(vec![
        declare(A),
        Instruction::BorrowMut { place: element(A, 0) },
        Instruction::BorrowShared { place: element(A, 1) },
    ]);
    assert_eq!(diags.len(), 1);
    assert_eq!(diags[0].kind, DiagnosticKind::BorrowConflict);
}

#[test]
fn diagnostics_come_in_instruction_order() {
    let diags = run(vec![
        Instruction::Read { place: root(A) },
        declare(A),
        Instruction::Move { src: root(A), dst: root(B) },
        Instruction::Read { place: root(A) },
    ]);
    assert_eq!(diags.len(), 2);
    assert_eq!(diags[0].instruction_index, 0);
    assert_eq!(diags[0].kind, DiagnosticKind::UnknownPlace);
    assert_eq!(diags[1].instruction_index, 3);
    assert_eq!(diags[1].kind, DiagnosticKind::UseAfterMove);
}

#[test]
fn diagnostic_messages_name_the_cause() {
    let diags = run(vec![
        declare(A),
        Instruction::Move { src: root(A), dst: root(B) },
        Instruction::Read { place: root(A) },
    ]);
    assert_eq!(diags[0].message.as_str(), "use of a value after it was moved out");
}

#[test]
fn well_formed_program_has_no_diagnostics() {
    let diags = run(vec![
        Instruction::EnterScope,
        declare(A),
        Instruction::BorrowShared { place: root(A) },
        Instruction::Read { place: root(A) },
        Instruction::ReleaseBorrow { borrow: 0 },
        Instruction::BorrowMut { place: root(A) },
        Instruction::Write { place: root(A) },
        Instruction::ReleaseBorrow { borrow: 1 },
        Instruction::Move { src: root(A), dst: root(B) },
        Instruction::Read { place: root(B) },
        Instruction::ExitScope,
    ]);
    assert_eq!(diags.len(), 0);
}
