//! Lifecycle data of the checker: the per-place ownership state, the
//! records of borrows, and the lexical scopes.

use vstd::prelude::*;

verus! {

/// How a declared place holds its value: by copy or by ownership. The tag
/// is fixed at declaration and decides whether a copy instruction leaves
/// the source intact.
#[derive(Clone, Copy, PartialEq, Eq, Structural, Debug)]
pub enum TypeKind {
    /// The value is duplicated freely; a copy leaves the source usable.
    Copyable,
    /// The value is owned; transferring it invalidates the source.
    Owned,
}

/// The lifecycle state of one place at one instruction point. Exactly one
/// state holds per place.
///
/// A partially moved place is one whose children with `MovedOut` state are
/// exactly the moved-out parts; a shared-borrowed place carries the number
/// of borrows still active on it, and the borrow records themselves name
/// their target, so neither state repeats the list of its borrowers.
#[derive(Clone, Copy, PartialEq, Eq, Structural, Debug)]
pub enum OwnershipState {
    /// Declared without a value.
    Uninitialized,
    /// Holds a value that may be used freely.
    Owned,
    /// The value was transferred away or dropped.
    MovedOut,
    /// Some child of the place was moved out; the whole value is unusable.
    PartiallyMoved,
    /// Read-only borrows are active on the place; `count` is how many.
    SharedBorrowed { count: usize },
    /// One exclusive borrow is active on the place; `borrower` names it.
    MutBorrowed { borrower: usize },
}

/// One borrow: an active reference to a target place. Created by a borrow
/// instruction; released explicitly, or when its scope closes, or when the
/// place it is rooted at is dropped.
#[derive(Clone, Copy, PartialEq, Eq, Structural, Debug)]
pub struct BorrowRec {
    /// The index of the borrowed place in the place arena.
    pub target: usize,
    /// Whether the borrow is exclusive.
    pub mutable: bool,
    /// The index of the instruction that created the borrow.
    pub created_at: usize,
    /// The scope that was innermost when the borrow was created.
    pub scope: usize,
    /// Whether the borrow has ended.
    pub released: bool,
}

/// One lexical scope: its parent, the places declared in it (in
/// declaration order, which fixes the drop order), and whether it is
/// still open.
#[derive(Clone, PartialEq, Eq, Debug)]
pub struct ScopeRec {
    /// The enclosing scope, if any.
    pub parent: Option<usize>,
    /// Indices of the places declared in this scope, oldest first.
    pub owned: Vec<usize>,
    /// Whether the scope has not been exited yet.
    pub is_open: bool,
}

/// The mathematical value of a `ScopeRec`.
#[verifier::ext_equal]
pub struct ScopeModel {
    pub parent: Option<usize>,
    pub owned: Seq<usize>,
    pub is_open: bool,
}

impl View for ScopeRec {
    type V = ScopeModel;

    open spec fn view(&self) -> ScopeModel {
        ScopeModel { parent: self.parent, owned: self.owned@, is_open: self.is_open }
    }
}

} // verus!
