//! The instruction language the checker walks: declarations, ownership
//! transfers, borrows, accesses, and scope boundaries.

use crate::place::PlacePath;
use crate::state::TypeKind;
use vstd::prelude::*;

verus! {

/// One instruction of the analysed program. Borrow instructions produce
/// borrow identifiers implicitly: the n-th borrow created during a walk
/// has identifier n, counting from zero.
#[derive(Clone, PartialEq, Eq, Debug)]
pub enum Instruction {
    /// Declares the root variable named by `place`, with the given kind,
    /// initialized when `init` holds.
    Declare { place: PlacePath, kind: TypeKind, init: bool },
    /// Transfers the value of `src` to `dst`, invalidating `src`.
    Move { src: PlacePath, dst: PlacePath },
    /// Duplicates the value of `src` into `dst`. Only a place declared
    /// `Copyable` is duplicated; on an owned place this degrades to a
    /// transfer, as assignment of an owned value does.
    Copy { src: PlacePath, dst: PlacePath },
    /// Takes a shared, read-only borrow of `place`.
    BorrowShared { place: PlacePath },
    /// Takes an exclusive borrow of `place`.
    BorrowMut { place: PlacePath },
    /// Ends the borrow with identifier `borrow`.
    ReleaseBorrow { borrow: usize },
    /// Reads the whole value of `place`.
    Read { place: PlacePath },
    /// Writes the whole value of `place`.
    Write { place: PlacePath },
    /// Opens a nested lexical scope.
    EnterScope,
    /// Closes the innermost scope, dropping the values it owns.
    ExitScope,
}

} // verus!
