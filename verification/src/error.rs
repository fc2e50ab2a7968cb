//! The ways a call on the board can fail.

use vstd::prelude::*;

verus! {

/// Why a call was refused. A refused call leaves the board as it was.
#[derive(Clone, Copy, Debug, PartialEq, Eq, Structural)]
pub enum Error {
    /// A puzzle is already filed under this key.
    DuplicatePuzzle,
    /// No puzzle is filed under this key.
    PuzzleNotFound,
    /// The puzzle is not unsolved any more.
    AlreadySolved,
    /// The puzzle is not in the solved state: nobody solved it yet, or the
    /// reward has been paid out.
    NotYetSolved,
    /// The key has no leading byte that names a known signature scheme.
    UnknownKeyScheme,
    /// The list of unsolved puzzles names a key under which nothing is filed.
    CorruptIndex,
}

} // verus!
