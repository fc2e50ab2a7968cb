//! A crossword puzzle board whose solutions are key pairs.
//!
//! Whoever knows the solution of a puzzle holds the private half of the key
//! that the puzzle is filed under. The board files each puzzle, moves it from
//! unsolved to solved to claimed, and says at every step which access keys
//! to add or delete and which reward to pay. It holds no keys and no money:
//! its caller tells it who signed a call and what was deposited, and takes
//! the steps it hands back.
//!
//! - [`puzzle`]: the records, and what they stand for in contracts.
//! - [`keys`]: comparing keys and printing them.
//! - [`store`] and [`index`]: the puzzles on file, and the list of the
//!   unsolved ones.
//! - [`action`]: the steps the board asks for.
//! - [`board`]: the board as a mathematical object.
//! - [`laws`]: what holds of it whatever calls are made.
//! - [`crossword`]: the board itself.

pub mod action;
pub mod board;
pub mod crossword;
pub mod error;
pub mod index;
pub mod keys;
pub mod laws;
pub mod puzzle;
pub mod store;

pub use action::{Action, Method, ACCESS_KEY_ALLOWANCE};
pub use crossword::{list_puzzles, Crossword};
pub use error::Error;
pub use index::UnsolvedIndex;
pub use keys::get_decoded_pk;
pub use puzzle::{Answer, AnswerDirection, CoordinatePair, JsonPuzzle, Puzzle, PuzzleStatus};
pub use store::PuzzleStore;
