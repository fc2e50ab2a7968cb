//! The records the board keeps, and what each stands for in contracts.
//!
//! Every record that owns a `String` or a `Vec` has a view in which those
//! are sequences. Contracts speak of the views.

use vstd::prelude::*;

verus! {

/// The way an answer runs on the grid.
#[derive(Clone, Copy, Debug, PartialEq, Eq, Structural)]
pub enum AnswerDirection {
    Across,
    Down,
}

/// A square of the grid. The origin (0, 0) is the top left square.
#[derive(Clone, Copy, Debug, PartialEq, Eq, Structural)]
pub struct CoordinatePair {
    pub x: u8,
    pub y: u8,
}

/// One clue: its number, where its answer starts, which way the answer runs,
/// how many squares it takes, and the clue's text.
#[derive(Debug, PartialEq, Eq)]
pub struct Answer {
    pub num: u8,
    pub start: CoordinatePair,
    pub direction: AnswerDirection,
    pub length: u8,
    pub clue: String,
}

/// An [`Answer`] with its text as a sequence.
pub struct AnswerView {
    pub num: u8,
    pub start: CoordinatePair,
    pub direction: AnswerDirection,
    pub length: u8,
    pub clue: Seq<char>,
}

impl View for Answer {
    type V = AnswerView;

    open spec fn view(&self) -> AnswerView {
        AnswerView {
            num: self.num,
            start: self.start,
            direction: self.direction,
            length: self.length,
            clue: self.clue@,
        }
    }
}

impl Clone for Answer {
    fn clone(&self) -> (copy: Self)
        ensures
            copy@ == self@,
    {
        Answer {
            num: self.num,
            start: self.start,
            direction: self.direction,
            length: self.length,
            clue: self.clue.clone(),
        }
    }
}

/// The views of a list of answers, in the same order.
pub open spec fn answers_view(answers: Seq<Answer>) -> Seq<AnswerView> {
    answers.map_values(|a: Answer| a@)
}

/// Where a puzzle stands. A puzzle starts unsolved, is solved once and is
/// claimed once, in that order.
#[derive(Debug, PartialEq, Eq)]
pub enum PuzzleStatus {
    Unsolved,
    /// Solved; `solver_pk` is the key that the solver handed in.
    Solved { solver_pk: Vec<u8> },
    /// The reward is paid; `memo` is the claimant's note.
    Claimed { memo: String },
}

/// A [`PuzzleStatus`] with its key and note as sequences.
pub enum StatusView {
    Unsolved,
    Solved { solver_pk: Seq<u8> },
    Claimed { memo: Seq<char> },
}

impl View for PuzzleStatus {
    type V = StatusView;

    open spec fn view(&self) -> StatusView {
        match self {
            PuzzleStatus::Unsolved => StatusView::Unsolved,
            PuzzleStatus::Solved { solver_pk } => StatusView::Solved { solver_pk: solver_pk@ },
            PuzzleStatus::Claimed { memo } => StatusView::Claimed { memo: memo@ },
        }
    }
}

impl Clone for PuzzleStatus {
    fn clone(&self) -> (copy: Self)
        ensures
            copy@ == self@,
    {
        match self {
            PuzzleStatus::Unsolved => PuzzleStatus::Unsolved,
            PuzzleStatus::Solved { solver_pk } => PuzzleStatus::Solved {
                solver_pk: solver_pk.clone(),
            },
            PuzzleStatus::Claimed { memo } => PuzzleStatus::Claimed { memo: memo.clone() },
        }
    }
}

/// A puzzle as the board files it.
#[derive(Debug, PartialEq, Eq)]
pub struct Puzzle {
    pub status: PuzzleStatus,
    /// What was deposited when the puzzle was made, and is paid to the
    /// claimant.
    pub reward: u128,
    /// The account that made the puzzle.
    pub creator: String,
    /// The width (`x`) and the height (`y`) of the grid.
    pub dimensions: CoordinatePair,
    pub answer: Vec<Answer>,
}

/// A [`Puzzle`] with its texts and lists as sequences.
pub struct PuzzleView {
    pub status: StatusView,
    pub reward: u128,
    pub creator: Seq<char>,
    pub dimensions: CoordinatePair,
    pub answer: Seq<AnswerView>,
}

impl View for Puzzle {
    type V = PuzzleView;

    open spec fn view(&self) -> PuzzleView {
        PuzzleView {
            status: self.status@,
            reward: self.reward,
            creator: self.creator@,
            dimensions: self.dimensions,
            answer: answers_view(self.answer@),
        }
    }
}

/// Copies a list of answers.
pub fn clone_answers(answers: &Vec<Answer>) -> (copy: Vec<Answer>)
    ensures
        answers_view(copy@) == answers_view(answers@),
{
    let mut copy: Vec<Answer> = Vec::new();
    let mut i: usize = 0;
    while i < answers.len()
        invariant
            i <= answers.len(),
            copy.len() == i,
            forall|j: int| 0 <= j < i ==> copy[j]@ == answers[j]@,
        decreases answers.len() - i,
    {
        copy.push(answers[i].clone());
        i += 1;
    }
    assert(answers_view(copy@) =~= answers_view(answers@));
    copy
}

impl Clone for Puzzle {
    fn clone(&self) -> (copy: Self)
        ensures
            copy@ == self@,
    {
        Puzzle {
            status: self.status.clone(),
            reward: self.reward,
            creator: self.creator.clone(),
            dimensions: self.dimensions,
            answer: clone_answers(&self.answer),
        }
    }
}

/// An unsolved puzzle as it is shown to the public: the record, and the key
/// it is filed under in printed form.
#[derive(Debug, PartialEq, Eq)]
pub struct JsonPuzzle {
    /// The key that the solution gives, as text.
    pub solution_public_key: String,
    pub status: PuzzleStatus,
    pub reward: u128,
    pub creator: String,
    pub dimensions: CoordinatePair,
    pub answer: Vec<Answer>,
}

/// A [`JsonPuzzle`] with its texts and lists as sequences.
pub struct JsonPuzzleView {
    pub solution_public_key: Seq<char>,
    pub status: StatusView,
    pub reward: u128,
    pub creator: Seq<char>,
    pub dimensions: CoordinatePair,
    pub answer: Seq<AnswerView>,
}

impl View for JsonPuzzle {
    type V = JsonPuzzleView;

    open spec fn view(&self) -> JsonPuzzleView {
        JsonPuzzleView {
            solution_public_key: self.solution_public_key@,
            status: self.status@,
            reward: self.reward,
            creator: self.creator@,
            dimensions: self.dimensions,
            answer: answers_view(self.answer@),
        }
    }
}

/// The views of a list of shown puzzles, in the same order.
pub open spec fn json_puzzles_view(puzzles: Seq<JsonPuzzle>) -> Seq<JsonPuzzleView> {
    puzzles.map_values(|p: JsonPuzzle| p@)
}

} // verus!
