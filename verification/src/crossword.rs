//! The board itself: the puzzles on file, the list of the unsolved ones, and
//! the calls that move a puzzle along.

use vstd::prelude::*;

use crate::action::{actions_view, Action, ActionView, Method, ACCESS_KEY_ALLOWANCE};
use crate::board::{Board, Call};
use crate::error::Error;
use crate::index::UnsolvedIndex;
use crate::keys::{get_decoded_pk, keys_view};
use crate::laws::lemma_call_keeps_consistent;
use crate::puzzle::{
    answers_view, clone_answers, json_puzzles_view, Answer, CoordinatePair, JsonPuzzle,
    JsonPuzzleView, Puzzle, PuzzleStatus,
};
use crate::store::PuzzleStore;

verus! {

/// What a call's result stands for: the views of the steps, or the error.
pub open spec fn reply_view(reply: Result<Vec<Action>, Error>) -> Result<Seq<ActionView>, Error> {
    match reply {
        Ok(actions) => Ok(actions_view(actions@)),
        Err(e) => Err(e),
    }
}

/// What a listing's result stands for: the views of the puzzles shown, or
/// the error.
pub open spec fn listing_view(listing: Result<Vec<JsonPuzzle>, Error>) -> Result<
    Seq<JsonPuzzleView>,
    Error,
> {
    match listing {
        Ok(shown) => Ok(json_puzzles_view(shown@)),
        Err(e) => Err(e),
    }
}

/// Shows the puzzles that `unsolved` lists, as `puzzles` files them, in the
/// order of the list. Fails on the first listed key under which nothing is
/// filed, or which cannot be printed.
pub fn list_puzzles(puzzles: &PuzzleStore, unsolved: &UnsolvedIndex) -> (listing: Result<
    Vec<JsonPuzzle>,
    Error,
>)
    ensures
        (Board { puzzles: puzzles@, unsolved: unsolved@ }).lists(listing_view(listing)),
{
    let ghost board = Board { puzzles: puzzles@, unsolved: unsolved@ };
    let keys = unsolved.to_vec();
    let mut shown: Vec<JsonPuzzle> = Vec::new();
    let mut i: usize = 0;
    while i < keys.len()
        invariant
            i <= keys.len(),
            board == (Board { puzzles: puzzles@, unsolved: unsolved@ }),
            keys_view(keys@) == board.unsolved,
            shown.len() == i,
            forall|j: int| 0 <= j < i ==> board.shows(#[trigger] board.unsolved[j], shown[j]@),
        decreases keys.len() - i,
    {
        assert(board.unsolved[i as int] == keys[i as int]@);
        let puzzle = match puzzles.get(&keys[i]) {
            Some(puzzle) => puzzle,
            None => {
                return Err(Error::CorruptIndex);
            },
        };
        let text = match get_decoded_pk(keys[i].as_slice()) {
            Ok(text) => text,
            Err(e) => {
                return Err(e);
            },
        };
        shown.push(
            JsonPuzzle {
                solution_public_key: text,
                status: puzzle.status.clone(),
                reward: puzzle.reward,
                creator: puzzle.creator.clone(),
                dimensions: puzzle.dimensions,
                answer: clone_answers(&puzzle.answer),
            },
        );
        i += 1;
    }
    assert forall|j: int| 0 <= j < board.unsolved.len() implies board.shows(
        #[trigger] board.unsolved[j],
        json_puzzles_view(shown@)[j],
    ) by {
        assert(json_puzzles_view(shown@)[j] == shown[j]@);
    }
    Ok(shown)
}

/// The puzzles on file and the list of the unsolved ones. The list names
/// each unsolved puzzle once and nothing else, whatever calls were made.
pub struct Crossword {
    puzzles: PuzzleStore,
    unsolved_puzzles: UnsolvedIndex,
}

impl View for Crossword {
    type V = Board;

    closed spec fn view(&self) -> Board {
        Board { puzzles: self.puzzles@, unsolved: self.unsolved_puzzles@ }
    }
}

impl Default for Crossword {
    /// The board with nothing on file.
    fn default() -> (board: Self)
        ensures
            board@ == Board::empty(),
            board@.consistent(),
    {
        Crossword { puzzles: PuzzleStore::new(), unsolved_puzzles: UnsolvedIndex::new() }
    }
}

impl Crossword {
    #[verifier::type_invariant]
    spec fn sound(self) -> bool {
        self@.consistent()
    }

    /// Takes both tables out and leaves the board empty, so that they can
    /// be changed one after the other and put back together.
    fn take_parts(&mut self) -> (parts: (PuzzleStore, UnsolvedIndex))
        ensures
            old(self)@ == (Board { puzzles: parts.0@, unsolved: parts.1@ }),
            final(self)@ == Board::empty(),
    {
        let mut board = Crossword::default();
        core::mem::swap(self, &mut board);
        let Crossword { puzzles, unsolved_puzzles } = board;
        (puzzles, unsolved_puzzles)
    }

    /// Makes a board of `puzzles` and `unsolved`, if `unsolved` names each
    /// unsolved puzzle of `puzzles` and nothing else.
    pub fn from_parts(puzzles: PuzzleStore, unsolved: UnsolvedIndex) -> (made: Result<Self, Error>)
        ensures
            match made {
                Ok(board) => board@ == (Board { puzzles: puzzles@, unsolved: unsolved@ })
                    && board@.consistent(),
                Err(e) => e == Error::CorruptIndex && !(Board {
                    puzzles: puzzles@,
                    unsolved: unsolved@,
                }).consistent(),
            },
    {
        let ghost board = Board { puzzles: puzzles@, unsolved: unsolved@ };
        let listed = unsolved.to_vec();
        let mut i: usize = 0;
        while i < listed.len()
            invariant
                i <= listed.len(),
                board == (Board { puzzles: puzzles@, unsolved: unsolved@ }),
                keys_view(listed@) == board.unsolved,
                forall|j: int| 0 <= j < i ==> board.is_unsolved(#[trigger] board.unsolved[j]),
            decreases listed.len() - i,
        {
            assert(board.unsolved[i as int] == listed[i as int]@);
            assert(board.unsolved.contains(listed[i as int]@));
            match puzzles.get(&listed[i]) {
                Some(puzzle) => match &puzzle.status {
                    PuzzleStatus::Unsolved => {},
                    _ => {
                        return Err(Error::CorruptIndex);
                    },
                },
                None => {
                    return Err(Error::CorruptIndex);
                },
            }
            i += 1;
        }
        let filed = puzzles.keys();
        let mut k: usize = 0;
        while k < filed.len()
            invariant
                k <= filed.len(),
                board == (Board { puzzles: puzzles@, unsolved: unsolved@ }),
                forall|key: Seq<u8>| #[trigger]
                    keys_view(filed@).contains(key) <==> board.puzzles.contains_key(key),
                forall|j: int|
                    0 <= j < k && board.is_unsolved(#[trigger] keys_view(filed@)[j])
                        ==> board.unsolved.contains(keys_view(filed@)[j]),
            decreases filed.len() - k,
        {
            assert(keys_view(filed@)[k as int] == filed[k as int]@);
            assert(keys_view(filed@).contains(filed[k as int]@));
            match puzzles.get(&filed[k]) {
                Some(puzzle) => match &puzzle.status {
                    PuzzleStatus::Unsolved => {
                        if !unsolved.contains(&filed[k]) {
                            return Err(Error::CorruptIndex);
                        }
                    },
                    _ => {},
                },
                None => {},
            }
            k += 1;
        }
        proof {
            assert forall|key: Seq<u8>| board.is_unsolved(key) implies board.unsolved.contains(
                key,
            ) by {
                assert(keys_view(filed@).contains(key));
                let j = choose|j: int| 0 <= j < filed@.len() && keys_view(filed@)[j] == key;
                assert(board.is_unsolved(keys_view(filed@)[j]));
            }
            assert forall|key: Seq<u8>| board.unsolved.contains(key) implies board.is_unsolved(
                key,
            ) by {
                let j = choose|j: int| 0 <= j < board.unsolved.len() && board.unsolved[j] == key;
                assert(board.is_unsolved(board.unsolved[j]));
            }
        }
        Ok(Crossword { puzzles, unsolved_puzzles: unsolved })
    }

    /// Takes the board apart: the puzzles on file, and the list of the
    /// unsolved ones.
    pub fn into_parts(self) -> (parts: (PuzzleStore, UnsolvedIndex))
        ensures
            self@.consistent(),
            self@ == (Board { puzzles: parts.0@, unsolved: parts.1@ }),
    {
        proof {
            use_type_invariant(&self);
        }
        let Crossword { puzzles, unsolved_puzzles } = self;
        (puzzles, unsolved_puzzles)
    }

    /// The puzzle filed under `key`, if there is one.
    pub fn puzzle(&self, key: &Vec<u8>) -> (found: Option<&Puzzle>)
        ensures
            self@.consistent(),
            match found {
                Some(puzzle) => self@.puzzles.contains_key(key@) && self@.puzzles[key@] == puzzle@,
                None => !self@.puzzles.contains_key(key@),
            },
    {
        proof {
            use_type_invariant(self);
        }
        self.puzzles.get(key)
    }

    /// Marks the puzzle filed under `answer_pk` as solved by the holder of
    /// `solver_pk`. `answer_pk` is the key that signed the call: whoever
    /// holds it knows the solution.
    ///
    /// On success the caller is to add an access key for `solver_pk` that
    /// may call `claim_reward`, and to delete the key `answer_pk`.
    pub fn submit_solution(&mut self, answer_pk: Vec<u8>, solver_pk: Vec<u8>) -> (reply: Result<
        Vec<Action>,
        Error,
    >)
        ensures
            old(self)@.consistent(),
            final(self)@.consistent(),
            final(self)@ == old(self)@.after(
                Call::SubmitSolution { answer_pk: answer_pk@, solver_pk: solver_pk@ },
            ),
            reply_view(reply) == old(self)@.reply(
                Call::SubmitSolution { answer_pk: answer_pk@, solver_pk: solver_pk@ },
            ),
    {
        proof {
            use_type_invariant(&*self);
            lemma_call_keeps_consistent(
                self@,
                Call::SubmitSolution { answer_pk: answer_pk@, solver_pk: solver_pk@ },
            );
        }
        let solved = match self.puzzles.get(&answer_pk) {
            None => {
                return Err(Error::PuzzleNotFound);
            },
            Some(puzzle) => match &puzzle.status {
                PuzzleStatus::Unsolved => Puzzle {
                    status: PuzzleStatus::Solved { solver_pk: solver_pk.clone() },
                    reward: puzzle.reward,
                    creator: puzzle.creator.clone(),
                    dimensions: puzzle.dimensions,
                    answer: clone_answers(&puzzle.answer),
                },
                _ => {
                    return Err(Error::AlreadySolved);
                },
            },
        };
        let (mut puzzles, mut unsolved_puzzles) = self.take_parts();
        puzzles.insert(answer_pk.clone(), solved);
        unsolved_puzzles.remove(&answer_pk);
        *self = Crossword { puzzles, unsolved_puzzles };
        let actions = vec![
            Action::AddAccessKey {
                public_key: solver_pk,
                allowance: ACCESS_KEY_ALLOWANCE,
                method: Method::ClaimReward,
            },
            Action::DeleteKey { public_key: answer_pk },
        ];
        assert(actions_view(actions@) =~= old(self)@.reply(
            Call::SubmitSolution { answer_pk: answer_pk@, solver_pk: solver_pk@ },
        ).unwrap());
        Ok(actions)
    }

    /// Pays the reward of the puzzle filed under `crossword_pk` to
    /// `receiver_acc_id` and marks the puzzle as claimed, with `memo` as the
    /// claimant's note. `signer_pk` is the key that signed the call, the one
    /// that the solver handed in.
    ///
    /// On success the caller is to pay the reward, as it was deposited when
    /// the puzzle was made, and to delete the key `signer_pk`.
    pub fn claim_reward(
        &mut self,
        signer_pk: Vec<u8>,
        crossword_pk: Vec<u8>,
        receiver_acc_id: String,
        memo: String,
    ) -> (reply: Result<Vec<Action>, Error>)
        ensures
            old(self)@.consistent(),
            final(self)@.consistent(),
            final(self)@ == old(self)@.after(
                Call::ClaimReward {
                    signer_pk: signer_pk@,
                    crossword_pk: crossword_pk@,
                    receiver: receiver_acc_id@,
                    memo: memo@,
                },
            ),
            reply_view(reply) == old(self)@.reply(
                Call::ClaimReward {
                    signer_pk: signer_pk@,
                    crossword_pk: crossword_pk@,
                    receiver: receiver_acc_id@,
                    memo: memo@,
                },
            ),
    {
        let ghost call = Call::ClaimReward {
            signer_pk: signer_pk@,
            crossword_pk: crossword_pk@,
            receiver: receiver_acc_id@,
            memo: memo@,
        };
        proof {
            use_type_invariant(&*self);
            lemma_call_keeps_consistent(self@, call);
        }
        let claimed = match self.puzzles.get(&crossword_pk) {
            None => {
                return Err(Error::PuzzleNotFound);
            },
            Some(puzzle) => match &puzzle.status {
                PuzzleStatus::Solved { .. } => Puzzle {
                    status: PuzzleStatus::Claimed { memo },
                    reward: puzzle.reward,
                    creator: puzzle.creator.clone(),
                    dimensions: puzzle.dimensions,
                    answer: clone_answers(&puzzle.answer),
                },
                _ => {
                    return Err(Error::NotYetSolved);
                },
            },
        };
        let reward: u128 = claimed.reward;
        let (mut puzzles, unsolved_puzzles) = self.take_parts();
        puzzles.insert(crossword_pk, claimed);
        *self = Crossword { puzzles, unsolved_puzzles };
        let actions = vec![
            Action::Transfer { receiver: receiver_acc_id, amount: reward },
            Action::DeleteKey { public_key: signer_pk },
        ];
        assert(actions_view(actions@) =~= old(self)@.reply(call).unwrap());
        Ok(actions)
    }

    /// Files a new, unsolved puzzle under `answer_pk`, the key that its
    /// solution gives. `deposit` is what came with the call and becomes the
    /// reward; `creator` is the account that sent it.
    ///
    /// On success the caller is to add an access key for `answer_pk` that
    /// may call `submit_solution`.
    pub fn new_puzzle(
        &mut self,
        answer_pk: Vec<u8>,
        dimensions: CoordinatePair,
        answers: Vec<Answer>,
        deposit: u128,
        creator: String,
    ) -> (reply: Result<Vec<Action>, Error>)
        ensures
            old(self)@.consistent(),
            final(self)@.consistent(),
            final(self)@ == old(self)@.after(
                Call::NewPuzzle {
                    answer_pk: answer_pk@,
                    dimensions,
                    answers: answers_view(answers@),
                    deposit,
                    creator: creator@,
                },
            ),
            reply_view(reply) == old(self)@.reply(
                Call::NewPuzzle {
                    answer_pk: answer_pk@,
                    dimensions,
                    answers: answers_view(answers@),
                    deposit,
                    creator: creator@,
                },
            ),
    {
        let ghost call = Call::NewPuzzle {
            answer_pk: answer_pk@,
            dimensions,
            answers: answers_view(answers@),
            deposit,
            creator: creator@,
        };
        proof {
            use_type_invariant(&*self);
            lemma_call_keeps_consistent(self@, call);
        }
        if self.puzzles.get(&answer_pk).is_some() {
            return Err(Error::DuplicatePuzzle);
        }
        let puzzle = Puzzle {
            status: PuzzleStatus::Unsolved,
            reward: deposit,
            creator,
            dimensions,
            answer: answers,
        };
        let (mut puzzles, mut unsolved_puzzles) = self.take_parts();
        puzzles.insert(answer_pk.clone(), puzzle);
        unsolved_puzzles.insert(answer_pk.clone());
        *self = Crossword { puzzles, unsolved_puzzles };
        let actions = vec![
            Action::AddAccessKey {
                public_key: answer_pk,
                allowance: ACCESS_KEY_ALLOWANCE,
                method: Method::SubmitSolution,
            },
        ];
        assert(actions_view(actions@) =~= old(self)@.reply(call).unwrap());
        Ok(actions)
    }

    /// Shows the unsolved puzzles, in the order of the list. Fails if the
    /// key of one of them cannot be printed.
    pub fn get_unsolved_puzzles(&self) -> (listing: Result<Vec<JsonPuzzle>, Error>)
        ensures
            self@.consistent(),
            self@.lists(listing_view(listing)),
            listing is Err ==> listing == Err::<Vec<JsonPuzzle>, Error>(Error::UnknownKeyScheme),
    {
        proof {
            use_type_invariant(self);
        }
        let listing = list_puzzles(&self.puzzles, &self.unsolved_puzzles);
        proof {
            if let Err(e) = listing {
                let k = choose|k: int|
                    {
                        &&& 0 <= k < self@.unsolved.len()
                        &&& self@.shown(#[trigger] self@.unsolved[k]) == Err::<JsonPuzzleView, Error>(
                            e,
                        )
                    };
                assert(self@.unsolved.contains(self@.unsolved[k]));
                assert(self@.is_unsolved(self@.unsolved[k]));
            }
        }
        listing
    }
}

} // verus!
