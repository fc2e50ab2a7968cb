//! The board as a mathematical object: what is filed under which key, which
//! keys are listed as unsolved, and what each call does to both.
//!
//! The executable board is specified against this model. What holds of the
//! model whatever calls are made is proved in [`crate::laws`].

use vstd::prelude::*;

use crate::action::{ActionView, Method, ACCESS_KEY_ALLOWANCE};
use crate::error::Error;
use crate::keys::decoded_pk;
use crate::puzzle::{AnswerView, CoordinatePair, JsonPuzzleView, PuzzleView, StatusView};

verus! {

/// A call on the board together with what its caller learned from the
/// ledger: the key that signed, the deposit, the account that sent it.
pub enum Call {
    /// File a new puzzle under `answer_pk`, with `deposit` as its reward.
    NewPuzzle {
        answer_pk: Seq<u8>,
        dimensions: CoordinatePair,
        answers: Seq<AnswerView>,
        deposit: u128,
        creator: Seq<char>,
    },
    /// Signed with the key `answer_pk` of a puzzle: mark it solved and hand
    /// in the solver's own key `solver_pk`.
    SubmitSolution { answer_pk: Seq<u8>, solver_pk: Seq<u8> },
    /// Signed with `signer_pk`: pay the reward of the puzzle filed under
    /// `crossword_pk` to `receiver`.
    ClaimReward {
        signer_pk: Seq<u8>,
        crossword_pk: Seq<u8>,
        receiver: Seq<char>,
        memo: Seq<char>,
    },
}

/// `keys` without `key`: the last key takes the place of the one that
/// leaves, so that nothing else moves.
pub open spec fn without(keys: Seq<Seq<u8>>, key: Seq<u8>) -> Seq<Seq<u8>> {
    if keys.contains(key) {
        keys.update(keys.index_of(key), keys.last()).drop_last()
    } else {
        keys
    }
}

/// How far a puzzle has come: 0 unsolved, 1 solved, 2 claimed.
pub open spec fn stage(status: StatusView) -> nat {
    match status {
        StatusView::Unsolved => 0,
        StatusView::Solved { .. } => 1,
        StatusView::Claimed { .. } => 2,
    }
}

/// The puzzles on file and the list of those that are unsolved.
pub struct Board {
    pub puzzles: Map<Seq<u8>, PuzzleView>,
    pub unsolved: Seq<Seq<u8>>,
}

impl Board {
    /// The board with nothing on file.
    pub open spec fn empty() -> Board {
        Board { puzzles: Map::empty(), unsolved: Seq::empty() }
    }

    /// A puzzle is filed under `key` and nobody has solved it.
    pub open spec fn is_unsolved(self, key: Seq<u8>) -> bool {
        self.puzzles.contains_key(key) && self.puzzles[key].status is Unsolved
    }

    /// The list of unsolved puzzles names each unsolved puzzle once and
    /// nothing else.
    pub open spec fn consistent(self) -> bool {
        &&& self.unsolved.no_duplicates()
        &&& forall|key: Seq<u8>|
            #![trigger self.unsolved.contains(key)]
            #![trigger self.is_unsolved(key)]
            self.unsolved.contains(key) <==> self.is_unsolved(key)
    }

    /// What is shown of the puzzle filed under `key`: the record with the
    /// key in printed form. Nothing can be shown where nothing is filed, or
    /// where the key cannot be printed.
    pub open spec fn shown(self, key: Seq<u8>) -> Result<JsonPuzzleView, Error> {
        if !self.puzzles.contains_key(key) {
            Err(Error::CorruptIndex)
        } else {
            match decoded_pk(key) {
                Ok(text) => Ok(
                    JsonPuzzleView {
                        solution_public_key: text,
                        status: self.puzzles[key].status,
                        reward: self.puzzles[key].reward,
                        creator: self.puzzles[key].creator,
                        dimensions: self.puzzles[key].dimensions,
                        answer: self.puzzles[key].answer,
                    },
                ),
                Err(e) => Err(e),
            }
        }
    }

    /// Whether `listing` is what the list of unsolved puzzles shows: every
    /// listed puzzle in the order of the list, or the error of the first
    /// one that cannot be shown.
    pub open spec fn lists(self, listing: Result<Seq<JsonPuzzleView>, Error>) -> bool {
        match listing {
            Ok(shown) => {
                &&& shown.len() == self.unsolved.len()
                &&& forall|i: int|
                    0 <= i < self.unsolved.len() ==> self.shows(#[trigger] self.unsolved[i], shown[i])
            },
            Err(e) => exists|k: int|
                {
                    &&& 0 <= k < self.unsolved.len()
                    &&& self.shown(#[trigger] self.unsolved[k]) == Err::<JsonPuzzleView, Error>(e)
                    &&& forall|i: int| 0 <= i < k ==> self.shown(#[trigger] self.unsolved[i]) is Ok
                },
        }
    }

    /// `view` is what is shown of the puzzle filed under `key`.
    pub open spec fn shows(self, key: Seq<u8>, view: JsonPuzzleView) -> bool {
        self.shown(key) == Ok::<JsonPuzzleView, Error>(view)
    }

    /// What `call` is answered with: the steps to take on the account, or
    /// why the call is refused.
    pub open spec fn reply(self, call: Call) -> Result<Seq<ActionView>, Error> {
        match call {
            Call::NewPuzzle { answer_pk, .. } => {
                if self.puzzles.contains_key(answer_pk) {
                    Err(Error::DuplicatePuzzle)
                } else {
                    Ok(
                        seq![
                            ActionView::AddAccessKey {
                                public_key: answer_pk,
                                allowance: ACCESS_KEY_ALLOWANCE,
                                method: Method::SubmitSolution,
                            },
                        ],
                    )
                }
            },
            Call::SubmitSolution { answer_pk, solver_pk } => {
                if !self.puzzles.contains_key(answer_pk) {
                    Err(Error::PuzzleNotFound)
                } else if !(self.puzzles[answer_pk].status is Unsolved) {
                    Err(Error::AlreadySolved)
                } else {
                    Ok(
                        seq![
                            ActionView::AddAccessKey {
                                public_key: solver_pk,
                                allowance: ACCESS_KEY_ALLOWANCE,
                                method: Method::ClaimReward,
                            },
                            ActionView::DeleteKey { public_key: answer_pk },
                        ],
                    )
                }
            },
            Call::ClaimReward { signer_pk, crossword_pk, receiver, .. } => {
                if !self.puzzles.contains_key(crossword_pk) {
                    Err(Error::PuzzleNotFound)
                } else if !(self.puzzles[crossword_pk].status is Solved) {
                    Err(Error::NotYetSolved)
                } else {
                    Ok(
                        seq![
                            ActionView::Transfer {
                                receiver,
                                amount: self.puzzles[crossword_pk].reward,
                            },
                            ActionView::DeleteKey { public_key: signer_pk },
                        ],
                    )
                }
            },
        }
    }

    /// The board after `call`. A refused call changes nothing.
    pub open spec fn after(self, call: Call) -> Board {
        if self.reply(call) is Err {
            self
        } else {
            match call {
                Call::NewPuzzle { answer_pk, dimensions, answers, deposit, creator } => Board {
                    puzzles: self.puzzles.insert(
                        answer_pk,
                        PuzzleView {
                            status: StatusView::Unsolved,
                            reward: deposit,
                            creator,
                            dimensions,
                            answer: answers,
                        },
                    ),
                    unsolved: self.unsolved.push(answer_pk),
                },
                Call::SubmitSolution { answer_pk, solver_pk } => Board {
                    puzzles: self.puzzles.insert(
                        answer_pk,
                        PuzzleView {
                            status: StatusView::Solved { solver_pk },
                            ..self.puzzles[answer_pk]
                        },
                    ),
                    unsolved: without(self.unsolved, answer_pk),
                },
                Call::ClaimReward { crossword_pk, memo, .. } => Board {
                    puzzles: self.puzzles.insert(
                        crossword_pk,
                        PuzzleView {
                            status: StatusView::Claimed { memo },
                            ..self.puzzles[crossword_pk]
                        },
                    ),
                    unsolved: self.unsolved,
                },
            }
        }
    }

    /// The board after `calls`, made one after the other.
    pub open spec fn after_all(self, calls: Seq<Call>) -> Board
        decreases calls.len(),
    {
        if calls.len() == 0 {
            self
        } else {
            self.after_all(calls.drop_last()).after(calls.last())
        }
    }
}

/// A new key behind a list without duplicates leaves a list without
/// duplicates that holds what the first held, and that key.
pub proof fn lemma_push_new(keys: Seq<Seq<u8>>, key: Seq<u8>)
    requires
        keys.no_duplicates(),
        !keys.contains(key),
    ensures
        keys.push(key).no_duplicates(),
        forall|other: Seq<u8>| #[trigger]
            keys.push(key).contains(other) <==> keys.contains(other) || other == key,
{
    let more = keys.push(key);
    assert forall|i: int, j: int| 0 <= i < more.len() && 0 <= j < more.len() && i != j implies more[i]
        != more[j] by {
        if i < keys.len() {
            assert(keys.contains(keys[i]));
        }
        if j < keys.len() {
            assert(keys.contains(keys[j]));
        }
    }
    assert forall|other: Seq<u8>| #[trigger]
        more.contains(other) <==> keys.contains(other) || other == key by {
        if more.contains(other) {
            let i = choose|i: int| 0 <= i < more.len() && more[i] == other;
            if i < keys.len() {
                assert(keys[i] == other);
            }
        }
        if keys.contains(other) {
            let i = choose|i: int| 0 <= i < keys.len() && keys[i] == other;
            assert(more[i] == other);
        }
        if other == key {
            assert(more[keys.len() as int] == other);
        }
    }
}

/// Taking a key off a list without duplicates leaves a list without
/// duplicates that holds what the first held, but for that key.
pub proof fn lemma_without(keys: Seq<Seq<u8>>, key: Seq<u8>)
    requires
        keys.no_duplicates(),
    ensures
        without(keys, key).no_duplicates(),
        forall|other: Seq<u8>| #[trigger]
            without(keys, key).contains(other) <==> keys.contains(other) && other != key,
{
    let rest = without(keys, key);
    if keys.contains(key) {
        let at = keys.index_of(key);
        let last = keys.len() - 1;
        assert forall|other: Seq<u8>| #[trigger]
            rest.contains(other) <==> keys.contains(other) && other != key by {
            if rest.contains(other) {
                let i = choose|i: int| 0 <= i < rest.len() && rest[i] == other;
                if i == at {
                    assert(keys[last] == other);
                } else {
                    assert(keys[i] == other);
                }
            }
            if keys.contains(other) && other != key {
                let i = choose|i: int| 0 <= i < keys.len() && keys[i] == other;
                if i == last {
                    assert(rest[at] == other);
                } else {
                    assert(rest[i] == other);
                }
            }
        }
    } else {
        assert forall|other: Seq<u8>| #[trigger]
            rest.contains(other) <==> keys.contains(other) && other != key by {}
    }
}

} // verus!
