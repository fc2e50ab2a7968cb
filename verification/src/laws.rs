//! What holds of the board whatever calls are made on it.
//!
//! Each law is proved of the model in [`crate::board`]. The executable board
//! promises that it follows the model step by step, so the laws hold of it.

use vstd::prelude::*;

use crate::action::ActionView;
use crate::board::{lemma_push_new, lemma_without, stage, Board, Call};
use crate::error::Error;
use crate::puzzle::{JsonPuzzleView, StatusView};

verus! {

/// No call breaks the list of unsolved puzzles: if the list named each
/// unsolved puzzle once and nothing else before the call, it does so after
/// it.
pub proof fn lemma_call_keeps_consistent(board: Board, call: Call)
    requires
        board.consistent(),
    ensures
        board.after(call).consistent(),
{
    let next = board.after(call);
    if board.reply(call) is Ok {
        match call {
            Call::NewPuzzle { answer_pk, .. } => {
                assert(!board.is_unsolved(answer_pk));
                lemma_push_new(board.unsolved, answer_pk);
                assert forall|key: Seq<u8>|
                    next.unsolved.contains(key) <==> next.is_unsolved(key) by {
                    if key != answer_pk {
                        assert(board.unsolved.contains(key) <==> board.is_unsolved(key));
                    }
                }
            },
            Call::SubmitSolution { answer_pk, .. } => {
                lemma_without(board.unsolved, answer_pk);
                assert forall|key: Seq<u8>|
                    next.unsolved.contains(key) <==> next.is_unsolved(key) by {
                    if key != answer_pk {
                        assert(board.unsolved.contains(key) <==> board.is_unsolved(key));
                    }
                }
            },
            Call::ClaimReward { crossword_pk, .. } => {
                assert(!board.is_unsolved(crossword_pk));
                assert forall|key: Seq<u8>|
                    next.unsolved.contains(key) <==> next.is_unsolved(key) by {
                    assert(board.unsolved.contains(key) <==> board.is_unsolved(key));
                }
            },
        }
    }
}

/// Nor does any number of calls, made one after the other.
pub proof fn lemma_calls_keep_consistent(board: Board, calls: Seq<Call>)
    requires
        board.consistent(),
    ensures
        board.after_all(calls).consistent(),
    decreases calls.len(),
{
    if calls.len() > 0 {
        lemma_calls_keep_consistent(board, calls.drop_last());
        lemma_call_keeps_consistent(board.after_all(calls.drop_last()), calls.last());
    }
}

/// Whatever calls were made on a board that started empty, its list of
/// unsolved puzzles names each unsolved puzzle once and nothing else.
pub proof fn lemma_reachable_is_consistent(calls: Seq<Call>)
    ensures
        Board::empty().after_all(calls).consistent(),
{
    assert(Board::empty().consistent());
    lemma_calls_keep_consistent(Board::empty(), calls);
}

/// On a consistent board the keys on the list are, as a set, the keys of the
/// unsolved puzzles.
pub proof fn lemma_unsolved_set(board: Board)
    requires
        board.consistent(),
    ensures
        board.unsolved.to_set() == Set::new(|key: Seq<u8>| board.is_unsolved(key)),
{
    assert(board.unsolved.to_set() =~= Set::new(|key: Seq<u8>| board.is_unsolved(key)));
}

/// On a consistent board every puzzle that a listing shows is unsolved.
pub proof fn lemma_listed_are_unsolved(board: Board, shown: Seq<JsonPuzzleView>)
    requires
        board.consistent(),
        board.lists(Ok(shown)),
    ensures
        forall|i: int| 0 <= i < shown.len() ==> (#[trigger] shown[i]).status is Unsolved,
{
    assert forall|i: int| 0 <= i < shown.len() implies (#[trigger] shown[i]).status is Unsolved by {
        assert(board.unsolved.contains(board.unsolved[i]));
        assert(board.is_unsolved(board.unsolved[i]));
        assert(board.shows(board.unsolved[i], shown[i]));
    }
}

/// A call changes the status of at most the puzzle it names, and moves it
/// one stage on: a solution makes an unsolved puzzle solved, a claim makes a
/// solved puzzle claimed. Nothing else happens to a status, and no puzzle
/// leaves the board.
pub proof fn lemma_call_moves_one_stage(board: Board, call: Call, key: Seq<u8>)
    requires
        board.puzzles.contains_key(key),
    ensures
        board.after(call).puzzles.contains_key(key),
        ({
            let before = board.puzzles[key].status;
            let after = board.after(call).puzzles[key].status;
            ||| after == before
            ||| {
                &&& before is Unsolved
                &&& call matches Call::SubmitSolution { answer_pk, solver_pk }
                &&& answer_pk == key
                &&& after == StatusView::Solved { solver_pk }
            }
            ||| {
                &&& before is Solved
                &&& call matches Call::ClaimReward { crossword_pk, memo, .. }
                &&& crossword_pk == key
                &&& after == StatusView::Claimed { memo }
            }
        }),
{
}

/// No status ever goes back: over any number of calls a puzzle stays on the
/// board and its stage does not fall.
pub proof fn lemma_status_never_goes_back(board: Board, calls: Seq<Call>, key: Seq<u8>)
    requires
        board.puzzles.contains_key(key),
    ensures
        board.after_all(calls).puzzles.contains_key(key),
        stage(board.puzzles[key].status) <= stage(board.after_all(calls).puzzles[key].status),
    decreases calls.len(),
{
    if calls.len() > 0 {
        lemma_status_never_goes_back(board, calls.drop_last(), key);
        lemma_call_moves_one_stage(board.after_all(calls.drop_last()), calls.last(), key);
    }
}

/// A solution for a puzzle that is solved or claimed is refused as already
/// solved, and the board stays as it is.
pub proof fn lemma_solution_refused_once_solved(board: Board, answer_pk: Seq<u8>, solver_pk: Seq<u8>)
    requires
        board.puzzles.contains_key(answer_pk),
        !(board.puzzles[answer_pk].status is Unsolved),
    ensures
        board.reply(Call::SubmitSolution { answer_pk, solver_pk }) == Err::<
            Seq<ActionView>,
            Error,
        >(Error::AlreadySolved),
        board.after(Call::SubmitSolution { answer_pk, solver_pk }) == board,
{
}

/// A claim on a puzzle that is unsolved or claimed is refused as not yet
/// solved: nothing is paid, and the board, with the puzzle's status and
/// reward, stays as it is.
pub proof fn lemma_claim_refused_unless_solved(
    board: Board,
    signer_pk: Seq<u8>,
    crossword_pk: Seq<u8>,
    receiver: Seq<char>,
    memo: Seq<char>,
)
    requires
        board.puzzles.contains_key(crossword_pk),
        !(board.puzzles[crossword_pk].status is Solved),
    ensures
        board.reply(Call::ClaimReward { signer_pk, crossword_pk, receiver, memo }) == Err::<
            Seq<ActionView>,
            Error,
        >(Error::NotYetSolved),
        board.after(Call::ClaimReward { signer_pk, crossword_pk, receiver, memo }) == board,
{
}

/// But for its status a puzzle stays as it was filed: no call changes its
/// reward, its creator, its dimensions or its answers.
pub proof fn lemma_calls_keep_record(board: Board, calls: Seq<Call>, key: Seq<u8>)
    requires
        board.puzzles.contains_key(key),
    ensures
        board.after_all(calls).puzzles.contains_key(key),
        board.after_all(calls).puzzles[key].reward == board.puzzles[key].reward,
        board.after_all(calls).puzzles[key].creator == board.puzzles[key].creator,
        board.after_all(calls).puzzles[key].dimensions == board.puzzles[key].dimensions,
        board.after_all(calls).puzzles[key].answer == board.puzzles[key].answer,
    decreases calls.len(),
{
    if calls.len() > 0 {
        lemma_calls_keep_record(board, calls.drop_last(), key);
    }
}

/// A second puzzle under a key that is taken is refused as a duplicate,
/// whatever calls were made since the first, and the board stays as it is.
pub proof fn lemma_second_puzzle_refused(
    board: Board,
    first: Call,
    between: Seq<Call>,
    second: Call,
)
    requires
        first matches Call::NewPuzzle { answer_pk: first_pk, .. } && second matches Call::NewPuzzle {
            answer_pk: second_pk,
            ..
        } && first_pk == second_pk,
    ensures
        board.after(first).after_all(between).reply(second) == Err::<Seq<ActionView>, Error>(
            Error::DuplicatePuzzle,
        ),
        board.after(first).after_all(between).after(second) == board.after(first).after_all(
            between,
        ),
{
    let key = first->NewPuzzle_answer_pk;
    assert(board.after(first).puzzles.contains_key(key));
    lemma_calls_keep_record(board.after(first), between, key);
}

/// A claim that succeeds pays what was deposited when the puzzle was made,
/// whatever calls were made in between, and deletes the key that signed it.
pub proof fn lemma_claim_pays_the_deposit(
    board: Board,
    creation: Call,
    between: Seq<Call>,
    claim: Call,
)
    requires
        board.reply(creation) is Ok,
        board.after(creation).after_all(between).reply(claim) is Ok,
        creation matches Call::NewPuzzle { answer_pk, .. } && claim matches Call::ClaimReward {
            crossword_pk,
            ..
        } && answer_pk == crossword_pk,
    ensures
        board.after(creation).after_all(between).reply(claim) == Ok::<Seq<ActionView>, Error>(
            seq![
                ActionView::Transfer {
                    receiver: claim->ClaimReward_receiver,
                    amount: creation->NewPuzzle_deposit,
                },
                ActionView::DeleteKey { public_key: claim->ClaimReward_signer_pk },
            ],
        ),
{
    let key = creation->NewPuzzle_answer_pk;
    lemma_calls_keep_record(board.after(creation), between, key);
}

} // verus!
