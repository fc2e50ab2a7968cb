use crossword::crossword::list_puzzles;
use crossword::index::UnsolvedIndex;
use crossword::store::PuzzleStore;
use crossword::{
    Answer, AnswerDirection, CoordinatePair, Crossword, Error, JsonPuzzle, Puzzle, PuzzleStatus,
};

fn key_of(tag: u8, fill: u8) -> Vec<u8> {
    let mut key = vec![tag];
    key.extend(std::iter::repeat(fill).take(32));
    key
}

fn plain_puzzle(status: PuzzleStatus, reward: u128) -> Puzzle {
    Puzzle {
        status,
        reward,
        creator: String::from("creator.near"),
        dimensions: CoordinatePair { x: 11, y: 7 },
        answer: vec![Answer {
            num: 2,
            start: CoordinatePair { x: 0, y: 1 },
            direction: AnswerDirection::Down,
            length: 5,
            clue: String::from("opposite of up"),
        }],
    }
}

fn file(board: &mut Crossword, key: &Vec<u8>, reward: u128) {
    board
        .new_puzzle(
            key.clone(),
            CoordinatePair { x: 11, y: 7 },
            vec![],
            reward,
            String::from("creator.near"),
        )
        .unwrap();
}

fn rewards(listed: &[JsonPuzzle]) -> Vec<u128> {
    listed.iter().map(|p| p.reward).collect()
}

#[test]
fn listing_is_in_the_order_of_arrival() {
    let mut board = Crossword::default();
    file(&mut board, &key_of(0, 1), 1);
    file(&mut board, &key_of(0, 2), 2);
    file(&mut board, &key_of(0, 3), 3);
    let listed = board.get_unsolved_puzzles().unwrap();
    assert_eq!(rewards(&listed), vec![1, 2, 3]);
}

#[test]
fn the_last_puzzle_takes_the_place_of_a_solved_one() {
    let mut board = Crossword::default();
    file(&mut board, &key_of(0, 1), 1);
    file(&mut board, &key_of(0, 2), 2);
    file(&mut board, &key_of(0, 3), 3);
    file(&mut board, &key_of(0, 4), 4);
    board.submit_solution(key_of(0, 1), key_of(0, 9)).unwrap();
    assert_eq!(rewards(&board.get_unsolved_puzzles().unwrap()), vec![4, 2, 3]);
    board.submit_solution(key_of(0, 3), key_of(0, 9)).unwrap();
    assert_eq!(rewards(&board.get_unsolved_puzzles().unwrap()), vec![4, 2]);
    board.submit_solution(key_of(0, 2), key_of(0, 9)).unwrap();
    assert_eq!(rewards(&board.get_unsolved_puzzles().unwrap()), vec![4]);
    board.submit_solution(key_of(0, 4), key_of(0, 9)).unwrap();
    assert_eq!(rewards(&board.get_unsolved_puzzles().unwrap()), Vec::<u128>::new());
}

#[test]
fn listing_names_exactly_the_unsolved_puzzles() {
    let keys: Vec<Vec<u8>> = (1..=6).map(|i| key_of(0, i)).collect();
    let mut board = Crossword::default();
    for (i, k) in keys.iter().enumerate() {
        file(&mut board, k, i as u128);
    }
    board.submit_solution(keys[1].clone(), key_of(1, 1)).unwrap();
    board.submit_solution(keys[4].clone(), key_of(1, 2)).unwrap();
    board
        .claim_reward(key_of(1, 1), keys[1].clone(), String::from("a.near"), String::new())
        .unwrap();
    // Refused calls leave the list alone.
    assert!(board.submit_solution(keys[1].clone(), key_of(1, 3)).is_err());
    assert!(board
        .claim_reward(key_of(1, 3), keys[0].clone(), String::from("a.near"), String::new())
        .is_err());

    let listed = board.get_unsolved_puzzles().unwrap();
    let mut listed_rewards = rewards(&listed);
    listed_rewards.sort();
    assert_eq!(listed_rewards, vec![0, 2, 3, 5]);
    for (i, k) in keys.iter().enumerate() {
        let unsolved = board.puzzle(k).unwrap().status == PuzzleStatus::Unsolved;
        assert_eq!(unsolved, listed_rewards.contains(&(i as u128)));
    }
    for shown in &listed {
        assert_eq!(shown.status, PuzzleStatus::Unsolved);
    }
}

#[test]
fn listing_shows_the_whole_record() {
    let mut board = Crossword::default();
    let k = vec![1, 0x04, 0x30, 0x5e, 0x2b, 0x24, 0x73, 0xf0, 0x58];
    let answers = plain_puzzle(PuzzleStatus::Unsolved, 0).answer;
    board
        .new_puzzle(
            k,
            CoordinatePair { x: 11, y: 7 },
            answers.clone(),
            123,
            String::from("creator.near"),
        )
        .unwrap();
    assert_eq!(
        board.get_unsolved_puzzles(),
        Ok(vec![JsonPuzzle {
            solution_public_key: String::from("scheme1:he11owor1d"),
            status: PuzzleStatus::Unsolved,
            reward: 123,
            creator: String::from("creator.near"),
            dimensions: CoordinatePair { x: 11, y: 7 },
            answer: answers,
        }])
    );
}

#[test]
fn listing_fails_on_a_key_of_an_unknown_scheme() {
    let mut board = Crossword::default();
    file(&mut board, &key_of(0, 1), 1);
    file(&mut board, &key_of(2, 2), 2);
    assert_eq!(board.get_unsolved_puzzles(), Err(Error::UnknownKeyScheme));
    // Once that puzzle is solved it is not listed, and the rest can be shown.
    board.submit_solution(key_of(2, 2), key_of(0, 9)).unwrap();
    assert_eq!(rewards(&board.get_unsolved_puzzles().unwrap()), vec![1]);
}

#[test]
fn listing_fails_on_an_empty_key() {
    let mut board = Crossword::default();
    file(&mut board, &vec![], 1);
    assert_eq!(board.get_unsolved_puzzles(), Err(Error::UnknownKeyScheme));
}

#[test]
fn list_puzzles_fails_on_a_listed_key_that_is_not_filed() {
    let mut store = PuzzleStore::new();
    store.insert(key_of(0, 1), plain_puzzle(PuzzleStatus::Unsolved, 1));
    let mut index = UnsolvedIndex::new();
    index.insert(key_of(0, 1));
    index.insert(key_of(0, 2));
    assert_eq!(list_puzzles(&store, &index), Err(Error::CorruptIndex));
}

#[test]
fn list_puzzles_reports_the_first_failure() {
    let mut store = PuzzleStore::new();
    store.insert(key_of(7, 1), plain_puzzle(PuzzleStatus::Unsolved, 1));
    let mut index = UnsolvedIndex::new();
    index.insert(key_of(7, 1));
    index.insert(key_of(0, 2));
    assert_eq!(list_puzzles(&store, &index), Err(Error::UnknownKeyScheme));

    let mut index = UnsolvedIndex::new();
    index.insert(key_of(0, 2));
    index.insert(key_of(7, 1));
    assert_eq!(list_puzzles(&store, &index), Err(Error::CorruptIndex));
}

#[test]
fn list_puzzles_looks_a_key_up_before_it_prints_it() {
    let store = PuzzleStore::new();
    let mut index = UnsolvedIndex::new();
    index.insert(key_of(9, 9));
    assert_eq!(list_puzzles(&store, &index), Err(Error::CorruptIndex));
}

#[test]
fn list_puzzles_shows_what_is_listed_whatever_its_status() {
    let mut store = PuzzleStore::new();
    store.insert(
        key_of(0, 0),
        plain_puzzle(PuzzleStatus::Claimed { memo: String::from("paid") }, 5),
    );
    let mut index = UnsolvedIndex::new();
    index.insert(key_of(0, 0));
    let listed = list_puzzles(&store, &index).unwrap();
    assert_eq!(listed.len(), 1);
    assert_eq!(
        listed[0].solution_public_key,
        "scheme0:11111111111111111111111111111111"
    );
    assert_eq!(listed[0].status, PuzzleStatus::Claimed { memo: String::from("paid") });
}

#[test]
fn from_parts_takes_a_matching_list() {
    let mut store = PuzzleStore::new();
    store.insert(key_of(0, 1), plain_puzzle(PuzzleStatus::Unsolved, 1));
    store.insert(
        key_of(0, 2),
        plain_puzzle(PuzzleStatus::Solved { solver_pk: key_of(0, 9) }, 2),
    );
    store.insert(key_of(0, 3), plain_puzzle(PuzzleStatus::Unsolved, 3));
    let mut index = UnsolvedIndex::new();
    index.insert(key_of(0, 3));
    index.insert(key_of(0, 1));
    let mut board = Crossword::from_parts(store, index).ok().unwrap();
    assert_eq!(rewards(&board.get_unsolved_puzzles().unwrap()), vec![3, 1]);
    let reply = board
        .claim_reward(key_of(0, 9), key_of(0, 2), String::from("a.near"), String::new())
        .unwrap();
    assert_eq!(reply.len(), 2);
}

#[test]
fn from_parts_refuses_a_list_that_names_a_solved_puzzle() {
    let mut store = PuzzleStore::new();
    store.insert(
        key_of(0, 2),
        plain_puzzle(PuzzleStatus::Solved { solver_pk: key_of(0, 9) }, 2),
    );
    let mut index = UnsolvedIndex::new();
    index.insert(key_of(0, 2));
    assert_eq!(Crossword::from_parts(store, index).err(), Some(Error::CorruptIndex));
}

#[test]
fn from_parts_refuses_a_list_that_names_a_missing_puzzle() {
    let store = PuzzleStore::new();
    let mut index = UnsolvedIndex::new();
    index.insert(key_of(0, 2));
    assert_eq!(Crossword::from_parts(store, index).err(), Some(Error::CorruptIndex));
}

#[test]
fn from_parts_refuses_a_list_that_misses_an_unsolved_puzzle() {
    let mut store = PuzzleStore::new();
    store.insert(key_of(0, 1), plain_puzzle(PuzzleStatus::Unsolved, 1));
    store.insert(key_of(0, 2), plain_puzzle(PuzzleStatus::Unsolved, 2));
    let mut index = UnsolvedIndex::new();
    index.insert(key_of(0, 2));
    assert_eq!(Crossword::from_parts(store, index).err(), Some(Error::CorruptIndex));
}

#[test]
fn into_parts_and_back() {
    let mut board = Crossword::default();
    file(&mut board, &key_of(0, 1), 1);
    file(&mut board, &key_of(0, 2), 2);
    file(&mut board, &key_of(0, 3), 3);
    board.submit_solution(key_of(0, 1), key_of(0, 9)).unwrap();
    let (store, index) = board.into_parts();
    assert_eq!(index.to_vec(), vec![key_of(0, 3), key_of(0, 2)]);
    let mut filed = store.keys();
    filed.sort();
    assert_eq!(filed, vec![key_of(0, 1), key_of(0, 2), key_of(0, 3)]);
    let board = Crossword::from_parts(store, index).ok().unwrap();
    assert_eq!(rewards(&board.get_unsolved_puzzles().unwrap()), vec![3, 2]);
    assert_eq!(
        board.puzzle(&key_of(0, 1)).unwrap().status,
        PuzzleStatus::Solved { solver_pk: key_of(0, 9) }
    );
}
