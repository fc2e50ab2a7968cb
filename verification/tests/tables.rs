use crossword::index::UnsolvedIndex;
use crossword::keys::same_key;
use crossword::puzzle::clone_answers;
use crossword::store::PuzzleStore;
use crossword::{Answer, AnswerDirection, CoordinatePair, Puzzle, PuzzleStatus};

fn puzzle_worth(reward: u128) -> Puzzle {
    Puzzle {
        status: PuzzleStatus::Unsolved,
        reward,
        creator: String::from("c.near"),
        dimensions: CoordinatePair { x: 2, y: 3 },
        answer: vec![],
    }
}

#[test]
fn same_key_compares_bytes() {
    assert!(same_key(&vec![], &vec![]));
    assert!(same_key(&vec![1, 2, 3], &vec![1, 2, 3]));
    assert!(!same_key(&vec![1, 2, 3], &vec![1, 2]));
    assert!(!same_key(&vec![1, 2], &vec![1, 2, 3]));
    assert!(!same_key(&vec![1, 2, 3], &vec![1, 2, 4]));
    assert!(!same_key(&vec![0, 2, 3], &vec![1, 2, 3]));
}

#[test]
fn store_starts_empty() {
    let store = PuzzleStore::new();
    assert!(store.get(&vec![1]).is_none());
    assert!(store.keys().is_empty());
}

#[test]
fn store_gets_what_was_inserted() {
    let mut store = PuzzleStore::new();
    assert_eq!(store.insert(vec![1], puzzle_worth(10)), None);
    assert_eq!(store.insert(vec![2], puzzle_worth(20)), None);
    assert_eq!(store.get(&vec![1]), Some(&puzzle_worth(10)));
    assert_eq!(store.get(&vec![2]), Some(&puzzle_worth(20)));
    assert_eq!(store.get(&vec![3]), None);
    assert_eq!(store.get(&vec![]), None);
}

#[test]
fn store_insert_overwrites_and_returns_what_was_there() {
    let mut store = PuzzleStore::new();
    store.insert(vec![1], puzzle_worth(10));
    store.insert(vec![2], puzzle_worth(20));
    store.insert(vec![3], puzzle_worth(30));
    assert_eq!(store.insert(vec![2], puzzle_worth(21)), Some(puzzle_worth(20)));
    assert_eq!(store.get(&vec![1]), Some(&puzzle_worth(10)));
    assert_eq!(store.get(&vec![2]), Some(&puzzle_worth(21)));
    assert_eq!(store.get(&vec![3]), Some(&puzzle_worth(30)));
    assert_eq!(store.keys().len(), 3);
    assert_eq!(store.insert(vec![1], puzzle_worth(11)), Some(puzzle_worth(10)));
    assert_eq!(store.insert(vec![3], puzzle_worth(31)), Some(puzzle_worth(30)));
    assert_eq!(store.get(&vec![1]), Some(&puzzle_worth(11)));
    assert_eq!(store.get(&vec![3]), Some(&puzzle_worth(31)));
    assert_eq!(store.keys().len(), 3);
}

#[test]
fn store_keeps_the_empty_key_apart() {
    let mut store = PuzzleStore::new();
    store.insert(vec![], puzzle_worth(1));
    store.insert(vec![0], puzzle_worth(2));
    assert_eq!(store.get(&vec![]), Some(&puzzle_worth(1)));
    assert_eq!(store.get(&vec![0]), Some(&puzzle_worth(2)));
}

#[test]
fn store_keys_names_each_key_once() {
    let mut store = PuzzleStore::new();
    store.insert(vec![3], puzzle_worth(1));
    store.insert(vec![1], puzzle_worth(1));
    store.insert(vec![3], puzzle_worth(2));
    store.insert(vec![2], puzzle_worth(1));
    let mut keys = store.keys();
    keys.sort();
    assert_eq!(keys, vec![vec![1], vec![2], vec![3]]);
}

#[test]
fn index_insert_adds_a_key_once() {
    let mut index = UnsolvedIndex::new();
    assert!(index.to_vec().is_empty());
    assert!(index.insert(vec![1]));
    assert!(index.insert(vec![2]));
    assert!(!index.insert(vec![1]));
    assert_eq!(index.to_vec(), vec![vec![1], vec![2]]);
    assert!(index.contains(&vec![1]));
    assert!(index.contains(&vec![2]));
    assert!(!index.contains(&vec![3]));
}

#[test]
fn index_remove_puts_the_last_key_in_the_gap() {
    let mut index = UnsolvedIndex::new();
    for k in 1..=5u8 {
        index.insert(vec![k]);
    }
    assert!(index.remove(&vec![2]));
    assert_eq!(index.to_vec(), vec![vec![1], vec![5], vec![3], vec![4]]);
    assert!(index.remove(&vec![4]));
    assert_eq!(index.to_vec(), vec![vec![1], vec![5], vec![3]]);
    assert!(index.remove(&vec![1]));
    assert_eq!(index.to_vec(), vec![vec![3], vec![5]]);
    assert!(!index.contains(&vec![1]));
}

#[test]
fn index_remove_of_a_missing_key_changes_nothing() {
    let mut index = UnsolvedIndex::new();
    assert!(!index.remove(&vec![1]));
    index.insert(vec![1]);
    index.insert(vec![2]);
    assert!(!index.remove(&vec![3]));
    assert_eq!(index.to_vec(), vec![vec![1], vec![2]]);
}

#[test]
fn index_remove_of_the_only_key_empties_the_list() {
    let mut index = UnsolvedIndex::new();
    index.insert(vec![7]);
    assert!(index.remove(&vec![7]));
    assert!(index.to_vec().is_empty());
    assert!(index.insert(vec![7]));
    assert_eq!(index.to_vec(), vec![vec![7]]);
}

#[test]
fn clones_are_equal() {
    let answers = vec![
        Answer {
            num: 1,
            start: CoordinatePair { x: 1, y: 2 },
            direction: AnswerDirection::Across,
            length: 4,
            clue: String::from("first"),
        },
        Answer {
            num: 2,
            start: CoordinatePair { x: 3, y: 4 },
            direction: AnswerDirection::Down,
            length: 6,
            clue: String::from("second"),
        },
    ];
    assert_eq!(clone_answers(&answers), answers);
    assert_eq!(clone_answers(&vec![]), vec![]);
    assert_eq!(answers[1].clone(), answers[1]);

    for status in [
        PuzzleStatus::Unsolved,
        PuzzleStatus::Solved { solver_pk: vec![0, 1, 2] },
        PuzzleStatus::Claimed { memo: String::from("note") },
    ] {
        assert_eq!(status.clone(), status);
        let puzzle = Puzzle {
            status,
            reward: 99,
            creator: String::from("c.near"),
            dimensions: CoordinatePair { x: 9, y: 8 },
            answer: clone_answers(&answers),
        };
        assert_eq!(puzzle.clone(), puzzle);
    }
}
