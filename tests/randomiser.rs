use tetris::{Bag, Tetromino};

fn sorted(mut v: Vec<u8>) -> Vec<u8> {
    v.sort();
    v
}

#[test]
fn a_fresh_bag_deals_each_kind_once() {
    let mut bag = Bag::new();
    let dealt: Vec<u8> = (0..7).map(|_| u8::from(bag.next())).collect();
    assert_eq!(sorted(dealt), vec![1, 2, 3, 4, 5, 6, 7]);
}

#[test]
fn every_aligned_run_of_seven_is_a_full_set() {
    let mut bag = Bag::new();
    for _ in 0..20 {
        let dealt: Vec<u8> = (0..7).map(|_| u8::from(bag.next())).collect();
        assert_eq!(sorted(dealt), vec![1, 2, 3, 4, 5, 6, 7]);
    }
}

#[test]
fn bags_are_shuffled() {
    let first: Vec<Tetromino> = {
        let mut bag = Bag::new();
        (0..7).map(|_| bag.next()).collect()
    };
    let mut differs = false;
    for _ in 0..30 {
        let mut bag = Bag::new();
        let other: Vec<Tetromino> = (0..7).map(|_| bag.next()).collect();
        if other != first {
            differs = true;
        }
    }
    assert!(differs);
}
