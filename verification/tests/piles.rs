use chinchon::piles::{extract_particular_item, particular_item};

#[test]
fn particular_item_reads_without_taking() {
    let mut pile: Vec<u8> = vec![7, 3, 9];
    assert_eq!(particular_item(&mut pile, 1), Some(3));
    assert_eq!(pile, vec![7, 3, 9]);
}

#[test]
fn particular_item_past_the_end_is_none() {
    let mut pile: Vec<u8> = vec![7, 3, 9];
    assert_eq!(particular_item(&mut pile, 3), None);
    let mut empty: Vec<u8> = Vec::new();
    assert_eq!(particular_item(&mut empty, 0), None);
}

#[test]
fn extract_particular_item_takes_the_card_out() {
    let mut pile: Vec<u8> = vec![7, 3, 9];
    assert_eq!(extract_particular_item(&mut pile, 1), Some(3));
    assert_eq!(pile, vec![7, 9]);
    assert_eq!(extract_particular_item(&mut pile, 0), Some(7));
    assert_eq!(pile, vec![9]);
}

#[test]
fn extract_particular_item_past_the_end_leaves_the_pile() {
    let mut pile: Vec<u8> = vec![7, 3, 9];
    assert_eq!(extract_particular_item(&mut pile, 5), None);
    assert_eq!(pile, vec![7, 3, 9]);
}

#[test]
fn extract_keeps_every_card() {
    let mut pile: Vec<u8> = vec![4, 4, 1, 8];
    let taken = extract_particular_item(&mut pile, 0).unwrap();
    let mut all = pile.clone();
    all.push(taken);
    all.sort();
    assert_eq!(all, vec![1, 4, 4, 8]);
}
