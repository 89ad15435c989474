use scoundrel::cards::deck::{Card, Rank, Suite};
use scoundrel::cards::hand::Hand;

fn card(suite: Suite, rank: Rank) -> Card {
    Card { suite, rank }
}

#[test]
fn hand_holds_at_most_four_cards() {
    let mut hand = Hand::new();
    assert!(hand.add_card(card(Suite::Spade, Rank::Two)));
    assert!(hand.add_card(card(Suite::Club, Rank::Three)));
    assert!(hand.add_card(card(Suite::Heart, Rank::Four)));
    assert!(hand.add_card(card(Suite::Diamond, Rank::Five)));
    assert_eq!(hand.num_cards_remaining(), 4);
    assert!(!hand.add_card(card(Suite::Spade, Rank::Six)));
    assert_eq!(hand.num_cards_remaining(), 4);
    assert_eq!(hand.iter().count(), 4);
}

#[test]
fn removing_a_card_keeps_the_other_slots() {
    let mut hand = Hand::new();
    hand.add_card(card(Suite::Spade, Rank::Two));
    hand.add_card(card(Suite::Club, Rank::Three));
    hand.add_card(card(Suite::Heart, Rank::Four));
    assert_eq!(hand.remove_card(2), Some(card(Suite::Club, Rank::Three)));
    assert_eq!(hand.num_cards_remaining(), 2);
    let slots: Vec<Option<Card>> = hand.iter().copied().collect();
    assert_eq!(
        slots,
        vec![Some(card(Suite::Spade, Rank::Two)), None, Some(card(Suite::Heart, Rank::Four))]
    );
    assert_eq!(hand.remove_card(2), None);
    assert_eq!(hand.num_cards_remaining(), 2);
}

#[test]
fn remove_card_out_of_range_gives_nothing() {
    let mut hand = Hand::new();
    hand.add_card(card(Suite::Spade, Rank::Two));
    assert_eq!(hand.remove_card(0), None);
    assert_eq!(hand.remove_card(2), None);
    assert_eq!(hand.remove_card(5), None);
    assert_eq!(hand.num_cards_remaining(), 1);
}

#[test]
fn add_card_fills_the_first_empty_slot() {
    let mut hand = Hand::new();
    hand.add_card(card(Suite::Spade, Rank::Two));
    hand.add_card(card(Suite::Club, Rank::Three));
    hand.add_card(card(Suite::Heart, Rank::Four));
    hand.remove_card(1);
    hand.remove_card(3);
    assert!(hand.add_card(card(Suite::Diamond, Rank::Nine)));
    let slots: Vec<Option<Card>> = hand.iter().copied().collect();
    assert_eq!(
        slots,
        vec![Some(card(Suite::Diamond, Rank::Nine)), Some(card(Suite::Club, Rank::Three)), None]
    );
}

#[test]
fn hand_text_lists_slots() {
    let mut hand = Hand::new();
    hand.add_card(card(Suite::Spade, Rank::Two));
    hand.add_card(card(Suite::Heart, Rank::Ten));
    hand.remove_card(1);
    assert_eq!(hand.to_text(), "[1]: CARD USED\n[2]: <Heart, Ten>\n");
}
