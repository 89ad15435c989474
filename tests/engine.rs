use scoundrel::app::{draw_cards_or_end_game, Action, ActionError, App, CurrentScreen, HAND_SIZE};
use scoundrel::cards::deck::{Card, Rank, Suite};

fn card(suite: Suite, rank: Rank) -> Card {
    Card { suite, rank }
}

fn empty_deck(app: &mut App) {
    while app.deck.take_card(0).is_some() {}
}

/// A game in the card-choosing phase whose hand holds `cards` and whose deck
/// holds `deck`.
fn game_with(cards: &[Card], deck: &[Card]) -> App {
    let mut app = App::default();
    empty_deck(&mut app);
    for c in cards {
        assert!(app.hand.add_card(*c));
    }
    for c in deck {
        app.deck.insert_card(*c);
    }
    app.current_screen = CurrentScreen::ChooseCard;
    app
}

#[test]
fn new_game_starts_at_welcome_with_full_life() {
    let app = App::default();
    assert!(app.current_screen == CurrentScreen::Welcome);
    assert_eq!(app.life, 20);
    assert_eq!(app.deck.len(), 44);
    assert_eq!(app.hand.num_cards_remaining(), 0);
    assert_eq!(app.equipped_weapon, None);
    assert!(app.blocked_creatures.is_empty());
}

#[test]
fn beginning_deals_four_cards() {
    let mut app = App::default();
    assert_eq!(app.begin_game(), Ok(()));
    assert!(app.current_screen == CurrentScreen::BeforeRoom);
    assert_eq!(app.hand.num_cards_remaining(), 4);
    assert_eq!(app.deck.len(), 40);
    assert_eq!(app.begin_game(), Err(ActionError::InvalidChoice));
}

#[test]
fn bare_knuckle_club_ten_from_full_life() {
    let mut app = App::default();
    assert_eq!(app.handle_card(card(Suite::Club, Rank::Ten)), None);
    assert_eq!(app.life, 10);
    assert!(app.blocked_creatures.is_empty());
    assert_eq!(app.in_combat_with_creature, None);
    assert_eq!(app.notifications.last().unwrap(), "You took 10 damage");
}

#[test]
fn weapon_fight_spade_eight_with_diamond_five() {
    let mut app = App::default();
    app.life = 10;
    app.handle_card(card(Suite::Diamond, Rank::Five));
    assert_eq!(app.notifications.last().unwrap(), "You equipped: <Diamond, Five>");
    let next = app.handle_card(card(Suite::Spade, Rank::Eight));
    assert_eq!(next, Some(CurrentScreen::ChooseWeaponOrBareKnuckle));
    assert_eq!(app.in_combat_with_creature, Some(card(Suite::Spade, Rank::Eight)));
    assert_eq!(app.fight_creature_with_weapon(), None);
    assert_eq!(app.life, 7);
    assert_eq!(app.blocked_creatures, vec![card(Suite::Spade, Rank::Eight)]);
    assert_eq!(app.notifications.last().unwrap(), "You took 3 damage");
}

#[test]
fn equal_strength_creature_forces_bare_knuckle() {
    let mut app = App::default();
    app.life = 10;
    app.handle_card(card(Suite::Diamond, Rank::Five));
    app.handle_card(card(Suite::Spade, Rank::Eight));
    app.fight_creature_with_weapon();
    assert_eq!(app.life, 7);
    let next = app.handle_card(card(Suite::Club, Rank::Eight));
    assert_eq!(next, Some(CurrentScreen::Lost));
    assert_eq!(app.life, 0);
    assert_eq!(app.in_combat_with_creature, None);
    assert_eq!(app.blocked_creatures, vec![card(Suite::Spade, Rank::Eight)]);
    assert_eq!(app.notifications.last().unwrap(), "You took 8 damage");
}

#[test]
fn stronger_creature_after_a_block_forces_bare_knuckle() {
    let mut app = App::default();
    app.handle_card(card(Suite::Diamond, Rank::Nine));
    app.handle_card(card(Suite::Spade, Rank::Six));
    app.fight_creature_with_weapon();
    assert_eq!(app.life, 20);
    assert_eq!(app.handle_card(card(Suite::Club, Rank::Seven)), None);
    assert_eq!(app.life, 13);
    assert_eq!(
        app.handle_card(card(Suite::Club, Rank::Five)),
        Some(CurrentScreen::ChooseWeaponOrBareKnuckle)
    );
}

#[test]
fn weaker_creature_after_a_block_may_use_the_weapon() {
    let mut app = App::default();
    app.handle_card(card(Suite::Diamond, Rank::Three));
    app.handle_card(card(Suite::Spade, Rank::Jack));
    app.fight_creature_with_weapon();
    assert_eq!(app.life, 12);
    assert_eq!(
        app.handle_card(card(Suite::Club, Rank::Ten)),
        Some(CurrentScreen::ChooseWeaponOrBareKnuckle)
    );
    assert_eq!(app.fight_creature_bare_knuckle(), None);
    assert_eq!(app.life, 2);
    assert_eq!(app.blocked_creatures, vec![card(Suite::Spade, Rank::Jack)]);
}

#[test]
fn new_weapon_clears_blocked_creatures() {
    let mut app = App::default();
    app.handle_card(card(Suite::Diamond, Rank::Four));
    app.handle_card(card(Suite::Spade, Rank::Six));
    app.fight_creature_with_weapon();
    app.handle_card(card(Suite::Spade, Rank::Five));
    app.fight_creature_with_weapon();
    assert_eq!(app.blocked_creatures.len(), 2);
    app.handle_card(card(Suite::Diamond, Rank::Two));
    assert!(app.blocked_creatures.is_empty());
    assert_eq!(app.equipped_weapon, Some(card(Suite::Diamond, Rank::Two)));
    assert_eq!(
        app.handle_card(card(Suite::Spade, Rank::Ace)),
        Some(CurrentScreen::ChooseWeaponOrBareKnuckle)
    );
}

#[test]
fn potion_heals_up_to_twenty() {
    let mut app = App::default();
    app.life = 18;
    assert_eq!(app.handle_card(card(Suite::Heart, Rank::Five)), None);
    assert_eq!(app.life, 20);
    assert_eq!(app.notifications.last().unwrap(), "You gained 2 life points");
}

#[test]
fn potion_heals_its_full_strength_when_there_is_room() {
    let mut app = App::default();
    app.life = 5;
    app.handle_card(card(Suite::Heart, Rank::Nine));
    assert_eq!(app.life, 14);
    assert_eq!(app.notifications.last().unwrap(), "You gained 9 life points");
}

#[test]
fn life_stays_within_bounds_over_many_cards() {
    let mut app = App::default();
    let cards = [
        card(Suite::Heart, Rank::Ten),
        card(Suite::Club, Rank::Three),
        card(Suite::Heart, Rank::Ten),
        card(Suite::Spade, Rank::Ace),
        card(Suite::Club, Rank::King),
        card(Suite::Heart, Rank::Two),
    ];
    for c in cards {
        app.handle_card(c);
        assert!(app.life <= 20);
    }
    assert_eq!(app.life, 2);
}

#[test]
fn dead_player_scores_minus_monsters_left() {
    let mut app = App::default();
    empty_deck(&mut app);
    app.deck.insert_card(card(Suite::Spade, Rank::King));
    app.deck.insert_card(card(Suite::Heart, Rank::Nine));
    app.deck.insert_card(card(Suite::Club, Rank::Seven));
    app.deck.insert_card(card(Suite::Diamond, Rank::Ten));
    app.life = 0;
    assert_eq!(app.calculate_score(), -20);
}

#[test]
fn dead_player_scores_minus_all_monsters_of_a_fresh_deck() {
    let mut app = App::default();
    app.life = 0;
    assert_eq!(app.calculate_score(), -208);
}

#[test]
fn survivor_with_a_last_potion_scores_its_strength() {
    let mut app = game_with(&[card(Suite::Heart, Rank::Six)], &[]);
    app.life = 12;
    assert_eq!(app.calculate_score(), 18);
}

#[test]
fn survivor_with_a_last_monster_scores_life() {
    let mut app = game_with(&[card(Suite::Club, Rank::Six)], &[]);
    app.life = 12;
    assert_eq!(app.calculate_score(), 12);
}

#[test]
fn survivor_with_several_cards_gets_no_bonus() {
    let mut app = game_with(&[card(Suite::Heart, Rank::Six), card(Suite::Heart, Rank::Two)], &[]);
    app.life = 12;
    assert_eq!(app.calculate_score(), 12);
}

#[test]
fn avoiding_twice_in_a_row_is_refused() {
    let mut app = App::default();
    app.begin_game().unwrap();
    assert_eq!(app.avoid_room(), Ok(()));
    assert!(app.has_avoided_room);
    assert!(app.current_screen == CurrentScreen::BeforeRoom);
    assert_eq!(app.hand.num_cards_remaining(), 4);
    assert_eq!(app.deck.len(), 40);
    assert!(app.enters_room_automatically());
    assert_eq!(app.avoid_room(), Err(ActionError::InvalidChoice));
    assert_eq!(app.deck.len(), 40);
    assert_eq!(app.enter_room(), Ok(()));
    assert!(app.current_screen == CurrentScreen::ChooseCard);
}

#[test]
fn put_back_cards_returns_the_hand_to_the_deck() {
    let mut app = App::default();
    app.begin_game().unwrap();
    app.put_back_cards();
    assert_eq!(app.hand.num_cards_remaining(), 0);
    assert_eq!(app.deck.len(), 44);
}

#[test]
fn play_card_refuses_bad_slots() {
    let mut app = game_with(
        &[card(Suite::Heart, Rank::Two), card(Suite::Club, Rank::Two)],
        &[],
    );
    assert_eq!(app.play_card(0), Err(ActionError::InvalidSlot));
    assert_eq!(app.play_card(5), Err(ActionError::InvalidSlot));
    assert_eq!(app.play_card(3), Err(ActionError::SlotEmpty));
    assert_eq!(app.play_card(1), Ok(()));
    assert_eq!(app.play_card(1), Err(ActionError::InvalidChoice));
}

#[test]
fn play_card_outside_choose_card_is_refused() {
    let mut app = App::default();
    assert_eq!(app.play_card(1), Err(ActionError::InvalidChoice));
    assert_eq!(app.choose_fight_with_weapon(), Err(ActionError::InvalidChoice));
    assert_eq!(app.choose_fight_bare_knuckle(), Err(ActionError::InvalidChoice));
    assert_eq!(app.enter_room(), Err(ActionError::InvalidChoice));
}

#[test]
fn emptied_slot_is_reported() {
    let deck = [
        card(Suite::Spade, Rank::Two),
        card(Suite::Spade, Rank::Three),
        card(Suite::Spade, Rank::Four),
    ];
    let mut app = game_with(
        &[
            card(Suite::Heart, Rank::Two),
            card(Suite::Club, Rank::Two),
            card(Suite::Heart, Rank::Three),
            card(Suite::Club, Rank::Three),
        ],
        &deck,
    );
    assert_eq!(app.play_card(2), Ok(()));
    assert!(app.current_screen == CurrentScreen::ChooseCard);
    assert_eq!(app.play_card(2), Err(ActionError::SlotEmpty));
}

#[test]
fn last_card_of_a_room_deals_the_next() {
    let deck = [
        card(Suite::Spade, Rank::Two),
        card(Suite::Spade, Rank::Three),
        card(Suite::Spade, Rank::Four),
        card(Suite::Spade, Rank::Five),
    ];
    let mut app = game_with(
        &[card(Suite::Heart, Rank::Two), card(Suite::Heart, Rank::Three)],
        &deck,
    );
    app.has_avoided_room = true;
    assert_eq!(app.play_card(1), Ok(()));
    assert!(app.current_screen == CurrentScreen::BeforeRoom);
    assert!(!app.has_avoided_room);
    assert_eq!(app.hand.num_cards_remaining(), 4);
    assert_eq!(app.deck.len(), 1);
}

#[test]
fn empty_deck_at_the_end_of_a_room_wins() {
    let mut app = game_with(
        &[card(Suite::Heart, Rank::Two), card(Suite::Heart, Rank::Three)],
        &[card(Suite::Spade, Rank::Two)],
    );
    assert_eq!(app.play_card(1), Ok(()));
    assert!(app.current_screen == CurrentScreen::Won);
    assert_eq!(app.hand.num_cards_remaining(), 2);
    assert_eq!(app.final_score(), Some(20));
}

#[test]
fn draw_cards_or_end_game_keeps_choosing_with_cards_left() {
    let mut app = game_with(
        &[card(Suite::Heart, Rank::Two), card(Suite::Heart, Rank::Three)],
        &[],
    );
    draw_cards_or_end_game(&mut app);
    assert!(app.current_screen == CurrentScreen::ChooseCard);
    assert_eq!(app.hand.num_cards_remaining(), 2);
}

#[test]
fn draw_cards_reports_a_short_deck() {
    let mut app = game_with(&[], &[card(Suite::Spade, Rank::Two)]);
    assert!(!app.draw_cards(HAND_SIZE));
    assert_eq!(app.hand.num_cards_remaining(), 1);
    let mut full = App::default();
    assert!(full.draw_cards(HAND_SIZE));
}

#[test]
fn choosing_the_weapon_through_the_phases() {
    let deck = [
        card(Suite::Spade, Rank::Two),
        card(Suite::Spade, Rank::Three),
        card(Suite::Spade, Rank::Four),
    ];
    let mut app = game_with(
        &[
            card(Suite::Diamond, Rank::Five),
            card(Suite::Spade, Rank::Eight),
            card(Suite::Club, Rank::Eight),
            card(Suite::Heart, Rank::Two),
        ],
        &deck,
    );
    app.life = 10;
    assert_eq!(app.choose_fight_with_weapon(), Err(ActionError::InvalidChoice));
    assert_eq!(app.perform(Action::PlayCard(1)), Ok(()));
    assert_eq!(app.perform(Action::PlayCard(2)), Ok(()));
    assert!(app.current_screen == CurrentScreen::ChooseWeaponOrBareKnuckle);
    assert_eq!(app.play_card(3), Err(ActionError::InvalidChoice));
    assert_eq!(app.perform(Action::FightWithWeapon), Ok(()));
    assert_eq!(app.life, 7);
    assert!(app.current_screen == CurrentScreen::ChooseCard);
    assert_eq!(app.play_card(3), Ok(()));
    assert!(app.current_screen == CurrentScreen::Lost);
    assert_eq!(app.life, 0);
    assert_eq!(app.final_score(), Some(-9));
}

#[test]
fn weapon_refused_when_not_eligible() {
    let mut app = App::default();
    app.current_screen = CurrentScreen::ChooseWeaponOrBareKnuckle;
    app.in_combat_with_creature = Some(card(Suite::Spade, Rank::Eight));
    assert_eq!(app.choose_fight_with_weapon(), Err(ActionError::NotEligibleForWeapon));
    assert_eq!(app.life, 20);
    assert_eq!(app.choose_fight_bare_knuckle(), Ok(()));
    assert_eq!(app.life, 12);
}

#[test]
fn quitting_leaves_the_game_unscored() {
    let mut app = App::default();
    app.quit();
    assert!(app.current_screen == CurrentScreen::Exiting);
    assert_eq!(app.final_score(), None);
    let mut won = game_with(&[], &[]);
    won.current_screen = CurrentScreen::Won;
    won.quit();
    assert!(won.current_screen == CurrentScreen::Won);
}
