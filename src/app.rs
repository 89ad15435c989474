//! The game: life, weapon and blocked creatures, the phases of a turn, and
//! the score.

use crate::cards::deck::{Card, Deck, MAX_DECK_SIZE, Suite, Value, card_text};
use crate::cards::hand::{Hand, held_cards, held_count};
use crate::text::{decimal, push_decimal};
use vstd::multiset::Multiset;
use vstd::prelude::*;
use vstd::string::StringExecFns;

pub use crate::cards::hand::HAND_SIZE;

verus! {

/// Life at the start, and the most the player can have.
pub const MAX_LIFE: u8 = 20;

/// The phase of the game, which decides what the player may do next.
#[derive(Clone, Copy, PartialEq, Eq, Structural, Debug)]
pub enum CurrentScreen {
    Welcome,
    Menu,
    Exiting,
    BeforeRoom,
    ChooseCard,
    ChooseWeaponOrBareKnuckle,
    ExitingRound,
    Won,
    Lost,
}

/// Why an action of the player was refused. A refused action changes nothing.
#[derive(Clone, Copy, PartialEq, Eq, Structural, Debug)]
pub enum ActionError {
    /// There is no slot of that number.
    InvalidSlot,
    /// The slot's card was already played.
    SlotEmpty,
    /// The action is not one that the current phase allows.
    InvalidChoice,
    /// No weapon is equipped, or it may not be used against this creature.
    NotEligibleForWeapon,
}

/// "You gained <n> life points".
pub open spec fn gained_text(n: nat) -> Seq<char> {
    "You gained "@ + decimal(n) + " life points"@
}

/// "You took <n> damage".
pub open spec fn damage_text(n: nat) -> Seq<char> {
    "You took "@ + decimal(n) + " damage"@
}

/// "You equipped: <card>".
pub open spec fn equipped_text(c: Card) -> Seq<char> {
    "You equipped: "@ + card_text(c)
}

/// `after` is `before` with one more message, whose text is `text`.
pub open spec fn pushed_note(before: Seq<String>, after: Seq<String>, text: Seq<char>) -> bool {
    &&& after.len() == before.len() + 1
    &&& after.drop_last() == before
    &&& after.last()@ == text
}

/// Life left after taking `damage`; it never goes below zero.
pub open spec fn life_after_damage(life: nat, damage: nat) -> nat {
    if life > damage {
        (life - damage) as nat
    } else {
        0
    }
}

/// Life after drinking a potion of strength `gain`; it never goes above
/// `MAX_LIFE`.
pub open spec fn life_after_potion(life: nat, gain: nat) -> nat {
    if life + gain > MAX_LIFE {
        MAX_LIFE as nat
    } else {
        life + gain
    }
}

/// Whether the equipped weapon may be used against `creature`: a weapon is
/// equipped, and it has blocked nothing yet or the creature is strictly
/// weaker than the last creature it blocked.
pub open spec fn weapon_usable(weapon: Option<Card>, blocked: Seq<Card>, creature: Card) -> bool {
    &&& weapon is Some
    &&& (blocked.len() == 0 || creature.strength() < blocked.last().strength())
}

/// Damage taken when fighting `creature` with `weapon`: what the creature's
/// strength exceeds the weapon's by.
pub open spec fn weapon_damage(weapon: Card, creature: Card) -> nat {
    if creature.strength() > weapon.strength() {
        (creature.strength() - weapon.strength()) as nat
    } else {
        0
    }
}

/// Total strength of the monsters among `cards`.
pub open spec fn monster_total(cards: Seq<Card>) -> nat
    decreases cards.len(),
{
    if cards.len() == 0 {
        0
    } else {
        monster_total(cards.drop_last()) + if cards.last().is_monster() {
            cards.last().strength()
        } else {
            0
        }
    }
}

/// Strength of the first potion among the slots, or zero when there is none.
pub open spec fn first_potion_strength(slots: Seq<Option<Card>>) -> nat
    decreases slots.len(),
{
    if slots.len() == 0 {
        0
    } else if slots[0] matches Some(c) && c.is_potion() {
        slots[0]->Some_0.strength()
    } else {
        first_potion_strength(slots.drop_first())
    }
}

/// The cards that the slots hold, in slot order.
pub open spec fn held_in_order(slots: Seq<Option<Card>>) -> Seq<Card>
    decreases slots.len(),
{
    if slots.len() == 0 {
        Seq::empty()
    } else {
        match slots.last() {
            Some(c) => held_in_order(slots.drop_last()).push(c),
            None => held_in_order(slots.drop_last()),
        }
    }
}

proof fn lemma_monster_total_bound(cards: Seq<Card>)
    ensures
        monster_total(cards) <= 14 * cards.len(),
    decreases cards.len(),
{
    if cards.len() > 0 {
        lemma_monster_total_bound(cards.drop_last());
    }
}

proof fn lemma_held_in_order(slots: Seq<Option<Card>>)
    ensures
        held_in_order(slots).len() == held_count(slots),
        held_in_order(slots).to_multiset() == held_cards(slots),
    decreases slots.len(),
{
    broadcast use vstd::seq_lib::group_to_multiset_ensures;
    broadcast use vstd::multiset::group_multiset_axioms;

    if slots.len() > 0 {
        lemma_held_in_order(slots.drop_last());
        let rest = held_in_order(slots.drop_last());
        if let Some(c) = slots.last() {
            assert(rest.push(c).to_multiset() =~= held_cards(slots.drop_last()).add(
                Multiset::singleton(c),
            ));
        } else {
            assert(held_cards(slots) =~= held_cards(slots.drop_last()));
        }
    }
}

/// The whole state of a game.
pub struct App {
    pub current_screen: CurrentScreen,
    pub deck: Deck,
    pub hand: Hand,
    pub life: u8,
    pub has_avoided_room: bool,
    /// Only ever a diamond.
    pub equipped_weapon: Option<Card>,
    /// The creatures that the equipped weapon has blocked, the last on top.
    /// Only ever monsters.
    pub blocked_creatures: Vec<Card>,
    /// The monster being fought while the player chooses between the weapon
    /// and bare knuckles.
    pub in_combat_with_creature: Option<Card>,
    /// Messages for the player, the newest last.
    pub notifications: Vec<String>,
}

impl App {
    /// The state's invariant.
    pub open spec fn wf(&self) -> bool {
        &&& self.hand.wf()
        &&& self.life <= MAX_LIFE
        &&& (self.equipped_weapon matches Some(w) ==> w.is_weapon())
        &&& (forall|i: int|
            0 <= i < self.blocked_creatures@.len() ==> (#[trigger] self.blocked_creatures@[i]).is_monster())
        &&& (self.in_combat_with_creature matches Some(c) ==> c.is_monster())
        &&& self.deck@.len() + self.hand.remaining() <= MAX_DECK_SIZE
    }

    /// `self` and `other` agree on everything but the deck and the hand.
    pub open spec fn same_but_cards(&self, other: &App) -> bool {
        &&& self.current_screen == other.current_screen
        &&& self.life == other.life
        &&& self.has_avoided_room == other.has_avoided_room
        &&& self.equipped_weapon == other.equipped_weapon
        &&& self.blocked_creatures@ == other.blocked_creatures@
        &&& self.in_combat_with_creature == other.in_combat_with_creature
        &&& self.notifications@ == other.notifications@
    }

    /// `self` and `other` agree on the deck and the hand.
    pub open spec fn same_cards(&self, other: &App) -> bool {
        &&& self.deck@ == other.deck@
        &&& self.hand@ == other.hand@
        &&& self.hand.wf() == other.hand.wf()
    }

    /// `after` comes from `before` by drawing from the deck into the hand
    /// until the hand holds `hand_size` cards or the deck is empty: the cards
    /// already in the hand keep their slots, and no card is lost or doubled.
    pub open spec fn drew_cards(before: &App, after: &App, hand_size: nat) -> bool {
        let k = if before.hand.remaining() + before.deck@.len() >= hand_size {
            hand_size - before.hand.remaining()
        } else {
            before.deck@.len() as int
        };
        &&& after.hand.remaining() == before.hand.remaining() + k
        &&& after.deck@.len() == before.deck@.len() - k
        &&& after.deck@.to_multiset().add(after.hand.held()) == before.deck@.to_multiset().add(
            before.hand.held(),
        )
        &&& after.hand@.len() >= before.hand@.len()
        &&& forall|j: int|
            0 <= j < before.hand@.len() && (#[trigger] before.hand@[j]) is Some ==> after.hand@[j]
                == before.hand@[j]
    }

    pub open spec fn score(&self) -> int {
        if self.life > 0 {
            self.life + if self.hand.remaining() == 1 {
                first_potion_strength(self.hand@)
            } else {
                0
            }
        } else {
            -monster_total(self.deck@)
        }
    }


    /// `self` and `other` agree on everything but the phase.
    pub open spec fn same_but_screen(&self, other: &App) -> bool {
        &&& self.same_cards(other)
        &&& self.life == other.life
        &&& self.has_avoided_room == other.has_avoided_room
        &&& self.equipped_weapon == other.equipped_weapon
        &&& self.blocked_creatures@ == other.blocked_creatures@
        &&& self.in_combat_with_creature == other.in_combat_with_creature
        &&& self.notifications@ == other.notifications@
    }

    /// `after` is `before`, nothing changed.
    pub open spec fn unchanged(before: App, after: App) -> bool {
        &&& after.same_but_screen(&before)
        &&& after.current_screen == before.current_screen
    }

    /// `after` comes from `before` by putting every card of the hand back
    /// into the deck, in slot order, leaving all slots empty.
    pub open spec fn put_back(before: App, after: App) -> bool {
        &&& after.same_but_cards(&before)
        &&& after.hand.wf()
        &&& after.deck@ == before.deck@ + held_in_order(before.hand@)
        &&& after.hand@.len() == before.hand@.len()
        &&& forall|j: int| 0 <= j < after.hand@.len() ==> #[trigger] after.hand@[j] is None
        &&& after.hand.remaining() == 0
        &&& after.deck@.to_multiset() == before.deck@.to_multiset().add(before.hand.held())
    }

    /// `after` and the returned `next` phase come from `before` by playing
    /// `card` (see `handle_card`).
    pub open spec fn resolved(before: App, after: App, card: Card, next: Option<CurrentScreen>) -> bool {
        &&& after.same_cards(&before)
        &&& after.current_screen == before.current_screen
        &&& after.has_avoided_room == before.has_avoided_room
        &&& card.is_potion() ==> {
            &&& next is None
            &&& after.life == life_after_potion(before.life as nat, card.strength())
            &&& pushed_note(
                before.notifications@,
                after.notifications@,
                gained_text((after.life - before.life) as nat),
            )
            &&& after.equipped_weapon == before.equipped_weapon
            &&& after.blocked_creatures@ == before.blocked_creatures@
            &&& after.in_combat_with_creature == before.in_combat_with_creature
        }
        &&& card.is_weapon() ==> {
            &&& next is None
            &&& after.equipped_weapon == Some(card)
            &&& after.blocked_creatures@.len() == 0
            &&& pushed_note(before.notifications@, after.notifications@, equipped_text(card))
            &&& after.life == before.life
            &&& after.in_combat_with_creature == before.in_combat_with_creature
        }
        &&& card.is_monster() ==> {
            &&& after.equipped_weapon == before.equipped_weapon
            &&& after.blocked_creatures@ == before.blocked_creatures@
        }
        &&& card.is_monster() && weapon_usable(
            before.equipped_weapon,
            before.blocked_creatures@,
            card,
        ) ==> {
            &&& next == Some(CurrentScreen::ChooseWeaponOrBareKnuckle)
            &&& after.in_combat_with_creature == Some(card)
            &&& after.life == before.life
            &&& after.notifications@ == before.notifications@
        }
        &&& card.is_monster() && !weapon_usable(
            before.equipped_weapon,
            before.blocked_creatures@,
            card,
        ) ==> {
            &&& after.in_combat_with_creature is None
            &&& after.life == life_after_damage(before.life as nat, card.strength())
            &&& pushed_note(
                before.notifications@,
                after.notifications@,
                damage_text(card.strength()),
            )
            &&& next == if after.life == 0 {
                Some(CurrentScreen::Lost)
            } else {
                None
            }
        }
    }

    /// `after` and `next` come from `before` by fighting the pending creature
    /// with the weapon (see `fight_creature_with_weapon`).
    pub open spec fn fought_with_weapon(before: App, after: App, next: Option<CurrentScreen>) -> bool {
        let creature = before.in_combat_with_creature->Some_0;
        let damage = weapon_damage(before.equipped_weapon->Some_0, creature);
        &&& after.same_cards(&before)
        &&& after.current_screen == before.current_screen
        &&& after.has_avoided_room == before.has_avoided_room
        &&& after.equipped_weapon == before.equipped_weapon
        &&& after.in_combat_with_creature is None
        &&& after.life == life_after_damage(before.life as nat, damage)
        &&& after.blocked_creatures@ == before.blocked_creatures@.push(creature)
        &&& pushed_note(before.notifications@, after.notifications@, damage_text(damage))
        &&& next == if after.life == 0 {
            Some(CurrentScreen::Lost)
        } else {
            None
        }
    }

    /// `after` and `next` come from `before` by fighting the pending creature
    /// bare-knuckle (see `fight_creature_bare_knuckle`).
    pub open spec fn fought_bare_knuckle(before: App, after: App, next: Option<CurrentScreen>) -> bool {
        let creature = before.in_combat_with_creature->Some_0;
        &&& after.same_cards(&before)
        &&& after.current_screen == before.current_screen
        &&& after.has_avoided_room == before.has_avoided_room
        &&& after.equipped_weapon == before.equipped_weapon
        &&& after.blocked_creatures@ == before.blocked_creatures@
        &&& after.in_combat_with_creature is None
        &&& after.life == life_after_damage(before.life as nat, creature.strength())
        &&& pushed_note(before.notifications@, after.notifications@, damage_text(creature.strength()))
        &&& next == if after.life == 0 {
            Some(CurrentScreen::Lost)
        } else {
            None
        }
    }

    /// `after` comes from `before` once a card has been dealt with and no
    /// special phase is due: with one card left in the hand, the hand is
    /// refilled and the next room begins, or the game is won when the deck
    /// could not fill it; otherwise the player goes on choosing cards.
    pub open spec fn room_checked(before: App, after: App) -> bool {
        &&& after.life == before.life
        &&& after.equipped_weapon == before.equipped_weapon
        &&& after.blocked_creatures@ == before.blocked_creatures@
        &&& after.in_combat_with_creature == before.in_combat_with_creature
        &&& after.notifications@ == before.notifications@
        &&& if before.hand.remaining() == 1 {
            &&& App::drew_cards(&before, &after, HAND_SIZE as nat)
            &&& after.hand.wf()
            &&& !after.has_avoided_room
            &&& after.current_screen == if before.hand.remaining() + before.deck@.len()
                >= HAND_SIZE {
                CurrentScreen::BeforeRoom
            } else {
                CurrentScreen::Won
            }
        } else {
            &&& after.same_cards(&before)
            &&& after.has_avoided_room == before.has_avoided_room
            &&& after.current_screen == CurrentScreen::ChooseCard
        }
    }

    /// `after` comes from `before` once a card or a fight has been resolved:
    /// the phase that the resolution asked for, or else the room check.
    pub open spec fn after_resolution(before: App, after: App, next: Option<CurrentScreen>) -> bool {
        match next {
            Some(s) => after.same_but_screen(&before) && after.current_screen == s,
            None => App::room_checked(before, after),
        }
    }

    /// Outcome of `begin_game`.
    pub open spec fn began(before: App, after: App, r: Result<(), ActionError>) -> bool {
        if before.current_screen == CurrentScreen::Welcome {
            &&& r is Ok
            &&& App::drew_cards(&before, &after, HAND_SIZE as nat)
            &&& after.hand.wf()
            &&& after.same_but_cards(&App { current_screen: CurrentScreen::BeforeRoom, ..before })
        } else {
            r == Err::<(), ActionError>(ActionError::InvalidChoice) && App::unchanged(before, after)
        }
    }

    /// Outcome of `enter_room`.
    pub open spec fn entered(before: App, after: App, r: Result<(), ActionError>) -> bool {
        if before.current_screen == CurrentScreen::BeforeRoom {
            &&& r is Ok
            &&& after.same_but_screen(&before)
            &&& after.current_screen == CurrentScreen::ChooseCard
        } else {
            r == Err::<(), ActionError>(ActionError::InvalidChoice) && App::unchanged(before, after)
        }
    }

    /// Outcome of `avoid_room`: refused when a room was just avoided.
    pub open spec fn avoided(before: App, after: App, r: Result<(), ActionError>) -> bool {
        if before.current_screen == CurrentScreen::BeforeRoom && !before.has_avoided_room {
            &&& r is Ok
            &&& exists|mid: App|
                App::put_back(before, mid) && #[trigger] App::drew_cards(
                    &mid,
                    &after,
                    HAND_SIZE as nat,
                )
            &&& after.hand.wf()
            &&& after.has_avoided_room
            &&& after.current_screen == CurrentScreen::BeforeRoom
            &&& after.life == before.life
            &&& after.equipped_weapon == before.equipped_weapon
            &&& after.blocked_creatures@ == before.blocked_creatures@
            &&& after.in_combat_with_creature == before.in_combat_with_creature
            &&& after.notifications@ == before.notifications@
        } else {
            r == Err::<(), ActionError>(ActionError::InvalidChoice) && App::unchanged(before, after)
        }
    }

    /// Outcome of `play_card`.
    pub open spec fn played(before: App, after: App, card_num: usize, r: Result<(), ActionError>) -> bool {
        if before.current_screen != CurrentScreen::ChooseCard {
            r == Err::<(), ActionError>(ActionError::InvalidChoice) && App::unchanged(before, after)
        } else if !(1 <= card_num <= HAND_SIZE) {
            r == Err::<(), ActionError>(ActionError::InvalidSlot) && App::unchanged(before, after)
        } else if card_num > before.hand@.len() || before.hand@[card_num - 1] is None {
            r == Err::<(), ActionError>(ActionError::SlotEmpty) && App::unchanged(before, after)
        } else {
            &&& r is Ok
            &&& exists|taken: App, resolved: App, next: Option<CurrentScreen>|
                {
                    &&& taken.same_but_cards(&before)
                    &&& taken.deck@ == before.deck@
                    &&& taken.hand.wf()
                    &&& taken.hand@ == before.hand@.update(card_num - 1, None)
                    &&& taken.hand.remaining() == before.hand.remaining() - 1
                    &&& #[trigger] App::resolved(
                        taken,
                        resolved,
                        before.hand@[card_num - 1]->Some_0,
                        next,
                    )
                    &&& App::after_resolution(resolved, after, next)
                }
        }
    }

    /// Outcome of `choose_fight_with_weapon`.
    pub open spec fn chose_weapon(before: App, after: App, r: Result<(), ActionError>) -> bool {
        if before.current_screen != CurrentScreen::ChooseWeaponOrBareKnuckle
            || before.in_combat_with_creature is None {
            r == Err::<(), ActionError>(ActionError::InvalidChoice) && App::unchanged(before, after)
        } else if !weapon_usable(
            before.equipped_weapon,
            before.blocked_creatures@,
            before.in_combat_with_creature->Some_0,
        ) {
            r == Err::<(), ActionError>(ActionError::NotEligibleForWeapon) && App::unchanged(
                before,
                after,
            )
        } else {
            &&& r is Ok
            &&& exists|mid: App, next: Option<CurrentScreen>|
                #[trigger] App::fought_with_weapon(before, mid, next) && App::after_resolution(
                    mid,
                    after,
                    next,
                )
        }
    }

    /// Outcome of `choose_fight_bare_knuckle`.
    pub open spec fn chose_bare_knuckle(before: App, after: App, r: Result<(), ActionError>) -> bool {
        if before.current_screen != CurrentScreen::ChooseWeaponOrBareKnuckle
            || before.in_combat_with_creature is None {
            r == Err::<(), ActionError>(ActionError::InvalidChoice) && App::unchanged(before, after)
        } else {
            &&& r is Ok
            &&& exists|mid: App, next: Option<CurrentScreen>|
                #[trigger] App::fought_bare_knuckle(before, mid, next) && App::after_resolution(
                    mid,
                    after,
                    next,
                )
        }
    }

    /// A new game at the welcome screen: full life, a fresh deck, an empty
    /// hand and no weapon.
    pub fn new() -> (r: App)
        ensures
            r.wf(),
            r.current_screen == CurrentScreen::Welcome,
            r.life == MAX_LIFE,
            !r.has_avoided_room,
            r.equipped_weapon is None,
            r.blocked_creatures@.len() == 0,
            r.in_combat_with_creature is None,
            r.notifications@.len() == 0,
            r.hand@.len() == 0,
            r.deck@.len() == MAX_DECK_SIZE,
            r.deck@.no_duplicates(),
            forall|c: Card| #[trigger] r.deck@.contains(c) <==> c.in_game_deck(),
    {
        let hand = Hand::new();
        proof {
            hand.lemma_wf();
        }
        App {
            current_screen: CurrentScreen::Welcome,
            deck: Deck::default(),
            hand,
            life: MAX_LIFE,
            has_avoided_room: false,
            equipped_weapon: None,
            blocked_creatures: Vec::new(),
            in_combat_with_creature: None,
            notifications: Vec::new(),
        }
    }

    /// Draws from the deck until the hand holds `hand_size` cards or the deck
    /// runs out. Returns whether the hand got to `hand_size` cards.
    pub fn draw_cards(&mut self, hand_size: usize) -> (r: bool)
        requires
            old(self).wf(),
            old(self).hand.remaining() <= hand_size <= HAND_SIZE,
        ensures
            final(self).wf(),
            final(self).same_but_cards(old(self)),
            App::drew_cards(old(self), final(self), hand_size as nat),
            r == (old(self).hand.remaining() + old(self).deck@.len() >= hand_size),
            r == (final(self).hand.remaining() == hand_size),
    {
        broadcast use vstd::seq_lib::group_to_multiset_ensures;
        broadcast use vstd::multiset::group_multiset_axioms;

        let number_of_cards_to_draw = hand_size - self.hand.num_cards_remaining();
        let mut n: usize = 0;
        while n < number_of_cards_to_draw
            invariant
                self.wf(),
                self.same_but_cards(old(self)),
                old(self).wf(),
                number_of_cards_to_draw == hand_size - old(self).hand.remaining(),
                hand_size <= HAND_SIZE,
                n <= number_of_cards_to_draw,
                self.hand.remaining() == old(self).hand.remaining() + if n <= old(self).deck@.len() {
                    n as int
                } else {
                    old(self).deck@.len() as int
                },
                self.deck@.len() == old(self).deck@.len() - if n <= old(self).deck@.len() {
                    n as int
                } else {
                    old(self).deck@.len() as int
                },
                self.deck@.to_multiset().add(self.hand.held()) == old(self).deck@.to_multiset().add(
                    old(self).hand.held(),
                ),
                self.hand@.len() >= old(self).hand@.len(),
                forall|j: int|
                    0 <= j < old(self).hand@.len() && (#[trigger] old(self).hand@[j]) is Some
                        ==> self.hand@[j] == old(self).hand@[j],
            decreases number_of_cards_to_draw - n,
        {
            let ghost deck_before = self.deck@;
            let ghost hand_before = self.hand@;
            if let Some(card) = self.deck.draw_card() {
                let added = self.hand.add_card(card);
                proof {
                    let i = choose|i: int|
                        0 <= i < deck_before.len() && deck_before[i] == card && self.deck@
                            == deck_before.remove(i);
                    assert(deck_before[i] == card);
                    deck_before.to_multiset_ensures();
                    assert(deck_before.contains(card));
                    assert(deck_before.to_multiset().count(card) > 0);
                    assert(deck_before.remove(i).to_multiset() == deck_before.to_multiset().remove(
                        card,
                    ));
                    assert(self.deck@.to_multiset().add(self.hand.held()) =~= old(
                        self,
                    ).deck@.to_multiset().add(old(self).hand.held()));
                    assert forall|j: int|
                        0 <= j < old(self).hand@.len() && (#[trigger] old(self).hand@[j]) is Some
                            implies self.hand@[j] == old(self).hand@[j] by {
                        assert(hand_before[j] is Some);
                    }
                }
            }
            n += 1;
        }
        self.hand.num_cards_remaining() == hand_size
    }

    /// Empties one slot: returns the card of slot number `card_idx` (counted
    /// from 1), or nothing when there is no card there.
    pub fn select_card(&mut self, card_idx: usize) -> (r: Option<Card>)
        requires
            old(self).wf(),
        ensures
            final(self).same_but_cards(old(self)),
            final(self).deck@ == old(self).deck@,
            final(self).hand.wf(),
            1 <= card_idx <= old(self).hand@.len() ==> r == old(self).hand@[card_idx - 1]
                && final(self).hand@ == old(self).hand@.update(card_idx - 1, None),
            !(1 <= card_idx <= old(self).hand@.len()) ==> r is None && final(self).hand@ == old(
                self,
            ).hand@,
            final(self).hand.remaining() == old(self).hand.remaining() - if r is Some {
                1int
            } else {
                0int
            },
            final(self).wf(),
            r matches Some(c) ==> old(self).hand.held().count(c) > 0,
    {
        broadcast use vstd::multiset::group_multiset_axioms;

        let r = self.hand.remove_card(card_idx);
        proof {
            if let Some(c) = r {
                assert(self.hand.held().add(Multiset::singleton(c)).count(c) > 0);
            }
        }
        r
    }

    /// Puts every card of the hand back into the deck, in slot order, and
    /// leaves all slots empty.
    pub fn put_back_cards(&mut self)
        requires
            old(self).wf(),
        ensures
            final(self).wf(),
            App::put_back(*old(self), *final(self)),
    {
        broadcast use vstd::seq_lib::group_to_multiset_ensures;
        broadcast use vstd::multiset::group_multiset_axioms;

        proof {
            old(self).hand.lemma_wf();
        }
        let ghost slots = old(self).hand@;
        let mut idx: usize = 0;
        while idx < HAND_SIZE
            invariant
                old(self).wf(),
                slots == old(self).hand@,
                slots.len() <= HAND_SIZE,
                idx <= HAND_SIZE,
                self.hand.wf(),
                self.same_but_cards(old(self)),
                self.hand@.len() == slots.len(),
                forall|j: int| 0 <= j < idx && j < slots.len() ==> #[trigger] self.hand@[j] is None,
                forall|j: int| idx <= j < slots.len() ==> #[trigger] self.hand@[j] == slots[j],
                self.deck@ == old(self).deck@ + held_in_order(
                    slots.take(if idx <= slots.len() { idx as int } else { slots.len() as int }),
                ),
            decreases HAND_SIZE - idx,
        {
            let card_num = idx + 1;
            let ghost deck_before = self.deck@;
            if let Some(card) = self.hand.remove_card(card_num) {
                self.deck.insert_card(card);
            }
            proof {
                if idx < slots.len() {
                    assert(slots.take(idx + 1).drop_last() =~= slots.take(idx as int));
                    assert(slots.take(idx + 1).last() == slots[idx as int]);
                    assert(self.deck@ =~= old(self).deck@ + held_in_order(slots.take(idx + 1)));
                }
            }
            idx += 1;
        }
        proof {
            assert(slots.take(slots.len() as int) =~= slots);
            lemma_held_in_order(slots);
            lemma_held_count_zero(self.hand@);
            assert(self.deck@.to_multiset() =~= old(self).deck@.to_multiset().add(
                held_in_order(slots).to_multiset(),
            )) by {
                vstd::seq_lib::lemma_multiset_commutative(old(self).deck@, held_in_order(slots));
            }
        }
    }

    /// Leaves the welcome screen: the first room is dealt.
    pub fn begin_game(&mut self) -> (r: Result<(), ActionError>)
        requires
            old(self).wf(),
        ensures
            final(self).wf(),
            App::began(*old(self), *final(self), r),
    {
        if self.current_screen != CurrentScreen::Welcome {
            return Err(ActionError::InvalidChoice);
        }
        proof {
            self.hand.lemma_wf();
        }
        self.current_screen = CurrentScreen::BeforeRoom;
        self.draw_cards(HAND_SIZE);
        Ok(())
    }

    /// Enters the room that is dealt.
    pub fn enter_room(&mut self) -> (r: Result<(), ActionError>)
        requires
            old(self).wf(),
        ensures
            final(self).wf(),
            App::entered(*old(self), *final(self), r),
    {
        if self.current_screen != CurrentScreen::BeforeRoom {
            return Err(ActionError::InvalidChoice);
        }
        self.current_screen = CurrentScreen::ChooseCard;
        Ok(())
    }

    /// Avoids the room that is dealt: its cards go back into the deck and a
    /// new room is dealt, which must then be entered. Refused right after
    /// another avoided room.
    pub fn avoid_room(&mut self) -> (r: Result<(), ActionError>)
        requires
            old(self).wf(),
        ensures
            final(self).wf(),
            App::avoided(*old(self), *final(self), r),
    {
        if self.current_screen != CurrentScreen::BeforeRoom || self.has_avoided_room {
            return Err(ActionError::InvalidChoice);
        }
        self.put_back_cards();
        let ghost mid = *self;
        proof {
            self.hand.lemma_wf();
        }
        self.draw_cards(HAND_SIZE);
        self.has_avoided_room = true;
        proof {
            assert(App::put_back(*old(self), mid));
            assert(App::drew_cards(&mid, self, HAND_SIZE as nat));
        }
        Ok(())
    }

    /// Whether the room that is dealt is entered without asking: right after
    /// an avoided room, the next one cannot be avoided.
    pub fn enters_room_automatically(&self) -> (r: bool)
        ensures
            r == (self.current_screen == CurrentScreen::BeforeRoom && self.has_avoided_room),
    {
        self.current_screen == CurrentScreen::BeforeRoom && self.has_avoided_room
    }

    /// Plays the card of slot number `card_num` (counted from 1): the card is
    /// resolved, then either the phase it asks for follows, or the room is
    /// checked for its end.
    pub fn play_card(&mut self, card_num: usize) -> (r: Result<(), ActionError>)
        requires
            old(self).wf(),
        ensures
            final(self).wf(),
            App::played(*old(self), *final(self), card_num, r),
    {
        if self.current_screen != CurrentScreen::ChooseCard {
            return Err(ActionError::InvalidChoice);
        }
        if card_num < 1 || card_num > HAND_SIZE {
            return Err(ActionError::InvalidSlot);
        }
        match self.select_card(card_num) {
            None => {
                proof {
                    if card_num <= old(self).hand@.len() {
                        assert(old(self).hand@.update(card_num - 1, None) =~= old(self).hand@);
                    }
                }
                Err(ActionError::SlotEmpty)
            },
            Some(card) => {
                let ghost taken = *self;
                let next = self.handle_card(card);
                let ghost resolved = *self;
                match next {
                    Some(screen) => {
                        self.current_screen = screen;
                    },
                    None => {
                        draw_cards_or_end_game(self);
                    },
                }
                proof {
                    assert(taken.hand@ == old(self).hand@.update(card_num - 1, None));
                    assert(taken.hand.remaining() == old(self).hand.remaining() - 1);
                    assert(App::resolved(taken, resolved, old(self).hand@[card_num - 1]->Some_0, next));
                    assert(App::after_resolution(resolved, *self, next));
                }
                Ok(())
            },
        }
    }

    /// Answers the pending fight with the weapon.
    pub fn choose_fight_with_weapon(&mut self) -> (r: Result<(), ActionError>)
        requires
            old(self).wf(),
        ensures
            final(self).wf(),
            App::chose_weapon(*old(self), *final(self), r),
    {
        if self.current_screen != CurrentScreen::ChooseWeaponOrBareKnuckle {
            return Err(ActionError::InvalidChoice);
        }
        let creature = match self.in_combat_with_creature {
            Some(c) => c,
            None => {
                return Err(ActionError::InvalidChoice);
            },
        };
        let usable = match self.equipped_weapon {
            Some(_) => match self.blocked_creatures.last() {
                None => true,
                Some(last_blocked_creature) => creature.rank.get_value()
                    < last_blocked_creature.rank.get_value(),
            },
            None => false,
        };
        if !usable {
            return Err(ActionError::NotEligibleForWeapon);
        }
        let next = self.fight_creature_with_weapon();
        let ghost mid = *self;
        self.resume(next);
        proof {
            assert(App::fought_with_weapon(*old(self), mid, next));
        }
        Ok(())
    }

    /// Answers the pending fight bare-knuckle.
    pub fn choose_fight_bare_knuckle(&mut self) -> (r: Result<(), ActionError>)
        requires
            old(self).wf(),
        ensures
            final(self).wf(),
            App::chose_bare_knuckle(*old(self), *final(self), r),
    {
        if self.current_screen != CurrentScreen::ChooseWeaponOrBareKnuckle
            || self.in_combat_with_creature.is_none() {
            return Err(ActionError::InvalidChoice);
        }
        let next = self.fight_creature_bare_knuckle();
        let ghost mid = *self;
        self.resume(next);
        proof {
            assert(App::fought_bare_knuckle(*old(self), mid, next));
        }
        Ok(())
    }

    /// Goes on after a resolution: to the phase it asked for, or to the room
    /// check.
    fn resume(&mut self, next: Option<CurrentScreen>)
        requires
            old(self).wf(),
        ensures
            final(self).wf(),
            App::after_resolution(*old(self), *final(self), next),
    {
        match next {
            Some(screen) => {
                self.current_screen = screen;
            },
            None => {
                draw_cards_or_end_game(self);
            },
        }
    }

    /// Leaves the game. A game already won or lost stays as it ended.
    pub fn quit(&mut self)
        requires
            old(self).wf(),
        ensures
            final(self).wf(),
            final(self).same_but_screen(old(self)),
            final(self).current_screen == match old(self).current_screen {
                CurrentScreen::Won => CurrentScreen::Won,
                CurrentScreen::Lost => CurrentScreen::Lost,
                _ => CurrentScreen::Exiting,
            },
    {
        match self.current_screen {
            CurrentScreen::Won | CurrentScreen::Lost => {},
            _ => {
                self.current_screen = CurrentScreen::Exiting;
            },
        }
    }

    /// Carries out an action of the player.
    pub fn perform(&mut self, action: Action) -> (r: Result<(), ActionError>)
        requires
            old(self).wf(),
        ensures
            final(self).wf(),
            match action {
                Action::BeginGame => App::began(*old(self), *final(self), r),
                Action::EnterRoom => App::entered(*old(self), *final(self), r),
                Action::AvoidRoom => App::avoided(*old(self), *final(self), r),
                Action::PlayCard(n) => App::played(*old(self), *final(self), n as usize, r),
                Action::FightWithWeapon => App::chose_weapon(*old(self), *final(self), r),
                Action::FightBareKnuckle => App::chose_bare_knuckle(*old(self), *final(self), r),
                Action::Quit => {
                    &&& r is Ok
                    &&& final(self).same_but_screen(old(self))
                    &&& final(self).current_screen == match old(self).current_screen {
                        CurrentScreen::Won => CurrentScreen::Won,
                        CurrentScreen::Lost => CurrentScreen::Lost,
                        _ => CurrentScreen::Exiting,
                    }
                },
            },
    {
        match action {
            Action::BeginGame => self.begin_game(),
            Action::EnterRoom => self.enter_room(),
            Action::AvoidRoom => self.avoid_room(),
            Action::PlayCard(n) => self.play_card(n as usize),
            Action::FightWithWeapon => self.choose_fight_with_weapon(),
            Action::FightBareKnuckle => self.choose_fight_bare_knuckle(),
            Action::Quit => {
                self.quit();
                Ok(())
            },
        }
    }

    /// The outcome of a finished game: its score when it was won or lost,
    /// nothing when the player left or the game is still going.
    pub fn final_score(&self) -> (r: Option<i32>)
        requires
            self.wf(),
        ensures
            (self.current_screen == CurrentScreen::Won || self.current_screen == CurrentScreen::Lost)
                ==> r == Some(self.score() as i32),
            !(self.current_screen == CurrentScreen::Won || self.current_screen
                == CurrentScreen::Lost) ==> r is None,
    {
        match self.current_screen {
            CurrentScreen::Won | CurrentScreen::Lost => Some(self.calculate_score()),
            _ => None,
        }
    }

    /// Drinks a potion: life goes up by its strength, but not above
    /// `MAX_LIFE`.
    fn add_to_life(&mut self, card: Card)
        requires
            old(self).wf(),
            card.is_potion(),
        ensures
            final(self).wf(),
            final(self).same_cards(old(self)),
            final(self).life == life_after_potion(old(self).life as nat, card.strength()),
            pushed_note(
                old(self).notifications@,
                final(self).notifications@,
                gained_text((final(self).life - old(self).life) as nat),
            ),
            final(self).current_screen == old(self).current_screen,
            final(self).has_avoided_room == old(self).has_avoided_room,
            final(self).equipped_weapon == old(self).equipped_weapon,
            final(self).blocked_creatures@ == old(self).blocked_creatures@,
            final(self).in_combat_with_creature == old(self).in_combat_with_creature,
    {
        let life_points_given_by_card = card.rank.get_value() as u8;
        let life_points_addable = MAX_LIFE - self.life;
        let life_points_to_add = if life_points_given_by_card < life_points_addable {
            life_points_given_by_card
        } else {
            life_points_addable
        };
        self.life = self.life + life_points_to_add;
        let mut note = String::from_str("You gained ");
        push_decimal(&mut note, life_points_to_add as u64);
        note.append(" life points");
        self.add_notification(note);
    }

    /// Equips a weapon. The new weapon has blocked nothing yet.
    fn equip_weapon(&mut self, card: Card)
        requires
            old(self).wf(),
            card.is_weapon(),
        ensures
            final(self).wf(),
            final(self).same_cards(old(self)),
            final(self).equipped_weapon == Some(card),
            final(self).blocked_creatures@.len() == 0,
            pushed_note(old(self).notifications@, final(self).notifications@, equipped_text(card)),
            final(self).current_screen == old(self).current_screen,
            final(self).has_avoided_room == old(self).has_avoided_room,
            final(self).life == old(self).life,
            final(self).in_combat_with_creature == old(self).in_combat_with_creature,
    {
        self.equipped_weapon = Some(card);
        self.blocked_creatures.clear();
        let mut note = String::from_str("You equipped: ");
        let text = card.to_text();
        note.append(text.as_str());
        self.add_notification(note);
    }

    /// Meets a monster: with a usable weapon the player is asked how to
    /// fight, otherwise the fight is bare-knuckle at once.
    fn fight_creature(&mut self, card: Card) -> (r: Option<CurrentScreen>)
        requires
            old(self).wf(),
            card.is_monster(),
        ensures
            final(self).wf(),
            final(self).same_cards(old(self)),
            final(self).current_screen == old(self).current_screen,
            final(self).has_avoided_room == old(self).has_avoided_room,
            final(self).equipped_weapon == old(self).equipped_weapon,
            final(self).blocked_creatures@ == old(self).blocked_creatures@,
            weapon_usable(old(self).equipped_weapon, old(self).blocked_creatures@, card) ==> {
                &&& r == Some(CurrentScreen::ChooseWeaponOrBareKnuckle)
                &&& final(self).in_combat_with_creature == Some(card)
                &&& final(self).life == old(self).life
                &&& final(self).notifications@ == old(self).notifications@
            },
            !weapon_usable(old(self).equipped_weapon, old(self).blocked_creatures@, card) ==> {
                &&& final(self).in_combat_with_creature is None
                &&& final(self).life == life_after_damage(old(self).life as nat, card.strength())
                &&& pushed_note(
                    old(self).notifications@,
                    final(self).notifications@,
                    damage_text(card.strength()),
                )
                &&& r == if final(self).life == 0 {
                    Some(CurrentScreen::Lost)
                } else {
                    None
                }
            },
    {
        let usable = match self.equipped_weapon {
            Some(_) => match self.blocked_creatures.last() {
                None => true,
                Some(last_blocked_creature) => card.rank.get_value()
                    < last_blocked_creature.rank.get_value(),
            },
            None => false,
        };
        self.in_combat_with_creature = Some(card);
        if usable {
            Some(CurrentScreen::ChooseWeaponOrBareKnuckle)
        } else {
            self.fight_creature_bare_knuckle()
        }
    }

    /// Plays a card taken from the hand, by its suit: a heart heals, a
    /// diamond is equipped, a spade or club is fought. Returns the phase that
    /// comes next when it is not the usual one: `ChooseWeaponOrBareKnuckle`
    /// when the player must choose how to fight, `Lost` when life ran out.
    pub fn handle_card(&mut self, card: Card) -> (r: Option<CurrentScreen>)
        requires
            old(self).wf(),
        ensures
            final(self).wf(),
            App::resolved(*old(self), *final(self), card, r),
    {
        match card.suite {
            Suite::Heart => {
                self.add_to_life(card);
                None
            },
            Suite::Diamond => {
                self.equip_weapon(card);
                None
            },
            Suite::Spade | Suite::Club => self.fight_creature(card),
        }
    }

    /// Fights the pending creature with the equipped weapon: the player takes
    /// what the creature's strength exceeds the weapon's by, and the weapon
    /// records the creature as blocked.
    pub fn fight_creature_with_weapon(&mut self) -> (r: Option<CurrentScreen>)
        requires
            old(self).wf(),
            old(self).in_combat_with_creature is Some,
            old(self).equipped_weapon is Some,
        ensures
            final(self).wf(),
            App::fought_with_weapon(*old(self), *final(self), r),
    {
        let weapon = self.equipped_weapon.unwrap();
        let weapon_strength = weapon.rank.get_value();
        let creature = self.in_combat_with_creature.unwrap();
        self.in_combat_with_creature = None;
        let creature_strength = creature.rank.get_value();
        let damage_to_take = if creature_strength > weapon_strength {
            creature_strength - weapon_strength
        } else {
            0
        };
        self.take_damage(damage_to_take as u8);
        self.blocked_creatures.push(creature);
        if self.life == 0 {
            Some(CurrentScreen::Lost)
        } else {
            None
        }
    }

    /// Fights the pending creature without the weapon: the player takes the
    /// creature's full strength, and the weapon is left as it was.
    pub fn fight_creature_bare_knuckle(&mut self) -> (r: Option<CurrentScreen>)
        requires
            old(self).wf(),
            old(self).in_combat_with_creature is Some,
        ensures
            final(self).wf(),
            App::fought_bare_knuckle(*old(self), *final(self), r),
    {
        let creature = self.in_combat_with_creature.unwrap();
        self.in_combat_with_creature = None;
        let damage_to_take = creature.rank.get_value() as u8;
        self.take_damage(damage_to_take);
        if self.life == 0 {
            Some(CurrentScreen::Lost)
        } else {
            None
        }
    }

    /// Loses `damage` life points, down to zero at most, and tells the player.
    fn take_damage(&mut self, damage: u8)
        requires
            old(self).wf(),
        ensures
            final(self).wf(),
            final(self).same_cards(old(self)),
            final(self).life == life_after_damage(old(self).life as nat, damage as nat),
            pushed_note(old(self).notifications@, final(self).notifications@, damage_text(damage as nat)),
            final(self).current_screen == old(self).current_screen,
            final(self).has_avoided_room == old(self).has_avoided_room,
            final(self).equipped_weapon == old(self).equipped_weapon,
            final(self).blocked_creatures@ == old(self).blocked_creatures@,
            final(self).in_combat_with_creature == old(self).in_combat_with_creature,
    {
        self.life = if self.life > damage {
            self.life - damage
        } else {
            0
        };
        let mut note = String::from_str("You took ");
        push_decimal(&mut note, damage as u64);
        note.append(" damage");
        self.add_notification(note);
    }

    /// The score at the end of a game. A survivor scores their life, plus the
    /// strength of a potion when it is the one card left in the hand; a dead
    /// player scores minus the total strength of the monsters still in the
    /// deck.
    pub fn calculate_score(&self) -> (r: i32)
        requires
            self.wf(),
        ensures
            r == self.score(),
    {
        if self.life > 0 {
            let mut bonus: usize = 0;
            if self.hand.num_cards_remaining() == 1 {
                bonus = self.first_potion_in_hand();
            }
            self.life as i32 + bonus as i32
        } else {
            proof {
                lemma_monster_total_bound(self.deck@);
            }
            let mut total: i32 = 0;
            let mut i: usize = 0;
            let n = self.deck.len();
            for card in it: self.deck.iter()
                invariant
                    n == self.deck@.len(),
                    n <= MAX_DECK_SIZE,
                    it.seq().unref() == self.deck@,
                    total == monster_total(self.deck@.take(it.index() as int)),
                    monster_total(self.deck@) <= 14 * self.deck@.len(),
            {
                proof {
                    let k = it.index() as int;
                    assert(self.deck@.take(k + 1).drop_last() =~= self.deck@.take(k));
                    lemma_monster_total_bound(self.deck@.take(k + 1));
                }
                if card.is_monster_card() {
                    total = total + card.rank.get_value() as i32;
                }
            }
            proof {
                assert(self.deck@.take(n as int) =~= self.deck@);
            }
            -total
        }
    }

    /// Strength of the first potion in the hand, or zero.
    fn first_potion_in_hand(&self) -> (r: usize)
        requires
            self.wf(),
        ensures
            r == first_potion_strength(self.hand@),
            r <= 14,
    {
        let ghost slots = self.hand@;
        assert(slots.subrange(0, slots.len() as int) =~= slots);
        for slot in it: self.hand.iter()
            invariant
                slots == self.hand@,
                it.seq().unref() == slots,
                first_potion_strength(slots) == first_potion_strength(
                    slots.subrange(it.index() as int, slots.len() as int),
                ),
        {
            proof {
                let k = it.index() as int;
                assert(slots.subrange(k, slots.len() as int).drop_first() =~= slots.subrange(
                    k + 1,
                    slots.len() as int,
                ));
            }
            if let Some(card) = slot {
                if card.suite == Suite::Heart {
                    proof {
                        let k = it.index() as int;
                        assert(slots.subrange(k, slots.len() as int)[0] == slots[k]);
                    }
                    return card.rank.get_value();
                }
            }
        }
        proof {
            assert(slots.subrange(slots.len() as int, slots.len() as int).len() == 0);
        }
        0
    }

    fn add_notification(&mut self, notification: String)
        ensures
            pushed_note(old(self).notifications@, final(self).notifications@, notification@),
            final(self).current_screen == old(self).current_screen,
            final(self).deck@ == old(self).deck@,
            final(self).hand@ == old(self).hand@,
            final(self).hand.wf() == old(self).hand.wf(),
            final(self).life == old(self).life,
            final(self).has_avoided_room == old(self).has_avoided_room,
            final(self).equipped_weapon == old(self).equipped_weapon,
            final(self).blocked_creatures@ == old(self).blocked_creatures@,
            final(self).in_combat_with_creature == old(self).in_combat_with_creature,
    {
        self.notifications.push(notification);
        assert(self.notifications@.drop_last() =~= old(self).notifications@);
    }
}

/// Checks the room for its end once a card or a fight has been resolved: with
/// one card left in the hand, the hand is refilled and the next room begins,
/// or the game is won when the deck could not fill it; otherwise the player
/// goes on choosing cards.
pub fn draw_cards_or_end_game(app: &mut App)
    requires
        old(app).wf(),
    ensures
        final(app).wf(),
        App::room_checked(*old(app), *final(app)),
{
    if app.hand.num_cards_remaining() == 1 {
        app.has_avoided_room = false;
        proof {
            app.hand.lemma_wf();
        }
        let enough_cards_left_in_deck = app.draw_cards(HAND_SIZE);
        if !enough_cards_left_in_deck {
            app.current_screen = CurrentScreen::Won;
        } else {
            app.current_screen = CurrentScreen::BeforeRoom;
        }
    } else {
        app.current_screen = CurrentScreen::ChooseCard;
    }
}

/// What the player can ask for.
#[derive(Clone, Copy, PartialEq, Eq, Structural, Debug)]
pub enum Action {
    BeginGame,
    EnterRoom,
    AvoidRoom,
    /// Play the card of this slot number, counted from 1.
    PlayCard(u8),
    FightWithWeapon,
    FightBareKnuckle,
    Quit,
}

/// The action that a key press asks for in phase `screen`; `None` stands for a
/// key that is not a character.
pub open spec fn action_for_key(screen: CurrentScreen, key: Option<char>) -> Option<Action> {
    match screen {
        CurrentScreen::Welcome => if key == Some('q') {
            Some(Action::Quit)
        } else {
            Some(Action::BeginGame)
        },
        CurrentScreen::BeforeRoom => match key {
            Some('y') => Some(Action::EnterRoom),
            Some('n') => Some(Action::AvoidRoom),
            Some('q') => Some(Action::Quit),
            _ => None,
        },
        CurrentScreen::ChooseCard => match key {
            Some('1') => Some(Action::PlayCard(1)),
            Some('2') => Some(Action::PlayCard(2)),
            Some('3') => Some(Action::PlayCard(3)),
            Some('4') => Some(Action::PlayCard(4)),
            Some('q') => Some(Action::Quit),
            _ => None,
        },
        CurrentScreen::ChooseWeaponOrBareKnuckle => match key {
            Some('y') => Some(Action::FightWithWeapon),
            Some('n') => Some(Action::FightBareKnuckle),
            _ => None,
        },
        _ => None,
    }
}

impl Action {
    /// The action that a key press asks for in phase `screen`, if any; `None`
    /// as `key` stands for a key that is not a character.
    pub fn from_key(screen: CurrentScreen, key: Option<char>) -> (r: Option<Action>)
        ensures
            r == action_for_key(screen, key),
    {
        match screen {
            CurrentScreen::Welcome => match key {
                Some('q') => Some(Action::Quit),
                _ => Some(Action::BeginGame),
            },
            CurrentScreen::BeforeRoom => match key {
                Some('y') => Some(Action::EnterRoom),
                Some('n') => Some(Action::AvoidRoom),
                Some('q') => Some(Action::Quit),
                _ => None,
            },
            CurrentScreen::ChooseCard => match key {
                Some('1') => Some(Action::PlayCard(1)),
                Some('2') => Some(Action::PlayCard(2)),
                Some('3') => Some(Action::PlayCard(3)),
                Some('4') => Some(Action::PlayCard(4)),
                Some('q') => Some(Action::Quit),
                _ => None,
            },
            CurrentScreen::ChooseWeaponOrBareKnuckle => match key {
                Some('y') => Some(Action::FightWithWeapon),
                Some('n') => Some(Action::FightBareKnuckle),
                _ => None,
            },
            _ => None,
        }
    }
}

impl Default for App {
    fn default() -> (r: App)
        ensures
            r.wf(),
            r.current_screen == CurrentScreen::Welcome,
            r.life == MAX_LIFE,
            !r.has_avoided_room,
            r.equipped_weapon is None,
            r.blocked_creatures@.len() == 0,
            r.in_combat_with_creature is None,
            r.notifications@.len() == 0,
            r.hand@.len() == 0,
            r.deck@.len() == MAX_DECK_SIZE,
            r.deck@.no_duplicates(),
            forall|c: Card| #[trigger] r.deck@.contains(c) <==> c.in_game_deck(),
    {
        App::new()
    }
}

/// Life stays within `[0, MAX_LIFE]`: playing a potion or a monster card, and
/// either kind of fight, never takes it out of that range, whatever came
/// before.
pub proof fn lemma_life_stays_bounded(
    before: App,
    after: App,
    card: Card,
    next: Option<CurrentScreen>,
)
    requires
        before.life <= MAX_LIFE,
        (App::resolved(before, after, card, next) && (card.is_potion() || card.is_monster()))
            || App::fought_with_weapon(before, after, next) || App::fought_bare_knuckle(
            before,
            after,
            next,
        ),
    ensures
        0 <= after.life <= MAX_LIFE,
{
}

/// Weapon ratchet: once the weapon has blocked a creature, it may not be used
/// against a creature at least as strong, which is then fought bare-knuckle
/// without the player being asked.
pub proof fn lemma_weapon_ratchet(
    before: App,
    after: App,
    next: Option<CurrentScreen>,
    creature: Card,
)
    requires
        App::fought_with_weapon(before, after, next),
        creature.strength() >= before.in_combat_with_creature->Some_0.strength(),
    ensures
        !weapon_usable(after.equipped_weapon, after.blocked_creatures@, creature),
{
}

/// The ratchet holds until a new weapon is equipped: a creature that the
/// weapon may not be used against stays out of its reach when a potion or a
/// monster is played.
pub proof fn lemma_ratchet_kept_by_cards(
    before: App,
    after: App,
    card: Card,
    next: Option<CurrentScreen>,
    creature: Card,
)
    requires
        !weapon_usable(before.equipped_weapon, before.blocked_creatures@, creature),
        App::resolved(before, after, card, next),
        !card.is_weapon(),
        card.is_potion() || card.is_monster(),
    ensures
        !weapon_usable(after.equipped_weapon, after.blocked_creatures@, creature),
{
}

/// The ratchet holds until a new weapon is equipped: a creature that the
/// weapon may not be used against stays out of its reach after a fight,
/// bare-knuckle or with the weapon against a creature it could be used on.
pub proof fn lemma_ratchet_kept_by_fights(
    before: App,
    after: App,
    next: Option<CurrentScreen>,
    creature: Card,
)
    requires
        before.equipped_weapon is Some,
        !weapon_usable(before.equipped_weapon, before.blocked_creatures@, creature),
        App::fought_bare_knuckle(before, after, next) || (App::fought_with_weapon(
            before,
            after,
            next,
        ) && weapon_usable(
            before.equipped_weapon,
            before.blocked_creatures@,
            before.in_combat_with_creature->Some_0,
        )),
    ensures
        !weapon_usable(after.equipped_weapon, after.blocked_creatures@, creature),
{
}

/// A room cannot be avoided twice in a row: right after a room was avoided,
/// `avoid_room` is refused and changes nothing.
pub proof fn lemma_no_second_avoid(
    first: App,
    second: App,
    third: App,
    r1: Result<(), ActionError>,
    r2: Result<(), ActionError>,
)
    requires
        App::avoided(first, second, r1),
        r1 is Ok,
        App::avoided(second, third, r2),
    ensures
        r2 == Err::<(), ActionError>(ActionError::InvalidChoice),
        App::unchanged(second, third),
{
}

proof fn lemma_held_count_zero(slots: Seq<Option<Card>>)
    requires
        forall|j: int| 0 <= j < slots.len() ==> #[trigger] slots[j] is None,
    ensures
        held_count(slots) == 0,
    decreases slots.len(),
{
    if slots.len() > 0 {
        assert(slots.last() is None);
        lemma_held_count_zero(slots.drop_last());
    }
}

} // verus!
