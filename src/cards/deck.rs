//! Suits, ranks and cards, and the deck they are drawn from.

use rand::Rng;
use vstd::prelude::*;
use vstd::std_specs::iter::IteratorSpec;
use vstd::string::StringExecFns;

verus! {

/// Number of cards in a fresh deck: the 52 standard cards without the red
/// jacks, queens, kings and aces.
pub const MAX_DECK_SIZE: usize = 44;

#[derive(Clone, Copy, Hash, PartialEq, Eq, Structural, Debug)]
pub enum Suite {
    Spade,
    Club,
    Diamond,
    Heart,
}

#[derive(Clone, Copy, Hash, PartialEq, Eq, Structural, Debug)]
pub enum Rank {
    Two,
    Three,
    Four,
    Five,
    Six,
    Seven,
    Eight,
    Nine,
    Ten,
    Jack,
    Queen,
    King,
    Ace,
}

/// Position of a suit in the order in which a fresh deck is laid out.
pub open spec fn suite_index(s: Suite) -> nat {
    match s {
        Suite::Spade => 0,
        Suite::Club => 1,
        Suite::Diamond => 2,
        Suite::Heart => 3,
    }
}

/// Name of a suit, as its `Debug` form writes it.
pub open spec fn suite_name(s: Suite) -> Seq<char> {
    match s {
        Suite::Spade => "Spade"@,
        Suite::Club => "Club"@,
        Suite::Diamond => "Diamond"@,
        Suite::Heart => "Heart"@,
    }
}

/// Name of a rank, as its `Debug` form writes it.
pub open spec fn rank_name(r: Rank) -> Seq<char> {
    match r {
        Rank::Two => "Two"@,
        Rank::Three => "Three"@,
        Rank::Four => "Four"@,
        Rank::Five => "Five"@,
        Rank::Six => "Six"@,
        Rank::Seven => "Seven"@,
        Rank::Eight => "Eight"@,
        Rank::Nine => "Nine"@,
        Rank::Ten => "Ten"@,
        Rank::Jack => "Jack"@,
        Rank::Queen => "Queen"@,
        Rank::King => "King"@,
        Rank::Ace => "Ace"@,
    }
}

impl Suite {
    /// The suit at position `i` of the layout order.
    pub fn at_index(i: usize) -> (r: Suite)
        requires
            i < 4,
        ensures
            suite_index(r) == i,
    {
        match i {
            0 => Suite::Spade,
            1 => Suite::Club,
            2 => Suite::Diamond,
            _ => Suite::Heart,
        }
    }

    pub fn name(&self) -> (r: &'static str)
        ensures
            r@ == suite_name(*self),
    {
        match self {
            Suite::Spade => "Spade",
            Suite::Club => "Club",
            Suite::Diamond => "Diamond",
            Suite::Heart => "Heart",
        }
    }
}

impl Rank {
    /// Strength of a rank: 2 to 10 for the numbered ranks, then 11 (jack) up
    /// to 14 (ace).
    pub open spec fn strength(self) -> nat {
        match self {
            Rank::Two => 2,
            Rank::Three => 3,
            Rank::Four => 4,
            Rank::Five => 5,
            Rank::Six => 6,
            Rank::Seven => 7,
            Rank::Eight => 8,
            Rank::Nine => 9,
            Rank::Ten => 10,
            Rank::Jack => 11,
            Rank::Queen => 12,
            Rank::King => 13,
            Rank::Ace => 14,
        }
    }

    /// The rank of strength `v`.
    pub fn from_strength(v: usize) -> (r: Rank)
        requires
            2 <= v <= 14,
        ensures
            r.strength() == v,
    {
        match v {
            2 => Rank::Two,
            3 => Rank::Three,
            4 => Rank::Four,
            5 => Rank::Five,
            6 => Rank::Six,
            7 => Rank::Seven,
            8 => Rank::Eight,
            9 => Rank::Nine,
            10 => Rank::Ten,
            11 => Rank::Jack,
            12 => Rank::Queen,
            13 => Rank::King,
            _ => Rank::Ace,
        }
    }

    pub fn name(&self) -> (r: &'static str)
        ensures
            r@ == rank_name(*self),
    {
        match self {
            Rank::Two => "Two",
            Rank::Three => "Three",
            Rank::Four => "Four",
            Rank::Five => "Five",
            Rank::Six => "Six",
            Rank::Seven => "Seven",
            Rank::Eight => "Eight",
            Rank::Nine => "Nine",
            Rank::Ten => "Ten",
            Rank::Jack => "Jack",
            Rank::Queen => "Queen",
            Rank::King => "King",
            Rank::Ace => "Ace",
        }
    }
}

/// Something with a numeric strength.
pub trait Value {
    fn get_value(&self) -> usize;
}

impl Value for Rank {
    fn get_value(&self) -> (r: usize)
        ensures
            r == self.strength(),
    {
        match self {
            Rank::Two => 2,
            Rank::Three => 3,
            Rank::Four => 4,
            Rank::Five => 5,
            Rank::Six => 6,
            Rank::Seven => 7,
            Rank::Eight => 8,
            Rank::Nine => 9,
            Rank::Ten => 10,
            Rank::Jack => 11,
            Rank::Queen => 12,
            Rank::King => 13,
            Rank::Ace => 14,
        }
    }
}

/// A playing card. Spades and clubs are monsters, diamonds are weapons and
/// hearts are healing potions.
#[derive(Clone, Copy, Hash, PartialEq, Eq, Structural, Debug)]
pub struct Card {
    pub suite: Suite,
    pub rank: Rank,
}

/// Text of a card: its suit and rank between angle brackets, "<Spade, Ten>".
pub open spec fn card_text(c: Card) -> Seq<char> {
    "<"@ + suite_name(c.suite) + ", "@ + rank_name(c.rank) + ">"@
}

impl Card {
    pub open spec fn strength(self) -> nat {
        self.rank.strength()
    }

    pub open spec fn is_monster(self) -> bool {
        self.suite == Suite::Spade || self.suite == Suite::Club
    }

    pub open spec fn is_weapon(self) -> bool {
        self.suite == Suite::Diamond
    }

    pub open spec fn is_potion(self) -> bool {
        self.suite == Suite::Heart
    }

    /// Whether the card belongs to the game's deck: every black card, and the
    /// red cards from two to ten.
    pub open spec fn in_game_deck(self) -> bool {
        self.is_monster() || self.strength() <= 10
    }

    pub fn is_monster_card(&self) -> (r: bool)
        ensures
            r == self.is_monster(),
    {
        match self.suite {
            Suite::Spade | Suite::Club => true,
            _ => false,
        }
    }

    /// The card as text, "<Diamond, Five>".
    pub fn to_text(&self) -> (r: String)
        ensures
            r@ == card_text(*self),
    {
        let mut s = String::from_str("<");
        s.append(self.suite.name());
        s.append(", ");
        s.append(self.rank.name());
        s.append(">");
        s
    }
}

/// The cards not yet drawn. Their order carries no meaning: a draw picks any
/// of them.
pub struct Deck {
    cards: Vec<Card>,
}

impl View for Deck {
    type V = Seq<Card>;

    closed spec fn view(&self) -> Seq<Card> {
        self.cards@
    }
}

/// Number of cards of the fresh deck that come before suit position `si`.
pub open spec fn cards_before_suite(si: nat) -> nat {
    if si <= 2 {
        13 * si
    } else {
        26 + 9 * (si - 2) as nat
    }
}

/// Relies on rand's thread-local generator (`rand::rng`) and on
/// `Rng::random_range`, which returns a value of the half-open range it is
/// given and panics on an empty one.
#[verifier::external_body]
fn random_index(bound: usize) -> (r: usize)
    requires
        bound > 0,
    ensures
        r < bound,
{
    rand::rng().random_range(0..bound)
}


/// What is left of `deck` after one draw per entry of `picks`, where each draw
/// takes the card at the picked position (as `Deck::take_card` does) and a
/// pick past the end draws nothing.
pub open spec fn left_after(deck: Seq<Card>, picks: Seq<int>) -> Seq<Card>
    decreases picks.len(),
{
    if picks.len() == 0 {
        deck
    } else {
        let before = left_after(deck, picks.drop_last());
        let k = picks.last();
        if 0 <= k < before.len() {
            before.remove(k)
        } else {
            before
        }
    }
}

/// The cards handed out, in order, by the draws of `left_after(deck, picks)`.
pub open spec fn drawn_by(deck: Seq<Card>, picks: Seq<int>) -> Seq<Card>
    decreases picks.len(),
{
    if picks.len() == 0 {
        Seq::empty()
    } else {
        let before = left_after(deck, picks.drop_last());
        let k = picks.last();
        if 0 <= k < before.len() {
            drawn_by(deck, picks.drop_last()).push(before[k])
        } else {
            drawn_by(deck, picks.drop_last())
        }
    }
}

/// Drawing never repeats nor loses a card: from a deck that holds no card
/// twice, any run of draws hands out no card twice, and the cards handed out
/// together with those left are exactly the cards of the deck. Drained to the
/// end, a fresh deck hands out each of its cards once.
pub proof fn lemma_draws_never_repeat(deck: Seq<Card>, picks: Seq<int>)
    requires
        deck.no_duplicates(),
    ensures
        drawn_by(deck, picks).no_duplicates(),
        drawn_by(deck, picks).to_multiset().add(left_after(deck, picks).to_multiset())
            == deck.to_multiset(),
    decreases picks.len(),
{
    broadcast use vstd::seq_lib::group_to_multiset_ensures;

    if picks.len() > 0 {
        let prev = picks.drop_last();
        lemma_draws_never_repeat(deck, prev);
        let before = left_after(deck, prev);
        let d = drawn_by(deck, prev);
        let k = picks.last();
        if 0 <= k < before.len() {
            let x = before[k];
            deck.lemma_multiset_has_no_duplicates();
            d.lemma_multiset_has_no_duplicates();
            assert(before.to_multiset().count(x) > 0);
            assert(deck.to_multiset().count(x) == d.to_multiset().count(x)
                + before.to_multiset().count(x));
            assert(deck.to_multiset().contains(x));
            assert(d.to_multiset().count(x) == 0);
            assert forall|y: Card| #[trigger]
                d.push(x).to_multiset().contains(y) implies d.push(x).to_multiset().count(y)
                == 1 by {
                assert(deck.to_multiset().count(y) == d.to_multiset().count(y)
                    + before.to_multiset().count(y));
                if deck.to_multiset().count(y) > 1 {
                    assert(deck.to_multiset().contains(y));
                }
            }
            d.push(x).lemma_multiset_has_no_duplicates_conv();
            assert(d.push(x).to_multiset().add(before.remove(k).to_multiset())
                =~= deck.to_multiset());
        }
    }
}

impl Deck {
    /// A fresh deck: each card of the game exactly once.
    pub fn new() -> (r: Deck)
        ensures
            r@.len() == MAX_DECK_SIZE,
            r@.no_duplicates(),
            forall|c: Card| #[trigger] r@.contains(c) <==> c.in_game_deck(),
    {
        let mut cards: Vec<Card> = Vec::new();
        let mut si: usize = 0;
        while si < 4
            invariant
                si <= 4,
                cards@.len() == cards_before_suite(si as nat),
                cards@.no_duplicates(),
                forall|c: Card| #[trigger]
                    cards@.contains(c) <==> (c.in_game_deck() && suite_index(c.suite) < si),
            decreases 4 - si,
        {
            let suite = Suite::at_index(si);
            let mut v: usize = 2;
            while v <= 14
                invariant
                    si < 4,
                    2 <= v <= 15,
                    suite_index(suite) == si,
                    cards@.len() == cards_before_suite(si as nat) + if si < 2 {
                        (v - 2) as nat
                    } else if v <= 11 {
                        (v - 2) as nat
                    } else {
                        9nat
                    },
                    cards@.no_duplicates(),
                    forall|c: Card| #[trigger]
                        cards@.contains(c) <==> (c.in_game_deck() && (suite_index(c.suite) < si || (
                        suite_index(c.suite) == si && c.strength() < v))),
                decreases 15 - v,
            {
                let card = Card { suite, rank: Rank::from_strength(v) };
                let ghost before = cards@;
                if card.is_monster_card() || v <= 10 {
                    proof {
                        assert(!cards@.contains(card));
                    }
                    cards.push(card);
                    assert forall|c: Card| #[trigger]
                        cards@.contains(c) <==> (before.contains(c) || c == card) by {
                        if before.contains(c) {
                            let i = choose|i: int| 0 <= i < before.len() && before[i] == c;
                            assert(cards@[i] == c);
                        }
                        if c == card {
                            assert(cards@[before.len() as int] == c);
                        }
                    }
                }
                assert(forall|c: Card|
                    suite_index(c.suite) == si && #[trigger] c.strength() == v ==> c == card);
                v += 1;
            }
            si += 1;
        }
        Deck { cards }
    }

    /// Removes and returns a card picked at random; nothing when the deck is
    /// empty.
    pub fn draw_card(&mut self) -> (r: Option<Card>)
        ensures
            r is None <==> old(self)@.len() == 0,
            r is None ==> final(self)@ == old(self)@,
            r matches Some(c) ==> exists|i: int|
                0 <= i < old(self)@.len() && old(self)@[i] == c && final(self)@ == old(
                    self,
                )@.remove(i),
    {
        if self.cards.len() == 0 {
            return None;
        }
        let idx = random_index(self.cards.len());
        self.take_card(idx)
    }

    /// Removes and returns the card at position `index`; nothing when there is
    /// no such position.
    pub fn take_card(&mut self, index: usize) -> (r: Option<Card>)
        ensures
            index < old(self)@.len() ==> r == Some(old(self)@[index as int]) && final(self)@
                == old(self)@.remove(index as int),
            index >= old(self)@.len() ==> r is None && final(self)@ == old(self)@,
    {
        if index < self.cards.len() {
            Some(self.cards.remove(index))
        } else {
            None
        }
    }

    /// Puts a card back into the deck.
    pub fn insert_card(&mut self, card: Card)
        ensures
            final(self)@ == old(self)@.push(card),
    {
        self.cards.push(card);
    }

    pub fn len(&self) -> (r: usize)
        ensures
            r == self@.len(),
    {
        self.cards.len()
    }

    /// The cards of the deck, one by one.
    pub fn iter(&self) -> (r: std::slice::Iter<'_, Card>)
        ensures
            r.remaining().unref() == self@,
            r.decrease() is Some,
            r.initial_value_relation(&r),
    {
        broadcast use vstd::std_specs::slice::axiom_spec_slice_iter;

        let r = self.cards.iter();
        assert(r.remaining().unref() =~= self@);
        r
    }
}

impl Default for Deck {
    fn default() -> (r: Deck)
        ensures
            r@.len() == MAX_DECK_SIZE,
            r@.no_duplicates(),
            forall|c: Card| #[trigger] r@.contains(c) <==> c.in_game_deck(),
    {
        Deck::new()
    }
}

} // verus!
