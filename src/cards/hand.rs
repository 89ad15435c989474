//! The hand: four numbered slots for the cards of the current room.

use crate::cards::deck::{Card, card_text};
use crate::text::{decimal, push_decimal};
use vstd::multiset::Multiset;
use vstd::prelude::*;
use vstd::std_specs::iter::IteratorSpec;
use vstd::string::StringExecFns;

verus! {

/// Number of slots of a hand.
pub const HAND_SIZE: usize = 4;

/// Number of slots of `s` that hold a card.
pub open spec fn held_count(s: Seq<Option<Card>>) -> nat
    decreases s.len(),
{
    if s.len() == 0 {
        0
    } else {
        held_count(s.drop_last()) + if s.last() is Some {
            1nat
        } else {
            0nat
        }
    }
}

/// The card of a slot, as a multiset of zero or one card.
pub open spec fn slot_cards(o: Option<Card>) -> Multiset<Card> {
    match o {
        Some(c) => Multiset::singleton(c),
        None => Multiset::empty(),
    }
}

/// The cards that the slots of `s` hold.
pub open spec fn held_cards(s: Seq<Option<Card>>) -> Multiset<Card>
    decreases s.len(),
{
    if s.len() == 0 {
        Multiset::empty()
    } else {
        held_cards(s.drop_last()).add(slot_cards(s.last()))
    }
}

/// Whether slot `i` is the first empty slot of `s`.
pub open spec fn is_first_empty(s: Seq<Option<Card>>, i: int) -> bool {
    &&& 0 <= i < s.len()
    &&& s[i] is None
    &&& forall|j: int| 0 <= j < i ==> #[trigger] s[j] is Some
}

pub open spec fn has_empty_slot(s: Seq<Option<Card>>) -> bool {
    exists|i: int| 0 <= i < s.len() && #[trigger] s[i] is None
}

/// Text of the slots from number `n + 1` on: one line per slot, with its
/// number and its card, or "CARD USED" for an emptied slot.
pub open spec fn slots_text(s: Seq<Option<Card>>, n: nat) -> Seq<char>
    decreases s.len(),
{
    if s.len() == 0 {
        Seq::empty()
    } else {
        slots_text(s.drop_last(), n) + "["@ + decimal(n + s.len()) + "]: "@ + match s.last() {
            Some(c) => card_text(c),
            None => "CARD USED"@,
        } + "\n"@
    }
}

proof fn lemma_held_push(s: Seq<Option<Card>>, o: Option<Card>)
    ensures
        held_count(s.push(o)) == held_count(s) + if o is Some {
            1nat
        } else {
            0nat
        },
        held_cards(s.push(o)) == held_cards(s).add(slot_cards(o)),
{
    assert(s.push(o).drop_last() =~= s);
}

proof fn lemma_held_update(s: Seq<Option<Card>>, i: int, o: Option<Card>)
    requires
        0 <= i < s.len(),
    ensures
        held_count(s.update(i, o)) + (if s[i] is Some {
            1nat
        } else {
            0nat
        }) == held_count(s) + if o is Some {
            1nat
        } else {
            0nat
        },
        held_cards(s.update(i, o)).add(slot_cards(s[i])) == held_cards(s).add(slot_cards(o)),
    decreases s.len(),
{
    broadcast use vstd::multiset::group_multiset_axioms;

    let u = s.update(i, o);
    assert(held_cards(s) == held_cards(s.drop_last()).add(slot_cards(s.last())));
    if i == s.len() - 1 {
        assert(u.drop_last() =~= s.drop_last());
        assert(held_cards(u) == held_cards(s.drop_last()).add(slot_cards(o)));
    } else {
        lemma_held_update(s.drop_last(), i, o);
        assert(s.drop_last()[i] == s[i]);
        assert(u.drop_last() =~= s.drop_last().update(i, o));
        assert(held_cards(u) == held_cards(s.drop_last().update(i, o)).add(slot_cards(s.last())));
    }
    assert forall|c: Card|
        #[trigger] held_cards(u).add(slot_cards(s[i])).count(c) == held_cards(s).add(
            slot_cards(o),
        ).count(c) by {
        if i < s.len() - 1 {
            assert(held_cards(s.drop_last().update(i, o)).add(slot_cards(s[i])).count(c)
                == held_cards(s.drop_last()).add(slot_cards(o)).count(c));
        }
    }
    assert(held_cards(u).add(slot_cards(s[i])) =~= held_cards(s).add(slot_cards(o)));
}

/// At most one card per slot, and exactly one in each slot when every slot
/// is taken.
proof fn lemma_held_count_bound(s: Seq<Option<Card>>)
    ensures
        held_count(s) <= s.len(),
        held_count(s) == s.len() <==> !has_empty_slot(s),
    decreases s.len(),
{
    if s.len() > 0 {
        lemma_held_count_bound(s.drop_last());
        if has_empty_slot(s.drop_last()) {
            let i = choose|i: int| 0 <= i < s.drop_last().len() && #[trigger] s.drop_last()[i] is None;
            assert(s[i] is None);
        }
        if s.last() is None {
            assert(s[s.len() - 1] is None);
        }
        if has_empty_slot(s) && s.last() is Some {
            let i = choose|i: int| 0 <= i < s.len() && #[trigger] s[i] is None;
            assert(s.drop_last()[i] is None);
        }
    }
}

/// The hand: a fixed number of numbered slots. Playing a card empties its
/// slot without moving the others, so a slot keeps its number for the whole
/// room.
pub struct Hand {
    cards: Vec<Option<Card>>,
    num_cards: usize,
}

impl View for Hand {
    type V = Seq<Option<Card>>;

    closed spec fn view(&self) -> Seq<Option<Card>> {
        self.cards@
    }
}

impl Hand {
    /// At most `HAND_SIZE` slots, and the count of cards kept right.
    pub closed spec fn wf(&self) -> bool {
        &&& self.cards@.len() <= HAND_SIZE
        &&& self.num_cards == held_count(self.cards@)
    }

    /// Number of cards in the hand.
    pub open spec fn remaining(&self) -> nat {
        held_count(self@)
    }

    /// The cards in the hand.
    pub open spec fn held(&self) -> Multiset<Card> {
        held_cards(self@)
    }

    /// Facts that follow from well-formedness.
    pub proof fn lemma_wf(&self)
        requires
            self.wf(),
        ensures
            self@.len() <= HAND_SIZE,
            self.remaining() <= self@.len(),
            self.remaining() < HAND_SIZE <==> (self@.len() < HAND_SIZE || has_empty_slot(self@)),
    {
        lemma_held_count_bound(self@);
    }

    pub fn new() -> (r: Hand)
        ensures
            r.wf(),
            r@ == Seq::<Option<Card>>::empty(),
    {
        Hand { cards: Vec::new(), num_cards: 0 }
    }

    /// Puts `card` into the first empty slot, or into a new slot while the
    /// hand has fewer than `HAND_SIZE` slots. Returns whether there was room;
    /// a full hand stays as it was.
    pub fn add_card(&mut self, card: Card) -> (r: bool)
        requires
            old(self).wf(),
        ensures
            final(self).wf(),
            r == (old(self).remaining() < HAND_SIZE),
            r ==> final(self).remaining() == old(self).remaining() + 1,
            r ==> final(self).held() == old(self).held().insert(card),
            r && has_empty_slot(old(self)@) ==> exists|i: int|
                is_first_empty(old(self)@, i) && final(self)@ == old(self)@.update(
                    i,
                    Some(card),
                ),
            r && !has_empty_slot(old(self)@) ==> final(self)@ == old(self)@.push(Some(card)),
            !r ==> final(self)@ == old(self)@,
    {
        proof {
            self.lemma_wf();
        }
        let mut i: usize = 0;
        while i < self.cards.len()
            invariant
                self.wf(),
                self == old(self),
                i <= self.cards@.len(),
                forall|j: int| 0 <= j < i ==> #[trigger] self.cards@[j] is Some,
            decreases self.cards@.len() - i,
        {
            if self.cards[i].is_none() {
                proof {
                    self.lemma_wf();
                    lemma_held_update(self.cards@, i as int, Some(card));
                    assert(is_first_empty(old(self)@, i as int));
                    assert(has_empty_slot(old(self)@));
                }
                self.cards.set(i, Some(card));
                self.num_cards = self.num_cards + 1;
                proof {
                    assert(old(self).held().insert(card) =~= old(self).held().add(
                        slot_cards(Some(card)),
                    ));
                }
                return true;
            }
            i += 1;
        }
        proof {
            if has_empty_slot(self.cards@) {
                let k = choose|k: int| 0 <= k < self.cards@.len() && #[trigger] self.cards@[k] is None;
                assert(self.cards@[k] is Some);
            }
        }
        if self.cards.len() < HAND_SIZE {
            proof {
                lemma_held_push(self.cards@, Some(card));
                assert(old(self).held().insert(card) =~= old(self).held().add(
                    slot_cards(Some(card)),
                ));
            }
            self.cards.push(Some(card));
            self.num_cards = self.num_cards + 1;
            true
        } else {
            false
        }
    }

    /// Empties slot number `card_num` (counted from 1) and returns the card it
    /// held; nothing when the slot is empty or there is no such slot.
    pub fn remove_card(&mut self, card_num: usize) -> (r: Option<Card>)
        requires
            old(self).wf(),
        ensures
            final(self).wf(),
            1 <= card_num <= old(self)@.len() ==> r == old(self)@[card_num - 1] && final(self)@
                == old(self)@.update(card_num - 1, None),
            !(1 <= card_num <= old(self)@.len()) ==> r is None && final(self)@ == old(self)@,
            final(self).remaining() == old(self).remaining() - if r is Some {
                1int
            } else {
                0int
            },
            final(self).held().add(slot_cards(r)) == old(self).held(),
    {
        if card_num == 0 || card_num > self.cards.len() {
            assert(old(self).held().add(slot_cards(None)) =~= old(self).held());
            return None;
        }
        let idx = card_num - 1;
        let slot = self.cards[idx];
        proof {
            lemma_held_update(self.cards@, idx as int, None);
        }
        if slot.is_some() {
            self.num_cards = self.num_cards - 1;
        }
        self.cards.set(idx, None);
        proof {
            assert(self.held().add(slot_cards(None)) =~= self.held());
        }
        slot
    }

    pub fn num_cards_remaining(&self) -> (r: usize)
        requires
            self.wf(),
        ensures
            r == self.remaining(),
    {
        self.num_cards
    }

    /// The hand as text, one line per slot: "[1]: <Spade, Ten>", or
    /// "[2]: CARD USED" for an emptied slot.
    pub fn to_text(&self) -> (r: String)
        requires
            self.wf(),
        ensures
            r@ == slots_text(self@, 0),
    {
        let mut s = String::new();
        let mut i: usize = 0;
        while i < self.cards.len()
            invariant
                i <= self.cards@.len() <= HAND_SIZE,
                s@ == slots_text(self@.take(i as int), 0),
            decreases self.cards@.len() - i,
        {
            proof {
                assert(self@.take(i + 1).drop_last() =~= self@.take(i as int));
            }
            s.append("[");
            push_decimal(&mut s, (i + 1) as u64);
            s.append("]: ");
            match self.cards[i] {
                Some(card) => {
                    let text = card.to_text();
                    s.append(text.as_str());
                },
                None => {
                    s.append("CARD USED");
                },
            }
            s.append("\n");
            i += 1;
        }
        proof {
            assert(self@.take(i as int) =~= self@);
        }
        s
    }

    /// The slots in order of their numbers.
    pub fn iter(&self) -> (r: std::slice::Iter<'_, Option<Card>>)
        ensures
            r.remaining().unref() == self@,
            r.decrease() is Some,
            r.initial_value_relation(&r),
    {
        broadcast use vstd::std_specs::slice::axiom_spec_slice_iter;

        let r = self.cards.iter();
        assert(r.remaining().unref() =~= self@);
        r
    }
}

} // verus!
