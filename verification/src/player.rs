//! A player: a stable name, used as the identity on a table, and a
//! hand of cards drawn from the deck and not yet played.

use vstd::prelude::*;
use crate::deck::{Card, Deck};
use crate::table::Table;

verus! {

/// Copies a vector of cards element by element.
fn clone_cards(cards: &Vec<Card>) -> (r: Vec<Card>)
    ensures
        r@ == cards@,
{
    let mut r: Vec<Card> = Vec::new();
    let mut i: usize = 0;
    while i < cards.len()
        invariant
            i <= cards@.len(),
            r@.len() == i,
            forall|k: int| 0 <= k < i ==> r@[k] == cards@[k],
        decreases cards@.len() - i,
    {
        r.push(cards[i]);
        i = i + 1;
    }
    proof {
        assert(r@ =~= cards@);
    }
    r
}

/// A participant in the round. The name is the player's identity for
/// table placement and never changes; the hand is the player's alone.
#[derive(Debug, Hash, Eq, PartialEq)]
pub struct Player {
    pub name: String,
    hand: Vec<Card>,
}

impl Player {
    /// The player's identity: the name, viewed as a character sequence.
    pub closed spec fn spec_name(&self) -> Seq<char> {
        self.name@
    }

    /// The cards currently in hand, in draw order.
    pub closed spec fn spec_hand(&self) -> Seq<Card> {
        self.hand@
    }

    /// A new player with an empty hand.
    pub fn new(name: &str) -> (p: Player)
        ensures
            p.spec_name() == name@,
            p.spec_hand() == Seq::<Card>::empty(),
    {
        Player { name: name.to_owned(), hand: Vec::new() }
    }

    /// A player already holding the given hand.
    pub fn with_hand(name: &str, hand: Vec<Card>) -> (p: Player)
        ensures
            p.spec_name() == name@,
            p.spec_hand() == hand@,
    {
        Player { name: name.to_owned(), hand }
    }

    /// Draws one card from the deck into the hand and also returns it;
    /// when the deck is empty, nothing is drawn, nothing changes, and
    /// nothing is returned.
    pub fn draw(&mut self, deck: &mut Deck) -> (r: Option<Card>)
        ensures
            final(self).spec_name() == old(self).spec_name(),
            old(deck)@.len() == 0 ==> r is None && final(self).spec_hand() == old(
                self,
            ).spec_hand() && final(deck)@ == old(deck)@,
            old(deck)@.len() > 0 ==> r == Some(old(deck)@.last()) && final(self).spec_hand()
                == old(self).spec_hand().push(old(deck)@.last()) && final(deck)@ == old(
                deck,
            )@.drop_last(),
    {
        match deck.draw() {
            Some(card) => {
                self.hand.push(card);
                Some(card)
            },
            None => None,
        }
    }

    /// Removes the card at `index` from the hand and places it on the
    /// table under this player's identity. The index must be a valid
    /// hand position: an out-of-range index is a caller error.
    pub fn play_card_from_hand(&mut self, table: &mut Table, index: usize)
        requires
            index < old(self).spec_hand().len(),
            old(table).wf(),
        ensures
            final(self).spec_name() == old(self).spec_name(),
            final(self).spec_hand() == old(self).spec_hand().remove(index as int),
            final(table).wf(),
            final(table).spec_players() == old(table).spec_players(),
            old(table).slot_of(old(self).spec_name()) >= 0 ==> final(table).played() == old(
                table,
            ).played().update(
                old(table).slot_of(old(self).spec_name()),
                Some(old(self).spec_hand()[index as int]),
            ),
            old(table).slot_of(old(self).spec_name()) == -1 ==> final(table).played() == old(
                table,
            ).played(),
    {
        let card = self.hand.remove(index);
        table.place_card(self.clone(), card);
    }

    /// Places an already-held card on the table under this player's
    /// identity, without consulting the hand.
    pub fn play_card(&self, table: &mut Table, card: Card)
        requires
            old(table).wf(),
        ensures
            final(table).wf(),
            final(table).spec_players() == old(table).spec_players(),
            old(table).slot_of(self.spec_name()) >= 0 ==> final(table).played() == old(
                table,
            ).played().update(old(table).slot_of(self.spec_name()), Some(card)),
            old(table).slot_of(self.spec_name()) == -1 ==> final(table).played() == old(table).played(),
    {
        table.place_card(self.clone(), card);
    }

    /// True iff this player carries the same name as `other`, and so
    /// counts as the same identity on a table.
    pub fn same_name(&self, other: &Player) -> (r: bool)
        ensures
            r == (self.spec_name() == other.spec_name()),
    {
        self.name == other.name
    }

    /// A read-only copy of the hand, in draw order.
    pub fn get_hand(&self) -> (r: Vec<Card>)
        ensures
            r@ == self.spec_hand(),
    {
        clone_cards(&self.hand)
    }
}

impl Clone for Player {
    /// A clone keeps both the name and the hand.
    fn clone(&self) -> (r: Self)
        ensures
            r.spec_name() == self.spec_name(),
            r.spec_hand() == self.spec_hand(),
    {
        Player { name: self.name.clone(), hand: clone_cards(&self.hand) }
    }
}

} // verus!
