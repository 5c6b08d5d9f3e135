//! The shared table of one trick: four fixed players, a slot per
//! player for the card currently played, and the rule that resolves
//! which played card is winning.

use vstd::prelude::*;
use crate::deck::{spec_is_greater, Card};
use crate::player::Player;

verus! {

/// The slot holding the running-best card among the first `n` slots:
/// the first occupied slot becomes the running best, and a later slot
/// replaces it only when its card strictly wins over the current best;
/// -1 while no slot among the first `n` is occupied. Empty slots are
/// never compared against.
pub open spec fn best_slot(cards: Seq<Option<Card>>, n: int) -> int
    decreases n,
{
    if n <= 0 {
        -1
    } else {
        let prev = best_slot(cards, n - 1);
        match cards[n - 1] {
            Some(c) => if prev == -1 {
                n - 1
            } else {
                match cards[prev] {
                    Some(b) => if spec_is_greater(c, b) {
                        n - 1
                    } else {
                        prev
                    },
                    None => n - 1,
                }
            },
            None => prev,
        }
    }
}

/// Law: the running-best rule is a strict max-by fold, independent of
/// any accidental order among equals. It picks nothing exactly when no
/// slot is occupied, and otherwise an occupied slot whose card no other
/// played card strictly wins over; empty slots never become or displace
/// the running best.
pub proof fn lemma_best_slot_max(cards: Seq<Option<Card>>, n: int)
    requires
        0 <= n <= cards.len(),
    ensures
        best_slot(cards, n) == -1 ==> forall|j: int| 0 <= j < n ==> cards[j] is None,
        best_slot(cards, n) != -1 ==> 0 <= best_slot(cards, n) < n && cards[best_slot(
            cards,
            n,
        )] is Some,
        best_slot(cards, n) != -1 ==> forall|j: int|
            0 <= j < n && #[trigger] cards[j] is Some ==> !spec_is_greater(
                cards[j]->0,
                cards[best_slot(cards, n)]->0,
            ),
    decreases n,
{
    if n > 0 {
        lemma_best_slot_max(cards, n - 1);
        let prev = best_slot(cards, n - 1);
        let b = best_slot(cards, n);
        if b != -1 {
            assert forall|j: int| 0 <= j < n && #[trigger] cards[j] is Some implies !spec_is_greater(
                cards[j]->0,
                cards[b]->0,
            ) by {
                if j < n - 1 && prev != -1 && b == n - 1 {
                    crate::deck::lemma_is_greater_strict_order(
                        cards[j]->0,
                        cards[b]->0,
                        cards[prev]->0,
                    );
                }
            }
        }
    }
}

/// Law: a partly filled trick resolves among the played cards alone.
/// When exactly two of the four slots hold cards and one of the two
/// strictly wins over the other, the winning slot is the one selected;
/// the empty slots play no part.
pub proof fn lemma_partial_trick(cards: Seq<Option<Card>>, i: int, j: int)
    requires
        cards.len() == 4,
        0 <= i < j < 4,
        cards[i] is Some,
        cards[j] is Some,
        forall|k: int| 0 <= k < 4 && k != i && k != j ==> cards[k] is None,
    ensures
        spec_is_greater(cards[i]->0, cards[j]->0) ==> best_slot(cards, 4) == i,
        spec_is_greater(cards[j]->0, cards[i]->0) ==> best_slot(cards, 4) == j,
{
    lemma_best_slot_max(cards, 4);
    let b = best_slot(cards, 4);
    assert(b == i || b == j);
}

/// Law: a trick with no card played resolves to nothing: an empty slot
/// never becomes an accidental winner.
pub proof fn lemma_empty_trick(cards: Seq<Option<Card>>)
    requires
        cards.len() == 4,
        forall|k: int| 0 <= k < 4 ==> cards[k] is None,
    ensures
        best_slot(cards, 4) == -1,
{
    lemma_best_slot_max(cards, 4);
}

/// One trick's table: exactly four players, fixed at construction,
/// each mapped to the card they have currently played, if any.
pub struct Table {
    players: [Player; 4],
    cards: Vec<Option<Card>>,
}

impl Table {
    /// The four seated players, in construction order.
    pub closed spec fn spec_players(&self) -> Seq<Player> {
        self.players@
    }

    /// The per-player slots, in the same order as `spec_players`.
    pub closed spec fn played(&self) -> Seq<Option<Card>> {
        self.cards@
    }

    /// Well-formed: one slot per player, and the four names pairwise
    /// distinct, a name being a player's identity here.
    pub open spec fn wf(&self) -> bool {
        &&& self.played().len() == 4
        &&& forall|i: int, j: int|
            0 <= i < 4 && 0 <= j < 4 && i != j ==> self.spec_players()[i].spec_name()
                != self.spec_players()[j].spec_name()
    }

    /// The slot of the seated player carrying the given name, or -1
    /// when no seated player carries it.
    pub open spec fn slot_of(&self, name: Seq<char>) -> int {
        if exists|i: int| 0 <= i < 4 && self.spec_players()[i].spec_name() == name {
            choose|i: int| 0 <= i < 4 && self.spec_players()[i].spec_name() == name
        } else {
            -1
        }
    }

    /// Seats the four given players, each with an empty slot. The four
    /// names must be distinct; membership never changes afterwards.
    pub fn new(players: [Player; 4]) -> (t: Table)
        requires
            forall|i: int, j: int|
                0 <= i < 4 && 0 <= j < 4 && i != j ==> players@[i].spec_name() != players@[j].spec_name(),
        ensures
            t.wf(),
            t.spec_players() == players@,
            forall|i: int| 0 <= i < 4 ==> t.played()[i] is None,
    {
        let mut cards: Vec<Option<Card>> = Vec::new();
        cards.push(None);
        cards.push(None);
        cards.push(None);
        cards.push(None);
        Table { players, cards }
    }

    /// Places `card` in the slot of the seated player whose name is
    /// `player`'s, replacing whatever the slot held. A player whose
    /// name is not seated at this table is silently ignored: no slot is
    /// created and nothing changes.
    pub fn place_card(&mut self, player: Player, card: Card)
        requires
            old(self).wf(),
        ensures
            final(self).wf(),
            final(self).spec_players() == old(self).spec_players(),
            old(self).slot_of(player.spec_name()) >= 0 ==> final(self).played() == old(
                self,
            ).played().update(old(self).slot_of(player.spec_name()), Some(card)),
            old(self).slot_of(player.spec_name()) == -1 ==> final(self).played() == old(self).played(),
    {
        let mut i: usize = 0;
        while i < 4
            invariant
                i <= 4,
                old(self).wf(),
                self.spec_players() == old(self).spec_players(),
                self.played() == old(self).played(),
                forall|j: int| 0 <= j < i ==> old(self).spec_players()[j].spec_name() != player.spec_name(),
            decreases 4 - i,
        {
            if self.players[i].same_name(&player) {
                self.cards[i] = Some(card);
                proof {
                    let s = old(self).slot_of(player.spec_name());
                    assert(0 <= s < 4 && old(self).spec_players()[s].spec_name() == player.spec_name());
                    assert(s == i);
                }
                return ;
            }
            i = i + 1;
        }
        proof {
            if old(self).slot_of(player.spec_name()) >= 0 {
                let s = old(self).slot_of(player.spec_name());
                assert(old(self).spec_players()[s].spec_name() == player.spec_name());
            }
        }
    }

    /// Scans the four slots and returns the player whose played card
    /// the running-best rule selects, or nothing when no slot holds a
    /// card. Among the played cards, the selected one is strictly
    /// beaten by none.
    pub fn strongest_card_holder(&self) -> (r: Option<Player>)
        requires
            self.wf(),
        ensures
            best_slot(self.played(), 4) == -1 <==> r is None,
            best_slot(self.played(), 4) == -1 ==> forall|j: int|
                0 <= j < 4 ==> self.played()[j] is None,
            best_slot(self.played(), 4) >= 0 ==> (r matches Some(p) && {
                let b = best_slot(self.played(), 4);
                &&& p.spec_name() == self.spec_players()[b].spec_name()
                &&& p.spec_hand() == self.spec_players()[b].spec_hand()
                &&& self.played()[b] is Some
                &&& forall|j: int|
                    0 <= j < 4 && #[trigger] self.played()[j] is Some ==> !spec_is_greater(
                        self.played()[j]->0,
                        self.played()[b]->0,
                    )
            }),
    {
        proof {
            lemma_best_slot_max(self.played(), 4);
        }
        let mut best: Option<usize> = None;
        let mut i: usize = 0;
        while i < 4
            invariant
                i <= 4,
                self.wf(),
                best matches Some(b) ==> b < i && self.played()[b as int] is Some,
                match best {
                    Some(b) => best_slot(self.played(), i as int) == b as int,
                    None => best_slot(self.played(), i as int) == -1,
                },
            decreases 4 - i,
        {
            if let Some(current) = &self.cards[i] {
                match best {
                    Some(b) => {
                        if let Some(strongest) = &self.cards[b] {
                            if current.is_greater(strongest) {
                                best = Some(i);
                            }
                        }
                    },
                    None => {
                        best = Some(i);
                    },
                }
            }
            i = i + 1;
        }
        match best {
            Some(b) => Some(self.players[b].clone()),
            None => None,
        }
    }
}

} // verus!
