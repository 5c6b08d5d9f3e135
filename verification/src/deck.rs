//! Suits, cards, and the shuffled deck for one round.
//!
//! A deck is the full cross product of the four suits with the twelve
//! card values 2 through 13, randomly permuted at construction and
//! consumed one card at a time from the end.

use vstd::prelude::*;
use vstd::arithmetic::div_mod::{lemma_fundamental_div_mod, lemma_fundamental_div_mod_converse};
use vstd::string::StringExecFns;
use rand::seq::SliceRandom;

verus! {

/// The four suits. Their total order is Spades above Hearts above
/// Diamonds above Clubs; the order rank doubles as the one-byte wire
/// code (Spades = 4 down to Clubs = 1).
#[derive(Clone, Copy, Debug, Hash, PartialEq, Eq, Structural)]
pub enum Suit {
    Spades,
    Hearts,
    Diamonds,
    Clubs,
}

/// Rank of a suit in the total order; also its wire byte code.
pub open spec fn suit_rank(s: Suit) -> u8 {
    match s {
        Suit::Spades => 4,
        Suit::Hearts => 3,
        Suit::Diamonds => 2,
        Suit::Clubs => 1,
    }
}

/// The suit a byte decodes to: the inverse of `suit_rank`, with no
/// result for 0 or anything 5 and above.
pub open spec fn suit_of_code(b: u8) -> Option<Suit> {
    if b == 4 {
        Some(Suit::Spades)
    } else if b == 3 {
        Some(Suit::Hearts)
    } else if b == 2 {
        Some(Suit::Diamonds)
    } else if b == 1 {
        Some(Suit::Clubs)
    } else {
        None
    }
}

/// Display name of a suit.
pub open spec fn suit_label(s: Suit) -> Seq<char> {
    match s {
        Suit::Spades => "Spades"@,
        Suit::Hearts => "Hearts"@,
        Suit::Diamonds => "Diamonds"@,
        Suit::Clubs => "Clubs"@,
    }
}

impl Suit {
    /// The suit's place in the total order, used to break ties between
    /// cards of equal value; also the byte the suit is encoded as.
    pub fn rank(&self) -> (r: u8)
        ensures
            r == suit_rank(*self),
    {
        match *self {
            Suit::Spades => 4,
            Suit::Hearts => 3,
            Suit::Diamonds => 2,
            Suit::Clubs => 1,
        }
    }

    /// Canonical display name of the suit.
    pub fn to_string(&self) -> (r: String)
        ensures
            r@ == suit_label(*self),
    {
        match *self {
            Suit::Spades => "Spades".to_owned(),
            Suit::Hearts => "Hearts".to_owned(),
            Suit::Diamonds => "Diamonds".to_owned(),
            Suit::Clubs => "Clubs".to_owned(),
        }
    }

    /// The suit's fixed one-byte wire representation.
    pub fn to_be_bytes(&self) -> (r: [u8; 1])
        ensures
            r@ == seq![suit_rank(*self)],
    {
        let arr: [u8; 1] = [self.rank()];
        proof {
            assert(arr@ =~= seq![suit_rank(*self)]);
        }
        arr
    }

    /// Decodes a one-byte wire representation back to a suit; yields
    /// nothing for any byte outside 1 through 4.
    pub fn from_be_bytes(bytes: [u8; 1]) -> (r: Option<Suit>)
        ensures
            r == suit_of_code(bytes[0]),
    {
        match bytes[0] {
            4 => Some(Suit::Spades),
            3 => Some(Suit::Hearts),
            2 => Some(Suit::Diamonds),
            1 => Some(Suit::Clubs),
            _ => None,
        }
    }
}

/// Law: the suit wire coding is a bijection between the four suits and
/// the bytes 1 through 4. Every suit decodes back to itself, every byte
/// in range decodes to the one suit that encodes to it, and every byte
/// outside the range decodes to nothing.
pub proof fn lemma_suit_code_bijective()
    ensures
        forall|s: Suit| suit_of_code(suit_rank(s)) == Some(s),
        forall|b: u8| 1 <= b <= 4 ==> (#[trigger] suit_of_code(b) matches Some(s) && suit_rank(s) == b),
        forall|b: u8| (b == 0 || b >= 5) ==> #[trigger] suit_of_code(b) is None,
{
}

/// A playing card: a numeric value together with a suit.
#[derive(Clone, Copy, Debug, Hash, PartialEq, Eq, Structural)]
pub struct Card {
    pub value: i32,
    pub suit: Suit,
}

/// `a` wins over `b` in a trick: the higher value wins, and when the
/// values are equal the higher suit rank wins.
pub open spec fn spec_is_greater(a: Card, b: Card) -> bool {
    if a.value == b.value {
        suit_rank(a.suit) > suit_rank(b.suit)
    } else {
        a.value > b.value
    }
}

impl Card {
    /// True iff this card wins over `other`: higher value first, suit
    /// rank breaking ties.
    pub fn is_greater(&self, other: &Card) -> (r: bool)
        ensures
            r == spec_is_greater(*self, *other),
    {
        if self.value == other.value {
            return self.suit.rank() > other.suit.rank();
        }
        self.value > other.value
    }

    /// Renders the card as "<value> of <suit name>".
    pub fn to_string(&self) -> (r: String)
        ensures
            r@ == decimal_of(self.value as int) + " of "@ + suit_label(self.suit),
    {
        let mut s = i32_to_string(self.value);
        s.append(" of ");
        let label = self.suit.to_string();
        s.append(label.as_str());
        s
    }
}

/// Law: the winning relation between cards is a strict total order on
/// distinct cards. No card wins over itself; of two distinct cards
/// exactly one wins over the other; and winning is transitive.
pub proof fn lemma_is_greater_strict_order(a: Card, b: Card, c: Card)
    ensures
        !spec_is_greater(a, a),
        a != b ==> (spec_is_greater(a, b) <==> !spec_is_greater(b, a)),
        spec_is_greater(a, b) && spec_is_greater(b, c) ==> spec_is_greater(a, c),
{
    assert(suit_rank(a.suit) == suit_rank(b.suit) ==> a.suit == b.suit) by {
        lemma_suit_code_bijective();
    }
}

/// The digit character for a value 0 through 9.
pub open spec fn digit_char(d: int) -> char {
    if d == 0 {
        '0'
    } else if d == 1 {
        '1'
    } else if d == 2 {
        '2'
    } else if d == 3 {
        '3'
    } else if d == 4 {
        '4'
    } else if d == 5 {
        '5'
    } else if d == 6 {
        '6'
    } else if d == 7 {
        '7'
    } else if d == 8 {
        '8'
    } else {
        '9'
    }
}

/// The decimal digits of a non-negative number, most significant first.
pub open spec fn dec_digits(n: nat) -> Seq<char>
    decreases n,
{
    if n < 10 {
        seq![digit_char(n as int)]
    } else {
        dec_digits(n / 10) + seq![digit_char((n % 10) as int)]
    }
}

/// The decimal rendering of an integer, with a leading '-' when it is
/// negative.
pub open spec fn decimal_of(v: int) -> Seq<char> {
    if v < 0 {
        seq!['-'] + dec_digits((-v) as nat)
    } else {
        dec_digits(v as nat)
    }
}

/// Relies on std's `Display` implementation for `i32` (through
/// `format!`), which renders the value in decimal with a leading '-'
/// when it is negative.
#[verifier::external_body]
fn i32_to_string(v: i32) -> (r: String)
    ensures
        r@ == decimal_of(v as int),
{
    format!("{}", v)
}

/// The suit generated at position `i` (0 through 3) when the full deck
/// is laid out suit by suit.
pub open spec fn suit_index(i: int) -> Suit {
    if i == 0 {
        Suit::Spades
    } else if i == 1 {
        Suit::Hearts
    } else if i == 2 {
        Suit::Diamonds
    } else {
        Suit::Clubs
    }
}

/// The full 48-card deck before shuffling: for each suit in order, the
/// values 2 through 13.
pub open spec fn full_deck() -> Seq<Card> {
    Seq::new(48, |i: int| Card { value: (2 + i % 12) as i32, suit: suit_index(i / 12) })
}

/// Law: a fresh deck is complete. The full deck holds exactly 48 cards,
/// no two alike, and a card is in it iff its value lies in 2 through 13.
pub proof fn lemma_full_deck_complete()
    ensures
        full_deck().len() == 48,
        full_deck().no_duplicates(),
        forall|c: Card| #[trigger] full_deck().contains(c) <==> 2 <= c.value <= 13,
{
    assert forall|i: int, j: int| 0 <= i < 48 && 0 <= j < 48 && i != j implies full_deck()[i]
        != full_deck()[j] by {
        lemma_fundamental_div_mod(i, 12);
        lemma_fundamental_div_mod(j, 12);
        if full_deck()[i] == full_deck()[j] {
            assert(i % 12 == j % 12);
            assert(0 <= i / 12 < 4 && 0 <= j / 12 < 4);
            assert(suit_index(i / 12) == suit_index(j / 12));
            assert(i / 12 == j / 12);
        }
    }
    assert forall|c: Card| 2 <= c.value <= 13 implies full_deck().contains(c) by {
        let p = if c.suit == Suit::Spades {
            0int
        } else if c.suit == Suit::Hearts {
            1int
        } else if c.suit == Suit::Diamonds {
            2int
        } else {
            3int
        };
        let i = 12 * p + (c.value - 2);
        lemma_fundamental_div_mod_converse(i, 12, p, c.value - 2);
        assert(full_deck()[i] == c);
    }
    assert forall|c: Card| full_deck().contains(c) implies 2 <= c.value <= 13 by {
        let i = choose|i: int| 0 <= i < 48 && full_deck()[i] == c;
        assert(0 <= i % 12 < 12);
    }
}

/// Law: a draw consumes its card for good. Removing the last card of a
/// duplicate-free deck leaves a duplicate-free deck that no longer
/// contains the drawn card, so repeated draws return each card at most
/// once.
pub proof fn lemma_draw_consumes(cards: Seq<Card>)
    requires
        cards.no_duplicates(),
        cards.len() > 0,
    ensures
        !cards.drop_last().contains(cards.last()),
        cards.drop_last().no_duplicates(),
{
    if cards.drop_last().contains(cards.last()) {
        let i = choose|i: int| 0 <= i < cards.len() - 1 && cards.drop_last()[i] == cards.last();
        assert(cards[i] == cards[cards.len() - 1]);
    }
}

/// The deck of one round: built full, shuffled once, then only ever
/// consumed from the end.
pub struct Deck {
    cards: Vec<Card>,
}

impl View for Deck {
    type V = Seq<Card>;

    closed spec fn view(&self) -> Seq<Card> {
        self.cards@
    }
}

/// Relies on `rand::seq::SliceRandom::shuffle` (driven by
/// `rand::thread_rng`), which permutes the elements of the slice in
/// place and neither adds nor removes any.
#[verifier::external_body]
fn shuffle_cards(cards: &mut Vec<Card>)
    ensures
        final(cards)@.to_multiset() == old(cards)@.to_multiset(),
        final(cards)@.len() == old(cards)@.len(),
{
    cards.shuffle(&mut rand::thread_rng());
}

impl Deck {
    /// Builds the full cross product of the four suits with the values
    /// 2 through 13 and shuffles it. Whatever order the shuffle picked,
    /// the result holds exactly the 48 distinct cards of the full deck.
    pub fn new() -> (d: Deck)
        ensures
            d@.len() == 48,
            d@.to_multiset() == full_deck().to_multiset(),
            d@.no_duplicates(),
    {
        let mut cards: Vec<Card> = Vec::new();
        let mut s: usize = 0;
        while s < 4
            invariant
                s <= 4,
                cards@.len() == 12 * s,
                forall|k: int| 0 <= k < cards@.len() ==> cards@[k] == full_deck()[k],
            decreases 4 - s,
        {
            let suit = if s == 0 {
                Suit::Spades
            } else if s == 1 {
                Suit::Hearts
            } else if s == 2 {
                Suit::Diamonds
            } else {
                Suit::Clubs
            };
            let mut v: i32 = 2;
            while v < 14
                invariant
                    s < 4,
                    2 <= v <= 14,
                    suit == suit_index(s as int),
                    cards@.len() == 12 * s + (v - 2),
                    forall|k: int| 0 <= k < cards@.len() ==> cards@[k] == full_deck()[k],
                decreases 14 - v,
            {
                cards.push(Card { value: v, suit });
                proof {
                    let idx = 12 * (s as int) + (v as int - 2);
                    lemma_fundamental_div_mod_converse(idx, 12, s as int, v as int - 2);
                    assert(full_deck()[idx] == Card { value: v, suit });
                }
                v = v + 1;
            }
            s = s + 1;
        }
        proof {
            assert(cards@ =~= full_deck());
            lemma_full_deck_complete();
        }
        shuffle_cards(&mut cards);
        proof {
            broadcast use vstd::seq_lib::group_to_multiset_ensures;

            full_deck().lemma_multiset_has_no_duplicates();
            cards@.lemma_multiset_has_no_duplicates_conv();
        }
        Deck { cards }
    }

    /// Removes and returns the card on top of the shuffled order, or
    /// nothing once the deck is empty; an empty deck is left unchanged.
    pub fn draw(&mut self) -> (r: Option<Card>)
        ensures
            old(self)@.len() == 0 ==> r is None && final(self)@ == old(self)@,
            old(self)@.len() > 0 ==> r == Some(old(self)@.last()) && final(self)@ == old(
                self,
            )@.drop_last(),
    {
        self.cards.pop()
    }
}

} // verus!
