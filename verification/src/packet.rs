//! Wire codec for one played card: a fixed five-byte packet holding
//! the card's value as a four-byte big-endian two's-complement integer
//! followed by the suit's one-byte code.

use vstd::prelude::*;
use vstd::arithmetic::div_mod::{
    lemma_div_denominator, lemma_div_is_ordered, lemma_div_pos_is_pos, lemma_fundamental_div_mod,
    lemma_mod_bound,
};
use crate::deck::{suit_of_code, suit_rank, Card, Suit};

verus! {

/// Each byte of `u` lies below 0x100, and the four of them recompose
/// `u` at their big-endian weights.
proof fn lemma_be_bytes_recompose(u: u32)
    ensures
        0 <= u / 0x100_0000 < 0x100,
        0 <= (u / 0x1_0000) % 0x100 < 0x100,
        0 <= (u / 0x100) % 0x100 < 0x100,
        0 <= u % 0x100 < 0x100,
        u == 0x100_0000 * (u / 0x100_0000) + 0x1_0000 * ((u / 0x1_0000) % 0x100) + 0x100 * ((u
            / 0x100) % 0x100) + u % 0x100,
{
    lemma_div_pos_is_pos(u as int, 0x100_0000);
    lemma_div_is_ordered(u as int, 0xffff_ffff, 0x100_0000);
    lemma_mod_bound(u as int, 0x100);
    lemma_mod_bound(u as int / 0x100, 0x100);
    lemma_mod_bound(u as int / 0x1_0000, 0x100);
    lemma_fundamental_div_mod(u as int, 0x100);
    lemma_fundamental_div_mod(u as int / 0x100, 0x100);
    lemma_fundamental_div_mod(u as int / 0x1_0000, 0x100);
    lemma_div_denominator(u as int, 0x100, 0x100);
    lemma_div_denominator(u as int, 0x1_0000, 0x100);
}

/// The unsigned residue of a signed 32-bit value: the number its four
/// two's-complement bytes spell.
pub open spec fn u32_of_i32(v: i32) -> u32 {
    (if v >= 0 {
        v as int
    } else {
        v as int + 0x1_0000_0000
    }) as u32
}

/// The signed 32-bit value whose unsigned residue is `u`.
pub open spec fn i32_of_u32(u: u32) -> i32 {
    (if u < 0x8000_0000 {
        u as int
    } else {
        u as int - 0x1_0000_0000
    }) as i32
}

/// The four bytes of `u`, most significant first.
pub open spec fn be_bytes_of_u32(u: u32) -> Seq<u8> {
    seq![
        (u / 0x100_0000) as u8,
        ((u / 0x1_0000) % 0x100) as u8,
        ((u / 0x100) % 0x100) as u8,
        (u % 0x100) as u8,
    ]
}

/// The number that four big-endian bytes spell.
pub open spec fn u32_of_be_bytes(b0: u8, b1: u8, b2: u8, b3: u8) -> u32 {
    (b0 * 0x100_0000 + b1 * 0x1_0000 + b2 * 0x100 + b3) as u32
}

/// A single played card as it crosses the wire.
#[derive(Debug, Eq, PartialEq, Structural)]
pub struct ClientPacket {
    pub card: Card,
}

/// The canonical five-byte encoding of a card: its value as four
/// big-endian two's-complement bytes, then its suit code.
pub open spec fn packet_bytes(c: Card) -> Seq<u8> {
    be_bytes_of_u32(u32_of_i32(c.value)) + seq![suit_rank(c.suit)]
}

/// What a byte string decodes to: nothing when it is shorter than five
/// bytes or when its fifth byte is no suit code; otherwise the packet
/// wrapping the card the first five bytes spell. Bytes past the fifth
/// are ignored.
pub open spec fn packet_of_bytes(b: Seq<u8>) -> Option<ClientPacket> {
    if b.len() < 5 {
        None
    } else {
        match suit_of_code(b[4]) {
            Some(suit) => Some(
                ClientPacket {
                    card: Card {
                        value: i32_of_u32(u32_of_be_bytes(b[0], b[1], b[2], b[3])),
                        suit,
                    },
                },
            ),
            None => None,
        }
    }
}

impl ClientPacket {
    /// Encodes the wrapped card as exactly its canonical five bytes.
    pub fn to_bytes(&self) -> (r: Vec<u8>)
        ensures
            r@ == packet_bytes(self.card),
            r@.len() == 5,
    {
        let v: i32 = self.card.value;
        let n: u32 = if v >= 0 {
            v as u32
        } else {
            ((v as i64) + 0x1_0000_0000i64) as u32
        };
        assert(n == u32_of_i32(v));
        proof {
            lemma_be_bytes_recompose(n);
        }
        let b0: u8 = (n / 0x100_0000) as u8;
        let b1: u8 = ((n / 0x1_0000) % 0x100) as u8;
        let b2: u8 = ((n / 0x100) % 0x100) as u8;
        let b3: u8 = (n % 0x100) as u8;
        let mut r: Vec<u8> = Vec::new();
        r.push(b0);
        r.push(b1);
        r.push(b2);
        r.push(b3);
        r.push(self.card.suit.rank());
        proof {
            assert(r@ =~= packet_bytes(self.card));
        }
        r
    }

    /// Decodes five or more bytes back to a packet; yields nothing for
    /// fewer than five bytes or a fifth byte that is no suit code.
    pub fn from_bytes(bytes: &[u8]) -> (r: Option<ClientPacket>)
        ensures
            r == packet_of_bytes(bytes@),
    {
        if bytes.len() < 5 {
            return None;
        }
        let b0 = bytes[0];
        let b1 = bytes[1];
        let b2 = bytes[2];
        let b3 = bytes[3];
        let n: u32 = (b0 as u32) * 0x100_0000 + (b1 as u32) * 0x1_0000 + (b2 as u32) * 0x100 + (
        b3 as u32);
        assert(n == u32_of_be_bytes(b0, b1, b2, b3));
        let value: i32 = if n < 0x8000_0000 {
            n as i32
        } else {
            ((n as i64) - 0x1_0000_0000i64) as i32
        };
        assert(value == i32_of_u32(n));
        let tail: [u8; 1] = [bytes[4]];
        proof {
            assert(tail@ =~= seq![bytes@[4]]);
        }
        match Suit::from_be_bytes(tail) {
            Some(suit) => Some(ClientPacket { card: Card { value, suit } }),
            None => None,
        }
    }
}

/// Law: decoding inverts encoding. For every card, the canonical five
/// bytes decode back to exactly the packet wrapping that card.
pub proof fn lemma_packet_round_trip(c: Card)
    ensures
        packet_of_bytes(packet_bytes(c)) == Some(ClientPacket { card: c }),
{
    let u = u32_of_i32(c.value);
    lemma_be_bytes_recompose(u);
    let b0 = (u / 0x100_0000) as u8;
    let b1 = ((u / 0x1_0000) % 0x100) as u8;
    let b2 = ((u / 0x100) % 0x100) as u8;
    let b3 = (u % 0x100) as u8;
    assert(u32_of_be_bytes(b0, b1, b2, b3) == u);
    assert(i32_of_u32(u) == c.value);
    crate::deck::lemma_suit_code_bijective();
    assert(packet_bytes(c)[4] == suit_rank(c.suit));
    assert(packet_of_bytes(packet_bytes(c)) == Some(ClientPacket { card: c }));
}

} // verus!
