//! Bots: the numbers that a bot gives its moves, and the set of balls that
//! the bots of one team have already claimed.

use crate::player::{ClientId, SeqNr};
use crate::room::TPF;
use std::ops::{BitOr, BitOrAssign};
use vstd::prelude::*;

verus! {

/// Whether the bit for ball `bit` is set in `mask`. There are eight bits.
pub open spec fn mask_has(mask: u8, bit: int) -> bool {
    0 <= bit < 8 && (mask >> (bit as u8)) & 1 == 1
}

/// The union of two masks holds a ball exactly if one of them does.
pub proof fn lemma_union_has(a: u8, b: u8, bit: int)
    ensures
        mask_has(a | b, bit) == (mask_has(a, bit) || mask_has(b, bit)),
{
    if 0 <= bit < 8 {
        let k = bit as u8;
        assert(k < 8 ==> (((a | b) >> k) & 1 == 1) == (((a >> k) & 1 == 1) || ((b >> k) & 1
            == 1))) by (bit_vector);
    }
}

/// The empty mask holds no ball.
pub proof fn lemma_empty_has(bit: int)
    ensures
        !mask_has(0, bit),
{
    if 0 <= bit < 8 {
        let k = bit as u8;
        assert(k < 8 ==> (0u8 >> k) & 1 != 1) by (bit_vector);
    }
}

/// A mask with one more ball holds that ball and whatever it held before.
pub proof fn lemma_insert_has(mask: u8, added: int, bit: int)
    requires
        0 <= added < 8,
    ensures
        mask_has(mask | (1u8 << (added as u8)), bit) == (mask_has(mask, bit) || bit == added),
{
    if 0 <= bit < 8 {
        let k = bit as u8;
        let a = added as u8;
        assert(k < 8 && a < 8 ==> ((((mask | (1u8 << a)) >> k) & 1 == 1) == (((mask >> k) & 1
            == 1) || k == a))) by (bit_vector);
    }
}

/// Bitvector mask for which balls are handled.
#[derive(Copy, Clone)]
pub struct BallMask(u8);

impl View for BallMask {
    type V = u8;

    closed spec fn view(&self) -> u8 {
        self.0
    }
}

impl BallMask {
    /// The mask that holds no ball.
    pub fn new() -> (mask: Self)
        ensures
            mask@ == 0,
    {
        Self(0)
    }

    /// Whether ball `bit` is in the mask. Balls past the eighth never are.
    pub fn contains(&self, bit: usize) -> (held: bool)
        ensures
            held == mask_has(self@, bit as int),
    {
        if bit >= 8 {
            return false;
        }
        let k = bit as u8;
        let mask = self.0;
        assert((mask & (1u8 << k) > 0) == ((mask >> k) & 1 == 1)) by (bit_vector)
            requires
                k < 8,
        ;
        mask & (1u8 << k) > 0
    }

    /// Puts ball `bit` into the mask. Balls past the eighth are left out.
    pub fn insert(&mut self, bit: usize)
        ensures
            bit < 8 ==> final(self)@ == old(self)@ | (1u8 << (bit as u8)),
            bit >= 8 ==> final(self)@ == old(self)@,
            forall|other: int|
                mask_has(final(self)@, other) == (mask_has(old(self)@, other) || (other == bit
                    && bit < 8)),
    {
        if bit < 8 {
            let k = bit as u8;
            proof {
                assert forall|other: int|
                    mask_has(self.0 | (1u8 << k), other) == (mask_has(self.0, other) || other
                        == bit) by {
                    lemma_insert_has(self.0, bit as int, other);
                }
            }
            self.0 = self.0 | (1u8 << k);
        }
    }
}

impl BitOrAssign for BallMask {
    /// Adds the balls of `rhs`.
    fn bitor_assign(&mut self, rhs: Self)
        ensures
            final(self)@ == old(self)@ | rhs@,
    {
        self.0 = self.0 | rhs.0;
    }
}

impl vstd::std_specs::ops::BitOrSpecImpl for BallMask {
    open spec fn obeys_bitor_spec() -> bool {
        true
    }

    open spec fn bitor_req(self, rhs: Self) -> bool {
        true
    }

    closed spec fn bitor_spec(self, rhs: Self) -> BallMask {
        BallMask(self.0 | rhs.0)
    }
}

impl BitOr for BallMask {
    type Output = BallMask;

    /// The balls of both masks.
    fn bitor(self, rhs: Self) -> (union: BallMask)
        ensures
            union@ == self@ | rhs@,
    {
        Self(self.0 | rhs.0)
    }
}

/// A bot, as far as the order of its moves goes. A bot makes one move with
/// every server tick and numbers it `TPF` frames on from its last one.
pub struct Bot {
    id: ClientId,
    seq_nr: SeqNr,
}

impl Bot {
    /// The bot's id among the clients of its room.
    pub closed spec fn spec_id(&self) -> ClientId {
        self.id
    }

    /// The number of the bot's last move; zero before its first.
    pub closed spec fn last_seq_nr(&self) -> SeqNr {
        self.seq_nr
    }

    /// A bot that has made no move yet.
    pub fn new(id: ClientId) -> (bot: Self)
        ensures
            bot.spec_id() == id,
            bot.last_seq_nr() == 0,
    {
        Self { id, seq_nr: 0 }
    }

    /// The bot's id among the clients of its room.
    pub fn id(&self) -> (id: ClientId)
        ensures
            id == self.spec_id(),
    {
        self.id
    }

    /// The number for the move of this tick: `TPF` frames on from the last
    /// one, wrapping round at the counter's end. The first move of a bot is
    /// numbered `TPF`, so that a player without moves takes it.
    pub fn take_seq_nr(&mut self) -> (seq_nr: SeqNr)
        ensures
            seq_nr == old(self).last_seq_nr().wrapping_add(TPF),
            final(self).last_seq_nr() == seq_nr,
            final(self).spec_id() == old(self).spec_id(),
    {
        self.seq_nr = self.seq_nr.wrapping_add(TPF);
        self.seq_nr
    }
}

} // verus!
