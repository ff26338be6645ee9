//! What a room draws and counts: the kind of the next power-up, from a
//! generator seeded with the room's id, and the sector that the next ball is
//! thrown into.

use crate::powerup::{effect_of_index, PowerUpEffectType};
use rand::rngs::SmallRng;
use rand::{Rng, SeedableRng};
use vstd::prelude::*;

verus! {

/// The small fast generator of the `rand` crate. Its state is not looked
/// into.
#[verifier::external_type_specification]
#[verifier::external_body]
pub struct ExSmallRng(SmallRng);

/// The generator that `SmallRng::seed_from_u64` of `rand` makes of `seed`.
/// It is a function of the seed alone: the same seed gives the same
/// generator. What the generator's state is, is not said.
pub uninterp spec fn seeded_generator(seed: u64) -> SmallRng;

/// `SmallRng::seed_from_u64` of `rand`: a generator started from `seed`,
/// the same for the same seed. This is assumed of `rand`, not proved here.
#[verifier::external_body]
fn seeded_rng(seed: u64) -> (rng: SmallRng)
    ensures
        rng == seeded_generator(seed),
{
    SmallRng::seed_from_u64(seed)
}

/// The number that `Rng::gen_range` of `rand` draws from `low..=high` with
/// the generator `rng`. It is a function of the generator and the bounds
/// alone; which number it is, is not said.
pub uninterp spec fn drawn_in_range(rng: SmallRng, low: i32, high: i32) -> i32;

/// The generator as `Rng::gen_range` of `rand` leaves it after a draw from
/// `low..=high` with the generator `rng`.
pub uninterp spec fn generator_after_draw(rng: SmallRng, low: i32, high: i32) -> SmallRng;

/// `Rng::gen_range` of `rand` on the range `low..=high`, which must not be
/// empty: the number drawn lies in the range, and both it and the generator
/// afterwards follow from the generator before and the bounds. This is
/// assumed of `rand`, not proved here.
#[verifier::external_body]
fn draw_in_range(rng: &mut SmallRng, low: i32, high: i32) -> (drawn: i32)
    requires
        low <= high,
    ensures
        low <= drawn <= high,
        drawn == drawn_in_range(*old(rng), low, high),
        *final(rng) == generator_after_draw(*old(rng), low, high),
{
    rng.gen_range(low..=high)
}

/// The number of the first effect kind.
pub const FIRST_EFFECT: i32 = 0;

/// The number of the last effect kind.
pub const LAST_EFFECT: i32 = 4;

/// The effect kind that a tracker with the generator `rng` draws next: the
/// kind with the number drawn from the numbers of all kinds.
pub open spec fn effect_drawn(rng: SmallRng) -> PowerUpEffectType {
    effect_of_index(drawn_in_range(rng, FIRST_EFFECT, LAST_EFFECT) as u8)
}

/// The generator of a tracker after it drew an effect kind.
pub open spec fn generator_after_effect(rng: SmallRng) -> SmallRng {
    generator_after_draw(rng, FIRST_EFFECT, LAST_EFFECT)
}

/// The draws and the count of one room.
pub struct Tracker {
    /// Specifies which sector (mod TEAMS(=SECTORS)) the next ball is thrown at.
    /// This is for fairness.
    next_ball_thrown: u32,
    /// Random number generation for stuff like power up locations.
    rng: SmallRng,
}

impl Tracker {
    /// The sector that the next ball is thrown into, counted on from the
    /// start of the match without reducing it to the number of sectors.
    pub closed spec fn next_sector(&self) -> u32 {
        self.next_ball_thrown
    }

    /// The generator as it stands.
    pub closed spec fn generator(&self) -> SmallRng {
        self.rng
    }

    /// Creates a new tracker: balls are thrown from the first sector, and
    /// the generator is the one that `seed` starts, so that trackers made
    /// of the same seed draw alike.
    pub fn new(seed: u64) -> (tracker: Self)
        ensures
            tracker.next_sector() == 0,
            tracker.generator() == seeded_generator(seed),
    {
        Self { next_ball_thrown: 0, rng: seeded_rng(seed) }
    }

    /// Resets the tracker: balls are thrown from the first sector again.
    /// The generator goes on where it stands.
    pub fn reset(&mut self)
        ensures
            final(self).next_sector() == 0,
            final(self).generator() == old(self).generator(),
    {
        self.next_ball_thrown = 0;
    }

    /// The generator, for draws that this module does not make itself.
    pub fn rng_mut(&mut self) -> (rng: &mut SmallRng)
        ensures
            *rng == old(self).generator(),
            final(self).generator() == *final(rng),
            final(self).next_sector() == old(self).next_sector(),
    {
        &mut self.rng
    }

    /// Returns the next powerup type: one number is drawn from the numbers
    /// of the five kinds, and the kind with that number is returned.
    pub fn next_powerup_type(&mut self) -> (effect: PowerUpEffectType)
        ensures
            effect == effect_drawn(old(self).generator()),
            final(self).generator() == generator_after_effect(old(self).generator()),
            final(self).next_sector() == old(self).next_sector(),
    {
        let drawn = draw_in_range(&mut self.rng, FIRST_EFFECT, LAST_EFFECT);
        PowerUpEffectType::from_index(drawn as u8)
    }

    /// Returns the sector that the next ball is thrown into and counts one
    /// sector on, wrapping round at the counter's end.
    pub fn next_ball_sector(&mut self) -> (sector: u32)
        ensures
            sector == old(self).next_sector(),
            final(self).next_sector() == old(self).next_sector().wrapping_add(1),
            final(self).generator() == old(self).generator(),
    {
        let sector = self.next_ball_thrown;
        self.next_ball_thrown = self.next_ball_thrown.wrapping_add(1);
        sector
    }
}

} // verus!
