//! A ball's history of snapshots, and what one step of the simulation does to
//! the part of a snapshot that is not geometry: who hit the ball last, who is
//! to receive it, the rally count and the double-hit guard.
//!
//! The geometry itself (positions, directions, spin) is the payload `B` of a
//! snapshot. This module moves it around and never looks inside.

use crate::circular_buffer::{pushed, rewound, CircularBuffer};
use crate::powerup::{PowerUpEffect, PowerUpEffectType};
use crate::protocol::{pack_index_rally, BallSync};
use crate::room::MAX_TEAMS;
use vstd::prelude::*;

verus! {

/// How many snapshots a ball keeps.
pub const MOVEMENT_BUFFER_CAP: usize = 6;

/// The team number that stands for "no team".
pub const NO_TEAM: u8 = 15;

/// The highest rally count a ball shows.
pub const MAX_RALLIES: u8 = 5;

/// Two team numbers in one byte.
pub open spec fn pack(hit_team: u8, receiving_team: u8) -> u8 {
    (hit_team << 4) | receiving_team
}

/// The team in the upper half of a packed byte.
pub open spec fn hit_of(packed: u8) -> u8 {
    packed >> 4
}

/// The team in the lower half of a packed byte.
pub open spec fn receiving_of(packed: u8) -> u8 {
    packed & 15
}

/// Team numbers below sixteen come out of the byte as they went in.
pub proof fn lemma_pack_unpack(hit_team: u8, receiving_team: u8)
    requires
        hit_team < 16,
        receiving_team < 16,
    ensures
        hit_of(pack(hit_team, receiving_team)) == hit_team,
        receiving_of(pack(hit_team, receiving_team)) == receiving_team,
{
    assert(hit_team < 16 && receiving_team < 16 ==> ((hit_team << 4) | receiving_team) >> 4
        == hit_team) by (bit_vector);
    assert(hit_team < 16 && receiving_team < 16 ==> ((hit_team << 4) | receiving_team) & 15
        == receiving_team) by (bit_vector);
}

/// Whatever was packed, both halves read back as numbers below sixteen.
pub proof fn lemma_unpack_bounds(packed: u8)
    ensures
        hit_of(packed) < 16,
        receiving_of(packed) < 16,
{
    assert(packed >> 4 < 16) by (bit_vector);
    assert(packed & 15 < 16) by (bit_vector);
}

/// The team that hit the ball last and the team that is to receive it.
#[derive(Copy, Clone)]
pub struct HitPair(u8);

impl View for HitPair {
    type V = u8;

    closed spec fn view(&self) -> u8 {
        self.0
    }
}

impl HitPair {
    /// Packs the two teams. Each has four bits: team numbers below sixteen
    /// are kept as they are.
    pub fn new(hit_team: u8, receiving_team: u8) -> (p: Self)
        ensures
            p@ == pack(hit_team, receiving_team),
            hit_team < 16 && receiving_team < 16 ==> hit_of(p@) == hit_team && receiving_of(p@)
                == receiving_team,
    {
        proof {
            if hit_team < 16 && receiving_team < 16 {
                lemma_pack_unpack(hit_team, receiving_team);
            }
        }
        Self((hit_team << 4) | receiving_team)
    }

    /// The pair of a ball that no team has touched.
    pub fn none() -> (p: Self)
        ensures
            p@ == pack(NO_TEAM, NO_TEAM),
            hit_of(p@) == NO_TEAM,
            receiving_of(p@) == NO_TEAM,
    {
        proof {
            lemma_pack_unpack(NO_TEAM, NO_TEAM);
        }
        Self::new(NO_TEAM, NO_TEAM)
    }

    /// The team that hit the ball last.
    pub fn hit_team(&self) -> (team: u8)
        ensures
            team == hit_of(self@),
            team < 16,
    {
        proof {
            lemma_unpack_bounds(self.0);
        }
        self.0 >> 4
    }

    /// The team that is to receive the ball.
    pub fn receiving_team(&self) -> (team: u8)
        ensures
            team == receiving_of(self@),
            team < 16,
    {
        proof {
            lemma_unpack_bounds(self.0);
        }
        self.0 & 15
    }
}

/// What one step of a ball ended in.
#[derive(Debug, Copy, Clone, PartialEq, Eq, Structural)]
pub enum BallTickResult {
    /// No special event happened.
    Nothing,
    /// Ball went outside circle.
    Outside,
    /// A regular bounce.
    Bounce,
}

/// One snapshot of a ball, as a plain value.
pub struct Snapshot<B> {
    /// The geometry of the ball.
    pub base: B,
    /// Set on the snapshot a bounce produced, and on the one before it once
    /// the bounce is committed: no paddle is tested from such a snapshot.
    pub ignore_player_collision: bool,
    /// The packed pair of the team that hit last and the team to receive.
    pub hit_pair: u8,
    /// Paddle hits since the ball was thrown in, at most `MAX_RALLIES`.
    pub rally: u8,
}

/// What the ball's path met at a paddle during one step.
#[derive(Copy)]
pub enum PaddleContact<B: Copy> {
    /// The path crossed no paddle.
    Miss,
    /// The path crossed a paddle while the ball was already moving away
    /// from its face.
    Double,
    /// The path crossed the paddle of `team`; `bounced` is the geometry of
    /// the ball at the point of contact, reflected.
    Hit { team: u8, bounced: B },
}

impl<B: Copy> Clone for PaddleContact<B> {
    fn clone(&self) -> (copy: Self)
        ensures
            copy == *self,
    {
        *self
    }
}

/// What the geometry of one step found, before any rule is applied.
#[derive(Copy)]
pub struct TickProbe<B: Copy> {
    /// The geometry after an unhindered advance.
    pub advanced: B,
    /// The first paddle that the path crossed, if any.
    pub contact: PaddleContact<B>,
    /// The sector through which the ball left the field, if it did.
    pub escaped_through: Option<u8>,
    /// The effect of the power-up that the path crossed, if any.
    pub power_up: Option<PowerUpEffectType>,
}

impl<B: Copy> Clone for TickProbe<B> {
    fn clone(&self) -> (copy: Self)
        ensures
            copy == *self,
    {
        *self
    }
}

/// Whether the teams that a probe names are teams: the team of a paddle
/// that was hit and the sector that the ball left through are numbers below
/// `MAX_TEAMS`.
pub open spec fn probe_names_teams<B: Copy>(probe: TickProbe<B>) -> bool {
    &&& probe.contact matches PaddleContact::Hit { team, .. } ==> team < MAX_TEAMS
    &&& probe.escaped_through matches Some(sector) ==> sector < MAX_TEAMS
}

/// The history of a ball that was just thrown in with the geometry `base`:
/// untouched by any team, no rally, open to paddle hits, in every snapshot.
pub open spec fn fresh_history<B>(base: B) -> Seq<Snapshot<B>> {
    Seq::new(
        MOVEMENT_BUFFER_CAP as nat,
        |i: int|
            Snapshot {
                base,
                ignore_player_collision: false,
                hit_pair: pack(NO_TEAM, NO_TEAM),
                rally: 0,
            },
    )
}

/// The snapshot of a ball that is thrown in again with the geometry `base`.
pub open spec fn thrown_in<B>(base: B) -> Snapshot<B> {
    Snapshot { base, ignore_player_collision: false, hit_pair: pack(NO_TEAM, NO_TEAM), rally: 0 }
}

/// A step keeps the team that hit the ball unless a paddle hits it; a bounce
/// names the team of the paddle, and a ball that leaves the field with no
/// receiver named gets the sector it left through as receiver.
pub proof fn lemma_tick_teams<B: Copy>(last: Snapshot<B>, probe: TickProbe<B>)
    requires
        probe_names_teams(probe),
    ensures
        tick_result(last, probe) != BallTickResult::Bounce ==> hit_of(
            tick_snapshot(last, probe).hit_pair,
        ) == hit_of(last.hit_pair),
        tick_result(last, probe) == BallTickResult::Bounce ==> (effective_contact(
            last,
            probe,
        ) matches PaddleContact::Hit { team, .. } && hit_of(tick_snapshot(last, probe).hit_pair)
            == team && receiving_of(tick_snapshot(last, probe).hit_pair) == NO_TEAM),
        tick_result(last, probe) == BallTickResult::Outside ==> receiving_of(
            tick_snapshot(last, probe).hit_pair,
        ) == if receiving_of(last.hit_pair) == NO_TEAM {
            probe.escaped_through->0
        } else {
            receiving_of(last.hit_pair)
        },
{
    lemma_unpack_bounds(last.hit_pair);
    match effective_contact(last, probe) {
        PaddleContact::Hit { team, bounced } => {
            lemma_pack_unpack(team, NO_TEAM);
        },
        PaddleContact::Double => {},
        PaddleContact::Miss => {
            match probe.escaped_through {
                Some(sector) => {
                    lemma_pack_unpack(hit_of(last.hit_pair), sector);
                },
                None => {},
            }
        },
    }
}

/// The rally count after one more paddle hit.
pub open spec fn next_rally(rally: u8) -> u8 {
    if rally < MAX_RALLIES {
        (rally + 1) as u8
    } else {
        MAX_RALLIES
    }
}

/// The snapshot after a step in which nothing touched the ball.
pub open spec fn clean_advance<B: Copy>(last: Snapshot<B>, probe: TickProbe<B>) -> Snapshot<B> {
    Snapshot {
        base: probe.advanced,
        ignore_player_collision: false,
        hit_pair: last.hit_pair,
        rally: last.rally,
    }
}

/// The contact that counts: none at all from a snapshot that ignores paddles.
pub open spec fn effective_contact<B: Copy>(last: Snapshot<B>, probe: TickProbe<B>)
    -> PaddleContact<B> {
    if last.ignore_player_collision {
        PaddleContact::Miss
    } else {
        probe.contact
    }
}

/// The event that a step from `last` ends in.
pub open spec fn tick_result<B: Copy>(last: Snapshot<B>, probe: TickProbe<B>) -> BallTickResult {
    match effective_contact(last, probe) {
        PaddleContact::Hit { .. } => BallTickResult::Bounce,
        PaddleContact::Double => BallTickResult::Nothing,
        PaddleContact::Miss => if probe.escaped_through is Some {
            BallTickResult::Outside
        } else {
            BallTickResult::Nothing
        },
    }
}

/// The snapshot that a step from `last` produces.
///
/// A bounce puts the ball at the point of contact, guards it against a second
/// hit, names the hitting team with no receiver and counts one more rally. A
/// ball that left the field keeps its clean advance; the sector it left
/// through becomes the receiving team unless one was already named.
pub open spec fn tick_snapshot<B: Copy>(last: Snapshot<B>, probe: TickProbe<B>) -> Snapshot<B> {
    match effective_contact(last, probe) {
        PaddleContact::Hit { team, bounced } => Snapshot {
            base: bounced,
            ignore_player_collision: true,
            hit_pair: pack(team, NO_TEAM),
            rally: next_rally(last.rally),
        },
        PaddleContact::Double => clean_advance(last, probe),
        PaddleContact::Miss => match probe.escaped_through {
            Some(sector) => if receiving_of(last.hit_pair) == NO_TEAM {
                Snapshot {
                    hit_pair: pack(hit_of(last.hit_pair), sector),
                    ..clean_advance(last, probe)
                }
            } else {
                clean_advance(last, probe)
            },
            None => clean_advance(last, probe),
        },
    }
}

/// The effect that a step from `last` activates: the power-up on the path,
/// for the team that hit the ball last, if any team did.
pub open spec fn tick_power_up<B: Copy>(last: Snapshot<B>, probe: TickProbe<B>) -> Option<
    PowerUpEffect,
> {
    match probe.power_up {
        Some(effect_type) => if hit_of(last.hit_pair) != NO_TEAM {
            Some(PowerUpEffect { effect_type, activating_team: hit_of(last.hit_pair) })
        } else {
            None
        },
        None => None,
    }
}

/// The history after a step from the newest snapshot was committed: a bounce
/// marks the snapshot it started from, then the new snapshot is pushed.
pub open spec fn committed<B: Copy>(
    history: Seq<Snapshot<B>>,
    result: BallTickResult,
    next: Snapshot<B>,
) -> Seq<Snapshot<B>> {
    let marked = if result == BallTickResult::Bounce {
        history.update(
            history.len() - 1,
            Snapshot { ignore_player_collision: true, ..history.last() },
        )
    } else {
        history
    };
    pushed(marked, next)
}

/// One entry of a ball's history.
#[derive(Copy)]
pub struct BallHistoryData<B: Copy> {
    base: B,
    ignore_player_collision: bool,
    hit_pair: HitPair,
    rally: u8,
}

impl<B: Copy> Clone for BallHistoryData<B> {
    fn clone(&self) -> (copy: Self)
        ensures
            copy == *self,
    {
        *self
    }
}

impl<B: Copy> View for BallHistoryData<B> {
    type V = Snapshot<B>;

    closed spec fn view(&self) -> Snapshot<B> {
        Snapshot {
            base: self.base,
            ignore_player_collision: self.ignore_player_collision,
            hit_pair: self.hit_pair@,
            rally: self.rally,
        }
    }
}

impl<B: Copy> BallHistoryData<B> {
    #[verifier::type_invariant]
    spec fn inv(self) -> bool {
        self.rally <= MAX_RALLIES
    }

    /// The geometry of the snapshot.
    pub fn base(&self) -> (base: B)
        ensures
            base == self@.base,
    {
        self.base
    }

    /// Whether no paddle is tested from this snapshot.
    pub fn ignore_player_collision(&self) -> (ignore: bool)
        ensures
            ignore == self@.ignore_player_collision,
    {
        self.ignore_player_collision
    }

    /// The hitting and the receiving team.
    pub fn hit_pair(&self) -> (pair: HitPair)
        ensures
            pair@ == self@.hit_pair,
    {
        self.hit_pair
    }

    /// The rally count, which never exceeds `MAX_RALLIES`.
    pub fn rally(&self) -> (rally: u8)
        ensures
            rally == self@.rally,
            rally <= MAX_RALLIES,
    {
        proof {
            use_type_invariant(self);
        }
        self.rally
    }
}

/// A ball: its present state and the five states before it.
pub struct Ball<B: Copy> {
    moves: CircularBuffer<BallHistoryData<B>, MOVEMENT_BUFFER_CAP>,
}

impl<B: Copy> View for Ball<B> {
    type V = Seq<Snapshot<B>>;

    /// The history, oldest snapshot first; the last one is the present.
    closed spec fn view(&self) -> Seq<Snapshot<B>> {
        Seq::new(MOVEMENT_BUFFER_CAP as nat, |i: int| self.moves@[i]@)
    }
}

/// Whether every snapshot of a history has a rally count within bounds.
pub open spec fn rallies_bounded<B>(history: Seq<Snapshot<B>>) -> bool {
    forall|i: int| 0 <= i < history.len() ==> (#[trigger] history[i]).rally <= MAX_RALLIES
}

/// Whether every entry of a stored history has a rally count within bounds.
spec fn all_bounded<B: Copy>(entries: Seq<BallHistoryData<B>>) -> bool {
    forall|i: int| 0 <= i < entries.len() ==> (#[trigger] entries[i])@.rally <= MAX_RALLIES
}

proof fn lemma_rewound_bounded<B: Copy>(entries: Seq<BallHistoryData<B>>, k: int)
    requires
        all_bounded(entries),
        0 <= k < entries.len(),
    ensures
        all_bounded(rewound(entries, k)),
{
}

proof fn lemma_pushed_bounded<B: Copy>(entries: Seq<BallHistoryData<B>>, x: BallHistoryData<B>)
    requires
        all_bounded(entries),
        entries.len() > 0,
        x@.rally <= MAX_RALLIES,
    ensures
        all_bounded(pushed(entries, x)),
{
}

impl<B: Copy> Ball<B> {
    #[verifier::type_invariant]
    spec fn inv(self) -> bool {
        all_bounded(self.moves@)
    }

    /// Overwrites the present: a rewind by one snapshot puts the cursor on
    /// it, and the push that follows takes its place.
    fn replace_last(&mut self, renewed: BallHistoryData<B>)
        ensures
            final(self)@ == old(self)@.update(MOVEMENT_BUFFER_CAP - 1, renewed@),
            rallies_bounded(final(self)@),
    {
        proof {
            use_type_invariant(&*self);
            use_type_invariant(&renewed);
            self.moves.lemma_len();
            lemma_rewound_bounded(self.moves@, 1);
            lemma_pushed_bounded(rewound(self.moves@, 1), renewed);
        }
        self.moves.rewind(1);
        self.moves.push(renewed);
    }

    /// A ball's history always holds exactly `MOVEMENT_BUFFER_CAP` snapshots.
    pub proof fn lemma_history_len(&self)
        ensures
            self@.len() == MOVEMENT_BUFFER_CAP,
    {
    }

    /// Creates a new ball whose whole history is the state it is thrown in
    /// with: untouched by any team, no rally, open to paddle hits.
    pub fn new(base: B) -> (ball: Self)
        ensures
            ball@ == fresh_history(base),
            rallies_bounded(ball@),
    {
        let initial = BallHistoryData {
            base,
            ignore_player_collision: false,
            hit_pair: HitPair::none(),
            rally: 0,
        };
        let ball = Self { moves: CircularBuffer::new(initial) };
        assert(ball@ =~= fresh_history(base));
        ball
    }

    /// The snapshot at `time_index` (modulo the history's length).
    pub fn snapshot(&self, time_index: usize) -> (entry: BallHistoryData<B>)
        ensures
            entry@ == self@[time_index as int % MOVEMENT_BUFFER_CAP as int],
            entry@.rally <= MAX_RALLIES,
    {
        let entry = self.moves[time_index];
        proof {
            use_type_invariant(&entry);
        }
        entry
    }

    /// Last rally count.
    pub fn last_rally(&self) -> (rally: u8)
        ensures
            rally == self@.last().rally,
            rally <= MAX_RALLIES,
    {
        self.moves.last().rally()
    }

    /// Last hit pair.
    pub fn last_hit_pair(&self) -> (pair: HitPair)
        ensures
            pair@ == self@.last().hit_pair,
    {
        self.moves.last().hit_pair()
    }

    /// Last hit team.
    pub fn last_hit_team(&self) -> (team: u8)
        ensures
            team == hit_of(self@.last().hit_pair),
    {
        self.moves.last().hit_pair().hit_team()
    }

    /// Get characteristics: the geometry of the present.
    pub fn characteristics(&self) -> (base: B)
        ensures
            base == self@.last().base,
    {
        self.moves.last().base()
    }

    /// Reset characteristics: the present gets a new geometry.
    pub fn reset_characteristics(&mut self, base: B)
        ensures
            final(self)@ == old(self)@.update(
                MOVEMENT_BUFFER_CAP - 1,
                Snapshot { base, ..old(self)@.last() },
            ),
            rallies_bounded(final(self)@),
    {
        proof {
            use_type_invariant(&*self);
        }
        let last = *self.moves.last();
        proof {
            use_type_invariant(&last);
        }
        self.replace_last(BallHistoryData { base, ..last });
    }

    /// Reset other fields: the present forgets who hit the ball and how
    /// often, and is open to paddle hits again.
    pub fn reset_other_fields_for_respawn(&mut self)
        ensures
            final(self)@ == old(self)@.update(
                MOVEMENT_BUFFER_CAP - 1,
                Snapshot {
                    base: old(self)@.last().base,
                    ignore_player_collision: false,
                    hit_pair: pack(NO_TEAM, NO_TEAM),
                    rally: 0,
                },
            ),
            rallies_bounded(final(self)@),
    {
        proof {
            use_type_invariant(&*self);
        }
        let last = *self.moves.last();
        self.replace_last(
            BallHistoryData {
                base: last.base,
                ignore_player_collision: false,
                hit_pair: HitPair::none(),
                rally: 0,
            },
        );
    }

    /// Rewrite history: the cursor goes back by `amount` snapshots (modulo
    /// the history's length) and `rewritten_history` is pushed in their place.
    pub fn rewind_and_apply(&mut self, amount: usize, rewritten_history: BallHistoryData<B>)
        ensures
            final(self)@ == pushed(
                rewound(old(self)@, amount as int % MOVEMENT_BUFFER_CAP as int),
                rewritten_history@,
            ),
            rallies_bounded(final(self)@),
    {
        proof {
            use_type_invariant(&*self);
            use_type_invariant(&rewritten_history);
            self.moves.lemma_len();
            let k = amount as int % MOVEMENT_BUFFER_CAP as int;
            lemma_rewound_bounded(self.moves@, k);
            lemma_pushed_bounded(rewound(self.moves@, k), rewritten_history);
        }
        self.moves.rewind(amount);
        self.moves.push(rewritten_history);
        assert(self@ =~= pushed(
            rewound(old(self)@, amount as int % MOVEMENT_BUFFER_CAP as int),
            rewritten_history@,
        ));
    }

    /// Tick without updating self state: applies the rules of one step to
    /// the snapshot at `time_index` (modulo the history's length), given what
    /// the geometry of that step found.
    pub fn tick_no_update(&self, probe: TickProbe<B>, time_index: usize) -> (out: (
        BallTickResult,
        Option<PowerUpEffect>,
        BallHistoryData<B>,
    ))
        requires
            probe_names_teams(probe),
        ensures
            out.0 == tick_result(self@[time_index as int % MOVEMENT_BUFFER_CAP as int], probe),
            out.1 == tick_power_up(self@[time_index as int % MOVEMENT_BUFFER_CAP as int], probe),
            out.2@ == tick_snapshot(self@[time_index as int % MOVEMENT_BUFFER_CAP as int], probe),
            out.2@.rally <= MAX_RALLIES,
            out.0 != BallTickResult::Bounce ==> hit_of(out.2@.hit_pair) == hit_of(
                self@[time_index as int % MOVEMENT_BUFFER_CAP as int].hit_pair,
            ),
    {
        let last = self.moves[time_index];
        proof {
            use_type_invariant(&last);
            lemma_tick_teams(last@, probe);
        }
        let hit_team = last.hit_pair.hit_team();

        let power_up_effect = match probe.power_up {
            Some(effect_type) => if hit_team != NO_TEAM {
                Some(PowerUpEffect { effect_type, activating_team: hit_team })
            } else {
                None
            },
            None => None,
        };

        let clean = BallHistoryData {
            base: probe.advanced,
            ignore_player_collision: false,
            hit_pair: last.hit_pair,
            rally: last.rally,
        };
        let contact = if last.ignore_player_collision {
            PaddleContact::Miss
        } else {
            probe.contact
        };

        match contact {
            PaddleContact::Hit { team, bounced } => {
                let rally = if last.rally < MAX_RALLIES {
                    last.rally + 1
                } else {
                    MAX_RALLIES
                };
                (
                    BallTickResult::Bounce,
                    power_up_effect,
                    BallHistoryData {
                        base: bounced,
                        ignore_player_collision: true,
                        hit_pair: HitPair::new(team, NO_TEAM),
                        rally,
                    },
                )
            },
            PaddleContact::Double => (BallTickResult::Nothing, power_up_effect, clean),
            PaddleContact::Miss => match probe.escaped_through {
                Some(sector) => {
                    let history = if last.hit_pair.receiving_team() == NO_TEAM {
                        BallHistoryData { hit_pair: HitPair::new(hit_team, sector), ..clean }
                    } else {
                        clean
                    };
                    (BallTickResult::Outside, power_up_effect, history)
                },
                None => (BallTickResult::Nothing, power_up_effect, clean),
            },
        }
    }

    /// One step of the ball from the snapshot at `time_index`, committed to
    /// the history.
    pub fn tick(&mut self, probe: TickProbe<B>, time_index: usize) -> (out: (
        BallTickResult,
        Option<PowerUpEffect>,
    ))
        requires
            probe_names_teams(probe),
        ensures
            out.0 == tick_result(old(self)@[time_index as int % MOVEMENT_BUFFER_CAP as int], probe),
            out.1 == tick_power_up(
                old(self)@[time_index as int % MOVEMENT_BUFFER_CAP as int],
                probe,
            ),
            final(self)@ == committed(
                old(self)@,
                out.0,
                tick_snapshot(old(self)@[time_index as int % MOVEMENT_BUFFER_CAP as int], probe),
            ),
            rallies_bounded(final(self)@),
    {
        proof {
            use_type_invariant(&*self);
        }
        let (result, power_up_effect, history) = self.tick_no_update(probe, time_index);
        proof {
            use_type_invariant(&history);
        }
        if result == BallTickResult::Bounce {
            let last = *self.moves.last();
            proof {
                use_type_invariant(&last);
            }
            self.replace_last(BallHistoryData { ignore_player_collision: true, ..last });
        }
        proof {
            use_type_invariant(&*self);
            self.moves.lemma_len();
            lemma_pushed_bounded(self.moves@, history);
        }
        self.moves.push(history);
        assert(self@ =~= committed(
            old(self)@,
            result,
            tick_snapshot(old(self)@[time_index as int % MOVEMENT_BUFFER_CAP as int], probe),
        ));
        (result, power_up_effect)
    }

    /// A late hit: the step from the snapshot at `index` is tried with what
    /// the geometry found for the claiming paddle alone. Where it ends in a
    /// bounce, history is rewritten: the cursor goes back by `offset`
    /// snapshots and the bounce is pushed in their place. Otherwise nothing
    /// changes. Returns whether history was rewritten.
    pub fn apply_late_probe(&mut self, offset: usize, probe: TickProbe<B>, index: usize) -> (rewritten:
        bool)
        requires
            offset < MOVEMENT_BUFFER_CAP,
            probe_names_teams(probe),
        ensures
            rewritten == (tick_result(
                old(self)@[index as int % MOVEMENT_BUFFER_CAP as int],
                probe,
            ) == BallTickResult::Bounce),
            rewritten ==> final(self)@ == pushed(
                rewound(old(self)@, offset as int),
                tick_snapshot(old(self)@[index as int % MOVEMENT_BUFFER_CAP as int], probe),
            ),
            !rewritten ==> final(self)@ == old(self)@,
            rallies_bounded(final(self)@),
    {
        proof {
            use_type_invariant(&*self);
        }
        let (result, _, rewritten_history) = self.tick_no_update(probe, index);
        if result == BallTickResult::Bounce {
            self.rewind_and_apply(offset, rewritten_history);
            true
        } else {
            assert forall|i: int| 0 <= i < self@.len() implies (#[trigger] self@[i]).rally
                <= MAX_RALLIES by {
                self.moves.lemma_len();
                assert(self.moves@[i]@.rally <= MAX_RALLIES);
            }
            false
        }
    }

    /// The ball that left the field is thrown in again with the geometry
    /// `thrown`. The report on ball number `idx` is made in between: it
    /// shows the new geometry, and still who hit the ball, who was to
    /// receive it and the rally it had.
    pub fn respawn(&mut self, idx: u8, thrown: B) -> (sync: BallSync<B>)
        ensures
            sync.flags == 2,
            sync.characteristics == thrown,
            sync.hit_pair@ == old(self)@.last().hit_pair,
            sync.index_rally_packed == pack_index_rally(idx, old(self)@.last().rally),
            final(self)@ == old(self)@.update(MOVEMENT_BUFFER_CAP - 1, thrown_in(thrown)),
            rallies_bounded(final(self)@),
    {
        self.reset_characteristics(thrown);
        let sync = BallSync::new(idx, 2, &*self);
        self.reset_other_fields_for_respawn();
        assert(self@ =~= old(self)@.update(MOVEMENT_BUFFER_CAP - 1, thrown_in(thrown)));
        sync
    }

    /// Whether the snapshot at `time_index` (modulo the history's length)
    /// already saw a bounce.
    pub fn has_collision(&self, time_index: usize) -> (ignore: bool)
        ensures
            ignore == self@[time_index as int % MOVEMENT_BUFFER_CAP as int].ignore_player_collision,
    {
        self.moves[time_index].ignore_player_collision()
    }
}

} // verus!
