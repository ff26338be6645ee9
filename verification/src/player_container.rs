//! Rules that span the players of a room: which balls the bots of a team
//! have claimed, and how far back a client's claim to have hit a ball
//! reaches into that ball's history.

use crate::ball::{Ball, Snapshot, MOVEMENT_BUFFER_CAP};
use crate::bot::BallMask;
use crate::player::{Player, PlayerState, SeqNr};
use crate::room::{MAX_TEAMS, TPF};
use vstd::prelude::*;

verus! {

/// How many ticks back the move numbered `move_seq_nr` lies when the room's
/// frame counter stands at `frame_time`. A move is made during the tick that
/// ends `TPF - 1` frames after its number. There is no answer for a move
/// from the future, nor for one older than a ball's history.
pub open spec fn late_offset(frame_time: SeqNr, move_seq_nr: SeqNr) -> Option<usize> {
    let moved_at = move_seq_nr + (TPF - 1);
    if moved_at > frame_time {
        None
    } else if (frame_time - moved_at) / (TPF as int) >= MOVEMENT_BUFFER_CAP {
        None
    } else {
        Some(((frame_time - moved_at) / (TPF as int)) as usize)
    }
}

/// The snapshots from which a late hit `offset` ticks back is looked for,
/// in the order they are tried: the one that far back, then the one before
/// it. A snapshot that already saw a bounce ends the search.
pub open spec fn late_probes<B>(history: Seq<Snapshot<B>>, offset: int) -> Seq<usize>
    recommends
        history.len() == MOVEMENT_BUFFER_CAP,
        0 <= offset < MOVEMENT_BUFFER_CAP,
{
    let index = MOVEMENT_BUFFER_CAP - 1 - offset;
    if history[index].ignore_player_collision {
        seq![]
    } else if index == 0 || history[index - 1].ignore_player_collision {
        seq![index as usize]
    } else {
        seq![index as usize, (index - 1) as usize]
    }
}

/// What is to be done about a client's claim to have hit a ball.
pub struct LateCollisionPlan {
    /// The ball that the client names.
    pub ball: usize,
    /// How many ticks back the hit lies. A bounce that is found rewinds the
    /// ball's history by this much, and the ball is then advanced again by
    /// as many ticks.
    pub offset: usize,
    /// The snapshots to try, in order.
    pub probes: Vec<usize>,
}

/// Whether `plan` is the plan for `player`'s claim, and `None` the answer
/// where nothing is to be tried: no claim, no such ball, a move out of the
/// history's reach, or a bounce already seen.
pub open spec fn is_late_plan<B: Copy>(
    plan: Option<LateCollisionPlan>,
    frame_time: SeqNr,
    player: PlayerState,
    balls: Seq<Ball<B>>,
) -> bool {
    match player.ball_hit {
        Some(id) if id < balls.len() => match late_offset(frame_time, player.move_seq_nr) {
            Some(offset) => {
                let probes = late_probes(balls[id as int]@, offset as int);
                if probes.len() == 0 {
                    plan is None
                } else {
                    &&& plan is Some
                    &&& plan->0.ball == id
                    &&& plan->0.offset == offset
                    &&& plan->0.probes@ == probes
                }
            },
            None => plan is None,
        },
        _ => plan is None,
    }
}

/// How many ticks back a move lies, if a ball's history reaches that far.
pub fn late_collision_offset(frame_time: SeqNr, move_seq_nr: SeqNr) -> (offset: Option<usize>)
    ensures
        offset == late_offset(frame_time, move_seq_nr),
        offset matches Some(o) ==> o < MOVEMENT_BUFFER_CAP,
{
    if move_seq_nr > u32::MAX - (TPF - 1) {
        return None;
    }
    let moved_at = move_seq_nr + (TPF - 1);
    if moved_at > frame_time {
        return None;
    }
    let offset = ((frame_time - moved_at) / TPF) as usize;
    if offset >= MOVEMENT_BUFFER_CAP {
        None
    } else {
        Some(offset)
    }
}

/// The snapshots of `ball` from which a late hit `offset` ticks back is
/// looked for.
pub fn late_collision_probes<B: Copy>(ball: &Ball<B>, offset: usize) -> (probes: Vec<usize>)
    requires
        offset < MOVEMENT_BUFFER_CAP,
    ensures
        probes@ == late_probes(ball@, offset as int),
{
    let index = MOVEMENT_BUFFER_CAP - 1 - offset;
    let mut probes = Vec::new();
    if !ball.has_collision(index) {
        probes.push(index);
        if index > 0 && !ball.has_collision(index - 1) {
            probes.push(index - 1);
        }
    }
    probes
}

/// Plans what is to be done about `player`'s claim to have hit a ball.
pub fn plan_late_collision<B: Copy>(frame_time: SeqNr, player: &Player, balls: &[Ball<B>]) -> (plan:
    Option<LateCollisionPlan>)
    ensures
        is_late_plan(plan, frame_time, player@, balls@),
{
    let id = match player.ball_hit() {
        Some(id) => id as usize,
        None => {
            return None;
        },
    };
    if id >= balls.len() {
        return None;
    }
    let offset = match late_collision_offset(frame_time, player.move_seq_nr()) {
        Some(offset) => offset,
        None => {
            return None;
        },
    };
    let probes = late_collision_probes(&balls[id], offset);
    if probes.len() == 0 {
        None
    } else {
        Some(LateCollisionPlan { ball: id, offset, probes })
    }
}

/// The balls that the bots of each team have claimed during one tick.
pub struct TeamBallMasks {
    masks: [BallMask; MAX_TEAMS],
}

impl View for TeamBallMasks {
    type V = Seq<u8>;

    /// The mask of each team, by team number.
    closed spec fn view(&self) -> Seq<u8> {
        Seq::new(MAX_TEAMS as nat, |team: int| self.masks@[team]@)
    }
}

impl TeamBallMasks {
    /// No team has claimed any ball.
    pub fn new() -> (masks: Self)
        ensures
            masks@ == Seq::new(MAX_TEAMS as nat, |team: int| 0u8),
    {
        let masks = Self { masks: [BallMask::new();MAX_TEAMS] };
        masks
    }

    /// The balls that `team` has claimed.
    pub fn claimed(&self, team: u8) -> (mask: BallMask)
        requires
            team < MAX_TEAMS,
        ensures
            mask@ == self@[team as int],
    {
        self.masks[team as usize]
    }

    /// Adds the balls of `mask` to those that `team` has claimed.
    pub fn claim(&mut self, team: u8, mask: BallMask)
        requires
            team < MAX_TEAMS,
        ensures
            final(self)@ == old(self)@.update(team as int, old(self)@[team as int] | mask@),
    {
        let joined = self.masks[team as usize] | mask;
        self.masks[team as usize] = joined;
    }
}

} // verus!
