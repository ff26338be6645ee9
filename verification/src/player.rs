//! A player's place in the order of moves: which moves of a client are
//! taken, how many can wait for one server tick, and which ball the client
//! claims to have hit.

use crate::shared_room_data::MAX_BALLS;
use vstd::prelude::*;

verus! {

/// The number a room gives each of its clients.
pub type ClientId = u32;

/// The number a client gives each of its moves, in frames.
///
/// Overflow will happen after ~4.2 billion messages.
pub type SeqNr = u32;

/// Maximum possible moves per server tick.
pub const MAX_MOVE_PER_SERVER_TICK: u8 = 2;

/// Maximum length of the move queue: the moves of one tick, and a margin.
pub const MAX_MOVE_QUEUE: u8 = 4;

/// A player's place in the order of moves, as a plain value.
pub struct PlayerState {
    /// The ball that the client claims to have hit, since the last tick:
    /// a number below `MAX_BALLS`.
    pub ball_hit: Option<u8>,
    /// The moves taken since the last tick.
    pub move_count: u8,
    /// The number of the last move taken.
    pub move_seq_nr: SeqNr,
    pub team_nr: u8,
    pub name: Seq<char>,
}

impl PlayerState {
    /// Whether a move numbered `seq_nr` is taken: the queue has room and the
    /// move is newer than the last one taken.
    pub open spec fn accepts(self, seq_nr: SeqNr) -> bool {
        self.move_count < MAX_MOVE_QUEUE && seq_nr > self.move_seq_nr
    }

    /// The state after a move arrived: unchanged if the move is dropped.
    /// A move that is taken leaves its number, counts for the queue and,
    /// if it names a ball, leaves the claim to have hit that ball. A room
    /// has at most `MAX_BALLS` balls: any other number names none.
    pub open spec fn queued(self, seq_nr: SeqNr, ball_hit: u8) -> PlayerState {
        if self.accepts(seq_nr) {
            PlayerState {
                ball_hit: if ball_hit < MAX_BALLS {
                    Some(ball_hit)
                } else {
                    self.ball_hit
                },
                move_count: (self.move_count + 1) as u8,
                move_seq_nr: seq_nr,
                ..self
            }
        } else {
            self
        }
    }

    /// The state after a server tick: the queue is empty again.
    pub open spec fn ticked(self) -> PlayerState {
        PlayerState { move_count: 0, ..self }
    }

    /// The state at the start of a match.
    pub open spec fn reset(self) -> PlayerState {
        PlayerState { ball_hit: None, move_count: 0, move_seq_nr: 0, ..self }
    }

    /// The state after every move of `moves` arrived in turn.
    pub open spec fn queued_all(self, moves: Seq<(SeqNr, u8)>) -> PlayerState
        decreases moves.len(),
    {
        if moves.len() == 0 {
            self
        } else {
            self.queued_all(moves.drop_last()).queued(moves.last().0, moves.last().1)
        }
    }
}

/// The number of the last move taken never goes down, and goes up with
/// every move that is taken.
pub proof fn lemma_seq_nr_increases(before: PlayerState, seq_nr: SeqNr, ball_hit: u8)
    ensures
        before.queued(seq_nr, ball_hit).move_seq_nr >= before.move_seq_nr,
        before.accepts(seq_nr) ==> before.queued(seq_nr, ball_hit).move_seq_nr
            > before.move_seq_nr,
        !before.accepts(seq_nr) ==> before.queued(seq_nr, ball_hit) == before,
{
}

/// Whatever moves arrive, the number of the last move taken never goes
/// down and the queue never holds more than `MAX_MOVE_QUEUE` moves.
pub proof fn lemma_queue_bounded(before: PlayerState, moves: Seq<(SeqNr, u8)>)
    requires
        before.move_count <= MAX_MOVE_QUEUE,
    ensures
        before.queued_all(moves).move_count <= MAX_MOVE_QUEUE,
        before.queued_all(moves).move_seq_nr >= before.move_seq_nr,
        before.queued_all(moves).move_count - before.move_count <= moves.len(),
    decreases moves.len(),
{
    if moves.len() > 0 {
        lemma_queue_bounded(before, moves.drop_last());
    }
}

/// After a tick, the first moves with rising numbers are all taken, up to
/// `MAX_MOVE_QUEUE` of them.
pub proof fn lemma_rising_moves_taken(before: PlayerState, moves: Seq<(SeqNr, u8)>)
    requires
        before.move_count == 0,
        moves.len() <= MAX_MOVE_QUEUE,
        forall|i: int| 0 <= i < moves.len() ==> (#[trigger] moves[i]).0 > before.move_seq_nr,
        forall|i: int, j: int| 0 <= i < j < moves.len() ==> moves[i].0 < moves[j].0,
    ensures
        before.queued_all(moves).move_count == moves.len(),
        moves.len() > 0 ==> before.queued_all(moves).move_seq_nr == moves.last().0,
        moves.len() == 0 ==> before.queued_all(moves).move_seq_nr == before.move_seq_nr,
    decreases moves.len(),
{
    if moves.len() > 0 {
        lemma_rising_moves_taken(before, moves.drop_last());
    }
}

/// A fifth move within one tick is dropped: once `MAX_MOVE_QUEUE` moves
/// were taken since the last tick, any further move changes nothing.
pub proof fn lemma_fifth_move_dropped(before: PlayerState, moves: Seq<(SeqNr, u8)>)
    requires
        before.move_count == 0,
        moves.len() == MAX_MOVE_QUEUE + 1,
        forall|i: int| 0 <= i < moves.len() ==> (#[trigger] moves[i]).0 > before.move_seq_nr,
        forall|i: int, j: int| 0 <= i < j < moves.len() ==> moves[i].0 < moves[j].0,
    ensures
        before.queued_all(moves) == before.queued_all(moves.drop_last()),
        before.queued_all(moves).move_seq_nr == moves[MAX_MOVE_QUEUE - 1].0,
{
    lemma_rising_moves_taken(before, moves.drop_last());
}

/// A player, as far as the order of its moves goes.
pub struct Player {
    ball_hit: Option<u8>,
    move_count: u8,
    move_seq_nr: SeqNr,
    team_nr: u8,
    name: String,
}

impl View for Player {
    type V = PlayerState;

    closed spec fn view(&self) -> PlayerState {
        PlayerState {
            ball_hit: self.ball_hit,
            move_count: self.move_count,
            move_seq_nr: self.move_seq_nr,
            team_nr: self.team_nr,
            name: self.name@,
        }
    }
}

impl Player {
    #[verifier::type_invariant]
    spec fn inv(self) -> bool {
        &&& self.move_count <= MAX_MOVE_QUEUE
        &&& self.ball_hit matches Some(ball) ==> ball < MAX_BALLS
    }

    /// Creates a new Player.
    pub fn new(name: String, team_nr: u8) -> (player: Self)
        ensures
            player@ == (PlayerState {
                ball_hit: None,
                move_count: 0,
                move_seq_nr: 0,
                team_nr,
                name: name@,
            }),
    {
        Self { ball_hit: None, move_count: 0, move_seq_nr: 0, team_nr, name }
    }

    /// Reset.
    pub fn reset(&mut self)
        ensures
            final(self)@ == old(self)@.reset(),
    {
        proof {
            use_type_invariant(&*self);
        }
        self.move_seq_nr = 0;
        self.move_count = 0;
        self.ball_hit = None;
    }

    /// Whether a move was taken since the last tick.
    pub fn has_moved(&self) -> (moved: bool)
        ensures
            moved == (self@.move_count > 0),
    {
        self.move_count > 0
    }

    /// How many moves were taken since the last tick, never more than
    /// `MAX_MOVE_QUEUE`.
    pub fn move_count(&self) -> (count: u8)
        ensures
            count == self@.move_count,
            count <= MAX_MOVE_QUEUE,
    {
        proof {
            use_type_invariant(self);
        }
        self.move_count
    }

    /// The number of the last move taken.
    pub fn move_seq_nr(&self) -> (seq_nr: SeqNr)
        ensures
            seq_nr == self@.move_seq_nr,
    {
        self.move_seq_nr
    }

    /// The player's name.
    pub fn name(&self) -> (name: &str)
        ensures
            name@ == self@.name,
    {
        self.name.as_str()
    }

    /// The player's team.
    pub fn team_nr(&self) -> (team_nr: u8)
        ensures
            team_nr == self@.team_nr,
    {
        self.team_nr
    }

    /// Puts the player into a team.
    pub fn set_team_nr(&mut self, team_nr: u8)
        ensures
            final(self)@ == (PlayerState { team_nr, ..old(self)@ }),
    {
        proof {
            use_type_invariant(&*self);
        }
        self.team_nr = team_nr;
    }

    /// The player begins a match in the team given: its moves start over.
    pub fn start(&mut self, team_nr: u8)
        ensures
            final(self)@ == (PlayerState { team_nr, ..old(self)@.reset() }),
    {
        proof {
            use_type_invariant(&*self);
        }
        self.team_nr = team_nr;
        self.move_seq_nr = 0;
        self.move_count = 0;
        self.ball_hit = None;
    }

    /// Queue a move action. Returns whether the move was taken: it is
    /// dropped where the queue is full or the move is not newer than the
    /// last one taken.
    pub fn queue_move(&mut self, seq_nr: SeqNr, ball_hit: u8) -> (taken: bool)
        ensures
            taken == old(self)@.accepts(seq_nr),
            final(self)@ == old(self)@.queued(seq_nr, ball_hit),
            final(self)@.move_seq_nr >= old(self)@.move_seq_nr,
            final(self)@.move_count <= MAX_MOVE_QUEUE,
    {
        proof {
            use_type_invariant(&*self);
        }
        if self.move_count >= MAX_MOVE_QUEUE {
            return false;
        }
        if seq_nr <= self.move_seq_nr {
            return false;
        }
        self.move_seq_nr = seq_nr;
        if ball_hit < MAX_BALLS {
            self.ball_hit = Some(ball_hit);
        }
        self.move_count = self.move_count + 1;
        true
    }

    /// Get ball hit: the ball that the client claims to have hit, a number
    /// below `MAX_BALLS`.
    pub fn ball_hit(&self) -> (ball_hit: Option<u8>)
        ensures
            ball_hit == self@.ball_hit,
            ball_hit matches Some(ball) ==> ball < MAX_BALLS,
    {
        proof {
            use_type_invariant(self);
        }
        self.ball_hit
    }

    /// Reset ball hit.
    pub fn reset_ball_hit(&mut self)
        ensures
            final(self)@ == (PlayerState { ball_hit: None, ..old(self)@ }),
    {
        proof {
            use_type_invariant(&*self);
        }
        self.ball_hit = None;
    }

    /// Tick. Where a move was taken since the last tick, the queue is
    /// emptied and the number of the last move is returned for the sync.
    pub fn tick(&mut self) -> (sync: Option<SeqNr>)
        ensures
            sync == if old(self)@.move_count > 0 {
                Some(old(self)@.move_seq_nr)
            } else {
                None
            },
            final(self)@ == old(self)@.ticked(),
    {
        proof {
            use_type_invariant(&*self);
        }
        if self.has_moved() {
            self.move_count = 0;
            Some(self.move_seq_nr)
        } else {
            None
        }
    }
}

} // verus!
