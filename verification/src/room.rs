//! The constants of a room's clock and the rules of its control state: who
//! hosts, whether a match runs, which requests are honoured.

use crate::ball::{fresh_history, Ball};
use crate::player::{ClientId, Player, PlayerState, SeqNr};
use crate::powerup::{
    activation_signal, end_signal, PowerUp, PowerUpEffect, PowerUpSignal,
};
use crate::room_manager::RoomId;
use crate::shared_room_data::SharedRoomData;
use crate::tracker::{effect_drawn, generator_after_effect, Tracker};
use vstd::prelude::*;

verus! {

/// Server ticks per second.
pub const TPS: u8 = 20;

/// Frames (at sixty per second) that one server tick advances.
pub const TPF: u32 = 3;

/// The most teams a match can have.
pub const MAX_TEAMS: usize = 5;

/// The most bots a room takes.
pub const MAX_BOTS: usize = 10;

/// How long a match lasts.
#[derive(Debug, Copy, Clone, PartialEq, Eq, Structural)]
pub enum MatchTime {
    Short,
    Long,
}

/// The length of a match in seconds.
pub open spec fn match_seconds(match_time: MatchTime) -> u16 {
    match match_time {
        MatchTime::Short => 150,
        MatchTime::Long => 300,
    }
}

impl MatchTime {
    /// Match time in seconds.
    pub fn seconds(&self) -> (seconds: u16)
        ensures
            seconds == match_seconds(*self),
    {
        match self {
            MatchTime::Short => 150,
            MatchTime::Long => 300,
        }
    }
}

/// Power up state for room. `T` is a countdown, `V` a place in the field.
#[derive(Copy)]
pub enum PowerUpState<T: Copy, V: Copy> {
    /// Power-ups are off.
    DoNothing,
    /// No power-up is in the field; one appears when the countdown ends.
    WaitUntilSpawn(T),
    /// A power-up lies in the field until a ball picks it up.
    Spawned(PowerUp<V>),
    /// An effect lasts until the countdown ends.
    WaitUntilItIsOver(T, PowerUpEffect),
}

impl<T: Copy, V: Copy> Clone for PowerUpState<T, V> {
    fn clone(&self) -> (copy: Self)
        ensures
            copy == *self,
    {
        *self
    }
}

/// What a tick means for the power-up state.
#[derive(Copy)]
pub enum PowerUpStep<T: Copy, V: Copy> {
    /// The room goes on in the state given and announces the signal given.
    Go(PowerUpState<T, V>, PowerUpSignal),
    /// The wait is over: a power-up is to be put into the field. The state
    /// that follows is made by `PowerUpState::spawn`.
    SpawnDue,
}

impl<T: Copy, V: Copy> Clone for PowerUpStep<T, V> {
    fn clone(&self) -> (copy: Self)
        ensures
            copy == *self,
    {
        *self
    }
}

/// What a tick means for `state`, where `remaining` is what is left of the
/// state's countdown after the tick, and nothing if it has run out.
///
/// A countdown that has not run out goes on, and nothing is announced. When
/// the wait for a power-up runs out, a power-up is due. When an effect runs
/// out, its end is announced and the wait for the next power-up begins, for
/// as long as `spawn_wait`. The other states stay as they are.
pub open spec fn power_up_step<T: Copy, V: Copy>(
    state: PowerUpState<T, V>,
    remaining: Option<T>,
    spawn_wait: T,
) -> PowerUpStep<T, V> {
    match state {
        PowerUpState::WaitUntilSpawn(_) => match remaining {
            Some(time) => PowerUpStep::Go(PowerUpState::WaitUntilSpawn(time), PowerUpSignal::Nothing),
            None => PowerUpStep::SpawnDue,
        },
        PowerUpState::WaitUntilItIsOver(_, effect) => match remaining {
            Some(time) => PowerUpStep::Go(
                PowerUpState::WaitUntilItIsOver(time, effect),
                PowerUpSignal::Nothing,
            ),
            None => PowerUpStep::Go(PowerUpState::WaitUntilSpawn(spawn_wait), end_signal(effect)),
        },
        otherwise => PowerUpStep::Go(otherwise, PowerUpSignal::Nothing),
    }
}

impl<T: Copy, V: Copy> PowerUpState<T, V> {
    /// The state at the start of a match: the wait for the first power-up
    /// where power-ups are on, nothing where they are off.
    pub open spec fn started(power_ups: bool, spawn_wait: T) -> Self {
        if power_ups {
            PowerUpState::WaitUntilSpawn(spawn_wait)
        } else {
            PowerUpState::DoNothing
        }
    }

    /// The state at the start of a match.
    pub fn at_start(power_ups: bool, spawn_wait: T) -> (state: Self)
        ensures
            state == Self::started(power_ups, spawn_wait),
    {
        if power_ups {
            PowerUpState::WaitUntilSpawn(spawn_wait)
        } else {
            PowerUpState::DoNothing
        }
    }

    /// Handle power up effect: a ball picked up a power-up. The effect lasts
    /// for `effect_wait`, and its start is announced.
    pub fn activate(effect_wait: T, effect: PowerUpEffect) -> (out: (Self, PowerUpSignal))
        ensures
            out.0 == PowerUpState::<T, V>::WaitUntilItIsOver(effect_wait, effect),
            out.1 == activation_signal(effect),
    {
        (PowerUpState::WaitUntilItIsOver(effect_wait, effect), effect.on_activation())
    }

    /// A power-up is put into the field at `location`. Its kind is drawn
    /// by the tracker.
    pub fn spawn(location: V, tracker: &mut Tracker) -> (state: Self)
        ensures
            state matches PowerUpState::Spawned(power_up) && power_up.spec_pos() == location
                && power_up.spec_effect_type() == effect_drawn(old(tracker).generator()),
            final(tracker).generator() == generator_after_effect(old(tracker).generator()),
            final(tracker).next_sector() == old(tracker).next_sector(),
    {
        let effect = tracker.next_powerup_type();
        PowerUpState::Spawned(PowerUp::new(location, effect))
    }

    /// The countdown of the state, if it has one.
    pub fn countdown(&self) -> (time: Option<T>)
        ensures
            time == match *self {
                PowerUpState::WaitUntilSpawn(time) => Some(time),
                PowerUpState::WaitUntilItIsOver(time, _) => Some(time),
                _ => None,
            },
    {
        match self {
            PowerUpState::WaitUntilSpawn(time) => Some(*time),
            PowerUpState::WaitUntilItIsOver(time, _) => Some(*time),
            _ => None,
        }
    }

    /// The power-up that lies in the field, if one does.
    pub fn spawned(&self) -> (power_up: Option<PowerUp<V>>)
        ensures
            power_up == match *self {
                PowerUpState::Spawned(p) => Some(p),
                _ => None,
            },
    {
        match self {
            PowerUpState::Spawned(p) => Some(*p),
            _ => None,
        }
    }

    /// Power up state machine handling: what a tick means for this state.
    pub fn step(self, remaining: Option<T>, spawn_wait: T) -> (step: PowerUpStep<T, V>)
        ensures
            step == power_up_step(self, remaining, spawn_wait),
    {
        match self {
            PowerUpState::WaitUntilSpawn(_) => match remaining {
                Some(time) => PowerUpStep::Go(
                    PowerUpState::WaitUntilSpawn(time),
                    PowerUpSignal::Nothing,
                ),
                None => PowerUpStep::SpawnDue,
            },
            PowerUpState::WaitUntilItIsOver(_, effect) => match remaining {
                Some(time) => PowerUpStep::Go(
                    PowerUpState::WaitUntilItIsOver(time, effect),
                    PowerUpSignal::Nothing,
                ),
                None => PowerUpStep::Go(PowerUpState::WaitUntilSpawn(spawn_wait), effect.on_end()),
            },
            otherwise => PowerUpStep::Go(otherwise, PowerUpSignal::Nothing),
        }
    }
}

/// Where a room stands in its match when a tick comes.
#[derive(Debug, Copy, Clone, PartialEq, Eq, Structural)]
pub enum TickPhase {
    /// No match runs: the tick does nothing.
    Idle,
    /// The match has started but play has not: players move, balls rest.
    WarmUp,
    /// Balls fly and power-ups count down.
    Play,
    /// The match time is over; the room waits to be reset.
    Over,
    /// The wait after the match is over too: the match ends with this tick.
    Reset,
}

/// The phase of a tick. `warmed_up` says whether the wait before play is
/// over, `before_end` whether the match time is not yet over, `reset_due`
/// whether the wait after the match is over as well.
pub open spec fn tick_phase(started: bool, warmed_up: bool, before_end: bool, reset_due: bool)
    -> TickPhase {
    if !started {
        TickPhase::Idle
    } else if !warmed_up {
        TickPhase::WarmUp
    } else if before_end {
        TickPhase::Play
    } else if reset_due {
        TickPhase::Reset
    } else {
        TickPhase::Over
    }
}

/// What a room needs to begin a match, beside its own state.
pub struct MatchStart<T: Copy, V: Copy> {
    /// The place of every player in the teams, in the players' order.
    pub slots: Vec<TeamSlot>,
    /// The sector that each ball is thrown into, one for every ball.
    pub sectors: Vec<u32>,
    /// The power-up state that the match begins in.
    pub power_up_state: PowerUpState<T, V>,
}

/// The sector `i` places on from `first`, wrapping round at the counter's
/// end.
pub open spec fn sector_after(first: u32, i: int) -> u32 {
    ((first + i) % 0x1_0000_0000) as u32
}

/// The place of one player in the teams of a match.
#[derive(Debug, Copy, Clone, PartialEq, Eq, Structural)]
pub struct TeamSlot {
    pub team_nr: u8,
    /// How many players of the same team come before this one.
    pub player_nr_in_team: usize,
    /// How many players the team has.
    pub max_in_team: usize,
}

/// How many of the first `upto` players come to stand in `team` when
/// players are dealt out to `nr_teams` teams in turn.
pub open spec fn dealt_to(upto: nat, nr_teams: int, team: int) -> nat
    decreases upto,
{
    if upto == 0 {
        0
    } else {
        dealt_to((upto - 1) as nat, nr_teams, team) + if (upto - 1) % nr_teams == team {
            1nat
        } else {
            0nat
        }
    }
}

/// The place of player `i` among `player_count` players that are dealt out
/// to `nr_teams` teams in turn: the team that its turn falls on, behind the
/// team mates dealt before it, in a team of as many as are dealt to it.
pub open spec fn team_slot(i: int, player_count: int, nr_teams: int) -> TeamSlot {
    TeamSlot {
        team_nr: (i % nr_teams) as u8,
        player_nr_in_team: dealt_to(i as nat, nr_teams, i % nr_teams) as usize,
        max_in_team: dealt_to(player_count as nat, nr_teams, i % nr_teams) as usize,
    }
}

/// Dealing players out in turn: the number of players that come to stand
/// in a team, in closed form.
pub proof fn lemma_dealt_counts(upto: nat, nr_teams: int, team: int)
    requires
        0 <= team < nr_teams,
    ensures
        dealt_to(upto, nr_teams, team) == (upto + nr_teams - 1 - team) / nr_teams,
    decreases upto,
{
    if upto > 0 {
        lemma_dealt_counts((upto - 1) as nat, nr_teams, team);
        let i = upto - 1;
        let q = i / nr_teams;
        let r = i % nr_teams;
        lemma_div_parts(i, nr_teams);
        if r > team {
            lemma_div_between(i + nr_teams - 1 - team, nr_teams, q + 1, r - team - 1);
            lemma_div_between(i + nr_teams - team, nr_teams, q + 1, r - team);
        } else if r == team {
            lemma_div_between(i + nr_teams - 1 - team, nr_teams, q, nr_teams - 1);
            lemma_div_between(i + nr_teams - team, nr_teams, q + 1, 0);
        } else {
            lemma_div_between(i + nr_teams - 1 - team, nr_teams, q, nr_teams - 1 + r - team);
            lemma_div_between(i + nr_teams - team, nr_teams, q, nr_teams + r - team);
        }
    } else {
        lemma_div_between(nr_teams - 1 - team, nr_teams, 0, nr_teams - 1 - team);
    }
}

/// A number is its quotient times the divisor plus its remainder.
proof fn lemma_div_parts(x: int, d: int)
    requires
        d > 0,
        x >= 0,
    ensures
        x == (x / d) * d + x % d,
        0 <= x % d < d,
        0 <= x / d <= x,
{
    assert(x == (x / d) * d + x % d && 0 <= x % d < d && 0 <= x / d <= x) by (nonlinear_arith)
        requires
            d > 0,
            x >= 0,
    ;
}

/// A quotient is known once the number is split into a multiple of the
/// divisor and a rest below the divisor.
proof fn lemma_div_between(x: int, d: int, q: int, rest: int)
    requires
        d > 0,
        0 <= rest < d,
        x == q * d + rest || x == (q - 1) * d + d + rest,
    ensures
        x / d == q,
        x % d == rest,
{
    assert((q - 1) * d + d == q * d) by (nonlinear_arith);
    vstd::arithmetic::div_mod::lemma_fundamental_div_mod_converse(x, d, q, rest);
}

/// Every player stands in a team below `nr_teams` and before the end of
/// its team. Its number in the team is the number of full rounds dealt
/// before it; the size of its team follows from the number of players.
pub proof fn lemma_team_slot_fits(i: int, player_count: int, nr_teams: int)
    requires
        0 <= i < player_count,
        0 < nr_teams <= MAX_TEAMS,
        player_count <= usize::MAX,
    ensures
        team_slot(i, player_count, nr_teams).team_nr < nr_teams,
        team_slot(i, player_count, nr_teams).player_nr_in_team < team_slot(
            i,
            player_count,
            nr_teams,
        ).max_in_team,
        team_slot(i, player_count, nr_teams).player_nr_in_team == i / nr_teams,
        team_slot(i, player_count, nr_teams).max_in_team == (player_count - 1 - i % nr_teams)
            / nr_teams + 1,
        team_slot(i, player_count, nr_teams).max_in_team <= player_count,
{
    let q = i / nr_teams;
    let r = i % nr_teams;
    lemma_div_parts(i, nr_teams);
    lemma_dealt_counts(i as nat, nr_teams, r);
    lemma_dealt_counts(player_count as nat, nr_teams, r);
    lemma_div_between(i + nr_teams - 1 - r, nr_teams, q, nr_teams - 1);
    let rest = player_count - 1 - r;
    lemma_div_parts(rest, nr_teams);
    let size = rest / nr_teams + 1;
    lemma_div_between(player_count + nr_teams - 1 - r, nr_teams, size, rest % nr_teams);
    assert(q < size) by (nonlinear_arith)
        requires
            nr_teams > 0,
            q * nr_teams + r < player_count,
            player_count - 1 - r == (size - 1) * nr_teams + rest % nr_teams,
            rest % nr_teams < nr_teams,
    ;
}

/// Deals `player_count` players out to `nr_teams` teams in turn and names
/// each player's place: its team, its number in the team, the team's size.
pub fn assign_teams(player_count: usize, nr_teams: u8) -> (slots: Vec<TeamSlot>)
    requires
        0 < nr_teams <= MAX_TEAMS,
    ensures
        slots@.len() == player_count,
        forall|i: int|
            0 <= i < player_count ==> #[trigger] slots@[i] == team_slot(
                i,
                player_count as int,
                nr_teams as int,
            ),
{
    let teams = nr_teams as usize;
    let mut slots: Vec<TeamSlot> = Vec::new();
    let mut next: usize = 0;
    let mut round: usize = 0;
    let mut i: usize = 0;
    while i < player_count
        invariant
            teams == nr_teams,
            0 < teams <= MAX_TEAMS,
            i <= player_count,
            next < teams,
            i == round * teams + next,
            slots@.len() == i,
            forall|j: int|
                0 <= j < i ==> #[trigger] slots@[j] == team_slot(
                    j,
                    player_count as int,
                    nr_teams as int,
                ),
        decreases player_count - i,
    {
        proof {
            assert(round * teams >= 0 && round <= round * teams) by (nonlinear_arith)
                requires
                    teams > 0,
                    round >= 0,
            ;
            lemma_div_between(i as int, teams as int, round as int, next as int);
            lemma_team_slot_fits(i as int, player_count as int, teams as int);
        }
        let rest = player_count - 1 - next;
        let max_in_team = rest / teams + 1;
        slots.push(TeamSlot { team_nr: next as u8, player_nr_in_team: round, max_in_team });
        assert((round + 1) * teams == round * teams + teams) by (nonlinear_arith);
        next = next + 1;
        if next >= teams {
            next = 0;
            round = round + 1;
        }
        i = i + 1;
    }
    slots
}

/// How many of the players whose teams are `teams` stand in `team`.
pub open spec fn members(teams: Seq<u8>, team: u8) -> nat
    decreases teams.len(),
{
    if teams.len() == 0 {
        0
    } else {
        members(teams.drop_last(), team) + if teams.last() == team {
            1nat
        } else {
            0nat
        }
    }
}

/// A team never has more members than there are players.
pub proof fn lemma_members_bounded(teams: Seq<u8>, team: u8)
    ensures
        members(teams, team) <= teams.len(),
    decreases teams.len(),
{
    if teams.len() > 0 {
        lemma_members_bounded(teams.drop_last(), team);
    }
}

/// The teams of `player_count` players that are dealt out to `nr_teams`
/// teams in turn.
pub open spec fn dealt_teams(player_count: nat, nr_teams: int) -> Seq<u8> {
    Seq::new(player_count, |i: int| (i % nr_teams) as u8)
}

/// The members of a team among players dealt out in turn are as many as
/// were dealt to it.
pub proof fn lemma_dealt_are_members(player_count: nat, nr_teams: int, team: u8)
    requires
        0 < nr_teams <= MAX_TEAMS,
    ensures
        members(dealt_teams(player_count, nr_teams), team) == dealt_to(
            player_count,
            nr_teams,
            team as int,
        ),
    decreases player_count,
{
    if player_count > 0 {
        let shorter = (player_count - 1) as nat;
        lemma_dealt_are_members(shorter, nr_teams, team);
        assert(dealt_teams(player_count, nr_teams).drop_last() =~= dealt_teams(shorter, nr_teams));
        lemma_div_parts(shorter as int, nr_teams);
    }
}

/// Calculates the population of one team.
pub fn team_population(teams: &[u8], team: u8) -> (count: usize)
    ensures
        count == members(teams@, team),
{
    let mut count: usize = 0;
    let mut i: usize = 0;
    while i < teams.len()
        invariant
            i <= teams@.len(),
            count == members(teams@.subrange(0, i as int), team),
            count <= i,
        decreases teams@.len() - i,
    {
        proof {
            assert(teams@.subrange(0, i + 1).drop_last() =~= teams@.subrange(0, i as int));
        }
        if teams[i] == team {
            count = count + 1;
        }
        i = i + 1;
    }
    assert(teams@.subrange(0, i as int) =~= teams@);
    count
}

/// Whether `team` is the least populated of the first `nr_teams` teams:
/// no team has fewer members, and every team before it has more.
pub open spec fn is_least_populated(teams: Seq<u8>, nr_teams: u8, team: u8) -> bool {
    &&& team < nr_teams
    &&& forall|other: u8| other < nr_teams ==> members(teams, team) <= members(teams, other)
    &&& forall|other: u8| other < team ==> members(teams, team) < members(teams, other)
}

/// Gets the least populated team; the first one where there are no teams.
pub fn least_populated_team(teams: &[u8], nr_teams: u8) -> (team: u8)
    ensures
        nr_teams == 0 ==> team == 0,
        nr_teams > 0 ==> is_least_populated(teams@, nr_teams, team),
{
    if nr_teams == 0 {
        return 0;
    }
    let mut best: u8 = 0;
    let mut fewest = team_population(teams, 0);
    let mut candidate: u8 = 1;
    while candidate < nr_teams
        invariant
            1 <= candidate <= nr_teams,
            best < candidate,
            fewest == members(teams@, best),
            forall|other: u8| other < candidate ==> members(teams@, best) <= members(teams@, other),
            forall|other: u8| other < best ==> members(teams@, best) < members(teams@, other),
        decreases nr_teams - candidate,
    {
        let count = team_population(teams, candidate);
        if count < fewest {
            best = candidate;
            fewest = count;
        }
        candidate = candidate + 1;
    }
    best
}

/// The control state of a room, as a plain value.
pub struct RoomControl {
    pub id: RoomId,
    /// The client that may start matches and change settings.
    pub host_client_id: ClientId,
    /// The id that the next client gets.
    pub next_client_id: ClientId,
    /// Whether a match runs.
    pub is_started: bool,
    /// The room's clock in frames, `TPF` more with every tick.
    pub frame_timer: SeqNr,
    /// The bots of the room, oldest first, by their client ids.
    pub bots: Seq<ClientId>,
}

impl RoomControl {
    /// Whether `sender` may ask for anything that only the host may, and
    /// only between matches.
    pub open spec fn host_between_matches(self, sender: ClientId) -> bool {
        !self.is_started && sender == self.host_client_id
    }

    /// Whether `sender` may start a match with `player_count` players in
    /// the room: the host, between matches, with somebody to play against.
    pub open spec fn may_start(self, sender: ClientId, player_count: int) -> bool {
        self.host_between_matches(sender) && player_count > 1
    }

    /// Whether `sender` may add a bot: the host, between matches, while
    /// there is room and an id left for one.
    pub open spec fn may_add_bot(self, sender: ClientId) -> bool {
        self.host_between_matches(sender) && self.bots.len() < MAX_BOTS && self.next_client_id
            < u32::MAX
    }

    /// Whether `sender` may take the last bot out: the host, between
    /// matches, where there is a bot.
    pub open spec fn may_remove_bot(self, sender: ClientId) -> bool {
        self.host_between_matches(sender) && self.bots.len() > 0
    }
}

/// The control state of a room.
pub struct Room {
    id: RoomId,
    bots: Vec<ClientId>,
    host_client_id: ClientId,
    next_client_id: ClientId,
    is_started: bool,
    frame_timer: SeqNr,
}

impl View for Room {
    type V = RoomControl;

    closed spec fn view(&self) -> RoomControl {
        RoomControl {
            id: self.id,
            host_client_id: self.host_client_id,
            next_client_id: self.next_client_id,
            is_started: self.is_started,
            frame_timer: self.frame_timer,
            bots: self.bots@,
        }
    }
}

impl Room {
    /// Creates a new room: no match runs, the clock stands at zero, and
    /// the first client to join gets the id of the host.
    pub fn new(id: RoomId) -> (room: Self)
        ensures
            room@ == (RoomControl {
                id,
                host_client_id: 0,
                next_client_id: 0,
                is_started: false,
                frame_timer: 0,
                bots: Seq::empty(),
            }),
    {
        Self {
            id,
            bots: Vec::new(),
            host_client_id: 0,
            next_client_id: 0,
            is_started: false,
            frame_timer: 0,
        }
    }

    /// Resets the room state: the match is over.
    pub fn reset(&mut self)
        ensures
            final(self)@ == (RoomControl { is_started: false, ..old(self)@ }),
    {
        self.is_started = false;
    }

    /// Start the room. The number of teams is decided if it is still open,
    /// the players are dealt out to the teams in their order and start over
    /// with their moves, one sector is taken from the tracker for every
    /// ball, the power-ups begin to wait if they are on, and a match runs.
    pub fn start<T: Copy, V: Copy>(
        &mut self,
        settings: &mut SharedRoomData,
        tracker: &mut Tracker,
        players: &mut Vec<Player>,
        spawn_wait: T,
    ) -> (start: MatchStart<T, V>)
        ensures
            final(self)@ == (RoomControl { is_started: true, ..old(self)@ }),
            final(settings)@ == old(settings)@.started(),
            final(players)@.len() == old(players)@.len(),
            forall|i: int|
                0 <= i < old(players)@.len() ==> (#[trigger] final(players)@[i])@ == (PlayerState {
                    team_nr: team_slot(
                        i,
                        old(players)@.len() as int,
                        final(settings)@.nr_teams as int,
                    ).team_nr,
                    ..old(players)@[i]@.reset()
                }),
            start.slots@.len() == old(players)@.len(),
            forall|i: int|
                0 <= i < old(players)@.len() ==> #[trigger] start.slots@[i] == team_slot(
                    i,
                    old(players)@.len() as int,
                    final(settings)@.nr_teams as int,
                ),
            start.sectors@.len() == final(settings)@.nr_balls,
            forall|i: int|
                0 <= i < start.sectors@.len() ==> #[trigger] start.sectors@[i] == sector_after(
                    old(tracker).next_sector(),
                    i,
                ),
            final(tracker).next_sector() == sector_after(
                old(tracker).next_sector(),
                final(settings)@.nr_balls as int,
            ),
            final(tracker).generator() == old(tracker).generator(),
            start.power_up_state == PowerUpState::<T, V>::started(
                final(settings)@.power_ups,
                spawn_wait,
            ),
    {
        settings.start();
        let nr_teams = settings.nr_teams();
        let slots = assign_teams(players.len(), nr_teams);

        let mut i: usize = 0;
        while i < players.len()
            invariant
                i <= players@.len(),
                players@.len() == old(players)@.len(),
                slots@.len() == players@.len(),
                forall|j: int|
                    0 <= j < slots@.len() ==> #[trigger] slots@[j] == team_slot(
                        j,
                        old(players)@.len() as int,
                        nr_teams as int,
                    ),
                forall|j: int|
                    0 <= j < i ==> (#[trigger] players@[j])@ == (PlayerState {
                        team_nr: team_slot(j, old(players)@.len() as int, nr_teams as int).team_nr,
                        ..old(players)@[j]@.reset()
                    }),
                forall|j: int| i <= j < players@.len() ==> players@[j] == old(players)@[j],
            decreases players@.len() - i,
        {
            let team_nr = slots[i].team_nr;
            players[i].start(team_nr);
            i = i + 1;
        }

        let nr_balls = settings.nr_balls();
        let ghost first = tracker.next_sector();
        let mut sectors: Vec<u32> = Vec::new();
        let mut ball: u8 = 0;
        while ball < nr_balls
            invariant
                ball <= nr_balls,
                sectors@.len() == ball,
                forall|j: int| 0 <= j < ball ==> #[trigger] sectors@[j] == sector_after(first, j),
                tracker.next_sector() == sector_after(first, ball as int),
                tracker.generator() == old(tracker).generator(),
                first == old(tracker).next_sector(),
            decreases nr_balls - ball,
        {
            sectors.push(tracker.next_ball_sector());
            ball = ball + 1;
        }

        let power_up_state = PowerUpState::at_start(settings.power_ups(), spawn_wait);
        self.is_started = true;
        MatchStart { slots, sectors, power_up_state }
    }

    /// Gets the room id.
    pub fn id(&self) -> (id: RoomId)
        ensures
            id == self@.id,
    {
        self.id
    }

    /// The client that hosts the room.
    pub fn host_client_id(&self) -> (id: ClientId)
        ensures
            id == self@.host_client_id,
    {
        self.host_client_id
    }

    /// Whether a match runs.
    pub fn is_started(&self) -> (started: bool)
        ensures
            started == self@.is_started,
    {
        self.is_started
    }

    /// The room's clock in frames.
    pub fn frame_timer(&self) -> (frames: SeqNr)
        ensures
            frames == self@.frame_timer,
    {
        self.frame_timer
    }

    /// How many bots the room has.
    pub fn bot_count(&self) -> (count: usize)
        ensures
            count == self@.bots.len(),
    {
        self.bots.len()
    }

    /// The bot at place `index`, oldest first.
    pub fn bot(&self, index: usize) -> (id: Option<ClientId>)
        ensures
            id == if index < self@.bots.len() {
                Some(self@.bots[index as int])
            } else {
                None
            },
    {
        if index < self.bots.len() {
            Some(self.bots[index])
        } else {
            None
        }
    }

    /// Creates a new client id: the ids are given out in rising order, each
    /// once. There is none left once the last number was given out.
    pub fn create_client_id(&mut self) -> (id: Option<ClientId>)
        ensures
            id == if old(self)@.next_client_id < u32::MAX {
                Some(old(self)@.next_client_id)
            } else {
                None
            },
            final(self)@ == (RoomControl {
                next_client_id: if old(self)@.next_client_id < u32::MAX {
                    (old(self)@.next_client_id + 1) as u32
                } else {
                    old(self)@.next_client_id
                },
                ..old(self)@
            }),
    {
        if self.next_client_id < u32::MAX {
            let id = self.next_client_id;
            self.next_client_id = self.next_client_id + 1;
            Some(id)
        } else {
            None
        }
    }

    /// Whether `sender` may start a match with `player_count` players.
    pub fn may_start(&self, sender: ClientId, player_count: usize) -> (allowed: bool)
        ensures
            allowed == self@.may_start(sender, player_count as int),
    {
        !self.is_started && sender == self.host_client_id && player_count > 1
    }

    /// Whether `sender` may change the settings.
    pub fn may_update_settings(&self, sender: ClientId) -> (allowed: bool)
        ensures
            allowed == self@.host_between_matches(sender),
    {
        !self.is_started && sender == self.host_client_id
    }

    /// Whether moves are taken: only while a match runs.
    pub fn accepts_moves(&self) -> (accepted: bool)
        ensures
            accepted == self@.is_started,
    {
        self.is_started
    }

    /// Adds a new bot on `sender`'s request. Returns the id of the bot, or
    /// nothing, with nothing changed, where the request is not honoured.
    pub fn add_bot(&mut self, sender: ClientId) -> (bot: Option<ClientId>)
        ensures
            bot is Some <==> old(self)@.may_add_bot(sender),
            bot is Some ==> bot == Some(old(self)@.next_client_id) && final(self)@ == (RoomControl {
                next_client_id: (old(self)@.next_client_id + 1) as u32,
                bots: old(self)@.bots.push(old(self)@.next_client_id),
                ..old(self)@
            }),
            bot is None ==> final(self)@ == old(self)@,
    {
        if self.is_started || sender != self.host_client_id || self.bots.len() >= MAX_BOTS {
            return None;
        }
        match self.create_client_id() {
            Some(id) => {
                self.bots.push(id);
                Some(id)
            },
            None => None,
        }
    }

    /// Removes the last bot on `sender`'s request. Returns the id of the
    /// bot, or nothing, with nothing changed, where the request is not
    /// honoured.
    pub fn remove_last_bot(&mut self, sender: ClientId) -> (bot: Option<ClientId>)
        ensures
            bot is Some <==> old(self)@.may_remove_bot(sender),
            bot is Some ==> bot == Some(old(self)@.bots.last()) && final(self)@ == (RoomControl {
                bots: old(self)@.bots.drop_last(),
                ..old(self)@
            }),
            bot is None ==> final(self)@ == old(self)@,
    {
        if self.is_started || sender != self.host_client_id {
            return None;
        }
        self.bots.pop()
    }

    /// A client leaves. Returns whether it was the host. The host's place
    /// goes to `heir` where there is one; a host without an heir stays
    /// named as host of the room it leaves empty.
    pub fn remove_player(&mut self, client_id: ClientId, heir: Option<ClientId>) -> (was_host: bool)
        ensures
            was_host == (client_id == old(self)@.host_client_id),
            final(self)@ == (RoomControl {
                host_client_id: if was_host && heir is Some {
                    heir->0
                } else {
                    old(self)@.host_client_id
                },
                ..old(self)@
            }),
    {
        if self.host_client_id == client_id {
            match heir {
                Some(id) => {
                    self.host_client_id = id;
                },
                None => {},
            }
            true
        } else {
            false
        }
    }

    /// Room tick. While no match runs, nothing changes. Otherwise the clock
    /// goes on by `TPF` frames, wrapping round at the counter's end, and
    /// the match ends with the tick at which the reset is due. Returns the
    /// phase of the tick and the clock as it stood before.
    pub fn tick(&mut self, warmed_up: bool, before_end: bool, reset_due: bool) -> (out: (
        TickPhase,
        SeqNr,
    ))
        ensures
            out.0 == tick_phase(old(self)@.is_started, warmed_up, before_end, reset_due),
            out.1 == old(self)@.frame_timer,
            out.0 == TickPhase::Idle ==> final(self)@ == old(self)@,
            out.0 != TickPhase::Idle ==> final(self)@ == (RoomControl {
                is_started: out.0 != TickPhase::Reset,
                frame_timer: old(self)@.frame_timer.wrapping_add(TPF),
                ..old(self)@
            }),
    {
        let frames = self.frame_timer;
        if !self.is_started {
            return (TickPhase::Idle, frames);
        }
        let phase = if !warmed_up {
            TickPhase::WarmUp
        } else if before_end {
            TickPhase::Play
        } else if reset_due {
            TickPhase::Reset
        } else {
            TickPhase::Over
        };
        self.frame_timer = self.frame_timer.wrapping_add(TPF);
        if phase == TickPhase::Reset {
            self.is_started = false;
        }
        (phase, frames)
    }
}

/// Throws the balls in: one ball for every geometry given, in their order,
/// each untouched by any team, with no rally and open to paddle hits.
pub fn throw_balls<B: Copy>(bases: &Vec<B>) -> (balls: Vec<Ball<B>>)
    ensures
        balls@.len() == bases@.len(),
        forall|i: int| 0 <= i < bases@.len() ==> (#[trigger] balls@[i])@ == fresh_history(bases@[i]),
{
    let mut balls: Vec<Ball<B>> = Vec::new();
    let mut i: usize = 0;
    while i < bases.len()
        invariant
            i <= bases@.len(),
            balls@.len() == i,
            forall|j: int| 0 <= j < i ==> (#[trigger] balls@[j])@ == fresh_history(bases@[j]),
        decreases bases@.len() - i,
    {
        balls.push(Ball::new(bases[i]));
        i = i + 1;
    }
    balls
}

/// Handle end of match: no match runs, the balls are gone, and the tracker
/// throws from the first sector again. The generator goes on where it
/// stands.
pub fn end_match<B: Copy>(room: &mut Room, balls: &mut Vec<Ball<B>>, tracker: &mut Tracker)
    ensures
        final(room)@ == (RoomControl { is_started: false, ..old(room)@ }),
        final(balls)@.len() == 0,
        final(tracker).next_sector() == 0,
        final(tracker).generator() == old(tracker).generator(),
{
    room.reset();
    balls.clear();
    tracker.reset();
}

} // verus!
