//! The settings of a room: what the host may change before a match, the
//! number of teams that a match is played with, and how many players are in.

use crate::protocol::UpdateSettings;
use crate::room::MatchTime;
use vstd::prelude::*;

verus! {

/// The fewest balls a match can have.
pub const MIN_BALLS: u8 = 1;

/// The most balls a match can have.
pub const MAX_BALLS: u8 = 8;

/// The settings of a room, as a plain value.
pub struct RoomSettings {
    pub name: Seq<char>,
    /// Zero until a match has started: the teams are then decided from the
    /// number of players.
    pub nr_teams: u8,
    pub nr_balls: u8,
    pub spin_towards_center: bool,
    pub power_ups: bool,
    pub match_time: MatchTime,
    pub player_count: u16,
}

/// The number of teams that suits `player_count` players: four where they
/// split evenly into more than one player each, two for two or four
/// players, three where they split into threes, five otherwise.
pub open spec fn auto_team_count(player_count: u16) -> u8 {
    if player_count > 4 && player_count % 4 == 0 {
        4
    } else if player_count == 2 || player_count == 4 {
        2
    } else if player_count % 3 == 0 {
        3
    } else {
        5
    }
}

/// Whether a host may ask for these settings.
pub open spec fn settings_ok(update: UpdateSettings) -> bool {
    MIN_BALLS <= update.balls <= MAX_BALLS
}

impl RoomSettings {
    /// The settings of a room that was just created.
    pub open spec fn initial(name: Seq<char>) -> RoomSettings {
        RoomSettings {
            name,
            nr_teams: 0,
            nr_balls: 2,
            spin_towards_center: false,
            power_ups: true,
            match_time: MatchTime::Short,
            player_count: 0,
        }
    }

    /// The part of the settings that the host may change.
    pub open spec fn settings(self) -> UpdateSettings {
        UpdateSettings {
            balls: self.nr_balls,
            power_ups: self.power_ups,
            match_time: self.match_time,
            spin_towards_center: self.spin_towards_center,
        }
    }

    /// The settings after the host asked for `update`: taken over where the
    /// update is acceptable, unchanged where it is not.
    pub open spec fn updated(self, update: UpdateSettings) -> RoomSettings {
        if settings_ok(update) {
            RoomSettings {
                nr_balls: update.balls,
                power_ups: update.power_ups,
                match_time: update.match_time,
                spin_towards_center: update.spin_towards_center,
                ..self
            }
        } else {
            self
        }
    }

    /// The settings once a match starts: teams that were still undecided are
    /// decided from the number of players.
    pub open spec fn started(self) -> RoomSettings {
        if self.nr_teams == 0 {
            RoomSettings { nr_teams: auto_team_count(self.player_count), ..self }
        } else {
            self
        }
    }

    /// Whether the numbers are within what a room allows.
    pub open spec fn in_bounds(self) -> bool {
        &&& MIN_BALLS <= self.nr_balls <= MAX_BALLS
        &&& self.nr_teams == 0 || 2 <= self.nr_teams <= 5
    }
}

/// The teams that are decided for a match are always two to five.
pub proof fn lemma_auto_team_count_range(player_count: u16)
    ensures
        2 <= auto_team_count(player_count) <= 5,
{
}

/// Settings that were accepted are the settings that are read back.
pub proof fn lemma_update_round_trip(before: RoomSettings, update: UpdateSettings)
    requires
        settings_ok(update),
    ensures
        before.updated(update).settings() == update,
        before.updated(update).nr_teams == before.nr_teams,
        before.updated(update).player_count == before.player_count,
        before.updated(update).name == before.name,
{
}

/// Settings that were refused change nothing.
pub proof fn lemma_update_refused(before: RoomSettings, update: UpdateSettings)
    requires
        !settings_ok(update),
    ensures
        before.updated(update) == before,
{
}

/// The settings of one room.
pub struct SharedRoomData {
    name: String,
    /// nr_teams == 0 means that it will automatically decide.
    nr_teams: u8,
    nr_balls: u8,
    spin_towards_center: bool,
    power_ups: bool,
    match_time: MatchTime,
    player_count: u16,
}

impl View for SharedRoomData {
    type V = RoomSettings;

    closed spec fn view(&self) -> RoomSettings {
        RoomSettings {
            name: self.name@,
            nr_teams: self.nr_teams,
            nr_balls: self.nr_balls,
            spin_towards_center: self.spin_towards_center,
            power_ups: self.power_ups,
            match_time: self.match_time,
            player_count: self.player_count,
        }
    }
}

impl Clone for SharedRoomData {
    /// A snapshot of the settings as they are now.
    fn clone(&self) -> (copy: Self)
        ensures
            copy@ == self@,
    {
        proof {
            use_type_invariant(self);
        }
        Self {
            name: self.name.clone(),
            nr_teams: self.nr_teams,
            nr_balls: self.nr_balls,
            spin_towards_center: self.spin_towards_center,
            power_ups: self.power_ups,
            match_time: self.match_time,
            player_count: self.player_count,
        }
    }
}

impl SharedRoomData {
    #[verifier::type_invariant]
    spec fn inv(self) -> bool {
        self@.in_bounds()
    }

    /// Creates new shared room data: teams undecided, two balls, power-ups
    /// on, a short match, nobody in.
    pub fn new(name: String) -> (data: Self)
        ensures
            data@ == RoomSettings::initial(name@),
            data@.in_bounds(),
    {
        Self {
            name,
            nr_teams: 0,
            nr_balls: 2,
            spin_towards_center: false,
            power_ups: true,
            match_time: MatchTime::Short,
            player_count: 0,
        }
    }

    /// The name of the room.
    pub fn name(&self) -> (name: &str)
        ensures
            name@ == self@.name,
    {
        self.name.as_str()
    }

    /// Update the player count: `delta` is added, wrapping round, so that
    /// the greatest `delta` takes one player off.
    pub fn update_player_count(&mut self, delta: u16)
        ensures
            final(self)@ == (RoomSettings {
                player_count: ((old(self)@.player_count + delta) % 0x1_0000) as u16,
                ..old(self)@
            }),
    {
        proof {
            use_type_invariant(&*self);
        }
        self.player_count = self.player_count.wrapping_add(delta);
    }

    /// Gets the number of teams.
    pub fn nr_teams(&self) -> (teams: u8)
        ensures
            teams == self@.nr_teams,
            teams == 0 || 2 <= teams <= 5,
    {
        proof {
            use_type_invariant(self);
        }
        self.nr_teams
    }

    /// Gets the number of balls.
    pub fn nr_balls(&self) -> (balls: u8)
        ensures
            balls == self@.nr_balls,
            MIN_BALLS <= balls <= MAX_BALLS,
    {
        proof {
            use_type_invariant(self);
        }
        self.nr_balls
    }

    /// Gets the number of players.
    pub fn player_count(&self) -> (count: u16)
        ensures
            count == self@.player_count,
    {
        self.player_count
    }

    /// Calculates the number of sectors for ball throwing.
    pub fn nr_throw_sectors(&self) -> (sectors: u32)
        ensures
            sectors == self@.nr_teams,
    {
        self.nr_teams as u32
    }

    /// Power ups.
    pub fn power_ups(&self) -> (on: bool)
        ensures
            on == self@.power_ups,
    {
        self.power_ups
    }

    /// Spin towards center?
    pub fn spin_towards_center(&self) -> (on: bool)
        ensures
            on == self@.spin_towards_center,
    {
        self.spin_towards_center
    }

    /// Start the match: decides the number of teams if it is still open.
    pub fn start(&mut self)
        ensures
            final(self)@ == old(self)@.started(),
            2 <= final(self)@.nr_teams <= 5,
    {
        proof {
            use_type_invariant(&*self);
        }
        if self.nr_teams == 0 {
            let player_count = self.player_count;
            let nr_teams: u8 = if player_count > 4 && player_count % 4 == 0 {
                4
            } else if player_count == 2 || player_count == 4 {
                2
            } else if player_count % 3 == 0 {
                3
            } else {
                5
            };
            self.nr_teams = nr_teams;
        }
    }

    /// Match time.
    pub fn match_time(&self) -> (match_time: MatchTime)
        ensures
            match_time == self@.match_time,
    {
        self.match_time
    }

    /// Match time in seconds.
    pub fn match_time_seconds(&self) -> (seconds: u16)
        ensures
            seconds == crate::room::match_seconds(self@.match_time),
    {
        self.match_time.seconds()
    }

    /// Update settings. Returns whether the update was acceptable; one that
    /// is not changes nothing.
    pub fn update_settings(&mut self, update: UpdateSettings) -> (accepted: bool)
        ensures
            accepted == settings_ok(update),
            final(self)@ == old(self)@.updated(update),
            accepted ==> final(self)@.settings() == update,
    {
        proof {
            use_type_invariant(&*self);
        }
        // First, verify.
        if update.balls < MIN_BALLS || update.balls > MAX_BALLS {
            return false;
        }
        // Now perform the update.

        self.nr_balls = update.balls;
        self.power_ups = update.power_ups;
        self.match_time = update.match_time;
        self.spin_towards_center = update.spin_towards_center;
        true
    }

    /// Settings.
    pub fn settings(&self) -> (settings: UpdateSettings)
        ensures
            settings == self@.settings(),
    {
        UpdateSettings {
            balls: self.nr_balls,
            power_ups: self.power_ups,
            match_time: self.match_time,
            spin_towards_center: self.spin_towards_center,
        }
    }
}

} // verus!
