//! Power-ups: the effect kinds, who activated one, and what each effect
//! announces when it starts and when it runs out.

use vstd::prelude::*;

verus! {

/// The five effects a power-up can have.
#[derive(Debug, Copy, Clone, PartialEq, Eq, Structural)]
pub enum PowerUpEffectType {
    GrowOwnTeam,
    BonusPoints,
    SplitRGB,
    RotateField,
    SlowDown,
}

/// An effect together with the team that picked it up.
#[derive(Debug, Copy, Clone, PartialEq, Eq, Structural)]
pub struct PowerUpEffect {
    pub effect_type: PowerUpEffectType,
    pub activating_team: u8,
}

/// A power-up lying in the field at `pos`.
#[derive(Debug, Copy)]
pub struct PowerUp<V: Copy> {
    pos: V,
    effect: PowerUpEffectType,
}

impl<V: Copy> Clone for PowerUp<V> {
    fn clone(&self) -> (copy: Self)
        ensures
            copy == *self,
    {
        *self
    }
}

/// What the room announces to its clients about a power-up effect.
#[derive(Debug, Copy, Clone, PartialEq, Eq, Structural)]
pub enum PowerUpSignal {
    /// Nothing to announce.
    Nothing,
    /// The paddles of a team change size: grown while the effect lasts,
    /// back to their fair size when it ends.
    ResizePlayers { team: u8, grown: bool },
    BonusPoints(u8),
    SplitRGB(u8),
    RotateField(u8),
    /// Every team but `team` moves slowed down, or at full speed again.
    SlowDown { team: u8, slowed: bool },
}

/// The effect kind with the given number; numbers past the last kind give
/// the first one.
pub open spec fn effect_of_index(index: u8) -> PowerUpEffectType {
    if index == 1 {
        PowerUpEffectType::BonusPoints
    } else if index == 2 {
        PowerUpEffectType::SplitRGB
    } else if index == 3 {
        PowerUpEffectType::RotateField
    } else if index == 4 {
        PowerUpEffectType::SlowDown
    } else {
        PowerUpEffectType::GrowOwnTeam
    }
}

/// What is announced when `effect` is picked up.
pub open spec fn activation_signal(effect: PowerUpEffect) -> PowerUpSignal {
    let team = effect.activating_team;
    match effect.effect_type {
        PowerUpEffectType::GrowOwnTeam => PowerUpSignal::ResizePlayers { team, grown: true },
        PowerUpEffectType::BonusPoints => PowerUpSignal::BonusPoints(team),
        PowerUpEffectType::SplitRGB => PowerUpSignal::SplitRGB(team),
        PowerUpEffectType::RotateField => PowerUpSignal::RotateField(team),
        PowerUpEffectType::SlowDown => PowerUpSignal::SlowDown { team, slowed: true },
    }
}

/// What is announced when `effect` runs out.
pub open spec fn end_signal(effect: PowerUpEffect) -> PowerUpSignal {
    let team = effect.activating_team;
    match effect.effect_type {
        PowerUpEffectType::GrowOwnTeam => PowerUpSignal::ResizePlayers { team, grown: false },
        PowerUpEffectType::BonusPoints => PowerUpSignal::Nothing,
        PowerUpEffectType::SplitRGB => PowerUpSignal::SplitRGB(team),
        PowerUpEffectType::RotateField => PowerUpSignal::RotateField(team),
        PowerUpEffectType::SlowDown => PowerUpSignal::SlowDown { team, slowed: false },
    }
}

impl PowerUpEffectType {
    /// The effect kind that a draw of `index` stands for.
    pub fn from_index(index: u8) -> (effect: Self)
        ensures
            effect == effect_of_index(index),
    {
        match index {
            0 => PowerUpEffectType::GrowOwnTeam,
            1 => PowerUpEffectType::BonusPoints,
            2 => PowerUpEffectType::SplitRGB,
            3 => PowerUpEffectType::RotateField,
            4 => PowerUpEffectType::SlowDown,
            _ => PowerUpEffectType::GrowOwnTeam,
        }
    }
}

impl PowerUpEffect {
    /// The announcement for the moment the effect is picked up.
    pub fn on_activation(&self) -> (signal: PowerUpSignal)
        ensures
            signal == activation_signal(*self),
    {
        let team = self.activating_team;
        match self.effect_type {
            PowerUpEffectType::GrowOwnTeam => PowerUpSignal::ResizePlayers { team, grown: true },
            PowerUpEffectType::BonusPoints => PowerUpSignal::BonusPoints(team),
            PowerUpEffectType::SplitRGB => PowerUpSignal::SplitRGB(team),
            PowerUpEffectType::RotateField => PowerUpSignal::RotateField(team),
            PowerUpEffectType::SlowDown => PowerUpSignal::SlowDown { team, slowed: true },
        }
    }

    /// The announcement for the moment the effect runs out.
    pub fn on_end(&self) -> (signal: PowerUpSignal)
        ensures
            signal == end_signal(*self),
    {
        let team = self.activating_team;
        match self.effect_type {
            PowerUpEffectType::GrowOwnTeam => PowerUpSignal::ResizePlayers { team, grown: false },
            PowerUpEffectType::BonusPoints => PowerUpSignal::Nothing,
            PowerUpEffectType::SplitRGB => PowerUpSignal::SplitRGB(team),
            PowerUpEffectType::RotateField => PowerUpSignal::RotateField(team),
            PowerUpEffectType::SlowDown => PowerUpSignal::SlowDown { team, slowed: false },
        }
    }
}

impl<V: Copy> PowerUp<V> {
    /// The place of the power-up.
    pub closed spec fn spec_pos(&self) -> V {
        self.pos
    }

    /// The effect of the power-up.
    pub closed spec fn spec_effect_type(&self) -> PowerUpEffectType {
        self.effect
    }

    /// Creates a new power-up.
    pub fn new(pos: V, effect: PowerUpEffectType) -> (p: Self)
        ensures
            p.spec_pos() == pos,
            p.spec_effect_type() == effect,
    {
        Self { pos, effect }
    }

    /// Where the power-up lies.
    pub fn pos(&self) -> (pos: V)
        ensures
            pos == self.spec_pos(),
    {
        self.pos
    }

    /// Power-up effect.
    pub fn effect_type(&self) -> (effect: PowerUpEffectType)
        ensures
            effect == self.spec_effect_type(),
    {
        self.effect
    }
}

} // verus!
