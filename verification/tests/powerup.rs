use arena_core::powerup::{PowerUp, PowerUpEffect, PowerUpEffectType, PowerUpSignal};

#[test]
fn effects_are_numbered() {
    assert_eq!(PowerUpEffectType::from_index(0), PowerUpEffectType::GrowOwnTeam);
    assert_eq!(PowerUpEffectType::from_index(1), PowerUpEffectType::BonusPoints);
    assert_eq!(PowerUpEffectType::from_index(2), PowerUpEffectType::SplitRGB);
    assert_eq!(PowerUpEffectType::from_index(3), PowerUpEffectType::RotateField);
    assert_eq!(PowerUpEffectType::from_index(4), PowerUpEffectType::SlowDown);
    assert_eq!(PowerUpEffectType::from_index(5), PowerUpEffectType::GrowOwnTeam);
    assert_eq!(PowerUpEffectType::from_index(255), PowerUpEffectType::GrowOwnTeam);
}

#[test]
fn power_up_keeps_place_and_effect() {
    let p = PowerUp::new((3, 4), PowerUpEffectType::RotateField);
    assert_eq!(p.pos(), (3, 4));
    assert_eq!(p.effect_type(), PowerUpEffectType::RotateField);
}

fn effect(effect_type: PowerUpEffectType) -> PowerUpEffect {
    PowerUpEffect { effect_type, activating_team: 3 }
}

#[test]
fn what_each_effect_announces_when_picked_up() {
    assert_eq!(
        effect(PowerUpEffectType::GrowOwnTeam).on_activation(),
        PowerUpSignal::ResizePlayers { team: 3, grown: true }
    );
    assert_eq!(effect(PowerUpEffectType::BonusPoints).on_activation(), PowerUpSignal::BonusPoints(3));
    assert_eq!(effect(PowerUpEffectType::SplitRGB).on_activation(), PowerUpSignal::SplitRGB(3));
    assert_eq!(effect(PowerUpEffectType::RotateField).on_activation(), PowerUpSignal::RotateField(3));
    assert_eq!(
        effect(PowerUpEffectType::SlowDown).on_activation(),
        PowerUpSignal::SlowDown { team: 3, slowed: true }
    );
}

#[test]
fn what_each_effect_announces_when_it_ends() {
    assert_eq!(
        effect(PowerUpEffectType::GrowOwnTeam).on_end(),
        PowerUpSignal::ResizePlayers { team: 3, grown: false }
    );
    assert_eq!(effect(PowerUpEffectType::BonusPoints).on_end(), PowerUpSignal::Nothing);
    assert_eq!(effect(PowerUpEffectType::SplitRGB).on_end(), PowerUpSignal::SplitRGB(3));
    assert_eq!(effect(PowerUpEffectType::RotateField).on_end(), PowerUpSignal::RotateField(3));
    assert_eq!(
        effect(PowerUpEffectType::SlowDown).on_end(),
        PowerUpSignal::SlowDown { team: 3, slowed: false }
    );
}
