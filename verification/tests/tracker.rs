use arena_core::powerup::PowerUpEffectType;
use arena_core::tracker::Tracker;
use rand::Rng;

fn index_of(effect: PowerUpEffectType) -> usize {
    match effect {
        PowerUpEffectType::GrowOwnTeam => 0,
        PowerUpEffectType::BonusPoints => 1,
        PowerUpEffectType::SplitRGB => 2,
        PowerUpEffectType::RotateField => 3,
        PowerUpEffectType::SlowDown => 4,
    }
}

#[test]
fn sectors_count_up_from_zero() {
    let mut tracker = Tracker::new(1);
    assert_eq!(tracker.next_ball_sector(), 0);
    assert_eq!(tracker.next_ball_sector(), 1);
    assert_eq!(tracker.next_ball_sector(), 2);
    tracker.next_powerup_type();
    assert_eq!(tracker.next_ball_sector(), 3);
    tracker.reset();
    assert_eq!(tracker.next_ball_sector(), 0);
    assert_eq!(tracker.next_ball_sector(), 1);
}

#[test]
fn same_seed_same_power_ups() {
    let mut a = Tracker::new(674576854472);
    let mut b = Tracker::new(674576854472);
    for _ in 0..200 {
        assert_eq!(a.next_powerup_type(), b.next_powerup_type());
    }
}

#[test]
fn every_kind_of_power_up_is_drawn() {
    let mut tracker = Tracker::new(7);
    let mut seen = [0u32; 5];
    for _ in 0..2000 {
        seen[index_of(tracker.next_powerup_type())] += 1;
    }
    // Five kinds, evenly drawn: none is rare, so the draw is more than the
    // number handed through.
    for count in seen {
        assert!(count > 200);
    }
}

#[test]
fn reset_keeps_the_generator_going() {
    let mut a = Tracker::new(9);
    let mut b = Tracker::new(9);
    let first: Vec<_> = (0..20).map(|_| a.next_powerup_type()).collect();
    for _ in 0..20 {
        b.next_powerup_type();
    }
    b.reset();
    let after_reset: Vec<_> = (0..20).map(|_| b.next_powerup_type()).collect();
    let second: Vec<_> = (0..20).map(|_| a.next_powerup_type()).collect();
    assert_eq!(after_reset, second);
    assert_ne!(first, second);
}

#[test]
fn other_draws_share_the_generator() {
    let mut a = Tracker::new(11);
    let mut b = Tracker::new(11);
    let x: u32 = a.rng_mut().gen_range(0..1000);
    let y: u32 = b.rng_mut().gen_range(0..1000);
    assert_eq!(x, y);
    assert!(x < 1000);
    for _ in 0..50 {
        assert_eq!(a.next_powerup_type(), b.next_powerup_type());
    }
}

#[test]
fn the_seed_decides_the_draws() {
    let drawn = |seed: u64| -> Vec<PowerUpEffectType> {
        let mut tracker = Tracker::new(seed);
        (0..64).map(|_| tracker.next_powerup_type()).collect()
    };
    assert_eq!(drawn(1), drawn(1));
    assert_eq!(drawn(674576854472), drawn(674576854472));
    // A tracker that forgot its seed would draw alike for every seed.
    assert_ne!(drawn(1), drawn(2));
    assert_ne!(drawn(0), drawn(674576854472));
    assert_ne!(drawn(2), drawn(3));
}
