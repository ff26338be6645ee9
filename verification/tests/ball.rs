use arena_core::ball::{
    Ball, BallTickResult, HitPair, PaddleContact, TickProbe, MAX_RALLIES, MOVEMENT_BUFFER_CAP,
    NO_TEAM,
};
use arena_core::powerup::{PowerUpEffect, PowerUpEffectType};

fn clean(advanced: i32) -> TickProbe<i32> {
    TickProbe { advanced, contact: PaddleContact::Miss, escaped_through: None, power_up: None }
}

fn hit(advanced: i32, team: u8, bounced: i32) -> TickProbe<i32> {
    TickProbe {
        advanced,
        contact: PaddleContact::Hit { team, bounced },
        escaped_through: None,
        power_up: None,
    }
}

#[test]
fn hit_pair_packs_two_teams() {
    let p = HitPair::new(3, 1);
    assert_eq!(p.hit_team(), 3);
    assert_eq!(p.receiving_team(), 1);
    let p = HitPair::new(0, NO_TEAM);
    assert_eq!(p.hit_team(), 0);
    assert_eq!(p.receiving_team(), NO_TEAM);
    let p = HitPair::new(NO_TEAM, 4);
    assert_eq!(p.hit_team(), NO_TEAM);
    assert_eq!(p.receiving_team(), 4);
}

#[test]
fn hit_pair_none_is_no_team_twice() {
    let p = HitPair::none();
    assert_eq!(p.hit_team(), 15);
    assert_eq!(p.receiving_team(), 15);
}

#[test]
fn hit_pair_drops_high_bits_of_hit_team() {
    // Only four bits of the hitting team fit.
    let p = HitPair::new(0x13, 2);
    assert_eq!(p.hit_team(), 3);
    assert_eq!(p.receiving_team(), 2);
}

#[test]
fn new_ball_has_untouched_history() {
    let ball = Ball::new(42i32);
    assert_eq!(ball.characteristics(), 42);
    assert_eq!(ball.last_rally(), 0);
    assert_eq!(ball.last_hit_team(), NO_TEAM);
    assert_eq!(ball.last_hit_pair().receiving_team(), NO_TEAM);
    for i in 0..MOVEMENT_BUFFER_CAP {
        assert!(!ball.has_collision(i));
    }
}

#[test]
fn clean_tick_advances_and_keeps_the_rest() {
    let mut ball = Ball::new(0i32);
    let (result, effect) = ball.tick(clean(1), MOVEMENT_BUFFER_CAP - 1);
    assert_eq!(result, BallTickResult::Nothing);
    assert_eq!(effect, None);
    assert_eq!(ball.characteristics(), 1);
    assert_eq!(ball.last_rally(), 0);
    assert_eq!(ball.last_hit_team(), NO_TEAM);
    assert!(!ball.has_collision(MOVEMENT_BUFFER_CAP - 1));
}

#[test]
fn bounce_counts_a_rally_and_names_the_team() {
    let mut ball = Ball::new(0i32);
    let (result, effect) = ball.tick(hit(1, 1, 100), MOVEMENT_BUFFER_CAP - 1);
    assert_eq!(result, BallTickResult::Bounce);
    assert_eq!(effect, None);
    assert_eq!(ball.characteristics(), 100);
    assert_eq!(ball.last_rally(), 1);
    assert_eq!(ball.last_hit_team(), 1);
    assert_eq!(ball.last_hit_pair().receiving_team(), NO_TEAM);
    // The bounce guards itself and the snapshot it started from.
    assert!(ball.has_collision(MOVEMENT_BUFFER_CAP - 1));
    assert!(ball.has_collision(MOVEMENT_BUFFER_CAP - 2));
    assert!(!ball.has_collision(MOVEMENT_BUFFER_CAP - 3));
}

#[test]
fn guarded_snapshot_ignores_a_paddle() {
    let mut ball = Ball::new(0i32);
    ball.tick(hit(1, 1, 100), MOVEMENT_BUFFER_CAP - 1);
    let (result, _) = ball.tick(hit(101, 0, 200), MOVEMENT_BUFFER_CAP - 1);
    assert_eq!(result, BallTickResult::Nothing);
    assert_eq!(ball.characteristics(), 101);
    assert_eq!(ball.last_rally(), 1);
    assert_eq!(ball.last_hit_team(), 1);
    assert!(!ball.has_collision(MOVEMENT_BUFFER_CAP - 1));
}

#[test]
fn double_hit_is_a_clean_advance() {
    let mut ball = Ball::new(0i32);
    let probe = TickProbe {
        advanced: 5,
        contact: PaddleContact::Double,
        escaped_through: Some(1),
        power_up: None,
    };
    let (result, _, history) = ball.tick_no_update(probe, MOVEMENT_BUFFER_CAP - 1);
    assert_eq!(result, BallTickResult::Nothing);
    assert_eq!(history.base(), 5);
    assert!(!history.ignore_player_collision());
    assert_eq!(history.rally(), 0);
    assert_eq!(history.hit_pair().hit_team(), NO_TEAM);
    assert_eq!(history.hit_pair().receiving_team(), NO_TEAM);
    let (result, _) = ball.tick(probe, MOVEMENT_BUFFER_CAP - 1);
    assert_eq!(result, BallTickResult::Nothing);
}

#[test]
fn rally_stops_at_its_maximum() {
    let mut ball = Ball::new(0i32);
    for n in 1..=8u8 {
        // A clean step in between opens the ball to paddles again.
        let (result, _) = ball.tick(hit(0, n % 2, 0), MOVEMENT_BUFFER_CAP - 1);
        assert_eq!(result, BallTickResult::Bounce);
        assert_eq!(ball.last_rally(), n.min(MAX_RALLIES));
        assert_eq!(ball.last_hit_team(), n % 2);
        ball.tick(clean(0), MOVEMENT_BUFFER_CAP - 1);
        assert_eq!(ball.last_rally(), n.min(MAX_RALLIES));
    }
    assert_eq!(ball.last_rally(), 5);
}

#[test]
fn escape_names_the_receiving_team_once() {
    let mut ball = Ball::new(0i32);
    ball.tick(hit(0, 0, 0), MOVEMENT_BUFFER_CAP - 1);
    ball.tick(clean(1), MOVEMENT_BUFFER_CAP - 1);
    let out = TickProbe {
        advanced: 2,
        contact: PaddleContact::Miss,
        escaped_through: Some(1),
        power_up: None,
    };
    let (result, _) = ball.tick(out, MOVEMENT_BUFFER_CAP - 1);
    assert_eq!(result, BallTickResult::Outside);
    assert_eq!(ball.characteristics(), 2);
    assert_eq!(ball.last_hit_team(), 0);
    assert_eq!(ball.last_hit_pair().receiving_team(), 1);
    // A later escape through another sector does not change the receiver.
    let out = TickProbe { escaped_through: Some(0), advanced: 3, ..out };
    let (result, _) = ball.tick(out, MOVEMENT_BUFFER_CAP - 1);
    assert_eq!(result, BallTickResult::Outside);
    assert_eq!(ball.last_hit_pair().receiving_team(), 1);
    assert_eq!(ball.last_rally(), 1);
}

#[test]
fn power_up_needs_a_hitting_team() {
    let mut ball = Ball::new(0i32);
    let probe = TickProbe { power_up: Some(PowerUpEffectType::SlowDown), ..clean(1) };
    let (_, effect) = ball.tick(probe, MOVEMENT_BUFFER_CAP - 1);
    assert_eq!(effect, None);
    ball.tick(hit(1, 3, 1), MOVEMENT_BUFFER_CAP - 1);
    let (result, effect) = ball.tick(probe, MOVEMENT_BUFFER_CAP - 1);
    assert_eq!(result, BallTickResult::Nothing);
    assert_eq!(
        effect,
        Some(PowerUpEffect { effect_type: PowerUpEffectType::SlowDown, activating_team: 3 })
    );
}

#[test]
fn respawn_resets_the_present_only() {
    let mut ball = Ball::new(0i32);
    ball.tick(hit(1, 2, 10), MOVEMENT_BUFFER_CAP - 1);
    ball.reset_characteristics(77);
    assert_eq!(ball.characteristics(), 77);
    assert_eq!(ball.last_rally(), 1);
    assert_eq!(ball.last_hit_team(), 2);
    assert!(ball.has_collision(MOVEMENT_BUFFER_CAP - 1));
    ball.reset_other_fields_for_respawn();
    assert_eq!(ball.characteristics(), 77);
    assert_eq!(ball.last_rally(), 0);
    assert_eq!(ball.last_hit_team(), NO_TEAM);
    assert_eq!(ball.last_hit_pair().receiving_team(), NO_TEAM);
    assert!(!ball.has_collision(MOVEMENT_BUFFER_CAP - 1));
    assert!(ball.has_collision(MOVEMENT_BUFFER_CAP - 2));
}

#[test]
fn tick_no_update_leaves_the_ball_alone() {
    let ball = Ball::new(3i32);
    let (result, _, history) = ball.tick_no_update(hit(4, 1, 9), 2);
    assert_eq!(result, BallTickResult::Bounce);
    assert_eq!(history.base(), 9);
    assert!(history.ignore_player_collision());
    assert_eq!(history.rally(), 1);
    assert_eq!(history.hit_pair().hit_team(), 1);
    assert_eq!(ball.characteristics(), 3);
    assert_eq!(ball.last_rally(), 0);
}

#[test]
fn rewind_and_apply_rewrites_the_past() {
    let mut ball = Ball::new(0i32);
    for x in 1..=6 {
        ball.tick(clean(x), MOVEMENT_BUFFER_CAP - 1);
    }
    // History is 1..=6. A hit two ticks back: probe from index 3 (value 4).
    assert_eq!(ball.snapshot(3).base(), 4);
    let (result, _, history) = ball.tick_no_update(hit(5, 1, 50), 3);
    assert_eq!(result, BallTickResult::Bounce);
    ball.rewind_and_apply(2, history);
    assert_eq!(ball.characteristics(), 50);
    assert_eq!(ball.last_rally(), 1);
    assert!(ball.has_collision(MOVEMENT_BUFFER_CAP - 1));
    // Behind the rewritten snapshot stands the one it was probed from; the
    // two snapshots it replaces have wrapped to the front.
    let bases: Vec<i32> = (0..MOVEMENT_BUFFER_CAP).map(|i| ball.snapshot(i).base()).collect();
    assert_eq!(bases, vec![6, 1, 2, 3, 4, 50]);
    ball.tick(clean(60), MOVEMENT_BUFFER_CAP - 1);
    ball.tick(clean(70), MOVEMENT_BUFFER_CAP - 1);
    let bases: Vec<i32> = (0..MOVEMENT_BUFFER_CAP).map(|i| ball.snapshot(i).base()).collect();
    assert_eq!(bases, vec![2, 3, 4, 50, 60, 70]);
    assert_eq!(ball.characteristics(), 70);
    assert_eq!(ball.last_rally(), 1);
    assert_eq!(ball.last_hit_team(), 1);
    // The time index wraps like the history does.
    assert_eq!(ball.snapshot(MOVEMENT_BUFFER_CAP).base(), 2);
}

#[test]
fn history_always_holds_six_snapshots() {
    assert_eq!(MOVEMENT_BUFFER_CAP, 6);
    let mut ball = Ball::new(9i32);
    for i in 0..6 {
        assert_eq!(ball.snapshot(i).base(), 9);
        assert_eq!(ball.snapshot(i).rally(), 0);
    }
    for x in 0..20 {
        ball.tick(hit(x, 0, x), MOVEMENT_BUFFER_CAP - 1);
        ball.tick(clean(x), MOVEMENT_BUFFER_CAP - 1);
        for i in 0..6 {
            assert!(ball.snapshot(i).rally() <= MAX_RALLIES);
        }
    }
}

#[test]
fn a_ball_that_left_is_thrown_in_again() {
    let mut ball = Ball::new(0i32);
    ball.tick(hit(1, 0, 1), MOVEMENT_BUFFER_CAP - 1);
    ball.tick(clean(2), MOVEMENT_BUFFER_CAP - 1);
    let out = TickProbe {
        advanced: 3,
        contact: PaddleContact::Miss,
        escaped_through: Some(1),
        power_up: None,
    };
    let (result, _) = ball.tick(out, MOVEMENT_BUFFER_CAP - 1);
    assert_eq!(result, BallTickResult::Outside);
    let sync = ball.respawn(2, 400);
    // The report shows the new place and still the old score.
    assert_eq!(sync.flags, 2);
    assert_eq!(sync.characteristics, 400);
    assert_eq!(sync.index_rally_packed, 0x21);
    assert_eq!(sync.hit_pair.hit_team(), 0);
    assert_eq!(sync.hit_pair.receiving_team(), 1);
    // The ball itself starts over.
    assert_eq!(ball.characteristics(), 400);
    assert_eq!(ball.last_rally(), 0);
    assert_eq!(ball.last_hit_team(), NO_TEAM);
    assert_eq!(ball.last_hit_pair().receiving_team(), NO_TEAM);
    assert!(!ball.has_collision(MOVEMENT_BUFFER_CAP - 1));
    assert_eq!(ball.snapshot(MOVEMENT_BUFFER_CAP - 2).base(), 2);
}

#[test]
fn a_late_probe_rewrites_only_on_a_bounce() {
    let mut ball = Ball::new(0i32);
    for x in 1..=6 {
        ball.tick(clean(x), MOVEMENT_BUFFER_CAP - 1);
    }
    assert!(!ball.apply_late_probe(2, clean(9), 3));
    let bases: Vec<i32> = (0..MOVEMENT_BUFFER_CAP).map(|i| ball.snapshot(i).base()).collect();
    assert_eq!(bases, vec![1, 2, 3, 4, 5, 6]);
    let double = TickProbe { contact: PaddleContact::Double, ..clean(9) };
    assert!(!ball.apply_late_probe(2, double, 3));
    assert!(ball.apply_late_probe(2, hit(5, 1, 50), 3));
    let bases: Vec<i32> = (0..MOVEMENT_BUFFER_CAP).map(|i| ball.snapshot(i).base()).collect();
    assert_eq!(bases, vec![6, 1, 2, 3, 4, 50]);
    assert_eq!(ball.last_rally(), 1);
    assert_eq!(ball.last_hit_team(), 1);
    // A snapshot that saw the bounce is not hit again.
    assert!(!ball.apply_late_probe(0, hit(5, 1, 50), MOVEMENT_BUFFER_CAP - 1));
}

#[test]
fn an_escape_keeps_the_hitting_team() {
    let mut ball = Ball::new(0i32);
    ball.tick(hit(1, 3, 1), MOVEMENT_BUFFER_CAP - 1);
    ball.tick(clean(2), MOVEMENT_BUFFER_CAP - 1);
    for sector in 0..5u8 {
        let out = TickProbe { escaped_through: Some(sector), ..clean(3) };
        let (result, _, history) = ball.tick_no_update(out, MOVEMENT_BUFFER_CAP - 1);
        assert_eq!(result, BallTickResult::Outside);
        assert_eq!(history.hit_pair().hit_team(), 3);
        assert_eq!(history.hit_pair().receiving_team(), sector);
    }
}
