use arena_core::ball::{Ball, BallTickResult, PaddleContact, TickProbe, MOVEMENT_BUFFER_CAP};
use arena_core::protocol::{
    is_name_char, is_valid_name, BallSync, LoginMessageFromClient, LoginReply, OutdatedReason,
    PROTOCOL_VERSION,
};

fn login(version: u32, name: &str) -> LoginReply {
    LoginMessageFromClient::SetName(version, String::from(name)).reply()
}

#[test]
fn names_of_one_to_twenty_plain_characters_pass() {
    assert!(is_valid_name("a"));
    assert!(is_valid_name("Ann 42"));
    assert!(is_valid_name(" "));
    assert!(is_valid_name("ABCDEFGHIJKLMNOPQRST"));
    assert!(is_valid_name("abcdefghijklmnopqrst"));
    assert!(is_valid_name("01234567890123456789"));
    assert!(is_valid_name("zZ09aA"));
}

#[test]
fn other_names_are_refused() {
    assert!(!is_valid_name(""));
    assert!(!is_valid_name("ABCDEFGHIJKLMNOPQRSTU"));
    assert!(!is_valid_name("ann!"));
    assert!(!is_valid_name("ann_b"));
    assert!(!is_valid_name("ann\n"));
    assert!(!is_valid_name("änn"));
    assert!(!is_valid_name("-"));
    assert!(!is_valid_name("ann\u{0}"));
}

#[test]
fn name_characters_at_the_edges() {
    for c in ['0', '9', 'A', 'Z', 'a', 'z', ' '] {
        assert!(is_name_char(c));
    }
    for c in ['/', ':', '@', '[', '`', '{', '\t', 'é'] {
        assert!(!is_name_char(c));
    }
}

#[test]
fn login_judges_the_version_first() {
    assert_eq!(PROTOCOL_VERSION, 9);
    assert_eq!(login(9, "ann"), LoginReply::Ack);
    assert_eq!(login(9, ""), LoginReply::NameError);
    assert_eq!(login(9, "a name that is much too long"), LoginReply::NameError);
    assert_eq!(login(8, "ann"), LoginReply::Outdated(OutdatedReason::Client));
    assert_eq!(login(0, ""), LoginReply::Outdated(OutdatedReason::Client));
    assert_eq!(login(10, "ann"), LoginReply::Outdated(OutdatedReason::Server));
    assert_eq!(login(u32::MAX, "!"), LoginReply::Outdated(OutdatedReason::Server));
}

#[test]
fn ball_sync_packs_number_and_rally() {
    let mut ball = Ball::new(5u16);
    let probe = TickProbe {
        advanced: 6,
        contact: PaddleContact::Hit { team: 2, bounced: 60 },
        escaped_through: None,
        power_up: None,
    };
    let (result, _) = ball.tick(probe, MOVEMENT_BUFFER_CAP - 1);
    let sync = BallSync::new(3, 1, &ball);
    assert_eq!(sync.index_rally_packed, 0x31);
    assert_eq!(sync.index_rally_packed >> 4, 3);
    assert_eq!(sync.index_rally_packed & 15, 1);
    assert_eq!(sync.flags, 1);
    assert_eq!(sync.characteristics, 60);
    assert_eq!(sync.hit_pair.hit_team(), 2);
    let sync = BallSync::after_tick(7, result, &ball);
    assert_eq!(sync.index_rally_packed, 0x71);
    assert_eq!(sync.flags, 1);
}

#[test]
fn sync_flags_name_the_event() {
    let ball = Ball::new(0u8);
    assert_eq!(BallSync::after_tick(0, BallTickResult::Nothing, &ball).flags, 0);
    assert_eq!(BallSync::after_tick(0, BallTickResult::Bounce, &ball).flags, 1);
    assert_eq!(BallSync::after_tick(0, BallTickResult::Outside, &ball).flags, 2);
    assert_eq!(BallSync::after_tick(0, BallTickResult::Outside, &ball).index_rally_packed, 0);
}
