use arena_core::bot::{BallMask, Bot};

#[test]
fn new_mask_holds_no_ball() {
    let mask = BallMask::new();
    for bit in 0..16 {
        assert!(!mask.contains(bit));
    }
}

#[test]
fn inserted_balls_are_held() {
    let mut mask = BallMask::new();
    mask.insert(0);
    mask.insert(3);
    mask.insert(7);
    for bit in 0..8 {
        assert_eq!(mask.contains(bit), bit == 0 || bit == 3 || bit == 7);
    }
    mask.insert(3);
    assert!(mask.contains(3));
    assert!(!mask.contains(4));
}

#[test]
fn balls_past_the_eighth_are_never_held() {
    let mut mask = BallMask::new();
    mask.insert(8);
    mask.insert(9);
    mask.insert(usize::MAX);
    for bit in 0..20 {
        assert!(!mask.contains(bit));
    }
    assert!(!mask.contains(usize::MAX));
}

#[test]
fn union_holds_what_either_holds() {
    let mut a = BallMask::new();
    a.insert(1);
    a.insert(2);
    let mut b = BallMask::new();
    b.insert(2);
    b.insert(5);
    let union = a | b;
    for bit in 0..8 {
        assert_eq!(union.contains(bit), bit == 1 || bit == 2 || bit == 5);
    }
    assert!(!a.contains(5));
    a |= b;
    for bit in 0..8 {
        assert_eq!(a.contains(bit), bit == 1 || bit == 2 || bit == 5);
    }
}

#[test]
fn a_bot_numbers_its_moves_by_the_tick() {
    let mut bot = Bot::new(7);
    assert_eq!(bot.id(), 7);
    assert_eq!(bot.take_seq_nr(), 3);
    assert_eq!(bot.take_seq_nr(), 6);
    assert_eq!(bot.take_seq_nr(), 9);
    assert_eq!(bot.id(), 7);
}

#[test]
fn a_player_takes_every_move_of_its_bot() {
    let mut bot = Bot::new(1);
    let mut player = arena_core::player::Player::new(String::from("Bot 1"), 0);
    for tick in 1..=5u32 {
        let seq_nr = bot.take_seq_nr();
        assert_eq!(seq_nr, 3 * tick);
        assert!(player.queue_move(seq_nr, arena_core::ball::NO_TEAM));
        assert_eq!(player.tick(), Some(seq_nr));
    }
}
