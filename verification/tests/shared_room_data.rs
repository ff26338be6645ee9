use arena_core::protocol::UpdateSettings;
use arena_core::room::MatchTime;
use arena_core::shared_room_data::SharedRoomData;

fn with_players(count: u16) -> SharedRoomData {
    let mut data = SharedRoomData::new(String::from("room"));
    for _ in 0..count {
        data.update_player_count(1);
    }
    data
}

#[test]
fn new_room_has_default_settings() {
    let data = SharedRoomData::new(String::from("lobby"));
    assert_eq!(data.name(), "lobby");
    assert_eq!(data.nr_teams(), 0);
    assert_eq!(data.nr_balls(), 2);
    assert_eq!(data.player_count(), 0);
    assert!(data.power_ups());
    assert!(!data.spin_towards_center());
    assert_eq!(data.match_time(), MatchTime::Short);
    assert_eq!(data.match_time_seconds(), 150);
    assert_eq!(data.nr_throw_sectors(), 0);
}

#[test]
fn auto_team_selection() {
    let mut data = with_players(8);
    data.start();
    assert_eq!(data.nr_teams(), 4);
    let mut data = with_players(6);
    data.start();
    assert_eq!(data.nr_teams(), 3);
    let mut data = with_players(7);
    data.start();
    assert_eq!(data.nr_teams(), 5);
}

#[test]
fn auto_team_selection_for_every_small_room() {
    let expected: [(u16, u8); 13] = [
        (0, 3),
        (1, 5),
        (2, 2),
        (3, 3),
        (4, 2),
        (5, 5),
        (6, 3),
        (7, 5),
        (8, 4),
        (9, 3),
        (10, 5),
        (12, 4),
        (15, 3),
    ];
    for (players, teams) in expected {
        let mut data = with_players(players);
        data.start();
        assert_eq!(data.nr_teams(), teams);
        assert_eq!(data.nr_throw_sectors(), teams as u32);
    }
}

#[test]
fn teams_once_decided_stay() {
    let mut data = with_players(2);
    data.start();
    assert_eq!(data.nr_teams(), 2);
    data.update_player_count(1);
    data.start();
    assert_eq!(data.nr_teams(), 2);
}

#[test]
fn player_count_goes_down_by_wrapping() {
    let mut data = with_players(3);
    data.update_player_count(u16::MAX);
    assert_eq!(data.player_count(), 2);
    data.update_player_count(u16::MAX);
    data.update_player_count(u16::MAX);
    assert_eq!(data.player_count(), 0);
    data.update_player_count(u16::MAX);
    assert_eq!(data.player_count(), u16::MAX);
}

#[test]
fn accepted_settings_are_read_back() {
    let mut data = with_players(2);
    let update = UpdateSettings {
        balls: 8,
        power_ups: false,
        match_time: MatchTime::Long,
        spin_towards_center: true,
    };
    assert!(data.update_settings(update));
    assert_eq!(data.settings(), update);
    assert_eq!(data.nr_balls(), 8);
    assert!(!data.power_ups());
    assert!(data.spin_towards_center());
    assert_eq!(data.match_time(), MatchTime::Long);
    assert_eq!(data.match_time_seconds(), 300);
    assert_eq!(data.player_count(), 2);
    assert_eq!(data.nr_teams(), 0);
    let update = UpdateSettings { balls: 1, ..update };
    assert!(data.update_settings(update));
    assert_eq!(data.settings(), update);
}

#[test]
fn refused_settings_change_nothing() {
    let mut data = SharedRoomData::new(String::from("room"));
    let before = data.settings();
    let update = UpdateSettings {
        balls: 0,
        power_ups: false,
        match_time: MatchTime::Long,
        spin_towards_center: true,
    };
    assert!(!data.update_settings(update));
    assert_eq!(data.settings(), before);
    assert!(!data.update_settings(UpdateSettings { balls: 9, ..update }));
    assert_eq!(data.settings(), before);
    assert!(!data.update_settings(UpdateSettings { balls: 255, ..update }));
    assert_eq!(data.settings(), before);
    assert_eq!(before.balls, 2);
}

#[test]
fn clone_is_a_snapshot() {
    let mut data = with_players(4);
    let snapshot = data.clone();
    data.update_player_count(1);
    data.start();
    assert_eq!(snapshot.player_count(), 4);
    assert_eq!(snapshot.nr_teams(), 0);
    assert_eq!(snapshot.name(), "room");
    assert_eq!(snapshot.settings(), data.settings());
    assert_eq!(data.player_count(), 5);
    assert_eq!(data.nr_teams(), 5);
}
