use arena_core::room_manager::{
    code_to_str, str_to_code, RoomManager, RoomSpawnFailReason, MAX_ROOM_CREATIONS_PER_IP,
};

#[test]
fn crypt_has_known_values() {
    let m = RoomManager::<()>::new(0);
    assert_eq!(m.crypt(0), 674576854472);
    assert_eq!(m.crypt(1), 680831612646);
    assert_eq!(m.crypt(2), 676143427084);
    assert_eq!(m.crypt(9), 964928338902);
    let m = RoomManager::<()>::new(1_700_000_000);
    assert_eq!(m.crypt(0), 255525756461);
    assert_eq!(m.crypt(1), 259062606259);
    assert_eq!(m.crypt(9), 290243127203);
}

#[test]
fn crypt_depends_on_seed_and_counter_alone() {
    let a = RoomManager::<u8>::new(5);
    let b = RoomManager::<u8>::new(5);
    let expected: [u64; 10] = [
        682798740974,
        967016051856,
        138636034674,
        965294291028,
        680831612646,
        674576854472,
        675217534058,
        676143427084,
        139443438430,
        977778632064,
    ];
    for k in 0..10u64 {
        assert_eq!(a.crypt(k), b.crypt(k));
        assert_eq!(a.crypt(k), expected[k as usize]);
        assert!(a.crypt(k) < (1 << 40));
    }
}

#[test]
fn crypt_gives_distinct_ids() {
    let m = RoomManager::<()>::new(123_456);
    let mut seen = Vec::new();
    for k in 0..200u64 {
        let id = m.crypt(k);
        assert!(!seen.contains(&id));
        seen.push(id);
    }
}

#[test]
fn room_code_round_trip() {
    let m = RoomManager::<()>::new(1_700_000_000);
    for k in 0..10u64 {
        let id = m.crypt(k);
        let code = code_to_str(id);
        assert_eq!(code.chars().count(), 8);
        assert_eq!(str_to_code(&code), Some(id));
    }
}

#[test]
fn codes_have_known_spelling() {
    assert_eq!(code_to_str(0), "TTTTTTTT");
    assert_eq!(code_to_str(31), "QTTTTTTT");
    assert_eq!(code_to_str(32), "T4TTTTTT");
    assert_eq!(code_to_str((1 << 40) - 1), "QQQQQQQQ");
    assert_eq!(code_to_str(674576854472), "FBRPXJMP");
    assert_eq!(code_to_str(290243127203), "WL3EL3BF");
    // Only forty bits are written.
    assert_eq!(code_to_str(1 << 40), "TTTTTTTT");
}

#[test]
fn codes_are_read_symbol_by_symbol() {
    assert_eq!(str_to_code("TTTTTTTT"), Some(0));
    assert_eq!(str_to_code("4TTTTTTT"), Some(1));
    assert_eq!(str_to_code("QTTTTTTT"), Some(31));
    assert_eq!(str_to_code("TQTTTTTT"), Some(992));
    assert_eq!(str_to_code("44TTTTTT"), Some(33));
    assert_eq!(str_to_code("TTTTTTT4"), Some(1 << 35));
    assert_eq!(str_to_code("FBRPXJMP"), Some(674576854472));
    assert_eq!(str_to_code("QQQQQQQQ"), Some((1 << 40) - 1));
}

#[test]
fn texts_that_are_no_codes() {
    assert_eq!(str_to_code("tTTTTTTT"), None);
    assert_eq!(str_to_code("FBRPXJM!"), None);
    assert_eq!(str_to_code("OTTTTTTT"), None);
    assert_eq!(str_to_code("TTTT TTT"), None);
    // A code has eight symbols, no more and no fewer.
    assert_eq!(str_to_code(""), None);
    assert_eq!(str_to_code("T"), None);
    assert_eq!(str_to_code("FBRPXJM"), None);
    assert_eq!(str_to_code("FBRPXJMPT"), None);
    assert_eq!(str_to_code("TTTTTTTTTTTT"), None);
    assert_eq!(str_to_code("TTTTTTTTTTTTT"), None);
}

#[test]
fn only_the_symbols_themselves_are_read() {
    // U+0154 ends in the byte of 'T' and is no symbol for that.
    assert_eq!(str_to_code("\u{154}TTTTTTT"), None);
    assert_eq!(str_to_code("TTTTTTT\u{151}"), None);
    assert_eq!(str_to_code("TTTTTTT\u{e4}"), None);
}

#[test]
fn spawn_counts_and_numbers_rooms() {
    let mut m = RoomManager::<&str>::new(0);
    let (code, id) = match m.spawn(7, "first") {
        Ok(spawned) => spawned,
        Err(_) => panic!("the first room of an address is created"),
    };
    assert_eq!(id, 674576854472);
    assert_eq!(code, "FBRPXJMP");
    assert_eq!(m.count_of(7), 1);
    assert_eq!(m.get_tx("FBRPXJMP"), Some(&"first"));
    assert_eq!(m.room(id), Some(&"first"));
    assert_eq!(m.get_tx("V0LPA8HP"), None);
    let (code, id) = match m.spawn(8, "second") {
        Ok(spawned) => spawned,
        Err(_) => panic!("the first room of an address is created"),
    };
    assert_eq!(id, 680831612646);
    assert_eq!(code, "V0LPA8HP");
    assert_eq!(m.get_tx("V0LPA8HP"), Some(&"second"));
    assert_eq!(m.count_of(7), 1);
    assert_eq!(m.count_of(8), 1);
    assert_eq!(m.count_of(9), 0);
}

#[test]
fn an_address_creates_twelve_rooms_and_no_more() {
    let mut m = RoomManager::<u32>::new(42);
    for n in 0..MAX_ROOM_CREATIONS_PER_IP {
        assert!(m.spawn(1, n).is_ok());
    }
    assert_eq!(m.count_of(1), 12);
    assert!(matches!(m.spawn(1, 99), Err(RoomSpawnFailReason::TooManyFromSameIp)));
    assert_eq!(m.count_of(1), 12);
    assert_eq!(m.list().len(), 12);
    // Another address is not held back, and a refusal used no id.
    let id = match m.spawn(2, 100) {
        Ok((_, id)) => id,
        Err(_) => panic!("another address may create a room"),
    };
    assert_eq!(id, m.crypt(12));
    // Forced counts pass the limit; an owner leaving makes room again.
    assert!(m.increase_count(1, true).is_ok());
    assert_eq!(m.count_of(1), 13);
    assert!(m.increase_count(1, false).is_err());
    m.owner_leave(1);
    m.owner_leave(1);
    assert_eq!(m.count_of(1), 11);
    assert!(m.increase_count(1, false).is_ok());
    assert_eq!(m.count_of(1), 12);
}

#[test]
fn owner_leave_forgets_an_address_at_zero() {
    let mut m = RoomManager::<()>::new(0);
    m.owner_leave(5);
    assert_eq!(m.count_of(5), 0);
    assert!(m.increase_count(5, false).is_ok());
    assert!(m.increase_count(5, false).is_ok());
    m.owner_leave(5);
    assert_eq!(m.count_of(5), 1);
    m.owner_leave(5);
    assert_eq!(m.count_of(5), 0);
    m.owner_leave(5);
    assert_eq!(m.count_of(5), 0);
}

#[test]
fn rooms_move_between_waiting_and_playing() {
    let mut m = RoomManager::<char>::new(3);
    let (code_a, a) = match m.spawn(1, 'a') {
        Ok(spawned) => spawned,
        Err(_) => panic!("created"),
    };
    let (code_b, b) = match m.spawn(1, 'b') {
        Ok(spawned) => spawned,
        Err(_) => panic!("created"),
    };
    assert_eq!(m.playing_rooms(), 0);
    assert!(m.mark_as_playing(a));
    assert!(!m.mark_as_playing(a));
    assert!(!m.mark_as_playing(12345));
    assert_eq!(m.playing_rooms(), 1);
    assert_eq!(m.get_tx(&code_a), None);
    assert_eq!(m.get_tx(&code_b), Some(&'b'));
    let listed = m.list();
    assert_eq!(listed.len(), 1);
    assert_eq!(listed[0].0, code_b);
    assert_eq!(listed[0].1, b);
    m.unmark_as_playing(a);
    assert_eq!(m.playing_rooms(), 0);
    assert_eq!(m.get_tx(&code_a), Some(&'a'));
    assert_eq!(m.list().len(), 2);
    m.unmark_as_playing(a);
    assert_eq!(m.get_tx(&code_a), Some(&'a'));
    // A playing room is removed as well as a waiting one.
    assert!(m.mark_as_playing(b));
    m.remove(b);
    assert_eq!(m.playing_rooms(), 0);
    assert_eq!(m.get_tx(&code_b), None);
    m.remove(a);
    assert_eq!(m.get_tx(&code_a), None);
    assert_eq!(m.list().len(), 0);
    m.remove(a);
    assert_eq!(m.list().len(), 0);
}

#[test]
fn list_names_every_waiting_room_once() {
    let mut m = RoomManager::<u8>::new(77);
    let mut ids = Vec::new();
    for n in 0..5u8 {
        match m.spawn(n as u128, n) {
            Ok((_, id)) => ids.push(id),
            Err(_) => panic!("created"),
        }
    }
    let listed = m.list();
    assert_eq!(listed.len(), 5);
    for id in ids {
        let hits: Vec<_> = listed.iter().filter(|(_, listed_id)| *listed_id == id).collect();
        assert_eq!(hits.len(), 1);
        assert_eq!(hits[0].0, code_to_str(id));
    }
}
