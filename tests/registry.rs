use doljabi_engine::registry::{CreateRoomResponseForm, EnterCodeManagement, EnterRoomErrorCode, RoomManagement};

#[test]
fn codes_count_down_and_recycle_first() {
    let mut m = EnterCodeManagement::new();
    let first = m.get().unwrap();
    assert_eq!(first.as_u16(), 65535);
    let second = m.get().unwrap();
    assert_eq!(second.as_u16(), 65534);
    m.release(first);
    assert_eq!(m.get().unwrap().as_u16(), 65535);
    assert_eq!(m.get().unwrap().as_u16(), 65533);
    let _ = second;
}

#[test]
fn the_pool_runs_out() {
    let mut m = EnterCodeManagement::new();
    let mut seen = std::collections::HashSet::new();
    for _ in 0..65536 {
        let code = m.get().unwrap();
        assert!(seen.insert(code.as_u16()));
    }
    assert!(m.get().is_none());
}

#[test]
fn rooms_are_found_by_code_until_released() {
    let mut rooms: RoomManagement<&str> = RoomManagement::new();
    let code = rooms.get_enter_code().unwrap();
    let number = code.as_u16();
    rooms.register_room(number, "room");
    assert_eq!(rooms.get_communication_channel(number), Some(&"room"));
    assert_eq!(rooms.get_communication_channel(1), None);
    rooms.release_enter_code(code);
    assert_eq!(rooms.get_communication_channel(number), None);
    assert_eq!(CreateRoomResponseForm::new(number).enter_code, number);
}

#[test]
fn entering_needs_a_user_and_a_live_code() {
    let mut rooms: RoomManagement<u8> = RoomManagement::new();
    let code = rooms.get_enter_code().unwrap();
    rooms.register_room(code.as_u16(), 9);
    assert_eq!(rooms.enter_room(code.as_u16(), Some(4)), Ok((4, &9)));
    assert_eq!(rooms.enter_room(code.as_u16(), None), Err(EnterRoomErrorCode::IncorrectSessionKey));
    assert_eq!(rooms.enter_room(12, Some(4)), Err(EnterRoomErrorCode::EnterCodeError));
    assert_eq!(rooms.enter_room(12, None), Err(EnterRoomErrorCode::IncorrectSessionKey));
}
