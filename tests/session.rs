use doljabi_engine::board::Color;
use doljabi_engine::clock::BadukBoardGameConfig;
use doljabi_engine::session::{
    ClientToServerRequest, GameRoomResponse, Gamemode, Payload, ResponsePayload, Room,
    RoomCommunicationDataForm,
};

fn request(user: u64, payload: Payload) -> RoomCommunicationDataForm {
    RoomCommunicationDataForm::Request((user, ClientToServerRequest { session_key: String::new(), payload: Some(payload) }))
}

fn started(mode: Gamemode) -> Room {
    let mut room = Room::new(mode, BadukBoardGameConfig::new(600000, 5000, 2, 30000));
    assert!(room.handle_event(RoomCommunicationDataForm::UserEnter(1)).response.unwrap().response_type);
    assert!(room.handle_event(RoomCommunicationDataForm::UserEnter(2)).response.unwrap().response_type);
    let step = room.handle_event(request(1, Payload::Gamestart));
    let response = step.response.unwrap();
    assert!(response.response_type);
    assert_eq!(response.payload, Some(ResponsePayload::GameStart));
    assert_eq!(step.timer, Some(600000));
    room
}

#[test]
fn seats_fill_black_then_white() {
    let mut room = Room::new(Gamemode::Baduk, BadukBoardGameConfig::empty());
    assert!(room.push_user(7));
    assert!(!room.push_user(7));
    assert!(room.push_user(8));
    assert!(!room.push_user(9));
    let info = room.users_info();
    assert_eq!(info.black, Some(7));
    assert_eq!(info.white, Some(8));
    assert_eq!(room.turn_user_id(), Some(7));
}

#[test]
fn start_needs_both_seats() {
    let mut room = Room::new(Gamemode::Omok, BadukBoardGameConfig::empty());
    room.push_user(1);
    let (status, response) = room.input_data((1, ClientToServerRequest { session_key: String::new(), payload: Some(Payload::Gamestart) }));
    assert_eq!(status, GameRoomResponse::Idle);
    assert!(!response.response_type);
}

#[test]
fn move_out_of_turn_is_refused() {
    let mut room = started(Gamemode::Baduk);
    let step = room.handle_event(request(2, Payload::Coordinate(60)));
    assert!(!step.response.unwrap().response_type);
    let step = room.handle_event(request(1, Payload::Coordinate(60)));
    let response = step.response.unwrap();
    assert_eq!(response.payload, Some(ResponsePayload::Coordinate(true)));
    assert_eq!(response.turn, Color::White);
    assert_eq!(step.timer, Some(605000));
}

#[test]
fn two_passes_end_a_capture_game() {
    let mut room = started(Gamemode::Baduk);
    let first = room.handle_event(request(1, Payload::PassTurn));
    assert!(!first.finished);
    let last = room.handle_event(request(2, Payload::PassTurn));
    assert!(last.finished);
    let response = last.response.unwrap();
    assert_eq!(response.the_winner, Some(Color::Free));
}

#[test]
fn two_passes_with_a_stone_on_the_board() {
    let mut room = started(Gamemode::Baduk);
    room.handle_event(request(1, Payload::Coordinate(0)));
    room.handle_event(request(2, Payload::PassTurn));
    let last = room.handle_event(request(1, Payload::PassTurn));
    assert!(last.finished);
    assert_eq!(last.response.unwrap().the_winner, Some(Color::Black));
}

#[test]
fn resignation_gives_the_match_away() {
    let mut room = started(Gamemode::Omok);
    let step = room.handle_event(request(2, Payload::Resign));
    assert!(step.finished);
    assert_eq!(step.response.unwrap().the_winner, Some(Color::Black));
    let after = room.handle_event(request(1, Payload::Coordinate(3)));
    assert!(!after.response.unwrap().response_type);
}

#[test]
fn two_draw_offers_draw() {
    let mut room = started(Gamemode::Baduk);
    let one = room.handle_event(request(1, Payload::DrawOffer));
    assert!(!one.finished);
    let two = room.handle_event(request(2, Payload::DrawOffer));
    assert!(two.finished);
    assert_eq!(two.response.unwrap().the_winner, Some(Color::Free));
}

#[test]
fn draw_offer_is_withdrawn_by_a_move() {
    let mut room = started(Gamemode::Baduk);
    room.handle_event(request(1, Payload::DrawOffer));
    room.handle_event(request(1, Payload::Coordinate(5)));
    let two = room.handle_event(request(2, Payload::DrawOffer));
    assert!(!two.finished);
}

#[test]
fn disconnects_before_and_during_play() {
    let mut room = Room::new(Gamemode::Baduk, BadukBoardGameConfig::empty());
    room.handle_event(RoomCommunicationDataForm::UserEnter(1));
    let step = room.handle_event(RoomCommunicationDataForm::UserDisconnect(1));
    assert!(step.finished);

    let mut room = started(Gamemode::Baduk);
    let step = room.handle_event(RoomCommunicationDataForm::UserDisconnect(2));
    assert_eq!(step.grace_start, Some(2));
    assert!(!step.finished);
    let step = room.handle_event(RoomCommunicationDataForm::UserEnter(2));
    assert_eq!(step.grace_cancel, Some(2));
}

#[test]
fn timer_uses_overtime_then_forfeits() {
    let mut room = Room::new(Gamemode::Baduk, BadukBoardGameConfig::new(0, 0, 2, 30000));
    room.push_user(1);
    room.push_user(2);
    room.handle_event(request(1, Payload::Gamestart));
    assert_eq!(room.set_timer(), Some(30000));
    let step = room.handle_timer();
    assert!(!step.finished);
    assert_eq!(step.timer, Some(30000));
    assert_eq!(room.black_player_time_info().remaining_overtime, 1);
    let step = room.handle_timer();
    assert!(step.finished);
    assert_eq!(step.status, GameRoomResponse::GameOver);
    assert_eq!(step.response.unwrap().the_winner, Some(Color::White));
    assert_eq!(room.winner(), Some(Color::White));
}

#[test]
fn no_time_at_all_forfeits_at_once() {
    let mut room = Room::new(Gamemode::Omok, BadukBoardGameConfig::new(0, 0, 0, 0));
    room.push_user(1);
    room.push_user(2);
    let step = room.handle_event(request(1, Payload::Gamestart));
    assert_eq!(step.timer, Some(0));
    let step = room.handle_timer();
    assert!(step.finished);
    assert_eq!(step.response.unwrap().the_winner, Some(Color::White));
}

#[test]
fn refused_move_answers_false_and_changes_nothing() {
    let mut room = started(Gamemode::Baduk);
    let before = room.black_player_time_info();
    let step = room.handle_event(request(1, Payload::Coordinate(400)));
    assert_eq!(step.status, GameRoomResponse::Idle);
    let response = step.response.unwrap();
    assert!(response.response_type);
    assert_eq!(response.payload, Some(ResponsePayload::Coordinate(false)));
    assert_eq!(response.turn, Color::Black);
    assert_eq!(room.black_player_time_info(), before);
    assert_eq!(room.turn_user_id(), Some(1));
}
