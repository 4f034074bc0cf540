use vstd::prelude::*;
use crate::board::{BadukBoard, BadukBoardError, BoardView, Color, bit_set, is_player, spec_reverse, stone_in};
use crate::capture::{Baduk, baduk_step, spec_winner};
use crate::clock::{
    BadukBoardGameConfig, holds, Players, PlayersView, color_of, handed_over, offered, seat_config,
    seat_of, seat_offer, seat_set, seated, PlayerView,
};
use crate::line::{Omok, omok_step};

verus! {

/// What the host should do after an event: re-arm the turn timer, end the
/// match, start the clocks, or nothing more.
#[derive(Clone, Copy, Debug, PartialEq, Eq, Structural)]
pub enum GameRoomResponse {
    ChangeTurn,
    GameOver,
    GameStart,
    Idle,
}

/// The two games a match can be.
#[derive(Clone, Copy, Debug, PartialEq, Eq, Structural)]
pub enum Gamemode {
    Baduk,
    Omok,
}

/// A running rule engine of either game.
#[derive(Clone, Copy, Debug)]
pub enum Game {
    Baduk(Baduk),
    Omok(Omok),
}

/// The engine for a game kind, freshly set up.
pub fn set_game(game_mode: Gamemode) -> (r: Game)
    ensures
        r.wf(),
        r.board_view().black == Set::<int>::empty(),
        r.board_view().white == Set::<int>::empty(),
        r.board_view().turn == Color::Black,
        r.winner_view() is None,
        (r is Baduk) == (game_mode == Gamemode::Baduk),
{
    match game_mode {
        Gamemode::Baduk => Game::Baduk(Baduk::new()),
        Gamemode::Omok => Game::Omok(Omok::new()),
    }
}

impl Game {
    pub open spec fn wf(&self) -> bool {
        match self {
            Game::Baduk(b) => b.wf(),
            Game::Omok(o) => o.wf(),
        }
    }

    pub open spec fn board_view(&self) -> BoardView {
        match self {
            Game::Baduk(b) => b@.board,
            Game::Omok(o) => o@.board,
        }
    }

    pub open spec fn winner_view(&self) -> Option<Color> {
        match self {
            Game::Baduk(b) => b@.winner,
            Game::Omok(o) => o@.winner,
        }
    }

    /// Whose turn it is.
    pub fn turn(&self) -> (r: Color)
        requires
            self.wf(),
        ensures
            r == self.board_view().turn,
            is_player(r),
    {
        match self {
            Game::Baduk(b) => b.is_board().is_turn(),
            Game::Omok(o) => o.is_board().is_turn(),
        }
    }

    /// A copy of the board.
    pub fn board(&self) -> (r: BadukBoard)
        requires
            self.wf(),
        ensures
            r@ == self.board_view(),
            r.wf(),
    {
        match self {
            Game::Baduk(b) => *b.is_board(),
            Game::Omok(o) => o.is_board(),
        }
    }

    pub fn winner(&self) -> (r: Option<Color>)
        ensures
            r == self.winner_view(),
    {
        match self {
            Game::Baduk(b) => b.winner(),
            Game::Omok(o) => o.winner(),
        }
    }

    /// Records the result of the match.
    pub fn set_winner(&mut self, color: Color)
        requires
            old(self).wf(),
        ensures
            final(self).wf(),
            final(self).board_view() == old(self).board_view(),
            final(self).winner_view() == Some(color),
            ((*final(self)) is Baduk) == ((*old(self)) is Baduk),
    {
        match self {
            Game::Baduk(b) => b.set_winner(color),
            Game::Omok(o) => o.set_winner(color),
        }
    }

    /// Hands the turn over without a move.
    pub fn switch_turn(&mut self)
        requires
            old(self).wf(),
        ensures
            final(self).wf(),
            final(self).board_view() == (BoardView {
                turn: spec_reverse(old(self).board_view().turn),
                ..old(self).board_view()
            }),
            final(self).winner_view() == old(self).winner_view(),
            ((*final(self)) is Baduk) == ((*old(self)) is Baduk),
    {
        match self {
            Game::Baduk(b) => b.switch_turn(),
            Game::Omok(o) => o.switch_turn(),
        }
    }

    /// Plays a move of the player to move with the game's own rules. A
    /// refused move changes nothing; an accepted one passes the turn.
    pub fn chaksu(&mut self, coordinate: u16) -> (r: Result<(), BadukBoardError>)
        requires
            old(self).wf(),
        ensures
            final(self).wf(),
            r is Err ==> *final(self) == *old(self),
            game_moved(*old(self), *final(self), coordinate as int, r),
            r == game_answer(*old(self), coordinate as int),
            r is Ok ==> final(self).board_view().turn == spec_reverse(old(self).board_view().turn),
            ((*final(self)) is Baduk) == ((*old(self)) is Baduk),
            (*old(self)) is Baduk ==> final(self).winner_view() == old(self).winner_view(),
    {
        match self {
            Game::Baduk(b) => b.chaksu(coordinate),
            Game::Omok(o) => o.chaksu(coordinate),
        }
    }

    /// The result of a capture game ended by two passes: the higher score
    /// wins, equal scores draw (`Free`). The line game has no such ending
    /// and gives `Free`.
    pub fn determine_winner(&self) -> (r: Color)
        requires
            self.wf(),
        ensures
            r == pass_result(*self),
    {
        match self {
            Game::Baduk(b) => match b.determine_winner() {
                Some(c) => c,
                None => Color::Free,
            },
            Game::Omok(_) => Color::Free,
        }
    }
}

/// The answer the game's own rules give a move on `c`.
pub open spec fn game_answer(g: Game, c: int) -> Result<(), BadukBoardError> {
    match g {
        Game::Baduk(b) => baduk_step(b@, b.previous_position(), c).0,
        Game::Omok(o) => omok_step(o@, c).0,
    }
}

/// `g1` is `g0` after a move on `c` that the game's own rules answered `r`.
pub open spec fn game_moved(g0: Game, g1: Game, c: int, r: Result<(), BadukBoardError>) -> bool {
    match (g0, g1) {
        (Game::Baduk(b0), Game::Baduk(b1)) => (r, b1@, b1.previous_position()) == baduk_step(
            b0@,
            b0.previous_position(),
            c,
        ),
        (Game::Omok(o0), Game::Omok(o1)) => (r, o1@) == omok_step(o0@, c),
        _ => false,
    }
}

/// The result of a game ended by two passes.
pub open spec fn pass_result(g: Game) -> Color {
    match g {
        Game::Baduk(b) => match spec_winner(b@) {
            Some(c) => c,
            None => Color::Free,
        },
        Game::Omok(_) => Color::Free,
    }
}


/// What a seated user asks of the match.
#[derive(Clone, Copy, Debug, PartialEq, Eq, Structural)]
pub enum Payload {
    Gamestart,
    Coordinate(u16),
    Resign,
    DrawOffer,
    PassTurn,
}

/// A request as it arrives from a connection.
#[derive(Debug)]
pub struct ClientToServerRequest {
    pub session_key: String,
    pub payload: Option<Payload>,
}

/// An event for a match session: a request from a user, a user joining, or
/// a user's connection dropping.
#[derive(Debug)]
pub enum RoomCommunicationDataForm {
    Request((u64, ClientToServerRequest)),
    UserEnter(u64),
    UserDisconnect(u64),
}

/// The answer part of a response, echoing the request it answers.
#[derive(Debug, PartialEq, Eq)]
pub enum ResponsePayload {
    GameStart,
    Coordinate(bool),
    Resign,
    DrawOffer(String),
    PassTurn,
}

/// A clock as sent to clients.
#[derive(Clone, Copy, Debug, PartialEq, Eq, Structural)]
pub struct PlayerTimeInfo {
    pub main_time: u64,
    pub fischer_time: u64,
    pub remaining_overtime: u32,
    pub overtime: u64,
}

/// Both bitboards, word by word.
#[derive(Debug, PartialEq, Eq)]
pub struct BadukBoardState {
    pub black: Vec<u64>,
    pub white: Vec<u64>,
}

/// A full snapshot of a match: board and both clocks.
#[derive(Debug, PartialEq, Eq)]
pub struct GameState {
    pub board: BadukBoardState,
    pub black_time: PlayerTimeInfo,
    pub white_time: PlayerTimeInfo,
}

/// Who holds each seat.
#[derive(Clone, Copy, Debug, PartialEq, Eq, Structural)]
pub struct UsersInfo {
    pub black: Option<u64>,
    pub white: Option<u64>,
}

/// What a match broadcasts after an event.
#[derive(Debug, PartialEq, Eq)]
pub struct ServerToClientResponse {
    pub response_type: bool,
    pub turn: Color,
    pub the_winner: Option<Color>,
    pub game_state: Option<GameState>,
    pub users_info: Option<UsersInfo>,
    pub payload: Option<ResponsePayload>,
}

/// The clock of a seat as sent to clients; zeros for an empty seat.
pub open spec fn time_info(s: Option<(u64, u64, u8, u64)>) -> PlayerTimeInfo {
    match s {
        Some(c) => PlayerTimeInfo {
            main_time: c.0,
            fischer_time: c.1,
            remaining_overtime: c.2 as u32,
            overtime: c.3,
        },
        None => PlayerTimeInfo { main_time: 0, fischer_time: 0, remaining_overtime: 0, overtime: 0 },
    }
}

/// Six words whose bits mark exactly the points of `s`.
pub open spec fn words_hold(w: Seq<u64>, s: Set<int>) -> bool {
    &&& w.len() == 6
    &&& forall|c: int| 0 <= c < 384 ==> (bit_set(#[trigger] w[c / 64], c % 64) <==> s.contains(c))
}

/// The words of a bitboard as a vector.
fn words_vec(words: &[u64; 6]) -> (r: Vec<u64>)
    ensures
        r@ == words@,
{
    let mut r: Vec<u64> = Vec::new();
    let mut i: usize = 0;
    while i < 6
        invariant
            i <= 6,
            r@ == words@.subrange(0, i as int),
        decreases 6 - i,
    {
        r.push(words[i]);
        proof {
            assert(words@.subrange(0, i + 1) =~= words@.subrange(0, i as int).push(words@[i as int]));
        }
        i += 1;
    }
    assert(words@.subrange(0, 6) =~= words@);
    r
}

/// One match: the engine, the seats and their clocks, the time control, and
/// whether it is running and whether the last action was a pass.
pub struct Room {
    running: bool,
    game: Game,
    game_config: BadukBoardGameConfig,
    players: Players,
    pass_turn: bool,
}

impl Room {
    pub closed spec fn is_running(&self) -> bool {
        self.running
    }

    pub closed spec fn game_spec(&self) -> Game {
        self.game
    }

    pub closed spec fn seats(&self) -> PlayersView {
        self.players@
    }

    pub closed spec fn passed(&self) -> bool {
        self.pass_turn
    }

    pub closed spec fn config(&self) -> (u64, u64, u8, u64) {
        self.game_config.spec_output()
    }

    pub closed spec fn players_ok(&self) -> bool {
        self.players.wf()
    }

    /// The engine is well formed, no user holds both seats, and a pass
    /// streak only exists in a capture game.
    pub open spec fn wf(&self) -> bool {
        &&& self.game_spec().wf()
        &&& self.players_ok()
        &&& (self.passed() ==> self.game_spec() is Baduk)
        &&& (self.is_running() ==> self.seats().black is Some && self.seats().white is Some)
    }

    /// A match of the given kind and time control, waiting for its seats.
    pub fn new(game_mode: Gamemode, game_config: BadukBoardGameConfig) -> (r: Self)
        ensures
            r.wf(),
            !r.is_running(),
            !r.passed(),
            r.seats().black is None,
            r.seats().white is None,
            r.config() == game_config.spec_output(),
            (r.game_spec() is Baduk) == (game_mode == Gamemode::Baduk),
            r.game_spec().winner_view() is None,
            r.game_spec().board_view().turn == Color::Black,
    {
        Self {
            running: false,
            game: set_game(game_mode),
            game_config,
            players: Players::new(),
            pass_turn: false,
        }
    }

    /// The user whose turn it is.
    pub fn turn_user_id(&self) -> (r: Option<u64>)
        requires
            self.wf(),
        ensures
            r == match seat_of(self.seats(), self.game_spec().board_view().turn) {
                Some(p) => Some(p.user_id),
                None => None::<u64>,
            },
    {
        let color = self.game.turn();
        self.players.user_id(color)
    }

    /// Sets both clocks from `config`; `false`, changing nothing, unless both
    /// seats are held.
    pub fn set_players_time(&mut self, config: &BadukBoardGameConfig) -> (r: bool)
        requires
            old(self).wf(),
        ensures
            final(self).wf(),
            r == (old(self).seats().black is Some && old(self).seats().white is Some),
            r ==> final(self).seats() == (PlayersView {
                black: seat_set(old(self).seats().black, config.spec_output()),
                white: seat_set(old(self).seats().white, config.spec_output()),
            }),
            !r ==> final(self).seats() == old(self).seats(),
            final(self).game_spec() == old(self).game_spec(),
            final(self).is_running() == old(self).is_running(),
            final(self).passed() == old(self).passed(),
    {
        if !self.players.full_players() {
            return false;
        }
        self.players.set_players(config);
        true
    }

    /// Both bitboards as sent to clients.
    pub fn baduk_board_state(&self) -> (r: BadukBoardState)
        requires
            self.wf(),
        ensures
            words_hold(r.black@, self.game_spec().board_view().black),
            words_hold(r.white@, self.game_spec().board_view().white),
    {
        let board = self.game.board();
        let black_words = board.bitboard_black();
        let white_words = board.bitboard_white();
        let black = words_vec(black_words);
        let white = words_vec(white_words);
        proof {
            assert forall|c: int| 0 <= c < 384 implies (bit_set(#[trigger] black@[c / 64], c % 64)
                <==> board@.black.contains(c)) by {
                assert(stone_in(*black_words, c) <==> board@.black.contains(c));
            }
            assert forall|c: int| 0 <= c < 384 implies (bit_set(#[trigger] white@[c / 64], c % 64)
                <==> board@.white.contains(c)) by {
                assert(stone_in(*white_words, c) <==> board@.white.contains(c));
            }
        }
        BadukBoardState { black, white }
    }

    pub fn black_player_time_info(&self) -> (r: PlayerTimeInfo)
        ensures
            r == time_info(seat_config(self.seats().black)),
    {
        match self.players.black_player_state() {
            Some(c) => {
                let (m, f, p, o) = c.output();
                PlayerTimeInfo { main_time: m, fischer_time: f, remaining_overtime: p as u32, overtime: o }
            },
            None => PlayerTimeInfo { main_time: 0, fischer_time: 0, remaining_overtime: 0, overtime: 0 },
        }
    }

    pub fn white_player_time_info(&self) -> (r: PlayerTimeInfo)
        ensures
            r == time_info(seat_config(self.seats().white)),
    {
        match self.players.white_player_state() {
            Some(c) => {
                let (m, f, p, o) = c.output();
                PlayerTimeInfo { main_time: m, fischer_time: f, remaining_overtime: p as u32, overtime: o }
            },
            None => PlayerTimeInfo { main_time: 0, fischer_time: 0, remaining_overtime: 0, overtime: 0 },
        }
    }

    /// Board and both clocks.
    pub fn badukboard_status(&self) -> (r: GameState)
        requires
            self.wf(),
        ensures
            words_hold(r.board.black@, self.game_spec().board_view().black),
            words_hold(r.board.white@, self.game_spec().board_view().white),
            r.black_time == time_info(seat_config(self.seats().black)),
            r.white_time == time_info(seat_config(self.seats().white)),
    {
        GameState {
            board: self.baduk_board_state(),
            black_time: self.black_player_time_info(),
            white_time: self.white_player_time_info(),
        }
    }

    /// Who holds each seat.
    pub fn users_info(&self) -> (r: UsersInfo)
        ensures
            r.black == match self.seats().black {
                Some(p) => Some(p.user_id),
                None => None::<u64>,
            },
            r.white == match self.seats().white {
                Some(p) => Some(p.user_id),
                None => None::<u64>,
            },
    {
        UsersInfo { black: self.players.user_id(Color::Black), white: self.players.user_id(Color::White) }
    }

    /// The result, once the match is over.
    pub fn winner(&self) -> (r: Option<Color>)
        ensures
            r == self.game_spec().winner_view(),
    {
        self.game.winner()
    }

    /// Neither seat is held.
    pub fn check_empty_room(&self) -> (r: bool)
        ensures
            r == (self.seats().black is None && self.seats().white is None),
    {
        self.players.check_empty_room()
    }

    /// Seats a user, Black first; `false` if already seated or full.
    pub fn push_user(&mut self, user_id: u64) -> (r: bool)
        requires
            old(self).wf(),
        ensures
            final(self).wf(),
            seated(old(self).seats(), final(self).seats(), user_id, r),
            final(self).game_spec() == old(self).game_spec(),
            final(self).is_running() == old(self).is_running(),
            final(self).passed() == old(self).passed(),
    {
        self.players.push_user(user_id)
    }

    /// Frees the seat of a user before the match starts; `true` if there
    /// was one. A running match keeps its seats.
    pub fn pop_user(&mut self, user_id: u64) -> (r: bool)
        requires
            old(self).wf(),
        ensures
            final(self).wf(),
            r == (!old(self).is_running() && holds_any(old(self).seats(), user_id)),
            old(self).is_running() ==> *final(self) == *old(self),
            !old(self).is_running() ==> final(self).seats() == (PlayersView {
                black: if holds(old(self).seats().black, user_id) { None } else { old(self).seats().black },
                white: if holds(old(self).seats().white, user_id) { None } else { old(self).seats().white },
            }),
            final(self).game_spec() == old(self).game_spec(),
            final(self).is_running() == old(self).is_running(),
            final(self).passed() == old(self).passed(),
    {
        if self.running {
            return false;
        }
        self.players.pop_user(user_id)
    }
}

/// The response that refuses a request: nothing changed.
pub open spec fn refused(r: (GameRoomResponse, ServerToClientResponse)) -> bool {
    r.0 == GameRoomResponse::Idle && !r.1.response_type
}

impl Room {
    fn refusal(&self) -> (r: (GameRoomResponse, ServerToClientResponse))
        requires
            self.wf(),
        ensures
            refused(r),
            r.1.turn == self.game_spec().board_view().turn,
    {
        (
            GameRoomResponse::Idle,
            ServerToClientResponse {
                response_type: false,
                turn: self.game.turn(),
                the_winner: None,
                game_state: None,
                users_info: None,
                payload: None,
            },
        )
    }

    fn answer(
        &self,
        status: GameRoomResponse,
        winner: Option<Color>,
        payload: ResponsePayload,
    ) -> (r: (GameRoomResponse, ServerToClientResponse))
        requires
            self.wf(),
        ensures
            r.0 == status,
            r.1.response_type,
            r.1.the_winner == winner,
            r.1.turn == self.game_spec().board_view().turn,
            r.1.payload == Some(payload),
    {
        (
            status,
            ServerToClientResponse {
                response_type: true,
                turn: self.game.turn(),
                the_winner: winner,
                game_state: Some(self.badukboard_status()),
                users_info: None,
                payload: Some(payload),
            },
        )
    }

    /// Handles one request of `user_id` and says what the host should do;
    /// see [`request_outcome`].
    pub fn input_data(&mut self, input_data: (u64, ClientToServerRequest)) -> (r: (
        GameRoomResponse,
        ServerToClientResponse,
    ))
        requires
            old(self).wf(),
        ensures
            final(self).wf(),
            request_outcome(*old(self), *final(self), input_data.0, input_data.1.payload, r),
    {
        let (user_id, request) = input_data;
        if self.game.winner().is_some() {
            return self.refusal();
        }
        if !self.running {
            if request.payload == Some(Payload::Gamestart) && self.players.full_players() {
                self.running = true;
                let config = self.game_config;
                self.players.set_players(&config);
                return (
                    GameRoomResponse::GameStart,
                    ServerToClientResponse {
                        response_type: true,
                        turn: self.game.turn(),
                        the_winner: None,
                        game_state: Some(self.badukboard_status()),
                        users_info: Some(self.users_info()),
                        payload: Some(ResponsePayload::GameStart),
                    },
                );
            }
            return self.refusal();
        }
        let turn = self.game.turn();
        let col = self.players.check_id_to_color(user_id);
        match request.payload {
            Some(Payload::Coordinate(coordinate)) => {
                if col != turn {
                    return self.refusal();
                }
                match self.game.chaksu(coordinate) {
                    Ok(()) => {
                        self.pass_turn = false;
                        self.players.switch_turn(turn);
                        let winner = self.game.winner();
                        let status = if winner.is_some() {
                            GameRoomResponse::GameOver
                        } else {
                            GameRoomResponse::ChangeTurn
                        };
                        self.answer(status, winner, ResponsePayload::Coordinate(true))
                    },
                    Err(_) => self.answer(GameRoomResponse::Idle, None, ResponsePayload::Coordinate(false)),
                }
            },
            Some(Payload::Resign) => {
                if col != Color::Black && col != Color::White {
                    return self.refusal();
                }
                let winner = col.reverse();
                self.game.set_winner(winner);
                self.answer(GameRoomResponse::GameOver, Some(winner), ResponsePayload::Resign)
            },
            Some(Payload::DrawOffer) => {
                if col != Color::Black && col != Color::White {
                    return self.refusal();
                }
                self.players.draw_offer(&col);
                let name = col.to_string();
                if self.players.check_draw() {
                    self.game.set_winner(Color::Free);
                    self.answer(GameRoomResponse::GameOver, Some(Color::Free), ResponsePayload::DrawOffer(name))
                } else {
                    self.answer(GameRoomResponse::Idle, None, ResponsePayload::DrawOffer(name))
                }
            },
            Some(Payload::PassTurn) => {
                if col != turn {
                    return self.refusal();
                }
                if self.pass_turn {
                    let winner = self.game.determine_winner();
                    self.game.set_winner(winner);
                    return self.answer(GameRoomResponse::GameOver, Some(winner), ResponsePayload::PassTurn);
                }
                self.pass_turn = match self.game {
                    Game::Baduk(_) => true,
                    Game::Omok(_) => false,
                };
                self.players.switch_turn(turn);
                self.game.switch_turn();
                self.answer(GameRoomResponse::ChangeTurn, None, ResponsePayload::PassTurn)
            },
            _ => self.refusal(),
        }
    }
}

/// `f` is the room `o` after `user` sent `payload`, answered `r`. A finished
/// match refuses everything. Before the start only a start request with both
/// seats held is accepted: it sets both clocks and starts the match. Once
/// running: a move or pass is taken only from the player to move; the move
/// gets the game's own answer, a refused one changes nothing, an accepted one
/// is played and hands the clock over (withdrawing draw offers); a pass right
/// after a pass ends a capture game and scores it; resigning gives the match
/// to the other seat; a second draw offer ends it drawn (`Free`).
pub open spec fn request_outcome(
    o: Room,
    f: Room,
    user: u64,
    payload: Option<Payload>,
    r: (GameRoomResponse, ServerToClientResponse),
) -> bool {
    let turn = o.game_spec().board_view().turn;
    let col = color_of(o.seats(), user);
    if o.game_spec().winner_view() is Some {
        refused(r) && f == o
    } else if !o.is_running() {
        if payload == Some(Payload::Gamestart) && o.seats().black is Some
            && o.seats().white is Some {
            &&& r.0 == GameRoomResponse::GameStart
            &&& r.1.response_type
            &&& f.is_running()
            &&& f.game_spec() == o.game_spec()
            &&& f.passed() == o.passed()
            &&& f.seats() == (PlayersView {
                black: seat_set(o.seats().black, o.config()),
                white: seat_set(o.seats().white, o.config()),
            })
        } else {
            refused(r) && f == o
        }
    } else {
        match payload {
            Some(Payload::Coordinate(c)) => if col != turn {
                refused(r) && f == o
            } else if game_answer(o.game_spec(), c as int) is Err {
                &&& r.0 == GameRoomResponse::Idle
                &&& r.1.response_type
                &&& r.1.payload == Some(ResponsePayload::Coordinate(false))
                &&& f == o
            } else {
                &&& r.1.response_type
                &&& r.1.payload == Some(ResponsePayload::Coordinate(true))
                &&& f.is_running()
                &&& !f.passed()
                &&& game_moved(o.game_spec(), f.game_spec(), c as int, Ok(()))
                &&& f.game_spec().board_view().turn == spec_reverse(turn)
                &&& exists|e: u64| #[trigger] handed_over(o.seats(), turn, e) == f.seats()
                &&& (r.0 == GameRoomResponse::GameOver || r.0 == GameRoomResponse::ChangeTurn)
                &&& (r.0 == GameRoomResponse::GameOver <==> f.game_spec().winner_view() is Some)
                &&& r.1.the_winner == f.game_spec().winner_view()
            },
            Some(Payload::Resign) => if is_player(col) {
                &&& r.0 == GameRoomResponse::GameOver
                &&& r.1.the_winner == Some(spec_reverse(col))
                &&& f.game_spec().winner_view() == Some(spec_reverse(col))
                &&& f.game_spec().board_view() == o.game_spec().board_view()
                &&& f.seats() == o.seats()
            } else {
                refused(r) && f == o
            },
            Some(Payload::DrawOffer) => if is_player(col) {
                let seats = PlayersView {
                    black: if col == Color::Black { seat_offer(o.seats().black, true) } else { o.seats().black },
                    white: if col == Color::White { seat_offer(o.seats().white, true) } else { o.seats().white },
                };
                &&& r.1.response_type
                &&& f.seats() == seats
                &&& f.game_spec().board_view() == o.game_spec().board_view()
                &&& if offered(seats.black) && offered(seats.white) {
                    &&& r.0 == GameRoomResponse::GameOver
                    &&& f.game_spec().winner_view() == Some(Color::Free)
                    &&& r.1.the_winner == Some(Color::Free)
                } else {
                    &&& r.0 == GameRoomResponse::Idle
                    &&& f.game_spec().winner_view() is None
                }
            } else {
                refused(r) && f == o
            },
            Some(Payload::PassTurn) => if col != turn {
                refused(r) && f == o
            } else if o.passed() {
                &&& r.0 == GameRoomResponse::GameOver
                &&& f.game_spec().winner_view() == Some(pass_result(o.game_spec()))
                &&& r.1.the_winner == Some(pass_result(o.game_spec()))
                &&& f.game_spec().board_view() == o.game_spec().board_view()
            } else {
                &&& r.0 == GameRoomResponse::ChangeTurn
                &&& r.1.response_type
                &&& f.passed() == (o.game_spec() is Baduk)
                &&& f.game_spec().board_view() == (BoardView { turn: spec_reverse(turn), ..o.game_spec().board_view() })
                &&& exists|e: u64| #[trigger] handed_over(o.seats(), turn, e) == f.seats()
            },
            _ => refused(r) && f == o,
        }
    }
}

/// The time the player to move may use before the timer fires: the main
/// time while any is left, then one overtime period; zero once both are
/// spent, so that the timer fires at once and the match is forfeited.
pub open spec fn budget(s: Option<PlayerView>) -> Option<u64> {
    match s {
        Some(p) => if p.main_time > 0 {
            Some(p.main_time)
        } else if p.remaining_overtime > 0 {
            Some(p.overtime)
        } else {
            Some(0)
        },
        None => None,
    }
}

/// The timer a room needs: the budget of the player to move while the match
/// runs, none otherwise.
pub open spec fn timer_for(x: Room) -> Option<u64> {
    if x.is_running() && x.game_spec().winner_view() is None {
        budget(seat_of(x.seats(), x.game_spec().board_view().turn))
    } else {
        None
    }
}

/// The seat holds a player with neither main time nor overtime left.
pub open spec fn out_of_time(s: Option<PlayerView>) -> bool {
    s matches Some(p) && p.main_time == 0 && p.remaining_overtime == 0
}

/// The seats once the seat of `c` uses one overtime period, if any is left.
pub open spec fn period_used(v: PlayersView, c: Color) -> PlayersView {
    PlayersView {
        black: if c == Color::Black { crate::clock::seat_period(v.black) } else { v.black },
        white: if c == Color::White { crate::clock::seat_period(v.white) } else { v.white },
    }
}

/// After the clock of `turn` was charged, from `o` to `f`: a player left
/// with no time loses the match, otherwise the match goes on unchanged.
pub open spec fn timed_out_or_idle(
    o: Room,
    f: Room,
    turn: Color,
    r: (GameRoomResponse, ServerToClientResponse),
) -> bool {
    &&& r.1.response_type
    &&& f.is_running() == o.is_running()
    &&& f.passed() == o.passed()
    &&& if out_of_time(seat_of(f.seats(), turn)) {
        &&& r.0 == GameRoomResponse::GameOver
        &&& f.game_spec().winner_view() == Some(spec_reverse(turn))
        &&& r.1.the_winner == Some(spec_reverse(turn))
        &&& f.game_spec().board_view() == o.game_spec().board_view()
    } else {
        &&& r.0 == GameRoomResponse::Idle
        &&& f.game_spec() == o.game_spec()
    }
}

/// `f` is the room `o` after its turn timer fired, answered `r`: the player
/// to move is charged the time used, or, with no main time left, uses up an
/// overtime period; if that leaves them no time at all, the other seat wins.
pub open spec fn timer_outcome(o: Room, f: Room, r: (GameRoomResponse, ServerToClientResponse)) -> bool {
    let turn = o.game_spec().board_view().turn;
    if !o.is_running() || o.game_spec().winner_view() is Some {
        refused(r) && f == o
    } else {
        match seat_of(o.seats(), turn) {
            Some(p) => if p.main_time > 0 {
                &&& exists|e: u64| #[trigger] crate::clock::charged(o.seats(), turn, e) == f.seats()
                &&& timed_out_or_idle(o, f, turn, r)
            } else {
                &&& f.seats() == period_used(o.seats(), turn)
                &&& timed_out_or_idle(o, f, turn, r)
            },
            None => refused(r) && f == o,
        }
    }
}

/// What the host does after an event: broadcast `response` if any, re-arm
/// the turn timer to `timer` milliseconds if set, start or cancel a
/// reconnection grace period for a user, and close the match if `finished`.
/// `status` is the room's own answer.
#[derive(Debug)]
pub struct SessionStep {
    pub status: GameRoomResponse,
    pub response: Option<ServerToClientResponse>,
    pub timer: Option<u64>,
    pub grace_start: Option<u64>,
    pub grace_cancel: Option<u64>,
    pub finished: bool,
}

impl Room {
    /// The timer budget of the player to move; `None` unless the match runs.
    pub fn set_timer(&self) -> (r: Option<u64>)
        requires
            self.wf(),
        ensures
            r == timer_for(*self),
    {
        if !self.running || self.game.winner().is_some() {
            return None;
        }
        match self.players.turn_player(self.game.turn()) {
            Some(p) => {
                if p.main_time() > 0 {
                    Some(p.main_time())
                } else if p.remain_time() > 0 {
                    Some(p.overtime())
                } else {
                    Some(0)
                }
            },
            None => None,
        }
    }

    /// The turn timer fired; see [`timer_outcome`].
    pub fn timer_interrupt(&mut self) -> (r: (GameRoomResponse, ServerToClientResponse))
        requires
            old(self).wf(),
        ensures
            final(self).wf(),
            timer_outcome(*old(self), *final(self), r),
    {
        if !self.running || self.game.winner().is_some() {
            return self.refusal();
        }
        let turn = self.game.turn();
        let main = match self.players.turn_player(turn) {
            Some(p) => p.main_time(),
            None => {
                return self.refusal();
            },
        };
        if main > 0 {
            self.players.charge_turn(turn);
        } else {
            self.players.use_overtime(turn);
        }
        let spent = match self.players.turn_player(turn) {
            Some(p) => p.main_time() == 0 && p.remain_time() == 0,
            None => false,
        };
        if spent {
            let winner = turn.reverse();
            self.game.set_winner(winner);
            (
                GameRoomResponse::GameOver,
                ServerToClientResponse {
                    response_type: true,
                    turn: self.game.turn(),
                    the_winner: Some(winner),
                    game_state: Some(self.badukboard_status()),
                    users_info: None,
                    payload: None,
                },
            )
        } else {
            self.answer_idle()
        }
    }

    fn answer_idle(&self) -> (r: (GameRoomResponse, ServerToClientResponse))
        requires
            self.wf(),
        ensures
            r.0 == GameRoomResponse::Idle,
            r.1.response_type,
            r.1.the_winner is None,
    {
        (
            GameRoomResponse::Idle,
            ServerToClientResponse {
                response_type: true,
                turn: self.game.turn(),
                the_winner: None,
                game_state: Some(self.badukboard_status()),
                users_info: None,
                payload: None,
            },
        )
    }

    fn seats_response(&self, ok: bool) -> (r: ServerToClientResponse)
        ensures
            r.response_type == ok,
    {
        ServerToClientResponse {
            response_type: ok,
            turn: Color::Free,
            the_winner: None,
            game_state: None,
            users_info: if ok { Some(self.users_info()) } else { None },
            payload: None,
        }
    }

    /// Decides what one event does to the match and what the host must do
    /// next. A request is answered as [`request_outcome`] says; the timer is
    /// re-armed at the start and after each change of turn, and the match
    /// closes once it has a result. A user joining takes a seat as
    /// [`seated`] says and ends any grace period of theirs. A user dropping
    /// before the start leaves their seat, and the match closes once both
    /// seats are empty; a user dropping during play gets a grace period,
    /// after which the host sends their resignation.
    pub fn handle_event(&mut self, event: RoomCommunicationDataForm) -> (r: SessionStep)
        requires
            old(self).wf(),
        ensures
            final(self).wf(),
            event is Request ==> {
                &&& r.response is Some
                &&& request_outcome(
                    *old(self),
                    *final(self),
                    event->Request_0.0,
                    event->Request_0.1.payload,
                    (r.status, r.response->Some_0),
                )
                &&& r.finished == (final(self).game_spec().winner_view() is Some)
                &&& r.timer == if !r.finished && (r.status == GameRoomResponse::GameStart || r.status
                    == GameRoomResponse::ChangeTurn) {
                    timer_for(*final(self))
                } else {
                    None
                }
                &&& r.grace_start is None
                &&& r.grace_cancel is None
            },
            event is UserEnter ==> {
                &&& r.response matches Some(resp) && seated(
                    old(self).seats(),
                    final(self).seats(),
                    event->UserEnter_0,
                    resp.response_type,
                )
                &&& final(self).game_spec() == old(self).game_spec()
                &&& final(self).is_running() == old(self).is_running()
                &&& final(self).passed() == old(self).passed()
                &&& r.grace_cancel == Some(event->UserEnter_0)
                &&& r.grace_start is None
                &&& r.timer is None
                &&& !r.finished
            },
            event is UserDisconnect && old(self).is_running() ==> r.grace_start == Some(
                event->UserDisconnect_0,
            ) && *final(self) == *old(self) && r.response is None && !r.finished && r.timer is None,
            event is UserDisconnect && !old(self).is_running() ==> {
                &&& r.grace_start is None
                &&& r.timer is None
                &&& final(self).seats() == (PlayersView {
                    black: if holds(old(self).seats().black, event->UserDisconnect_0) {
                        None
                    } else {
                        old(self).seats().black
                    },
                    white: if holds(old(self).seats().white, event->UserDisconnect_0) {
                        None
                    } else {
                        old(self).seats().white
                    },
                })
                &&& final(self).game_spec() == old(self).game_spec()
                &&& r.finished == (final(self).seats().black is None && final(self).seats().white
                    is None)
            },
    {
        match event {
            RoomCommunicationDataForm::Request(data) => {
                let (status, response) = self.input_data(data);
                let finished = self.winner().is_some();
                let timer = match status {
                    GameRoomResponse::GameStart => if finished { None } else { self.set_timer() },
                    GameRoomResponse::ChangeTurn => if finished { None } else { self.set_timer() },
                    _ => None,
                };
                SessionStep { status, response: Some(response), timer, grace_start: None, grace_cancel: None, finished }
            },
            RoomCommunicationDataForm::UserEnter(user_id) => {
                let ok = self.push_user(user_id);
                SessionStep {
                    status: GameRoomResponse::Idle,
                    response: Some(self.seats_response(ok)),
                    timer: None,
                    grace_start: None,
                    grace_cancel: Some(user_id),
                    finished: false,
                }
            },
            RoomCommunicationDataForm::UserDisconnect(user_id) => {
                if self.running {
                    return SessionStep {
                        status: GameRoomResponse::Idle,
                        response: None,
                        timer: None,
                        grace_start: Some(user_id),
                        grace_cancel: None,
                        finished: false,
                    };
                }
                self.pop_user(user_id);
                let empty = self.check_empty_room();
                SessionStep {
                    status: GameRoomResponse::Idle,
                    response: if empty { None } else { Some(self.seats_response(true)) },
                    timer: None,
                    grace_start: None,
                    grace_cancel: None,
                    finished: empty,
                }
            },
        }
    }

    /// Decides what the firing of the turn timer does (see
    /// [`timer_outcome`]): re-arm it for the next budget, or close the match
    /// once it has a result.
    pub fn handle_timer(&mut self) -> (r: SessionStep)
        requires
            old(self).wf(),
        ensures
            final(self).wf(),
            r.response is Some,
            timer_outcome(*old(self), *final(self), (r.status, r.response->Some_0)),
            r.finished == (final(self).game_spec().winner_view() is Some),
            r.timer == if r.finished {
                None
            } else {
                timer_for(*final(self))
            },
            r.grace_start is None,
            r.grace_cancel is None,
    {
        let (status, response) = self.timer_interrupt();
        let finished = self.winner().is_some();
        let timer = if finished { None } else { self.set_timer() };
        SessionStep { status, response: Some(response), timer, grace_start: None, grace_cancel: None, finished }
    }
}

/// `id` holds one of the seats.
pub open spec fn holds_any(v: PlayersView, id: u64) -> bool {
    crate::clock::holds(v.black, id) || crate::clock::holds(v.white, id)
}

} // verus!
