use vstd::prelude::*;
use crate::board::{Color, is_player};

verus! {

#[verifier::external_type_specification]
#[verifier::external_body]
pub struct ExInstant(tokio::time::Instant);

/// Relies on tokio::time::Instant::now: the current instant of tokio's clock.
#[verifier::external_body]
fn now() -> (r: tokio::time::Instant) {
    tokio::time::Instant::now()
}

/// Relies on tokio::time::Instant::elapsed (zero if `start` lies ahead) and
/// Duration::as_millis: whole milliseconds since `start`.
#[verifier::external_body]
fn elapsed_ms(start: &tokio::time::Instant) -> (r: u64) {
    start.elapsed().as_millis() as u64
}

/// A time control: main time, increment per move, number of overtime
/// periods and length of each, in milliseconds.
#[derive(Clone, Copy, Debug, PartialEq, Eq, Structural)]
pub struct BadukBoardGameConfig {
    main_time: u64,
    fischer_time: u64,
    remaining_overtime: u8,
    overtime: u64,
}

impl BadukBoardGameConfig {
    pub open spec fn spec_output(&self) -> (u64, u64, u8, u64) {
        (self.main_time_spec(), self.fischer_spec(), self.periods_spec(), self.overtime_spec())
    }

    pub closed spec fn main_time_spec(&self) -> u64 {
        self.main_time
    }

    pub closed spec fn fischer_spec(&self) -> u64 {
        self.fischer_time
    }

    pub closed spec fn periods_spec(&self) -> u8 {
        self.remaining_overtime
    }

    pub closed spec fn overtime_spec(&self) -> u64 {
        self.overtime
    }

    pub fn new(main_time: u64, fischer_time: u64, remaining_overtime: u8, overtime: u64) -> (r: Self)
        ensures
            r.spec_output() == (main_time, fischer_time, remaining_overtime, overtime),
    {
        Self { main_time, fischer_time, remaining_overtime, overtime }
    }

    pub fn make(config: (u64, u64, u8, u64)) -> (r: Self)
        ensures
            r.spec_output() == config,
    {
        Self {
            main_time: config.0,
            fischer_time: config.1,
            remaining_overtime: config.2,
            overtime: config.3,
        }
    }

    /// (main time, increment, overtime periods, overtime length).
    pub fn output(&self) -> (r: (u64, u64, u8, u64))
        ensures
            r == self.spec_output(),
    {
        (self.main_time, self.fischer_time, self.remaining_overtime, self.overtime)
    }

    /// A time control of all zeros.
    pub fn empty() -> (r: Self)
        ensures
            r.spec_output() == (0u64, 0u64, 0u8, 0u64),
    {
        Self { main_time: 0, fischer_time: 0, remaining_overtime: 0, overtime: 0 }
    }
}

/// The clock and seat of one player, seen as values.
pub struct PlayerView {
    pub user_id: u64,
    pub main_time: u64,
    pub fischer_time: u64,
    pub remaining_overtime: u8,
    pub overtime: u64,
    pub draw_offer: bool,
}

/// One seated player: who, the clock, and a pending draw offer.
#[derive(Clone, Copy, Debug)]
pub struct Player {
    user_id: u64,
    main_time: u64,
    fischer_time: u64,
    remaining_overtime: u8,
    overtime: u64,
    turn_start_time: tokio::time::Instant,
    draw_offer: bool,
}

impl View for Player {
    type V = PlayerView;

    closed spec fn view(&self) -> PlayerView {
        PlayerView {
            user_id: self.user_id,
            main_time: self.main_time,
            fischer_time: self.fischer_time,
            remaining_overtime: self.remaining_overtime,
            overtime: self.overtime,
            draw_offer: self.draw_offer,
        }
    }
}

/// `a - b`, floored at zero.
pub open spec fn floor_sub(a: u64, b: u64) -> u64 {
    if a >= b {
        (a - b) as u64
    } else {
        0
    }
}

/// `a + b`, held at the largest `u64`.
pub open spec fn cap_add(a: u64, b: u64) -> u64 {
    if a + b > u64::MAX {
        u64::MAX
    } else {
        (a + b) as u64
    }
}

impl Player {
    /// A player seated with the default clock: two hours, no increment,
    /// three overtime periods of one minute.
    pub fn new(user_id: u64) -> (r: Self)
        ensures
            r@ == (PlayerView {
                user_id,
                main_time: 7200000,
                fischer_time: 0,
                remaining_overtime: 3,
                overtime: 60000,
                draw_offer: false,
            }),
    {
        Self {
            user_id,
            main_time: 7200000,
            fischer_time: 0,
            overtime: 60000,
            remaining_overtime: 3,
            turn_start_time: now(),
            draw_offer: false,
        }
    }

    pub fn main_time(&self) -> (r: u64)
        ensures
            r == self@.main_time,
    {
        self.main_time
    }

    pub fn overtime(&self) -> (r: u64)
        ensures
            r == self@.overtime,
    {
        self.overtime
    }

    pub fn remain_time(&self) -> (r: u8)
        ensures
            r == self@.remaining_overtime,
    {
        self.remaining_overtime
    }

    pub fn user_id(&self) -> (r: u64)
        ensures
            r == self@.user_id,
    {
        self.user_id
    }

    /// Takes `elapsed` milliseconds off the main time, stopping at zero.
    pub fn charge_elapsed(&mut self, elapsed: u64)
        ensures
            final(self)@ == (PlayerView { main_time: floor_sub(old(self)@.main_time, elapsed), ..old(self)@ }),
    {
        self.main_time = self.main_time.saturating_sub(elapsed);
    }

    /// Takes the time used since the turn began, or since the last charge,
    /// off the main time, stopping at zero, and starts counting afresh.
    pub fn sub_main_time(&mut self)
        ensures
            exists|e: u64| final(self)@ == (PlayerView { main_time: #[trigger] floor_sub(old(self)@.main_time, e), ..old(self)@ }),
    {
        let elapsed = elapsed_ms(&self.turn_start_time);
        self.charge_elapsed(elapsed);
        self.turn_start_time = now();
    }

    /// Uses up one overtime period.
    pub fn sub_remain_overtime(&mut self)
        requires
            old(self)@.remaining_overtime > 0,
        ensures
            final(self)@ == (PlayerView {
                remaining_overtime: (old(self)@.remaining_overtime - 1) as u8,
                ..old(self)@
            }),
    {
        self.remaining_overtime -= 1;
    }

    /// Sets the whole clock from a time control and starts counting from now.
    pub fn set_player(&mut self, config: &BadukBoardGameConfig)
        ensures
            final(self)@ == (PlayerView {
                main_time: config.spec_output().0,
                fischer_time: config.spec_output().1,
                remaining_overtime: config.spec_output().2,
                overtime: config.spec_output().3,
                ..old(self)@
            }),
    {
        let (main_time, fischer_time, remaining_overtime, overtime) = config.output();
        self.main_time = main_time;
        self.fischer_time = fischer_time;
        self.remaining_overtime = remaining_overtime;
        self.overtime = overtime;
        self.turn_start_time = now();
    }

    /// Starts this player's turn: adds the increment (held at the largest
    /// value) and notes the time.
    pub fn start_turn(&mut self)
        ensures
            final(self)@ == (PlayerView {
                main_time: cap_add(old(self)@.main_time, old(self)@.fischer_time),
                ..old(self)@
            }),
    {
        self.main_time = self.main_time.saturating_add(self.fischer_time);
        self.turn_start_time = now();
    }

    /// The clock as a time control.
    pub fn player_status(&self) -> (r: BadukBoardGameConfig)
        ensures
            r.spec_output() == (self@.main_time, self@.fischer_time, self@.remaining_overtime, self@.overtime),
    {
        BadukBoardGameConfig::new(self.main_time, self.fischer_time, self.remaining_overtime, self.overtime)
    }

    pub fn check_draw_offer(&self) -> (r: bool)
        ensures
            r == self@.draw_offer,
    {
        self.draw_offer
    }

    pub fn draw_offer(&mut self)
        ensures
            final(self)@ == (PlayerView { draw_offer: true, ..old(self)@ }),
    {
        self.draw_offer = true;
    }

    pub fn reset_draw_offer(&mut self)
        ensures
            final(self)@ == (PlayerView { draw_offer: false, ..old(self)@ }),
    {
        self.draw_offer = false;
    }
}


/// The view of an optional seat.
pub open spec fn seat_view(p: Option<Player>) -> Option<PlayerView> {
    match p {
        Some(q) => Some(q@),
        None => None,
    }
}

/// The two seats, seen as values.
pub struct PlayersView {
    pub black: Option<PlayerView>,
    pub white: Option<PlayerView>,
}

/// The Black and White seats of a match, each empty or held by one player.
#[derive(Clone, Copy, Debug)]
pub struct Players {
    black_player: Option<Player>,
    white_player: Option<Player>,
}

impl View for Players {
    type V = PlayersView;

    closed spec fn view(&self) -> PlayersView {
        PlayersView { black: seat_view(self.black_player), white: seat_view(self.white_player) }
    }
}

/// `id` holds the seat `s`.
pub open spec fn holds(s: Option<PlayerView>, id: u64) -> bool {
    s matches Some(p) && p.user_id == id
}

/// The seat of colour `c`; none for other colours.
pub open spec fn seat_of(v: PlayersView, c: Color) -> Option<PlayerView> {
    match c {
        Color::Black => v.black,
        Color::White => v.white,
        _ => None,
    }
}

/// The colour whose seat `id` holds, Black first; `Free` if none.
pub open spec fn color_of(v: PlayersView, id: u64) -> Color {
    if holds(v.black, id) {
        Color::Black
    } else if holds(v.white, id) {
        Color::White
    } else {
        Color::Free
    }
}

/// A seat's clock as a time control.
pub open spec fn seat_config(s: Option<PlayerView>) -> Option<(u64, u64, u8, u64)> {
    match s {
        Some(p) => Some((p.main_time, p.fischer_time, p.remaining_overtime, p.overtime)),
        None => None,
    }
}

/// A seat with its clock set from `c`.
pub open spec fn seat_set(s: Option<PlayerView>, c: (u64, u64, u8, u64)) -> Option<PlayerView> {
    match s {
        Some(p) => Some(
            PlayerView {
                main_time: c.0,
                fischer_time: c.1,
                remaining_overtime: c.2,
                overtime: c.3,
                ..p
            },
        ),
        None => None,
    }
}

/// A seat with its draw offer set to `b`.
pub open spec fn seat_offer(s: Option<PlayerView>, b: bool) -> Option<PlayerView> {
    match s {
        Some(p) => Some(PlayerView { draw_offer: b, ..p }),
        None => None,
    }
}

/// The seat is held by a player who offered a draw.
pub open spec fn offered(s: Option<PlayerView>) -> bool {
    match s {
        Some(p) => p.draw_offer,
        None => false,
    }
}

/// A seat with `e` milliseconds charged to its main time.
pub open spec fn seat_charge(s: Option<PlayerView>, e: u64) -> Option<PlayerView> {
    match s {
        Some(p) => Some(PlayerView { main_time: floor_sub(p.main_time, e), ..p }),
        None => None,
    }
}

/// A seat whose turn starts: the increment is added.
pub open spec fn seat_start(s: Option<PlayerView>) -> Option<PlayerView> {
    match s {
        Some(p) => Some(PlayerView { main_time: cap_add(p.main_time, p.fischer_time), ..p }),
        None => None,
    }
}

/// A seat with one overtime period used, if any was left.
pub open spec fn seat_period(s: Option<PlayerView>) -> Option<PlayerView> {
    match s {
        Some(p) => if p.remaining_overtime > 0 {
            Some(PlayerView { remaining_overtime: (p.remaining_overtime - 1) as u8, ..p })
        } else {
            Some(p)
        },
        None => None,
    }
}

/// The seats once `e` milliseconds are charged to the seat of `c`.
pub open spec fn charged(v: PlayersView, c: Color, e: u64) -> PlayersView {
    PlayersView {
        black: if c == Color::Black { seat_charge(v.black, e) } else { v.black },
        white: if c == Color::White { seat_charge(v.white, e) } else { v.white },
    }
}

/// The seats once the seat of `c` ends its turn after `e` milliseconds: it is
/// charged, the other seat starts, and both draw offers are withdrawn.
pub open spec fn handed_over(v: PlayersView, c: Color, e: u64) -> PlayersView {
    PlayersView {
        black: seat_offer(
            if c == Color::Black { seat_charge(v.black, e) } else { seat_start(v.black) },
            false,
        ),
        white: seat_offer(
            if c == Color::White { seat_charge(v.white, e) } else { seat_start(v.white) },
            false,
        ),
    }
}

/// `f` is `o` after `id` asked for a seat, answered `r`: the first open
/// seat, Black before White, unless `id` is already seated or both are held.
pub open spec fn seated(o: PlayersView, f: PlayersView, id: u64, r: bool) -> bool {
    if holds(o.black, id) || holds(o.white, id) {
        !r && f == o
    } else if o.black is None {
        r && f == (PlayersView { black: Some(fresh_seat(id)), ..o })
    } else if o.white is None {
        r && f == (PlayersView { white: Some(fresh_seat(id)), ..o })
    } else {
        !r && f == o
    }
}

/// The default seat for `id`.
pub open spec fn fresh_seat(id: u64) -> PlayerView {
    PlayerView {
        user_id: id,
        main_time: 7200000,
        fischer_time: 0,
        remaining_overtime: 3,
        overtime: 60000,
        draw_offer: false,
    }
}

impl Players {
    /// No user holds both seats.
    pub open spec fn wf(&self) -> bool {
        match (self@.black, self@.white) {
            (Some(b), Some(w)) => b.user_id != w.user_id,
            _ => true,
        }
    }

    /// Two empty seats.
    pub fn new() -> (r: Self)
        ensures
            r.wf(),
            r@.black is None,
            r@.white is None,
    {
        Self { black_player: None, white_player: None }
    }

    /// Seats `user_id` in the first open seat, Black before White. `false`
    /// if the user is already seated or both seats are taken.
    pub fn push_user(&mut self, user_id: u64) -> (r: bool)
        requires
            old(self).wf(),
        ensures
            final(self).wf(),
            seated(old(self)@, final(self)@, user_id, r),
    {
        if let Some(p) = &self.black_player {
            if p.user_id == user_id {
                return false;
            }
        }
        if let Some(p) = &self.white_player {
            if p.user_id == user_id {
                return false;
            }
        }
        if self.black_player.is_none() {
            self.black_player = Some(Player::new(user_id));
            return true;
        }
        if self.white_player.is_none() {
            self.white_player = Some(Player::new(user_id));
            return true;
        }
        false
    }

    /// Frees every seat that `user_id` holds; `true` if there was one.
    pub fn pop_user(&mut self, user_id: u64) -> (r: bool)
        requires
            old(self).wf(),
        ensures
            final(self).wf(),
            r == (holds(old(self)@.black, user_id) || holds(old(self)@.white, user_id)),
            final(self)@.black == if holds(old(self)@.black, user_id) {
                None
            } else {
                old(self)@.black
            },
            final(self)@.white == if holds(old(self)@.white, user_id) {
                None
            } else {
                old(self)@.white
            },
    {
        let mut flag = false;
        if let Some(p) = &self.black_player {
            if p.user_id == user_id {
                self.black_player = None;
                flag = true;
            }
        }
        if let Some(p) = &self.white_player {
            if p.user_id == user_id {
                self.white_player = None;
                flag = true;
            }
        }
        flag
    }

    /// Swaps the two seats.
    pub fn switch_player(&mut self)
        requires
            old(self).wf(),
        ensures
            final(self).wf(),
            final(self)@ == (PlayersView { black: old(self)@.white, white: old(self)@.black }),
    {
        let b = self.black_player;
        self.black_player = self.white_player;
        self.white_player = b;
    }

    /// Sets both seats' clocks from `config`; `true` only when both seats are
    /// held.
    pub fn set_players(&mut self, config: &BadukBoardGameConfig) -> (r: bool)
        requires
            old(self).wf(),
        ensures
            final(self).wf(),
            r == (old(self)@.black is Some && old(self)@.white is Some),
            final(self)@ == (PlayersView {
                black: seat_set(old(self)@.black, config.spec_output()),
                white: seat_set(old(self)@.white, config.spec_output()),
            }),
    {
        let black_success = self.set_black_player(config);
        let white_success = self.set_white_player(config);
        black_success && white_success
    }

    pub fn set_black_player(&mut self, config: &BadukBoardGameConfig) -> (r: bool)
        requires
            old(self).wf(),
        ensures
            final(self).wf(),
            r == old(self)@.black is Some,
            final(self)@ == (PlayersView { black: seat_set(old(self)@.black, config.spec_output()), ..old(self)@ }),
    {
        match &mut self.black_player {
            Some(p) => {
                p.set_player(config);
                true
            },
            None => false,
        }
    }

    pub fn set_white_player(&mut self, config: &BadukBoardGameConfig) -> (r: bool)
        requires
            old(self).wf(),
        ensures
            final(self).wf(),
            r == old(self)@.white is Some,
            final(self)@ == (PlayersView { white: seat_set(old(self)@.white, config.spec_output()), ..old(self)@ }),
    {
        match &mut self.white_player {
            Some(p) => {
                p.set_player(config);
                true
            },
            None => false,
        }
    }

    /// The player whose seat has colour `turn`.
    pub fn turn_player(&self, turn: Color) -> (r: Option<&Player>)
        ensures
            match r {
                Some(p) => seat_of(self@, turn) == Some(p@),
                None => seat_of(self@, turn) is None,
            },
    {
        match turn {
            Color::Black => self.black_player.as_ref(),
            Color::White => self.white_player.as_ref(),
            _ => None,
        }
    }

    pub fn black_player_state(&self) -> (r: Option<BadukBoardGameConfig>)
        ensures
            match r {
                Some(c) => seat_config(self@.black) == Some(c.spec_output()),
                None => self@.black is None,
            },
    {
        match &self.black_player {
            Some(black) => Some(black.player_status()),
            None => None,
        }
    }

    pub fn white_player_state(&self) -> (r: Option<BadukBoardGameConfig>)
        ensures
            match r {
                Some(c) => seat_config(self@.white) == Some(c.spec_output()),
                None => self@.white is None,
            },
    {
        match &self.white_player {
            Some(white) => Some(white.player_status()),
            None => None,
        }
    }

    /// Both seats are held.
    pub fn full_players(&self) -> (r: bool)
        ensures
            r == (self@.black is Some && self@.white is Some),
    {
        self.black_player.is_some() && self.white_player.is_some()
    }

    /// Neither seat is held.
    pub fn check_empty_room(&self) -> (r: bool)
        ensures
            r == (self@.black is None && self@.white is None),
    {
        self.black_player.is_none() && self.white_player.is_none()
    }

    /// Records a draw offer from the seat of `color`.
    pub fn draw_offer(&mut self, color: &Color)
        requires
            old(self).wf(),
        ensures
            final(self).wf(),
            final(self)@ == (PlayersView {
                black: if *color == Color::Black { seat_offer(old(self)@.black, true) } else { old(self)@.black },
                white: if *color == Color::White { seat_offer(old(self)@.white, true) } else { old(self)@.white },
            }),
    {
        match color {
            Color::Black => {
                if let Some(p) = &mut self.black_player {
                    p.draw_offer();
                }
            },
            Color::White => {
                if let Some(p) = &mut self.white_player {
                    p.draw_offer();
                }
            },
            _ => {},
        }
    }

    /// Both seats are held and both have offered a draw.
    pub fn check_draw(&self) -> (r: bool)
        ensures
            r == (offered(self@.black) && offered(self@.white)),
    {
        let b = match &self.black_player {
            Some(p) => p.check_draw_offer(),
            None => false,
        };
        let w = match &self.white_player {
            Some(p) => p.check_draw_offer(),
            None => false,
        };
        b && w
    }

    /// Withdraws both draw offers.
    pub fn reset_draw_offer(&mut self)
        requires
            old(self).wf(),
        ensures
            final(self).wf(),
            final(self)@ == (PlayersView {
                black: seat_offer(old(self)@.black, false),
                white: seat_offer(old(self)@.white, false),
            }),
    {
        if let Some(p) = &mut self.black_player {
            p.reset_draw_offer();
        }
        if let Some(p) = &mut self.white_player {
            p.reset_draw_offer();
        }
    }

    /// Ends the turn of `end_player`: charges the time used to that seat,
    /// starts the other seat's turn and withdraws both draw offers. `false`,
    /// changing nothing, unless both seats are held and `end_player` is a
    /// player's colour.
    pub fn switch_turn(&mut self, end_player: Color) -> (r: bool)
        requires
            old(self).wf(),
        ensures
            final(self).wf(),
            r == (old(self)@.black is Some && old(self)@.white is Some && is_player(end_player)),
            !r ==> final(self)@ == old(self)@,
            r ==> exists|e: u64| #[trigger] handed_over(old(self)@, end_player, e) == final(self)@,
    {
        let ghost o = self@;
        let (black_player, white_player) = match (&mut self.black_player, &mut self.white_player) {
            (Some(black), Some(white)) => (black, white),
            _ => {
                return false;
            },
        };
        match end_player {
            Color::Black => {
                let ghost b0 = *black_player;
                black_player.sub_main_time();
                let ghost e = choose|e: u64| (PlayerView { main_time: #[trigger] floor_sub(b0@.main_time, e), ..b0@ }) == black_player@;
                white_player.start_turn();
                black_player.reset_draw_offer();
                white_player.reset_draw_offer();
                assert(handed_over(o, end_player, e) == self@);
                true
            },
            Color::White => {
                let ghost w0 = *white_player;
                white_player.sub_main_time();
                let ghost e = choose|e: u64| (PlayerView { main_time: #[trigger] floor_sub(w0@.main_time, e), ..w0@ }) == white_player@;
                black_player.start_turn();
                black_player.reset_draw_offer();
                white_player.reset_draw_offer();
                assert(handed_over(o, end_player, e) == self@);
                true
            },
            _ => false,
        }
    }

    /// Charges the time used so far to the seat of `color`, if held.
    pub fn charge_turn(&mut self, color: Color)
        requires
            old(self).wf(),
        ensures
            final(self).wf(),
            exists|e: u64| #[trigger] charged(old(self)@, color, e) == final(self)@,
    {
        let ghost o = self@;
        match color {
            Color::Black => {
                if let Some(p) = &mut self.black_player {
                    let ghost seat0 = *p;
                    p.sub_main_time();
                    let ghost e = choose|e: u64| (PlayerView { main_time: #[trigger] floor_sub(seat0@.main_time, e), ..seat0@ }) == p@;
                    assert(charged(o, color, e) == self@);
                } else {
                    assert(charged(o, color, 0) == self@);
                }
            },
            Color::White => {
                if let Some(p) = &mut self.white_player {
                    let ghost seat0 = *p;
                    p.sub_main_time();
                    let ghost e = choose|e: u64| (PlayerView { main_time: #[trigger] floor_sub(seat0@.main_time, e), ..seat0@ }) == p@;
                    assert(charged(o, color, e) == self@);
                } else {
                    assert(charged(o, color, 0) == self@);
                }
            },
            _ => {
                assert(charged(o, color, 0) == self@);
            },
        }
    }

    /// Uses up one overtime period of the seat of `color`, if held and any
    /// is left.
    pub fn use_overtime(&mut self, color: Color)
        requires
            old(self).wf(),
        ensures
            final(self).wf(),
            final(self)@ == (PlayersView {
                black: if color == Color::Black { seat_period(old(self)@.black) } else { old(self)@.black },
                white: if color == Color::White { seat_period(old(self)@.white) } else { old(self)@.white },
            }),
    {
        match color {
            Color::Black => {
                if let Some(p) = &mut self.black_player {
                    if p.remain_time() > 0 {
                        p.sub_remain_overtime();
                    }
                }
            },
            Color::White => {
                if let Some(p) = &mut self.white_player {
                    if p.remain_time() > 0 {
                        p.sub_remain_overtime();
                    }
                }
            },
            _ => {},
        }
    }

    /// The user in the seat of `color`.
    pub fn user_id(&self, color: Color) -> (r: Option<u64>)
        ensures
            r == match seat_of(self@, color) {
                Some(p) => Some(p.user_id),
                None => None::<u64>,
            },
    {
        match color {
            Color::Black => match &self.black_player {
                Some(b) => Some(b.user_id()),
                None => None,
            },
            Color::White => match &self.white_player {
                Some(w) => Some(w.user_id()),
                None => None,
            },
            _ => None,
        }
    }

    /// The colour of the seat `user_id` holds; `Free` if none.
    pub fn check_id_to_color(&self, user_id: u64) -> (r: Color)
        ensures
            r == color_of(self@, user_id),
    {
        if let Some(player) = &self.black_player {
            if player.user_id() == user_id {
                return Color::Black;
            }
        }
        if let Some(player) = &self.white_player {
            if player.user_id() == user_id {
                return Color::White;
            }
        }
        Color::Free
    }
}

} // verus!
