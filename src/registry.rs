use vstd::prelude::*;
use std::collections::HashMap;
use std::collections::VecDeque;
use crate::clock::BadukBoardGameConfig;

verus! {

broadcast use vstd::std_specs::hash::group_hash_axioms;

/// The public number of a match, handed out by [`EnterCodeManagement`].
#[derive(Debug, PartialEq, Eq, Hash)]
pub struct EnterCode {
    code: u16,
}

impl EnterCode {
    pub closed spec fn spec_code(&self) -> u16 {
        self.code
    }

    fn new(code: u16) -> (r: Self)
        ensures
            r.spec_code() == code,
    {
        Self { code }
    }

    pub fn as_u16(&self) -> (r: u16)
        ensures
            r == self.spec_code(),
    {
        self.code
    }
}

/// The allocator, seen as values: the next fresh code lies below `counter`,
/// `queue` holds released codes in order, `live` the codes in use.
pub struct CodesView {
    pub counter: u16,
    pub queue: Seq<u16>,
    pub live: Set<u16>,
}

/// Codes are never in use twice: released codes wait once in the queue and
/// are not live, and every code handed out so far is at least `counter`.
pub open spec fn codes_wf(v: CodesView) -> bool {
    &&& v.queue.no_duplicates()
    &&& forall|i: int| 0 <= i < v.queue.len() ==> #[trigger] v.queue[i] >= v.counter
    &&& forall|i: int| 0 <= i < v.queue.len() ==> !v.live.contains(#[trigger] v.queue[i])
    &&& forall|x: u16| #[trigger] v.live.contains(x) ==> x >= v.counter
}

/// What taking a code does: the oldest released code first, else the next
/// fresh code below the counter, else nothing.
pub open spec fn spec_get(v: CodesView) -> (Option<u16>, CodesView) {
    if v.queue.len() > 0 {
        (Some(v.queue[0]), CodesView { queue: v.queue.drop_first(), live: v.live.insert(v.queue[0]), ..v })
    } else if v.counter > 0 {
        (
            Some((v.counter - 1) as u16),
            CodesView { counter: (v.counter - 1) as u16, live: v.live.insert((v.counter - 1) as u16), ..v },
        )
    } else {
        (None, v)
    }
}

/// What giving back a live code does: it leaves the live set and joins the
/// end of the queue.
pub open spec fn spec_release(v: CodesView, c: u16) -> CodesView {
    CodesView { queue: v.queue.push(c), live: v.live.remove(c), ..v }
}

/// Taking a code from a well-formed allocator keeps it well formed and gives
/// a code that no live match holds.
pub proof fn lemma_get_fresh(v: CodesView)
    requires
        codes_wf(v),
    ensures
        codes_wf(spec_get(v).1),
        spec_get(v).0 matches Some(c) ==> !v.live.contains(c) && spec_get(v).1.live == v.live.insert(c),
{
    if v.queue.len() > 0 {
        let w = spec_get(v).1;
        assert forall|i: int| 0 <= i < w.queue.len() implies !w.live.contains(#[trigger] w.queue[i]) by {
            assert(w.queue[i] == v.queue[i + 1]);
        }
        assert(w.queue.no_duplicates()) by {
            assert forall|i: int, j: int| 0 <= i < w.queue.len() && 0 <= j < w.queue.len() && i != j implies w.queue[i] != w.queue[j] by {
                assert(w.queue[i] == v.queue[i + 1]);
                assert(w.queue[j] == v.queue[j + 1]);
            }
        }
        assert(v.queue.contains(v.queue[0]));
    }
}

/// Releasing a live code and taking one again never yields a code that
/// another live match holds, and keeps the allocator well formed.
pub proof fn lemma_release_then_get(v: CodesView, c: u16)
    requires
        codes_wf(v),
        v.live.contains(c),
    ensures
        codes_wf(spec_release(v, c)),
        codes_wf(spec_get(spec_release(v, c)).1),
        spec_get(spec_release(v, c)).0 matches Some(x) ==> !spec_release(v, c).live.contains(x)
            && spec_get(spec_release(v, c)).1.live == spec_release(v, c).live.insert(x),
{
    let w = spec_release(v, c);
    assert forall|i: int| 0 <= i < w.queue.len() implies !w.live.contains(#[trigger] w.queue[i]) by {
        if i < v.queue.len() {
            assert(w.queue[i] == v.queue[i]);
        }
    }
    assert(w.queue.no_duplicates()) by {
        assert forall|i: int, j: int| 0 <= i < w.queue.len() && 0 <= j < w.queue.len() && i != j implies w.queue[i] != w.queue[j] by {
            if i < v.queue.len() && j < v.queue.len() {
                assert(w.queue[i] == v.queue[i]);
                assert(w.queue[j] == v.queue[j]);
            } else if i < v.queue.len() {
                assert(w.queue[i] == v.queue[i]);
            } else if j < v.queue.len() {
                assert(w.queue[j] == v.queue[j]);
            }
        }
    }
    assert forall|i: int| 0 <= i < w.queue.len() implies #[trigger] w.queue[i] >= w.counter by {
        if i < v.queue.len() {
            assert(w.queue[i] == v.queue[i]);
        }
    }
    lemma_get_fresh(w);
}

/// Hands out the 16-bit codes of live matches, so that no two live matches
/// share one: released codes are reused first, oldest first; then fresh codes
/// are minted counting down.
pub struct EnterCodeManagement {
    counter: u16,
    released_number: VecDeque<u16>,
    live: Ghost<Set<u16>>,
}

impl View for EnterCodeManagement {
    type V = CodesView;

    closed spec fn view(&self) -> CodesView {
        CodesView { counter: self.counter, queue: self.released_number@, live: self.live@ }
    }
}

impl EnterCodeManagement {
    /// A full pool: the largest code waits in the queue, the others will be
    /// minted below it.
    pub fn new() -> (r: Self)
        ensures
            codes_wf(r@),
            r@.counter == u16::MAX,
            r@.queue == seq![u16::MAX],
            r@.live == Set::<u16>::empty(),
    {
        let mut q: VecDeque<u16> = VecDeque::new();
        q.push_back(u16::MAX);
        assert(q@ =~= seq![u16::MAX]);
        Self { counter: u16::MAX, released_number: q, live: Ghost(Set::empty()) }
    }

    /// Takes a code for a new match; `None` once the pool is exhausted.
    pub fn get(&mut self) -> (r: Option<EnterCode>)
        requires
            codes_wf(old(self)@),
        ensures
            codes_wf(final(self)@),
            final(self)@ == spec_get(old(self)@).1,
            match r {
                Some(c) => spec_get(old(self)@).0 == Some(c.spec_code()),
                None => spec_get(old(self)@).0 is None,
            },
    {
        proof {
            lemma_get_fresh(self@);
        }
        match self.released_number.pop_front() {
            Some(num) => {
                self.live = Ghost(self.live@.insert(num));
                Some(EnterCode::new(num))
            },
            None => match self.counter.checked_sub(1) {
                Some(num) => {
                    self.counter = num;
                    self.live = Ghost(self.live@.insert(num));
                    Some(EnterCode::new(num))
                },
                None => None,
            },
        }
    }

    /// Gives back the code of a match that ended.
    pub fn release(&mut self, enter_code: EnterCode)
        requires
            codes_wf(old(self)@),
            old(self)@.live.contains(enter_code.spec_code()),
        ensures
            codes_wf(final(self)@),
            final(self)@ == spec_release(old(self)@, enter_code.spec_code()),
    {
        proof {
            lemma_release_then_get(self@, enter_code.spec_code());
        }
        self.live = Ghost(self.live@.remove(enter_code.code));
        self.released_number.push_back(enter_code.as_u16());
    }
}


/// The table of live matches: each live code maps to the handle that reaches
/// its session. `C` is whatever the host uses as that handle.
pub struct RoomManagement<C> {
    enter_code_management: EnterCodeManagement,
    room_communication_channel_map: HashMap<u16, C>,
}

impl<C> RoomManagement<C> {
    pub closed spec fn codes(&self) -> CodesView {
        self.enter_code_management@
    }

    pub closed spec fn rooms(&self) -> Map<u16, C> {
        self.room_communication_channel_map@
    }

    /// Registered rooms all hold live codes.
    pub open spec fn wf(&self) -> bool {
        &&& codes_wf(self.codes())
        &&& forall|k: u16| #[trigger] self.rooms().contains_key(k) ==> self.codes().live.contains(k)
    }

    pub fn new() -> (r: Self)
        ensures
            r.wf(),
            r.codes().live == Set::<u16>::empty(),
            r.rooms() == Map::<u16, C>::empty(),
    {
        Self {
            enter_code_management: EnterCodeManagement::new(),
            room_communication_channel_map: HashMap::new(),
        }
    }

    /// Takes a code for a new match.
    pub fn get_enter_code(&mut self) -> (r: Option<EnterCode>)
        requires
            old(self).wf(),
        ensures
            final(self).wf(),
            final(self).codes() == spec_get(old(self).codes()).1,
            final(self).rooms() == old(self).rooms(),
            match r {
                Some(c) => spec_get(old(self).codes()).0 == Some(c.spec_code()),
                None => spec_get(old(self).codes()).0 is None,
            },
    {
        let r = self.enter_code_management.get();
        proof {
            lemma_get_fresh(old(self).codes());
            assert forall|k: u16| #[trigger] self.rooms().contains_key(k) implies self.codes().live.contains(k) by {
                assert(old(self).rooms().contains_key(k));
            }
        }
        r
    }

    /// Files the handle of the match that holds a live code.
    pub fn register_room(&mut self, enter_code: u16, room_communication_channel: C)
        requires
            old(self).wf(),
            old(self).codes().live.contains(enter_code),
        ensures
            final(self).wf(),
            final(self).codes() == old(self).codes(),
            final(self).rooms() == old(self).rooms().insert(enter_code, room_communication_channel),
    {
        self.room_communication_channel_map.insert(enter_code, room_communication_channel);
        proof {
            assert forall|k: u16| #[trigger] self.rooms().contains_key(k) implies self.codes().live.contains(k) by {
                if k != enter_code {
                    assert(old(self).rooms().contains_key(k));
                }
            }
        }
    }

    /// Forgets the match of a live code and gives the code back.
    pub fn release_enter_code(&mut self, enter_code: EnterCode)
        requires
            old(self).wf(),
            old(self).codes().live.contains(enter_code.spec_code()),
        ensures
            final(self).wf(),
            final(self).codes() == spec_release(old(self).codes(), enter_code.spec_code()),
            final(self).rooms() == old(self).rooms().remove(enter_code.spec_code()),
    {
        let code = enter_code.as_u16();
        self.room_communication_channel_map.remove(&code);
        self.enter_code_management.release(enter_code);
        proof {
            assert forall|k: u16| #[trigger] self.rooms().contains_key(k) implies self.codes().live.contains(k) by {
                assert(old(self).rooms().contains_key(k));
            }
        }
    }

    /// Admits a user to the match with `enter_code`: `user` is who the
    /// session key resolved to, if anyone. An unresolved key is refused
    /// first, then an unknown code.
    pub fn enter_room(&self, enter_code: u16, user: Option<u64>) -> (r: Result<(u64, &C), EnterRoomErrorCode>)
        ensures
            match user {
                None => r == Err::<(u64, &C), EnterRoomErrorCode>(EnterRoomErrorCode::IncorrectSessionKey),
                Some(u) => if self.rooms().contains_key(enter_code) {
                    r matches Ok((v, c)) && v == u && *c == self.rooms()[enter_code]
                } else {
                    r == Err::<(u64, &C), EnterRoomErrorCode>(EnterRoomErrorCode::EnterCodeError)
                },
            },
    {
        let user_id = match user {
            Some(u) => u,
            None => {
                return Err(EnterRoomErrorCode::IncorrectSessionKey);
            },
        };
        match self.get_communication_channel(enter_code) {
            Some(c) => Ok((user_id, c)),
            None => Err(EnterRoomErrorCode::EnterCodeError),
        }
    }

    /// The handle of the match with this code; `None` for an unknown code.
    pub fn get_communication_channel(&self, enter_code: u16) -> (r: Option<&C>)
        ensures
            match r {
                Some(c) => self.rooms().contains_key(enter_code) && *c == self.rooms()[enter_code],
                None => !self.rooms().contains_key(enter_code),
            },
    {
        self.room_communication_channel_map.get(&enter_code)
    }
}

/// Why a user could not join a match.
#[derive(Clone, Copy, Debug, PartialEq, Eq, Structural)]
pub enum EnterRoomErrorCode {
    EnterCodeError,
    IncorrectSessionKey,
}

/// A request to open a match: the game and its time control.
#[derive(Clone, Copy, Debug)]
pub enum CreateRoomRequestForm {
    Baduk(BadukBoardGameConfig),
    Omok(BadukBoardGameConfig),
}

/// The answer to [`CreateRoomRequestForm`]: the code of the new match.
#[derive(Clone, Copy, Debug, PartialEq, Eq, Structural)]
pub struct CreateRoomResponseForm {
    pub enter_code: u16,
}

impl CreateRoomResponseForm {
    pub fn new(enter_code: u16) -> (r: Self)
        ensures
            r.enter_code == enter_code,
    {
        Self { enter_code }
    }
}

} // verus!
