//! A room: its seats, who sits where, who watches, and whether a game is on.

use vstd::prelude::*;
use crate::basic::game::{GameMeta, PositionSpec};
use crate::basic::message::TypedData;
use crate::basic::user::{User, UserId, Chat, PositionChange, ReadyStateChange, RoomManage};

verus! {

/// The name of a seat, such as "0" or "1".
#[derive(Debug, Clone, PartialEq, Eq, Hash)]
pub struct RoomPlayerPosition(String);

impl View for RoomPlayerPosition {
    type V = Seq<char>;

    closed spec fn view(&self) -> Seq<char> {
        self.0@
    }
}

impl RoomPlayerPosition {
    /// The seat name.
    pub fn as_str(&self) -> (s: &str)
        ensures
            s@ == self@,
    {
        self.0.as_str()
    }

    /// The seat of the given name.
    pub fn from_string(s: String) -> (p: RoomPlayerPosition)
        ensures
            p@ == s@,
    {
        RoomPlayerPosition(s)
    }

    /// The seat of the given name.
    pub fn from_str(s: &str) -> (p: RoomPlayerPosition)
        ensures
            p@ == s@,
    {
        RoomPlayerPosition(String::from_str(s))
    }

    /// Whether two seat names are the same.
    pub fn same(&self, other: &RoomPlayerPosition) -> (r: bool)
        ensures
            r == (self@ == other@),
    {
        self.0 == other.0
    }

    /// A copy of the seat name.
    pub fn copy(&self) -> (p: RoomPlayerPosition)
        ensures
            p@ == self@,
    {
        RoomPlayerPosition(self.0.clone())
    }
}

/// The decimal digit character of `d` (0 to 9).
pub open spec fn digit_char(d: nat) -> char {
    if d == 0 {
        '0'
    } else if d == 1 {
        '1'
    } else if d == 2 {
        '2'
    } else if d == 3 {
        '3'
    } else if d == 4 {
        '4'
    } else if d == 5 {
        '5'
    } else if d == 6 {
        '6'
    } else if d == 7 {
        '7'
    } else if d == 8 {
        '8'
    } else {
        '9'
    }
}

/// The decimal text of a natural number, without leading zeros.
pub open spec fn decimal(n: nat) -> Seq<char>
    decreases n,
{
    if n < 10 {
        seq![digit_char(n)]
    } else {
        decimal(n / 10).push(digit_char(n % 10))
    }
}

/// The decimal text of a number, by `usize::to_string`.
#[verifier::external_body]
pub(crate) fn usize_to_decimal(n: usize) -> (s: String)
    ensures
        s@ == decimal(n as nat),
{
    n.to_string()
}

/// The current time in Unix milliseconds, from `chrono::Utc::now`.
/// Nothing is claimed of it: it is the clock's.
#[verifier::external_body]
pub(crate) fn now_millis() -> (t: i64) {
    chrono::Utc::now().timestamp_millis()
}

/// How the seats of a room may change.
#[derive(Debug, Clone, PartialEq, Eq, Hash)]
pub enum PositionMode {
    Fixed,
    Flexible { min_players: usize, max_players: usize },
}

/// A seat: empty, or taken by a player.
#[derive(Debug, Clone)]
pub enum SeatState {
    Vacant,
    Occupied(RoomPlayerState),
}

/// A seated player.
#[derive(Debug, Clone)]
pub struct RoomPlayerState {
    pub id_ready: bool,
    pub is_connected: bool,
    pub player: User,
}

/// The seats of a room, each under its own name.
#[derive(Debug, Clone)]
pub struct PositionState {
    pub mode: PositionMode,
    pub seats: Vec<(RoomPlayerPosition, SeatState)>,
}

/// No two seats have the same name.
pub open spec fn distinct_seats(seats: Seq<(RoomPlayerPosition, SeatState)>) -> bool {
    forall|i: int, j: int|
        0 <= i < seats.len() && 0 <= j < seats.len() && i != j ==> (#[trigger] seats[i]).0@
            != (#[trigger] seats[j]).0@
}

/// How many of the seats are taken.
pub open spec fn occupied_in(seats: Seq<(RoomPlayerPosition, SeatState)>) -> nat
    decreases seats.len(),
{
    if seats.len() == 0 {
        0
    } else {
        occupied_in(seats.drop_last()) + (if seats.last().1 is Occupied {
            1nat
        } else {
            0nat
        })
    }
}

/// Some seat has the name.
pub open spec fn seat_named(seats: Seq<(RoomPlayerPosition, SeatState)>, name: Seq<char>) -> bool {
    exists|i: int| 0 <= i < seats.len() && seats[i].0@ == name
}

/// Some listed position has the name.
pub open spec fn name_listed(positions: Seq<RoomPlayerPosition>, name: Seq<char>) -> bool {
    exists|k: int| 0 <= k < positions.len() && positions[k]@ == name
}

/// The seats a game's position spec describes: distinct names, all empty; for a fixed
/// spec exactly the listed names, for a flexible one the names "1" to "n", where `n` is
/// the default number of players brought within the minimum and the maximum.
pub open spec fn seats_described(p: PositionState, position_spec: PositionSpec) -> bool {
    &&& distinct_seats(p.seats@)
    &&& forall|i: int| 0 <= i < p.seats@.len() ==> (#[trigger] p.seats@[i]).1 is Vacant
    &&& match position_spec {
        PositionSpec::Fixed { positions } => {
            &&& p.mode == PositionMode::Fixed
            &&& forall|i: int|
                0 <= i < p.seats@.len() ==> name_listed(positions@, (#[trigger] p.seats@[i]).0@)
            &&& forall|j: int|
                0 <= j < positions@.len() ==> seat_named(p.seats@, (#[trigger] positions@[j])@)
        },
        PositionSpec::Flexible { min_players, max_players, default_players } => {
            let n = if default_players < min_players {
                min_players
            } else if default_players > max_players {
                max_players
            } else {
                default_players
            };
            &&& p.mode == PositionMode::Flexible { min_players, max_players }
            &&& p.seats@.len() == n
            &&& forall|i: int|
                0 <= i < n ==> (#[trigger] p.seats@[i]).0@ == decimal((i + 1) as nat)
        },
    }
}

impl PositionState {
    /// No seats, in fixed mode.
    pub fn empty() -> (p: PositionState)
        ensures
            p.mode == PositionMode::Fixed,
            p.seats@.len() == 0,
    {
        PositionState { mode: PositionMode::Fixed, seats: Vec::new() }
    }

    /// The empty seats that a game's position spec describes. A fixed spec gives one
    /// seat per distinct name; a flexible spec gives the seats "1" to "n", where `n` is
    /// the default number of players brought within the minimum and the maximum.
    pub fn from_spec(position_spec: &PositionSpec) -> (p: PositionState)
        requires
            *position_spec matches PositionSpec::Flexible { min_players, max_players, .. }
                ==> min_players <= max_players,
        ensures
            seats_described(p, *position_spec),
    {
        match position_spec {
            PositionSpec::Fixed { positions } => {
                let mut seats: Vec<(RoomPlayerPosition, SeatState)> = Vec::new();
                let n = positions.len();
                let mut j: usize = 0;
                while j < n
                    invariant
                        j <= n,
                        n == positions@.len(),
                        distinct_seats(seats@),
                        forall|i: int| 0 <= i < seats@.len() ==> (#[trigger] seats@[i]).1 is Vacant,
                        forall|i: int|
                            0 <= i < seats@.len() ==> name_listed(positions@, (#[trigger] seats@[i]).0@),
                        forall|k: int| 0 <= k < j ==> seat_named(seats@, (#[trigger] positions@[k])@),
                    decreases n - j,
                {
                    let found = find_seat(&seats, &positions[j]);
                    let ghost old_seats = seats@;
                    if found.is_none() {
                        seats.push((positions[j].copy(), SeatState::Vacant));
                        proof {
                            let last = old_seats.len() as int;
                            assert(seats@[last].0@ == positions@[j as int]@);
                            assert forall|k: int| 0 <= k < j + 1 implies seat_named(
                                seats@,
                                (#[trigger] positions@[k])@,
                            ) by {
                                if k == j {
                                    assert(seats@[last].0@ == positions@[k]@);
                                } else {
                                    assert(seat_named(old_seats, positions@[k]@));
                                    let i = choose|i: int|
                                        0 <= i < old_seats.len() && old_seats[i].0@ == positions@[k]@;
                                    assert(seats@[i] == old_seats[i]);
                                }
                            }
                            assert forall|i: int| 0 <= i < seats@.len() implies name_listed(
                                positions@,
                                (#[trigger] seats@[i]).0@,
                            ) by {
                                if i == last {
                                    assert(positions@[j as int]@ == seats@[i].0@);
                                } else {
                                    assert(seats@[i] == old_seats[i]);
                                }
                            }
                        }
                    } else {
                        proof {
                            let i = found->0 as int;
                            assert(seats@[i].0@ == positions@[j as int]@);
                        }
                    }
                    j = j + 1;
                }
                PositionState { mode: PositionMode::Fixed, seats }
            },
            PositionSpec::Flexible { min_players, max_players, default_players } => {
                let count = if *default_players < *min_players {
                    *min_players
                } else if *default_players > *max_players {
                    *max_players
                } else {
                    *default_players
                };
                let mut seats: Vec<(RoomPlayerPosition, SeatState)> = Vec::new();
                let mut k: usize = 0;
                while k < count
                    invariant
                        k <= count,
                        seats@.len() == k,
                        forall|i: int|
                            0 <= i < k ==> (#[trigger] seats@[i]).0@ == decimal((i + 1) as nat),
                        forall|i: int| 0 <= i < seats@.len() ==> (#[trigger] seats@[i]).1 is Vacant,
                    decreases count - k,
                {
                    let name = usize_to_decimal(k + 1);
                    seats.push((RoomPlayerPosition::from_string(name), SeatState::Vacant));
                    k = k + 1;
                }
                proof {
                    assert forall|i: int, j: int|
                        0 <= i < seats@.len() && 0 <= j < seats@.len() && i != j implies (
                        #[trigger] seats@[i]).0@ != (#[trigger] seats@[j]).0@ by {
                        lemma_decimal_injective((i + 1) as nat, (j + 1) as nat);
                    }
                }
                PositionState {
                    mode: PositionMode::Flexible {
                        min_players: *min_players,
                        max_players: *max_players,
                    },
                    seats,
                }
            },
        }
    }

    /// How many seats are taken.
    pub fn occupied_count(&self) -> (n: usize)
        ensures
            n == occupied_in(self.seats@),
    {
        let mut n: usize = 0;
        let len = self.seats.len();
        for i in 0..len
            invariant
                len == self.seats@.len(),
                n == occupied_in(self.seats@.take(i as int)),
                n <= i,
        {
            assert(self.seats@.take(i + 1).drop_last() =~= self.seats@.take(i as int));
            if let SeatState::Occupied(_) = &self.seats[i].1 {
                n = n + 1;
            }
        }
        assert(self.seats@.take(len as int) =~= self.seats@);
        n
    }
}

/// The index of the seat named like `pos`, if any.
pub fn find_seat(seats: &Vec<(RoomPlayerPosition, SeatState)>, pos: &RoomPlayerPosition) -> (r:
    Option<usize>)
    ensures
        r matches Some(i) ==> i < seats@.len() && seats@[i as int].0@ == pos@,
        r is None ==> forall|i: int| 0 <= i < seats@.len() ==> (#[trigger] seats@[i]).0@ != pos@,
{
    let n = seats.len();
    for i in 0..n
        invariant
            n == seats@.len(),
            forall|k: int| 0 <= k < i ==> (#[trigger] seats@[k]).0@ != pos@,
    {
        if seats[i].0.same(pos) {
            return Some(i);
        }
    }
    None
}

/// Decimal texts of different numbers differ.
pub proof fn lemma_decimal_injective(a: nat, b: nat)
    requires
        a != b,
    ensures
        decimal(a) != decimal(b),
    decreases a + b,
{
    if a < 10 && b < 10 {
        assert(decimal(a)[0] != decimal(b)[0]);
    } else if a < 10 {
        lemma_decimal_len(b / 10);
        assert(decimal(b).len() >= 2);
    } else if b < 10 {
        lemma_decimal_len(a / 10);
        assert(decimal(a).len() >= 2);
    } else {
        if a % 10 != b % 10 {
            let la = decimal(a).len() - 1;
            let lb = decimal(b).len() - 1;
            if decimal(a) == decimal(b) {
                assert(decimal(a)[la] == digit_char(a % 10));
                assert(decimal(b)[lb] == digit_char(b % 10));
            }
        } else {
            lemma_decimal_injective(a / 10, b / 10);
            if decimal(a) == decimal(b) {
                assert(decimal(a).drop_last() == decimal(a / 10));
                assert(decimal(b).drop_last() == decimal(b / 10));
            }
        }
    }
}

proof fn lemma_decimal_len(n: nat)
    ensures
        decimal(n).len() >= 1,
    decreases n,
{
    if n >= 10 {
        lemma_decimal_len(n / 10);
    }
}

/// Whether the room waits for players or plays a game.
#[derive(Debug, Clone, Copy, PartialEq, Eq, Hash, Structural)]
pub enum RoomPhaseKind {
    Waiting,
    Gaming,
}

/// The phase of a room and since when (Unix milliseconds).
#[derive(Debug, Clone, Copy, PartialEq, Eq, Hash)]
pub struct RoomPhase {
    pub kind: RoomPhaseKind,
    pub since: i64,
}

/// What an observer looks at.
#[derive(Debug, Clone, PartialEq, Eq, Hash)]
pub enum RoomObserverView {
    Position(RoomPlayerPosition),
    Player(UserId),
    Neutral,
}

/// Where a user is in a room.
#[derive(Debug, Clone, PartialEq, Eq, Hash)]
pub enum RoomUserPosition {
    Player(RoomPlayerPosition),
    Observer(RoomObserverView),
}

/// Which view of a game a message is meant for.
#[derive(Debug, Clone, PartialEq, Eq, Hash)]
pub enum RoomView {
    Position(RoomPlayerPosition),
    Neutral,
}

/// A user watching the room.
#[derive(Debug, Clone)]
pub struct RoomObserverState {
    pub is_connected: bool,
    pub view: RoomObserverView,
    pub player: User,
}

/// Seats, observers and phase of a room.
#[derive(Debug, Clone)]
pub struct RoomState {
    pub positions: PositionState,
    pub observers: Vec<(UserId, RoomObserverState)>,
    pub phase: RoomPhase,
}

/// The description of a room.
#[derive(Debug, Clone)]
pub struct RoomInfo {
    pub title: String,
    pub description: Option<String>,
    pub id: String,
    pub owner: UserId,
    pub endpoint: String,
    pub game_meta: GameMeta,
    pub game_config: Option<TypedData>,
}

/// A room.
#[derive(Debug, Clone)]
pub struct Room {
    pub info: RoomInfo,
    pub state: RoomState,
}

/// A user action as the room reports it.
#[derive(Debug, Clone)]
pub struct UserActionEvent<D> {
    pub user_id: UserId,
    pub data: D,
}

/// What happened in a room.
#[derive(Debug, Clone)]
pub enum RoomEvent {
    UserChat(UserActionEvent<Chat>),
    UserJoin(UserActionEvent<()>),
    UserChangePosition(UserActionEvent<PositionChange>),
    UserLeave(UserActionEvent<()>),
    UserKickedOut(UserActionEvent<()>),
    UserDisconnected(UserActionEvent<()>),
    UserReconnected(UserActionEvent<()>),
    UserReady(UserActionEvent<ReadyStateChange>),
    RoomManage(UserActionEvent<RoomManage>),
}

/// The state of a room and what just happened in it.
#[derive(Debug, Clone)]
pub struct RoomUpdate {
    pub room: Room,
    pub events: Vec<RoomEvent>,
}

} // verus!

verus! {

/// The seat `s` is taken by the user `id`.
pub open spec fn seat_held_by(s: (RoomPlayerPosition, SeatState), id: UserId) -> bool {
    s.1 matches SeatState::Occupied(ps) && ps.player.id == id
}

/// Seat `k` is the first seat taken by the user `id`.
pub open spec fn is_first_seat_of(seats: Seq<(RoomPlayerPosition, SeatState)>, id: UserId, k: int) -> bool {
    &&& 0 <= k < seats.len()
    &&& seat_held_by(seats[k], id)
    &&& forall|j: int| 0 <= j < k ==> !seat_held_by(#[trigger] seats[j], id)
}

/// The first seat taken by the user `id`, if any.
pub open spec fn seat_of_user(seats: Seq<(RoomPlayerPosition, SeatState)>, id: UserId) -> Option<int> {
    if exists|k: int| is_first_seat_of(seats, id, k) {
        Some(choose|k: int| is_first_seat_of(seats, id, k))
    } else {
        None
    }
}

/// Seat `k` is the first seat named `name`.
pub open spec fn is_first_named(seats: Seq<(RoomPlayerPosition, SeatState)>, name: Seq<char>, k: int) -> bool {
    &&& 0 <= k < seats.len()
    &&& seats[k].0@ == name
    &&& forall|j: int| 0 <= j < k ==> (#[trigger] seats[j]).0@ != name
}

/// The first seat named `name`, if any.
pub open spec fn named_seat(seats: Seq<(RoomPlayerPosition, SeatState)>, name: Seq<char>) -> Option<int> {
    if exists|k: int| is_first_named(seats, name, k) {
        Some(choose|k: int| is_first_named(seats, name, k))
    } else {
        None
    }
}

/// With distinct seats, a seat with the name is the first with it.
pub proof fn lemma_named_seat_distinct(seats: Seq<(RoomPlayerPosition, SeatState)>, name: Seq<char>, k: int)
    requires
        distinct_seats(seats),
        0 <= k < seats.len(),
        seats[k].0@ == name,
    ensures
        named_seat(seats, name) == Some(k),
{
    assert forall|j: int| 0 <= j < k implies (#[trigger] seats[j]).0@ != name by {
        assert(seats[j].0@ != seats[k].0@);
    }
    assert(is_first_named(seats, name, k));
    let c = choose|c: int| is_first_named(seats, name, c);
    if c != k {
        assert(seats[c].0@ != seats[k].0@);
    }
}

/// Changing what a seat holds, or setting the seat of a name, keeps the seats distinct.
pub proof fn lemma_distinct_seats_kept(
    seats: Seq<(RoomPlayerPosition, SeatState)>,
    i: int,
    st: SeatState,
    new: Seq<(RoomPlayerPosition, SeatState)>,
    name: Seq<char>,
)
    requires
        distinct_seats(seats),
    ensures
        0 <= i < seats.len() ==> distinct_seats(seats.update(i, (seats[i].0, st))),
        seat_set(seats, new, name, st) ==> distinct_seats(new),
{
    if 0 <= i < seats.len() {
        let u = seats.update(i, (seats[i].0, st));
        assert forall|a: int, b: int| 0 <= a < u.len() && 0 <= b < u.len() && a != b implies (#[trigger] u[a]).0@ != (#[trigger] u[b]).0@ by {
            assert(u[a].0 == seats[a].0);
            assert(u[b].0 == seats[b].0);
        }
    }
    if seat_set(seats, new, name, st) {
        match named_seat(seats, name) {
            Some(k) => {
                let c = choose|c: int| is_first_named(seats, name, c);
                assert forall|a: int, b: int| 0 <= a < new.len() && 0 <= b < new.len() && a != b implies (#[trigger] new[a]).0@ != (#[trigger] new[b]).0@ by {
                    assert(new[a].0 == seats[a].0);
                    assert(new[b].0 == seats[b].0);
                }
            },
            None => {
                assert forall|a: int, b: int| 0 <= a < new.len() && 0 <= b < new.len() && a != b implies (#[trigger] new[a]).0@ != (#[trigger] new[b]).0@ by {
                    let last = seats.len() as int;
                    if a < last {
                        assert(new[a] == seats[a]);
                    }
                    if b < last {
                        assert(new[b] == seats[b]);
                    }
                    if a == last && seats[b].0@ == name {
                        lemma_named_seat_distinct(seats, name, b);
                    }
                    if b == last && seats[a].0@ == name {
                        lemma_named_seat_distinct(seats, name, a);
                    }
                }
            },
        }
    }
}

/// The player at the seat named `name`, if the seat exists and is taken.
pub open spec fn player_at(seats: Seq<(RoomPlayerPosition, SeatState)>, name: Seq<char>) -> Option<RoomPlayerState> {
    match named_seat(seats, name) {
        Some(i) => match seats[i].1 {
            SeatState::Occupied(ps) => Some(ps),
            SeatState::Vacant => None,
        },
        None => None,
    }
}

/// `new` is `seats` with the seat named `name` set to `st`, or, when there is no such
/// seat, with a seat of that name holding `st` added at the end.
pub open spec fn seat_set(
    seats: Seq<(RoomPlayerPosition, SeatState)>,
    new: Seq<(RoomPlayerPosition, SeatState)>,
    name: Seq<char>,
    st: SeatState,
) -> bool {
    match named_seat(seats, name) {
        Some(i) => new == seats.update(i, (seats[i].0, st)),
        None => new.len() == seats.len() + 1 && new.drop_last() == seats && new.last().0@ == name
            && new.last().1 == st,
    }
}

/// Entry `k` is the first observer entry of the user `id`.
pub open spec fn is_first_observer(obs: Seq<(UserId, RoomObserverState)>, id: UserId, k: int) -> bool {
    &&& 0 <= k < obs.len()
    &&& obs[k].0 == id
    &&& forall|j: int| 0 <= j < k ==> (#[trigger] obs[j]).0 != id
}

/// The first observer entry of the user `id`, if any.
pub open spec fn observer_of(obs: Seq<(UserId, RoomObserverState)>, id: UserId) -> Option<int> {
    if exists|k: int| is_first_observer(obs, id, k) {
        Some(choose|k: int| is_first_observer(obs, id, k))
    } else {
        None
    }
}

/// No user has two observer entries.
pub open spec fn distinct_observers(obs: Seq<(UserId, RoomObserverState)>) -> bool {
    forall|i: int, j: int|
        0 <= i < obs.len() && 0 <= j < obs.len() && i != j ==> (#[trigger] obs[i]).0 != (#[trigger] obs[j]).0
}

/// With distinct observers, an entry of the user is the user's first.
pub proof fn lemma_observer_of_distinct(obs: Seq<(UserId, RoomObserverState)>, id: UserId, k: int)
    requires
        distinct_observers(obs),
        0 <= k < obs.len(),
        obs[k].0 == id,
    ensures
        observer_of(obs, id) == Some(k),
{
    assert forall|j: int| 0 <= j < k implies (#[trigger] obs[j]).0 != id by {
        assert(obs[j].0 != obs[k].0);
    }
    assert(is_first_observer(obs, id, k));
    let c = choose|c: int| is_first_observer(obs, id, c);
    if c != k {
        assert(obs[c].0 != obs[k].0);
    }
}

/// Adding an entry for a user who has none, replacing a user's entry by one of the same
/// user, or removing an entry keeps the observers distinct.
pub proof fn lemma_distinct_observers_kept(obs: Seq<(UserId, RoomObserverState)>, id: UserId, st: RoomObserverState, k: int)
    requires
        distinct_observers(obs),
    ensures
        observer_of(obs, id) is None ==> distinct_observers(obs.push((id, st))),
        0 <= k < obs.len() ==> distinct_observers(obs.update(k, (obs[k].0, st))),
        0 <= k < obs.len() ==> distinct_observers(obs.remove(k)),
        distinct_observers(observers_with(obs, id, st)),
{
    if observer_of(obs, id) is None {
        let p = obs.push((id, st));
        assert forall|i: int, j: int| 0 <= i < p.len() && 0 <= j < p.len() && i != j implies (#[trigger] p[i]).0 != (#[trigger] p[j]).0 by {
            if i == obs.len() as int && obs[j].0 == id {
                lemma_observer_of_distinct(obs, id, j);
            }
            if j == obs.len() as int && obs[i].0 == id {
                lemma_observer_of_distinct(obs, id, i);
            }
        }
    }
    if 0 <= k < obs.len() {
        let u = obs.update(k, (obs[k].0, st));
        assert forall|i: int, j: int| 0 <= i < u.len() && 0 <= j < u.len() && i != j implies (#[trigger] u[i]).0 != (#[trigger] u[j]).0 by {
            assert(u[i].0 == obs[i].0);
            assert(u[j].0 == obs[j].0);
        }
        let r = obs.remove(k);
        assert forall|i: int, j: int| 0 <= i < r.len() && 0 <= j < r.len() && i != j implies (#[trigger] r[i]).0 != (#[trigger] r[j]).0 by {
            let oi = if i < k { i } else { i + 1 };
            let oj = if j < k { j } else { j + 1 };
            assert(r[i] == obs[oi]);
            assert(r[j] == obs[oj]);
        }
    }
    match observer_of(obs, id) {
        Some(m) => {
            let c = choose|c: int| is_first_observer(obs, id, c);
            assert(is_first_observer(obs, id, m));
            let u = obs.update(m, (id, st));
            assert(obs[m].0 == id);
            assert forall|i: int, j: int| 0 <= i < u.len() && 0 <= j < u.len() && i != j implies (#[trigger] u[i]).0 != (#[trigger] u[j]).0 by {
                assert(u[i].0 == obs[i].0);
                assert(u[j].0 == obs[j].0);
            }
        },
        None => {},
    }
}

/// The user holding a seat, if it is taken.
pub open spec fn holder(s: (RoomPlayerPosition, SeatState)) -> Option<UserId> {
    match s.1 {
        SeatState::Occupied(ps) => Some(ps.player.id),
        SeatState::Vacant => None,
    }
}

/// Each user is in one place at most: no two taken seats hold the same user, no seated
/// user also has an observer entry, and each observer entry holds the user it is filed
/// under.
pub open spec fn one_place_each(seats: Seq<(RoomPlayerPosition, SeatState)>, obs: Seq<(UserId, RoomObserverState)>) -> bool {
    &&& forall|i: int, j: int|
        0 <= i < seats.len() && 0 <= j < seats.len() && i != j && holder(seats[i]) is Some ==> holder(
            #[trigger] seats[i],
        ) != holder(#[trigger] seats[j])
    &&& forall|i: int, k: int|
        0 <= i < seats.len() && 0 <= k < obs.len() ==> holder(#[trigger] seats[i]) != Some((#[trigger] obs[k]).0)
    &&& forall|k: int| 0 <= k < obs.len() ==> (#[trigger] obs[k]).1.player.id == obs[k].0
}

/// A user with no first seat holds no seat.
pub proof fn lemma_no_seat_of_user(seats: Seq<(RoomPlayerPosition, SeatState)>, id: UserId, k: int)
    requires
        seat_of_user(seats, id) is None,
        0 <= k < seats.len(),
    ensures
        holder(seats[k]) != Some(id),
    decreases k,
{
    if holder(seats[k]) == Some(id) {
        if exists|j: int| 0 <= j < k && seat_held_by(#[trigger] seats[j], id) {
            let j = choose|j: int| 0 <= j < k && seat_held_by(#[trigger] seats[j], id);
            lemma_no_seat_of_user(seats, id, j);
        } else {
            assert(is_first_seat_of(seats, id, k));
        }
    }
}

/// A user with no first observer entry has no entry.
pub proof fn lemma_no_observer_entry(obs: Seq<(UserId, RoomObserverState)>, id: UserId, k: int)
    requires
        observer_of(obs, id) is None,
        0 <= k < obs.len(),
    ensures
        obs[k].0 != id,
    decreases k,
{
    if obs[k].0 == id {
        if exists|j: int| 0 <= j < k && (#[trigger] obs[j]).0 == id {
            let j = choose|j: int| 0 <= j < k && (#[trigger] obs[j]).0 == id;
            lemma_no_observer_entry(obs, id, j);
        } else {
            assert(is_first_observer(obs, id, k));
        }
    }
}

/// Where every user is in one place at most, a seat held by a user is that user's first.
pub proof fn lemma_one_place_seat_of_user(
    seats: Seq<(RoomPlayerPosition, SeatState)>,
    obs: Seq<(UserId, RoomObserverState)>,
    id: UserId,
    i: int,
)
    requires
        one_place_each(seats, obs),
        0 <= i < seats.len(),
        holder(seats[i]) == Some(id),
    ensures
        seat_of_user(seats, id) == Some(i),
        observer_of(obs, id) is None,
{
    assert forall|j: int| 0 <= j < i implies !seat_held_by(#[trigger] seats[j], id) by {
        assert(holder(seats[i]) != holder(seats[j]));
    }
    assert(is_first_seat_of(seats, id, i));
    let c = choose|c: int| is_first_seat_of(seats, id, c);
    if c != i {
        assert(holder(seats[i]) != holder(seats[c]));
    }
    if observer_of(obs, id) is Some {
        let k = choose|k: int| is_first_observer(obs, id, k);
        assert(holder(seats[i]) != Some(obs[k].0));
    }
}

/// Changes that keep every user in one place at most: a seat emptied, or its player's
/// state changed; an observer entry changed for the same user, or removed; and an entry
/// added for a user who holds no seat and has no entry.
pub proof fn lemma_one_place_kept(
    seats: Seq<(RoomPlayerPosition, SeatState)>,
    obs: Seq<(UserId, RoomObserverState)>,
    i: int,
    st: SeatState,
    k: int,
    ost: RoomObserverState,
    id: UserId,
)
    requires
        one_place_each(seats, obs),
    ensures
        0 <= i < seats.len() && (st is Vacant || (st is Occupied && holder(seats[i]) == Some(
            st->Occupied_0.player.id,
        ))) ==> one_place_each(seats.update(i, (seats[i].0, st)), obs),
        0 <= k < obs.len() && ost.player.id == obs[k].0 ==> one_place_each(seats, obs.update(k, (obs[k].0, ost))),
        0 <= k < obs.len() ==> one_place_each(seats, obs.remove(k)),
        (forall|j: int| 0 <= j < seats.len() ==> holder(#[trigger] seats[j]) != Some(id)) && (forall|j: int|
            0 <= j < obs.len() ==> (#[trigger] obs[j]).0 != id) && ost.player.id == id ==> one_place_each(
            seats,
            obs.push((id, ost)),
        ),
{
    if 0 <= i < seats.len() && (st is Vacant || (st is Occupied && holder(seats[i]) == Some(st->Occupied_0.player.id))) {
        let u = seats.update(i, (seats[i].0, st));
        assert forall|a: int, b: int|
            0 <= a < u.len() && 0 <= b < u.len() && a != b && holder(u[a]) is Some implies holder(
                #[trigger] u[a],
            ) != holder(#[trigger] u[b]) by {
            if a != i && b != i {
                assert(holder(seats[a]) != holder(seats[b]));
            } else if a == i {
                assert(holder(seats[i]) != holder(seats[b]));
            } else {
                assert(holder(seats[a]) != holder(seats[i]));
            }
        }
        assert forall|a: int, m: int| 0 <= a < u.len() && 0 <= m < obs.len() implies holder(#[trigger] u[a]) != Some(
            (#[trigger] obs[m]).0,
        ) by {
            assert(holder(seats[a]) != Some(obs[m].0));
        }
    }
    if 0 <= k < obs.len() && ost.player.id == obs[k].0 {
        let u = obs.update(k, (obs[k].0, ost));
        assert forall|a: int, m: int| 0 <= a < seats.len() && 0 <= m < u.len() implies holder(#[trigger] seats[a])
            != Some((#[trigger] u[m]).0) by {
            assert(holder(seats[a]) != Some(obs[m].0));
        }
    }
    if 0 <= k < obs.len() {
        let r = obs.remove(k);
        assert forall|a: int, m: int| 0 <= a < seats.len() && 0 <= m < r.len() implies holder(#[trigger] seats[a])
            != Some((#[trigger] r[m]).0) by {
            let om = if m < k { m } else { m + 1 };
            assert(r[m] == obs[om]);
            assert(holder(seats[a]) != Some(obs[om].0));
        }
        assert forall|m: int| 0 <= m < r.len() implies (#[trigger] r[m]).1.player.id == r[m].0 by {
            let om = if m < k { m } else { m + 1 };
            assert(r[m] == obs[om]);
        }
    }
    if (forall|j: int| 0 <= j < seats.len() ==> holder(#[trigger] seats[j]) != Some(id)) && (forall|j: int|
        0 <= j < obs.len() ==> (#[trigger] obs[j]).0 != id) && ost.player.id == id {
        let p = obs.push((id, ost));
        assert forall|a: int, m: int| 0 <= a < seats.len() && 0 <= m < p.len() implies holder(#[trigger] seats[a])
            != Some((#[trigger] p[m]).0) by {
            if m < obs.len() {
                assert(p[m] == obs[m]);
                assert(holder(seats[a]) != Some(obs[m].0));
            }
        }
    }
}

/// Setting a seat (by name, or a new seat of that name) to a user who holds no seat and
/// has no observer entry keeps every user in one place at most.
pub proof fn lemma_one_place_seated(
    seats: Seq<(RoomPlayerPosition, SeatState)>,
    obs: Seq<(UserId, RoomObserverState)>,
    new: Seq<(RoomPlayerPosition, SeatState)>,
    name: Seq<char>,
    ps: RoomPlayerState,
)
    requires
        one_place_each(seats, obs),
        forall|j: int| 0 <= j < seats.len() ==> holder(#[trigger] seats[j]) != Some(ps.player.id),
        forall|j: int| 0 <= j < obs.len() ==> (#[trigger] obs[j]).0 != ps.player.id,
        seat_set(seats, new, name, SeatState::Occupied(ps)),
    ensures
        one_place_each(new, obs),
{
    let t = match named_seat(seats, name) {
        Some(j) => j,
        None => seats.len() as int,
    };
    assert(new.len() >= seats.len());
    assert(forall|a: int| 0 <= a < new.len() && a != t ==> #[trigger] new[a] == seats[a]) by {
        match named_seat(seats, name) {
            Some(j) => {},
            None => {
                assert forall|a: int| 0 <= a < new.len() && a != t implies #[trigger] new[a] == seats[a] by {
                    assert(new.drop_last()[a] == new[a]);
                }
            },
        }
    }
    assert(holder(new[t]) == Some(ps.player.id)) by {
        match named_seat(seats, name) {
            Some(j) => {},
            None => {},
        }
    }
    assert forall|a: int, b: int|
        0 <= a < new.len() && 0 <= b < new.len() && a != b && holder(new[a]) is Some implies holder(
            #[trigger] new[a],
        ) != holder(#[trigger] new[b]) by {
        if a != t && b != t {
            assert(holder(seats[a]) != holder(seats[b]));
        }
    }
    assert forall|a: int, m: int| 0 <= a < new.len() && 0 <= m < obs.len() implies holder(#[trigger] new[a]) != Some(
        (#[trigger] obs[m]).0,
    ) by {
        if a != t {
            assert(holder(seats[a]) != Some(obs[m].0));
        }
    }
}

/// The observers with the entry of `id` set to `st`, or with a new entry added at the end.
pub open spec fn observers_with(obs: Seq<(UserId, RoomObserverState)>, id: UserId, st: RoomObserverState) -> Seq<
    (UserId, RoomObserverState),
> {
    match observer_of(obs, id) {
        Some(k) => obs.update(k, (id, st)),
        None => obs.push((id, st)),
    }
}

/// Every taken seat's player is ready.
pub open spec fn all_ready(seats: Seq<(RoomPlayerPosition, SeatState)>) -> bool {
    forall|k: int| 0 <= k < seats.len() ==> ((#[trigger] seats[k]).1 matches SeatState::Occupied(ps) ==> ps.id_ready)
}

impl RoomPlayerState {
    /// A copy of the seated player.
    pub fn copy(&self) -> (r: RoomPlayerState)
        ensures
            r == *self,
    {
        RoomPlayerState { id_ready: self.id_ready, is_connected: self.is_connected, player: self.player.copy() }
    }
}

impl RoomObserverView {
    /// A copy of the view.
    pub fn copy(&self) -> (r: RoomObserverView)
        ensures
            match (r, *self) {
                (RoomObserverView::Position(a), RoomObserverView::Position(b)) => a@ == b@,
                (RoomObserverView::Player(a), RoomObserverView::Player(b)) => a == b,
                (RoomObserverView::Neutral, RoomObserverView::Neutral) => true,
                _ => false,
            },
    {
        match self {
            RoomObserverView::Position(p) => RoomObserverView::Position(p.copy()),
            RoomObserverView::Player(u) => RoomObserverView::Player(*u),
            RoomObserverView::Neutral => RoomObserverView::Neutral,
        }
    }
}

/// The first seat named like `pos`.
pub fn find_named(seats: &Vec<(RoomPlayerPosition, SeatState)>, pos: &RoomPlayerPosition) -> (r: Option<usize>)
    ensures
        match r {
            Some(i) => named_seat(seats@, pos@) == Some(i as int),
            None => named_seat(seats@, pos@) is None,
        },
{
    let n = seats.len();
    for i in 0..n
        invariant
            n == seats@.len(),
            forall|k: int| 0 <= k < i ==> (#[trigger] seats@[k]).0@ != pos@,
    {
        if seats[i].0.same(pos) {
            proof {
                assert(is_first_named(seats@, pos@, i as int));
                assert forall|k: int| is_first_named(seats@, pos@, k) implies k == i by {
                    if k < i {
                        assert(seats@[k].0@ != pos@);
                    }
                    if k > i {
                        assert(seats@[i as int].0@ != pos@);
                    }
                }
            }
            return Some(i);
        }
    }
    proof {
        assert forall|k: int| !is_first_named(seats@, pos@, k) by {
            if 0 <= k < n {
                assert(seats@[k].0@ != pos@);
            }
        }
    }
    None
}

/// The first seat taken by the user `id`.
pub fn find_user_seat(seats: &Vec<(RoomPlayerPosition, SeatState)>, id: &UserId) -> (r: Option<usize>)
    ensures
        match r {
            Some(i) => seat_of_user(seats@, *id) == Some(i as int),
            None => seat_of_user(seats@, *id) is None,
        },
{
    let n = seats.len();
    for i in 0..n
        invariant
            n == seats@.len(),
            forall|k: int| 0 <= k < i ==> !seat_held_by(#[trigger] seats@[k], *id),
    {
        let held = match &seats[i].1 {
            SeatState::Occupied(ps) => ps.player.id.same(id),
            SeatState::Vacant => false,
        };
        if held {
            proof {
                assert(is_first_seat_of(seats@, *id, i as int));
                assert forall|k: int| is_first_seat_of(seats@, *id, k) implies k == i by {
                    if k < i {
                        assert(!seat_held_by(seats@[k], *id));
                    }
                    if k > i {
                        assert(!seat_held_by(seats@[i as int], *id));
                    }
                }
            }
            return Some(i);
        }
    }
    proof {
        assert forall|k: int| !is_first_seat_of(seats@, *id, k) by {
            if 0 <= k < n {
                assert(!seat_held_by(seats@[k], *id));
            }
        }
    }
    None
}

/// The first observer entry of the user `id`.
pub fn find_observer(obs: &Vec<(UserId, RoomObserverState)>, id: &UserId) -> (r: Option<usize>)
    ensures
        match r {
            Some(i) => observer_of(obs@, *id) == Some(i as int),
            None => observer_of(obs@, *id) is None,
        },
{
    let n = obs.len();
    for i in 0..n
        invariant
            n == obs@.len(),
            forall|k: int| 0 <= k < i ==> (#[trigger] obs@[k]).0 != *id,
    {
        if obs[i].0.same(id) {
            proof {
                assert(is_first_observer(obs@, *id, i as int));
                assert forall|k: int| is_first_observer(obs@, *id, k) implies k == i by {
                    if k < i {
                        assert(obs@[k].0 != *id);
                    }
                    if k > i {
                        assert(obs@[i as int].0 != *id);
                    }
                }
            }
            return Some(i);
        }
    }
    proof {
        assert forall|k: int| !is_first_observer(obs@, *id, k) by {
            if 0 <= k < n {
                assert(obs@[k].0 != *id);
            }
        }
    }
    None
}

impl RoomState {
    /// A waiting room with no seats and no observers, since now.
    pub fn empty() -> (s: RoomState)
        ensures
            s.positions.mode == PositionMode::Fixed,
            s.positions.seats@.len() == 0,
            s.observers@.len() == 0,
            s.phase.kind == RoomPhaseKind::Waiting,
    {
        RoomState {
            positions: PositionState::empty(),
            observers: Vec::new(),
            phase: RoomPhase { kind: RoomPhaseKind::Waiting, since: now_millis() },
        }
    }

    /// A waiting room with the empty seats of a game's position spec, since now.
    pub fn empty_with_position_spec(position_spec: &PositionSpec) -> (s: RoomState)
        requires
            *position_spec matches PositionSpec::Flexible { min_players, max_players, .. }
                ==> min_players <= max_players,
        ensures
            seats_described(s.positions, *position_spec),
            s.observers@.len() == 0,
            s.phase.kind == RoomPhaseKind::Waiting,
    {
        RoomState {
            positions: PositionState::from_spec(position_spec),
            observers: Vec::new(),
            phase: RoomPhase { kind: RoomPhaseKind::Waiting, since: now_millis() },
        }
    }

    /// How many seats are taken.
    pub fn player_count(&self) -> (n: usize)
        ensures
            n == occupied_in(self.positions.seats@),
    {
        self.positions.occupied_count()
    }

    /// The seat of the user, if the user sits.
    pub fn find_player_position(&self, user_id: &UserId) -> (r: Option<RoomPlayerPosition>)
        ensures
            match seat_of_user(self.positions.seats@, *user_id) {
                Some(i) => r matches Some(p) && p@ == self.positions.seats@[i].0@,
                None => r is None,
            },
    {
        match find_user_seat(&self.positions.seats, user_id) {
            Some(i) => Some(self.positions.seats[i].0.copy()),
            None => None,
        }
    }

    /// The player at the seat, if the seat exists and is taken.
    pub fn get_player_state(&self, position: &RoomPlayerPosition) -> (r: Option<&RoomPlayerState>)
        ensures
            match player_at(self.positions.seats@, position@) {
                Some(ps) => r == Some(&ps),
                None => r is None,
            },
    {
        match find_named(&self.positions.seats, position) {
            Some(i) => match &self.positions.seats[i].1 {
                SeatState::Occupied(ps) => Some(ps),
                SeatState::Vacant => None,
            },
            None => None,
        }
    }

    /// Seats the player at the seat, taking its place if taken; a seat of that name is
    /// added when there is none.
    pub fn set_player_state(&mut self, position: RoomPlayerPosition, player_state: RoomPlayerState)
        ensures
            seat_set(
                old(self).positions.seats@,
                final(self).positions.seats@,
                position@,
                SeatState::Occupied(player_state),
            ),
            final(self).positions.mode == old(self).positions.mode,
            final(self).observers@ == old(self).observers@,
            final(self).phase == old(self).phase,
    {
        match find_named(&self.positions.seats, &position) {
            Some(i) => {
                self.positions.seats[i].1 = SeatState::Occupied(player_state);
            },
            None => {
                self.positions.seats.push((position, SeatState::Occupied(player_state)));
            },
        }
        proof {
            let s = old(self).positions.seats@;
            match named_seat(s, position@) {
                Some(i) => {
                    assert(self.positions.seats@ =~= s.update(i, (s[i].0, SeatState::Occupied(player_state))));
                },
                None => {
                    assert(self.positions.seats@.drop_last() =~= s);
                },
            }
        }
    }

    /// Empties the seat and returns who sat there; None when the seat does not exist or
    /// is empty.
    pub fn clear_position(&mut self, position: &RoomPlayerPosition) -> (r: Option<RoomPlayerState>)
        ensures
            r == player_at(old(self).positions.seats@, position@),
            final(self).positions.seats@ == match named_seat(old(self).positions.seats@, position@) {
                Some(i) => old(self).positions.seats@.update(i, (old(self).positions.seats@[i].0, SeatState::Vacant)),
                None => old(self).positions.seats@,
            },
            final(self).positions.mode == old(self).positions.mode,
            final(self).observers@ == old(self).observers@,
            final(self).phase == old(self).phase,
    {
        match find_named(&self.positions.seats, position) {
            Some(i) => {
                let prev = match &self.positions.seats[i].1 {
                    SeatState::Occupied(ps) => Some(ps.copy()),
                    SeatState::Vacant => None,
                };
                self.positions.seats[i].1 = SeatState::Vacant;
                proof {
                    let s = old(self).positions.seats@;
                    assert(self.positions.seats@ =~= s.update(i as int, (s[i as int].0, SeatState::Vacant)));
                }
                prev
            },
            None => None,
        }
    }

    /// The taken seats and their players, in seat order.
    pub fn players(&self) -> (v: Vec<(RoomPlayerPosition, RoomPlayerState)>)
        ensures
            forall|k: int| 0 <= k < v@.len() ==> exists|i: int|
                0 <= i < self.positions.seats@.len() && (#[trigger] v@[k]).0@ == self.positions.seats@[i].0@
                    && self.positions.seats@[i].1 == SeatState::Occupied(v@[k].1),
            v@.len() == occupied_in(self.positions.seats@),
    {
        let mut v: Vec<(RoomPlayerPosition, RoomPlayerState)> = Vec::new();
        let n = self.positions.seats.len();
        for i in 0..n
            invariant
                n == self.positions.seats@.len(),
                v@.len() == occupied_in(self.positions.seats@.take(i as int)),
                forall|k: int| 0 <= k < v@.len() ==> exists|j: int|
                    0 <= j < n && (#[trigger] v@[k]).0@ == self.positions.seats@[j].0@
                        && self.positions.seats@[j].1 == SeatState::Occupied(v@[k].1),
        {
            assert(self.positions.seats@.take(i + 1).drop_last() =~= self.positions.seats@.take(i as int));
            match &self.positions.seats[i].1 {
                SeatState::Occupied(ps) => {
                    let ghost old_v = v@;
                    v.push((self.positions.seats[i].0.copy(), ps.copy()));
                    proof {
                        assert forall|k: int| 0 <= k < v@.len() implies exists|j: int|
                            0 <= j < n && (#[trigger] v@[k]).0@ == self.positions.seats@[j].0@
                                && self.positions.seats@[j].1 == SeatState::Occupied(v@[k].1) by {
                            if k < old_v.len() {
                                assert(v@[k] == old_v[k]);
                            } else {
                                assert(v@[k].0@ == self.positions.seats@[i as int].0@);
                            }
                        }
                    }
                },
                SeatState::Vacant => {},
            }
        }
        assert(self.positions.seats@.take(n as int) =~= self.positions.seats@);
        v
    }

    /// Whether every seated player is ready.
    pub fn all_players_ready(&self) -> (r: bool)
        ensures
            r == all_ready(self.positions.seats@),
    {
        let n = self.positions.seats.len();
        for i in 0..n
            invariant
                n == self.positions.seats@.len(),
                forall|k: int| 0 <= k < i ==> ((#[trigger] self.positions.seats@[k]).1 matches SeatState::Occupied(ps) ==> ps.id_ready),
        {
            if let SeatState::Occupied(ps) = &self.positions.seats[i].1 {
                if !ps.id_ready {
                    return false;
                }
            }
        }
        true
    }
}

impl Room {
    /// A waiting room without seats.
    pub fn new(info: RoomInfo) -> (r: Room)
        ensures
            r.info == info,
            r.state.positions.seats@.len() == 0,
            r.state.observers@.len() == 0,
            r.state.phase.kind == RoomPhaseKind::Waiting,
    {
        Room { info, state: RoomState::empty() }
    }

    /// A waiting room with the empty seats of a game's position spec.
    pub fn new_with_position_spec(info: RoomInfo, position_spec: &PositionSpec) -> (r: Room)
        requires
            *position_spec matches PositionSpec::Flexible { min_players, max_players, .. }
                ==> min_players <= max_players,
        ensures
            r.info == info,
            seats_described(r.state.positions, *position_spec),
            r.state.observers@.len() == 0,
            r.state.phase.kind == RoomPhaseKind::Waiting,
    {
        Room { info, state: RoomState::empty_with_position_spec(position_spec) }
    }

    /// Takes the user out of the room: an observer is removed, a seated player's seat is
    /// emptied. Returns the user, or None when the user is not in the room.
    pub fn remove_player(&mut self, player_id: &UserId) -> (r: Option<User>)
        ensures
            removed_from(*old(self), *final(self), *player_id, r),
    {
        match find_observer(&self.state.observers, player_id) {
            Some(k) => {
                let (_, obs) = self.state.observers.remove(k);
                return Some(obs.player);
            },
            None => {},
        }
        match find_user_seat(&self.state.positions.seats, player_id) {
            Some(i) => {
                let prev = match &self.state.positions.seats[i].1 {
                    SeatState::Occupied(ps) => ps.player.copy(),
                    SeatState::Vacant => {
                        proof {
                            assert(false);
                        }
                        return None;
                    },
                };
                self.state.positions.seats[i].1 = SeatState::Vacant;
                proof {
                    let s = old(self).state.positions.seats@;
                    assert(self.state.positions.seats@ =~= s.update(i as int, (s[i as int].0, SeatState::Vacant)));
                }
                Some(prev)
            },
            None => None,
        }
    }
}

/// `new` is `old` with the user `id` taken out, and `r` the user taken out: an observer
/// entry is removed first; else the user's first seat is emptied; else nothing changes.
pub open spec fn removed_from(old: Room, new: Room, id: UserId, r: Option<User>) -> bool {
    &&& new.info == old.info
    &&& new.state.phase == old.state.phase
    &&& new.state.positions.mode == old.state.positions.mode
    &&& match observer_of(old.state.observers@, id) {
        Some(k) => {
            &&& r == Some(old.state.observers@[k].1.player)
            &&& new.state.observers@ == old.state.observers@.remove(k)
            &&& new.state.positions.seats@ == old.state.positions.seats@
        },
        None => {
            &&& new.state.observers@ == old.state.observers@
            &&& match seat_of_user(old.state.positions.seats@, id) {
                Some(i) => {
                    let s = old.state.positions.seats@;
                    &&& r == Some(s[i].1->Occupied_0.player)
                    &&& new.state.positions.seats@ == s.update(i, (s[i].0, SeatState::Vacant))
                },
                None => r is None && new.state.positions.seats@ == old.state.positions.seats@,
            }
        },
    }
}

/// The room a game runs in, as the game sees it.
#[derive(Debug, Clone)]
pub struct RoomContext {
    pub room: Room,
}

impl RoomContext {
    pub fn new(room: Room) -> (c: RoomContext)
        ensures
            c.room == room,
    {
        RoomContext { room }
    }

    /// The room's description.
    pub fn get_room_info(&self) -> (i: &RoomInfo)
        ensures
            *i == self.room.info,
    {
        &self.room.info
    }

    /// The room's seats, observers and phase.
    pub fn get_room_state(&self) -> (s: &RoomState)
        ensures
            *s == self.room.state,
    {
        &self.room.state
    }
}

} // verus!

verus! {

/// Text `a` comes before text `b`: compared character by character by code point, a
/// proper prefix first. This is the order of `str`, whose UTF-8 bytes keep code point order.
pub open spec fn name_lt(a: Seq<char>, b: Seq<char>) -> bool
    decreases a.len(),
{
    if a.len() == 0 {
        b.len() > 0
    } else if b.len() == 0 {
        false
    } else if (a[0] as u32) < (b[0] as u32) {
        true
    } else if (a[0] as u32) > (b[0] as u32) {
        false
    } else {
        name_lt(a.drop_first(), b.drop_first())
    }
}

/// The taken seats, as (seat name, player) in seat order.
pub open spec fn taken(seats: Seq<(RoomPlayerPosition, SeatState)>) -> Seq<(Seq<char>, User)>
    decreases seats.len(),
{
    if seats.len() == 0 {
        seq![]
    } else {
        taken(seats.drop_last()) + match seats.last().1 {
            SeatState::Occupied(ps) => seq![(seats.last().0@, ps.player)],
            SeatState::Vacant => seq![],
        }
    }
}

/// `x` put into `s` before the first entry whose seat comes after its own.
pub open spec fn insert_by_seat(s: Seq<(Seq<char>, User)>, x: (Seq<char>, User)) -> Seq<(Seq<char>, User)>
    decreases s.len(),
{
    if s.len() == 0 {
        seq![x]
    } else if seat_lt(x.0, s[0].0) {
        seq![x] + s
    } else {
        seq![s[0]] + insert_by_seat(s.drop_first(), x)
    }
}

/// `s` sorted by seat (see `seat_lt`), stably: entries of the same seat keep their order.
pub open spec fn sort_by_seat(s: Seq<(Seq<char>, User)>) -> Seq<(Seq<char>, User)>
    decreases s.len(),
{
    if s.len() == 0 {
        seq![]
    } else {
        insert_by_seat(sort_by_seat(s.drop_last()), s.last())
    }
}

proof fn lemma_insert_by_seat_at(s: Seq<(Seq<char>, User)>, x: (Seq<char>, User), p: int)
    requires
        0 <= p <= s.len(),
        forall|q: int| 0 <= q < p ==> !seat_lt(x.0, (#[trigger] s[q]).0),
        p < s.len() ==> seat_lt(x.0, s[p].0),
    ensures
        insert_by_seat(s, x) == s.insert(p, x),
    decreases s.len(),
{
    if s.len() == 0 {
        assert(s.insert(p, x) =~= seq![x]);
    } else if p == 0 {
        assert(s.insert(p, x) =~= seq![x] + s);
    } else {
        let t = s.drop_first();
        assert forall|q: int| 0 <= q < p - 1 implies !seat_lt(x.0, (#[trigger] t[q]).0) by {
            assert(t[q] == s[q + 1]);
        }
        lemma_insert_by_seat_at(t, x, p - 1);
        assert(seq![s[0]] + t.insert(p - 1, x) =~= s.insert(p, x));
    }
}

/// Whether text `a` comes before text `b`.
pub fn name_less(a: &str, b: &str) -> (r: bool)
    ensures
        r == name_lt(a@, b@),
{
    let la = a.unicode_len();
    let lb = b.unicode_len();
    let mut i: usize = 0;
    assert(a@.skip(0) =~= a@);
    assert(b@.skip(0) =~= b@);
    while i < la && i < lb
        invariant
            la == a@.len(),
            lb == b@.len(),
            i <= la,
            i <= lb,
            name_lt(a@, b@) == name_lt(a@.skip(i as int), b@.skip(i as int)),
        decreases la - i,
    {
        let ca = a.get_char(i);
        let cb = b.get_char(i);
        assert(a@.skip(i as int)[0] == ca && b@.skip(i as int)[0] == cb);
        if (ca as u32) < (cb as u32) {
            return true;
        }
        if (ca as u32) > (cb as u32) {
            return false;
        }
        assert(a@.skip(i as int).drop_first() =~= a@.skip(i + 1));
        assert(b@.skip(i as int).drop_first() =~= b@.skip(i + 1));
        i = i + 1;
    }
    i == la && i < lb
}

/// A decimal digit.
pub open spec fn is_digit(c: char) -> bool {
    '0' <= c && c <= '9'
}

/// The value of a decimal digit (0 for any other character).
pub open spec fn digit_value(c: char) -> nat {
    if is_digit(c) {
        (c as u32 - '0' as u32) as nat
    } else {
        0
    }
}

/// The number that the digits of `s` spell, the last digit the units.
pub open spec fn digits_value(s: Seq<char>) -> nat
    decreases s.len(),
{
    if s.len() == 0 {
        0
    } else {
        digits_value(s.drop_last()) * 10 + digit_value(s.last())
    }
}

/// The number a seat name spells: a name of decimal digits only, whose value fits in a
/// `u64`.
pub open spec fn seat_number(s: Seq<char>) -> Option<nat> {
    if s.len() > 0 && (forall|i: int| 0 <= i < s.len() ==> is_digit(#[trigger] s[i])) && digits_value(s)
        <= u64::MAX {
        Some(digits_value(s))
    } else {
        None
    }
}

/// The order of seats: numbered seats by their number (0, 1, 2, ..., 10, ...), then the
/// seats whose names are not numbers; seats of the same number, and seats without a
/// number, by their names as text.
pub open spec fn seat_lt(a: Seq<char>, b: Seq<char>) -> bool {
    match (seat_number(a), seat_number(b)) {
        (Some(x), Some(y)) => x < y || (x == y && name_lt(a, b)),
        (Some(_), None) => true,
        (None, Some(_)) => false,
        (None, None) => name_lt(a, b),
    }
}

/// A digit string's value grows as digits are added to it.
proof fn lemma_prefix_value_le(s: Seq<char>, j: int)
    requires
        0 <= j <= s.len(),
    ensures
        digits_value(s.take(j)) <= digits_value(s),
    decreases s.len(),
{
    if j < s.len() {
        lemma_prefix_value_le(s.drop_last(), j);
        assert(s.drop_last().take(j) =~= s.take(j));
    } else {
        assert(s.take(j) =~= s);
    }
}

/// The number a seat name spells, if it is one.
pub fn seat_number_of(s: &str) -> (r: Option<u64>)
    ensures
        match r {
            Some(v) => seat_number(s@) == Some(v as nat),
            None => seat_number(s@) is None,
        },
{
    let n = s.unicode_len();
    if n == 0 {
        return None;
    }
    let mut v: u128 = 0;
    let mut i: usize = 0;
    assert(s@.take(0) =~= Seq::<char>::empty());
    while i < n
        invariant
            n == s@.len(),
            i <= n,
            v == digits_value(s@.take(i as int)),
            v <= u64::MAX,
            forall|k: int| 0 <= k < i ==> is_digit(#[trigger] s@[k]),
        decreases n - i,
    {
        let c = s.get_char(i);
        if !('0' <= c && c <= '9') {
            assert(!is_digit(s@[i as int]));
            return None;
        }
        let d = ((c as u32) - ('0' as u32)) as u128;
        assert(s@.take(i + 1).drop_last() =~= s@.take(i as int));
        assert(s@.take(i + 1).last() == c);
        v = v * 10 + d;
        if v > 0xffff_ffff_ffff_ffffu128 {
            proof {
                lemma_prefix_value_le(s@, i + 1);
            }
            return None;
        }
        i = i + 1;
    }
    assert(s@.take(n as int) =~= s@);
    Some(v as u64)
}

/// Whether seat `a` comes before seat `b` (see `seat_lt`).
pub fn seat_less(a: &str, b: &str) -> (r: bool)
    ensures
        r == seat_lt(a@, b@),
{
    match (seat_number_of(a), seat_number_of(b)) {
        (Some(x), Some(y)) => x < y || (x == y && name_less(a, b)),
        (Some(_), None) => true,
        (None, Some(_)) => false,
        (None, None) => name_less(a, b),
    }
}

impl RoomContext {
    /// The users in the taken seats, ordered by seat position: 0, 1, 2, ... (see `seat_lt`).
    pub fn get_ordered_players(&self) -> (v: Vec<User>)
        ensures
            v@ == sort_by_seat(taken(self.room.state.positions.seats@)).map_values(
                |e: (Seq<char>, User)| e.1,
            ),
    {
        let seats = &self.room.state.positions.seats;
        let n = seats.len();
        let mut names: Vec<String> = Vec::new();
        let mut users: Vec<User> = Vec::new();
        for i in 0..n
            invariant
                n == seats@.len(),
                names@.len() == users@.len(),
                Seq::new(names@.len(), |k: int| (names@[k]@, users@[k])) == sort_by_seat(
                    taken(seats@.take(i as int)),
                ),
        {
            let ghost s_old = Seq::new(names@.len(), |k: int| (names@[k]@, users@[k]));
            assert(seats@.take(i + 1).drop_last() =~= seats@.take(i as int));
            match &seats[i].1 {
                SeatState::Occupied(ps) => {
                    let key = seats[i].0.as_str();
                    let ghost x = (seats@[i as int].0@, ps.player);
                    let m = names.len();
                    let mut j: usize = 0;
                    let mut found = false;
                    while j < m && !found
                        invariant
                            m == names@.len(),
                            m == users@.len(),
                            j <= m,
                            key@ == x.0,
                            forall|q: int| 0 <= q < j ==> !seat_lt(x.0, (#[trigger] names@[q])@),
                            found ==> j < m && seat_lt(x.0, names@[j as int]@),
                        decreases m - j + if found { 0int } else { 1int },
                    {
                        if seat_less(key, names[j].as_str()) {
                            found = true;
                        } else {
                            j = j + 1;
                        }
                    }
                    proof {
                        assert forall|q: int| 0 <= q < j implies !seat_lt(x.0, (#[trigger] s_old[q]).0) by {
                            assert(s_old[q].0 == names@[q]@);
                        }
                        if j < m {
                            assert(s_old[j as int].0 == names@[j as int]@);
                        }
                        lemma_insert_by_seat_at(s_old, x, j as int);
                        assert(seats@.take(i + 1).last() == seats@[i as int]);
                        assert(taken(seats@.take(i + 1)) =~= taken(seats@.take(i as int)).push(x));
                        let t = taken(seats@.take(i as int));
                        assert(t.push(x).drop_last() =~= t);
                        assert(sort_by_seat(t.push(x)) == insert_by_seat(sort_by_seat(t), x));
                    }
                    names.insert(j, String::from_str(key));
                    users.insert(j, ps.player.copy());
                    proof {
                        assert(Seq::new(names@.len(), |k: int| (names@[k]@, users@[k])) =~= s_old.insert(j as int, x));
                    }
                },
                SeatState::Vacant => {
                    assert(seats@.take(i + 1).last() == seats@[i as int]);
                    assert(taken(seats@.take(i + 1)) =~= taken(seats@.take(i as int)));
                },
            }
        }
        proof {
            assert(seats@.take(n as int) =~= seats@);
            let s = Seq::new(names@.len(), |k: int| (names@[k]@, users@[k]));
            assert(users@ =~= s.map_values(|e: (Seq<char>, User)| e.1));
        }
        users
    }
}

} // verus!
