//! The room's side of a session: what a user's room action changes in the room and what
//! the room then has to do, what the commands of a game ask of it, and who is sent which
//! view of the game.

use vstd::prelude::*;
use crate::basic::game::{GameCommand, GameEvent, Id, Interval, SequencedGameUpdate, TimeExpired};
use crate::basic::message::{TypedData, same_typed};
use crate::basic::room::{
    Room, RoomEvent, RoomObserverState, RoomObserverView, RoomPhase, RoomPhaseKind, RoomPlayerPosition,
    RoomPlayerState, RoomUserPosition, RoomView, SeatState, UserActionEvent, all_ready, distinct_observers,
    find_named, is_first_observer, lemma_distinct_observers_kept, distinct_seats, lemma_distinct_seats_kept,
    is_first_seat_of, is_first_named,
    find_observer, find_user_seat, named_seat, now_millis, observer_of, occupied_in, player_at,
    observers_with, removed_from, seat_of_user, seat_set, holder, one_place_each, lemma_no_seat_of_user,
    lemma_no_observer_entry, lemma_one_place_seat_of_user, lemma_one_place_kept, lemma_one_place_seated,
};
use crate::basic::user::{
    Action, ActionData, ActionSource, AddBot, Chat, JoinRoom, PositionChange, RoomActionData, RoomManage, User, UserId,
};

verus! {

/// What reaches the room's loop: an action of a user, or a game timer or interval.
#[derive(Debug, Clone)]
pub enum ServiceEvent {
    Action(Action),
    TimerExpired(Id),
    Interval(Id),
}

/// Where the room's loop sends an event.
#[derive(Debug, Clone)]
pub enum Routed {
    /// A room action, from this user if a user sent it.
    Room(Option<UserId>, RoomActionData),
    /// An event for the game, with its sequence number.
    Game(SequencedGameUpdate),
    /// Dropped: a move in the game while the room waits.
    Dropped,
}

/// The user who sent an action, if a user did.
pub open spec fn sender(s: ActionSource) -> Option<UserId> {
    match s {
        ActionSource::User(u) => Some(u),
        ActionSource::System => None,
    }
}

/// Routes an event: room actions to the room; moves to the game, numbered by the
/// version they were made on, except while the room waits, when they are dropped; timers
/// and intervals to the game, numbered 0.
pub fn route_event(phase: RoomPhaseKind, event: ServiceEvent) -> (r: Routed)
    ensures
        match event {
            ServiceEvent::Action(a) => match a.data {
                ActionData::RoomAction(ra) => r == Routed::Room(sender(a.source), ra),
                ActionData::GameAction(g) => if phase == RoomPhaseKind::Waiting {
                    r is Dropped
                } else {
                    r == Routed::Game(SequencedGameUpdate { event: GameEvent::Action(a), seq: g.ref_version })
                },
            },
            ServiceEvent::TimerExpired(id) => r == Routed::Game(
                SequencedGameUpdate { event: GameEvent::TimerExpired(TimeExpired { timer_id: id }), seq: 0 },
            ),
            ServiceEvent::Interval(id) => r == Routed::Game(
                SequencedGameUpdate { event: GameEvent::Interval(Interval { interval_id: id }), seq: 0 },
            ),
        },
{
    match event {
        ServiceEvent::Action(a) => {
            let source = match &a.source {
                ActionSource::User(u) => Some(*u),
                ActionSource::System => None,
            };
            match a.data {
                ActionData::RoomAction(ra) => Routed::Room(source, ra),
                ActionData::GameAction(g) => {
                    if phase == RoomPhaseKind::Waiting {
                        Routed::Dropped
                    } else {
                        let seq = g.ref_version;
                        Routed::Game(SequencedGameUpdate {
                            event: GameEvent::Action(Action { source: a.source, data: ActionData::GameAction(g) }),
                            seq,
                        })
                    }
                },
            }
        },
        ServiceEvent::TimerExpired(id) => Routed::Game(
            SequencedGameUpdate { event: GameEvent::TimerExpired(TimeExpired { timer_id: id }), seq: 0 },
        ),
        ServiceEvent::Interval(id) => Routed::Game(
            SequencedGameUpdate { event: GameEvent::Interval(Interval { interval_id: id }), seq: 0 },
        ),
    }
}

/// What the room has to do after a room action changed it.
#[derive(Debug, Clone)]
pub enum RoomEffect {
    /// Send the room, as it now is, with this event to everyone.
    Broadcast(RoomEvent),
    /// Send the user the current view of the game, if a game is on.
    SendGameView(UserId),
    /// Hand the configuration to the game; if the game takes it, broadcast it.
    ApplyGameConfig(TypedData),
    /// Have a bot made, seat it (ready and connected), connect it, and broadcast its
    /// arrival; if it cannot be connected, empty the seat again.
    CreateBot(AddBot),
    /// Start the game.
    StartGame,
}

/// `new` is `old` with the seats `seats` and the observers `obs`.
pub open spec fn room_is(
    new: Room,
    old: Room,
    seats: Seq<(RoomPlayerPosition, SeatState)>,
    obs: Seq<(UserId, RoomObserverState)>,
) -> bool {
    &&& new.info == old.info
    &&& new.state.phase == old.state.phase
    &&& new.state.positions.mode == old.state.positions.mode
    &&& new.state.positions.seats@ == seats
    &&& new.state.observers@ == obs
}

/// Nothing changed and nothing is to be done.
pub open spec fn no_change(old: Room, new: Room, eff: Seq<RoomEffect>) -> bool {
    new == old && eff.len() == 0
}

/// The player at seat `i` (which is taken).
pub open spec fn seated(s: Seq<(RoomPlayerPosition, SeatState)>, i: int) -> RoomPlayerState {
    s[i].1->Occupied_0
}

/// Seat `i` with the player `ps`.
pub open spec fn with_player(
    s: Seq<(RoomPlayerPosition, SeatState)>,
    i: int,
    ps: RoomPlayerState,
) -> Seq<(RoomPlayerPosition, SeatState)> {
    s.update(i, (s[i].0, SeatState::Occupied(ps)))
}

/// Seat `i` emptied.
pub open spec fn emptied(s: Seq<(RoomPlayerPosition, SeatState)>, i: int) -> Seq<(RoomPlayerPosition, SeatState)> {
    s.update(i, (s[i].0, SeatState::Vacant))
}

/// Two observer views that look at the same thing.
pub open spec fn same_view(a: RoomObserverView, b: RoomObserverView) -> bool {
    match (a, b) {
        (RoomObserverView::Position(x), RoomObserverView::Position(y)) => x@ == y@,
        (RoomObserverView::Player(x), RoomObserverView::Player(y)) => x == y,
        (RoomObserverView::Neutral, RoomObserverView::Neutral) => true,
        _ => false,
    }
}

/// The user is marked connected: at the user's first seat, else at the user's observer
/// entry; nothing changes when the user is not in the room.
pub open spec fn reconnected(old: Room, new: Room, id: UserId) -> bool {
    let s = old.state.positions.seats@;
    let o = old.state.observers@;
    match seat_of_user(s, id) {
        Some(i) => room_is(new, old, with_player(s, i, RoomPlayerState { is_connected: true, ..seated(s, i) }), o),
        None => match observer_of(o, id) {
            Some(k) => room_is(new, old, s, o.update(k, (o[k].0, RoomObserverState { is_connected: true, ..o[k].1 }))),
            None => new == old,
        },
    }
}

/// The event of `id` doing something without a payload.
pub open spec fn user_event(id: UserId) -> UserActionEvent<()> {
    UserActionEvent { user_id: id, data: () }
}

/// A join: a user not yet in the room becomes a connected observer with the neutral view
/// under the given nickname; a user already in the room is marked connected and sent the
/// game's current view.
pub open spec fn join_done(old: Room, new: Room, id: UserId, join: JoinRoom, eff: Seq<RoomEffect>) -> bool {
    let s = old.state.positions.seats@;
    let o = old.state.observers@;
    if seat_of_user(s, id) is None && observer_of(o, id) is None {
        &&& room_is(new, old, s, o.push((id, RoomObserverState {
            is_connected: true,
            view: RoomObserverView::Neutral,
            player: User { nickname: join.nickname, id, avatar_url: None, is_bot: false },
        })))
        &&& eff == seq![RoomEffect::Broadcast(RoomEvent::UserJoin(user_event(id)))]
    } else {
        &&& reconnected(old, new, id)
        &&& eff == seq![
            RoomEffect::Broadcast(RoomEvent::UserReconnected(user_event(id))),
            RoomEffect::SendGameView(id),
        ]
    }
}

/// The user `id` is where `from` says.
pub open spec fn at_position(old: Room, id: UserId, from: RoomUserPosition) -> bool {
    match from {
        RoomUserPosition::Observer(_) => observer_of(old.state.observers@, id) is Some,
        RoomUserPosition::Player(pos) => player_at(old.state.positions.seats@, pos@) matches Some(ps)
            && ps.player.id == id,
    }
}

/// A move of the user `id`: an observer sits at an empty seat (not ready), a player stands
/// up to watch, or a player moves to an empty seat; then the move is broadcast. A move from
/// somewhere the user is not, to a taken seat, or between two ways of watching changes
/// nothing.
pub open spec fn position_change_done(old: Room, new: Room, id: UserId, change: PositionChange, eff: Seq<RoomEffect>) -> bool {
    let s = old.state.positions.seats@;
    let o = old.state.observers@;
    let moved = eff == seq![RoomEffect::Broadcast(RoomEvent::UserChangePosition(UserActionEvent { user_id: id, data: change }))];
    if !at_position(old, id, change.from) {
        no_change(old, new, eff)
    } else {
        match change.from {
            RoomUserPosition::Observer(_) => match change.to {
                RoomUserPosition::Player(target) => if player_at(s, target@) is Some {
                    no_change(old, new, eff)
                } else {
                    let k = observer_of(o, id)->0;
                    &&& new.info == old.info
                    &&& new.state.phase == old.state.phase
                    &&& new.state.positions.mode == old.state.positions.mode
                    &&& new.state.observers@ == o.remove(k)
                    &&& seat_set(s, new.state.positions.seats@, target@, SeatState::Occupied(RoomPlayerState {
                        id_ready: false,
                        is_connected: o[k].1.is_connected,
                        player: o[k].1.player,
                    }))
                    &&& moved
                },
                RoomUserPosition::Observer(_) => no_change(old, new, eff),
            },
            RoomUserPosition::Player(from) => {
                let i = named_seat(s, from@)->0;
                let ps = seated(s, i);
                match change.to {
                    RoomUserPosition::Observer(view) => {
                        &&& exists|st: RoomObserverState|
                            st.is_connected == ps.is_connected && st.player == ps.player && same_view(st.view, view)
                                && room_is(new, old, emptied(s, i), observers_with(o, id, st))
                        &&& moved
                    },
                    RoomUserPosition::Player(target) => if player_at(s, target@) is Some {
                        no_change(old, new, eff)
                    } else {
                        &&& new.info == old.info
                        &&& new.state.phase == old.state.phase
                        &&& new.state.positions.mode == old.state.positions.mode
                        &&& new.state.observers@ == o
                        &&& seat_set(emptied(s, i), new.state.positions.seats@, target@, SeatState::Occupied(ps))
                        &&& moved
                    },
                }
            },
        }
    }
}

/// A user leaves. In a game a seated player stays seated, marked disconnected, and an
/// observer is removed; between games the user is taken out of the room. A leave that
/// changed something is broadcast.
pub open spec fn leave_done(old: Room, new: Room, id: UserId, eff: Seq<RoomEffect>) -> bool {
    let s = old.state.positions.seats@;
    let o = old.state.observers@;
    let left = eff == seq![RoomEffect::Broadcast(RoomEvent::UserLeave(user_event(id)))];
    if old.state.phase.kind == RoomPhaseKind::Gaming {
        match seat_of_user(s, id) {
            Some(i) => room_is(new, old, with_player(s, i, RoomPlayerState { is_connected: false, ..seated(s, i) }), o) && left,
            None => match observer_of(o, id) {
                Some(k) => room_is(new, old, s, o.remove(k)) && left,
                None => no_change(old, new, eff),
            },
        }
    } else {
        exists|r: Option<User>| removed_from(old, new, id, r) && (if r is Some { left } else { eff.len() == 0 })
    }
}

/// What the owner's request does: kick a user out (broadcast when the user was in the
/// room), record a game configuration and hand it to the game, have a bot made for an
/// empty seat when bots can be made, or start the game when three seats or more are
/// taken and every seated player is ready (the room then plays).
pub open spec fn manage_done(old: Room, new: Room, id: UserId, m: RoomManage, has_bot_factory: bool, eff: Seq<RoomEffect>) -> bool {
    let s = old.state.positions.seats@;
    match m {
        RoomManage::KickOut(kick) => exists|r: Option<User>|
            removed_from(old, new, kick.player, r) && (if r is Some {
                eff == seq![RoomEffect::Broadcast(RoomEvent::UserKickedOut(user_event(kick.player)))]
            } else {
                eff.len() == 0
            }),
        RoomManage::SetGameConfig(config) => {
            &&& new.state == old.state
            &&& new.info.game_config matches Some(c) && same_typed(c, config)
            &&& new.info == (crate::basic::room::RoomInfo { game_config: new.info.game_config, ..old.info })
            &&& eff == seq![RoomEffect::ApplyGameConfig(config)]
        },
        RoomManage::AddBot(add) => if player_at(s, add.position@) is Some || !has_bot_factory {
            no_change(old, new, eff)
        } else {
            new == old && eff == seq![RoomEffect::CreateBot(add)]
        },
        RoomManage::SetRoomConfig => no_change(old, new, eff),
        RoomManage::StartGame => if occupied_in(s) < 3 || !all_ready(s) {
            no_change(old, new, eff)
        } else {
            &&& new.info == old.info
            &&& new.state.positions == old.state.positions
            &&& new.state.observers == old.state.observers
            &&& new.state.phase.kind == RoomPhaseKind::Gaming
            &&& eff == seq![RoomEffect::StartGame]
        },
    }
}

/// The actions that wait for the end of a game: moving, changing readiness, and the
/// owner's kicking out, adding bots, and starting.
pub open spec fn refused_in_game(action: RoomActionData) -> bool {
    match action {
        RoomActionData::PositionChange(_) | RoomActionData::ChangeReadyState(_) => true,
        RoomActionData::RoomManage(m) => m is StartGame || m is AddBot || m is KickOut,
        _ => false,
    }
}

/// What a room action of the user `source` does to the room, and what the room then has
/// to do.
pub open spec fn room_action_done(
    old: Room,
    new: Room,
    source: Option<UserId>,
    action: RoomActionData,
    has_bot_factory: bool,
    eff: Seq<RoomEffect>,
) -> bool {
    match source {
        None => no_change(old, new, eff),
        Some(id) => if old.state.phase.kind == RoomPhaseKind::Gaming && refused_in_game(action) {
            no_change(old, new, eff)
        } else {
            let s = old.state.positions.seats@;
            match action {
                RoomActionData::Join(join) => join_done(old, new, id, join, eff),
                RoomActionData::Chat(chat) => new == old && eff == seq![
                    RoomEffect::Broadcast(RoomEvent::UserChat(UserActionEvent { user_id: id, data: chat })),
                ],
                RoomActionData::ChangeReadyState(change) => match seat_of_user(s, id) {
                    Some(i) => {
                        &&& room_is(new, old, with_player(s, i, RoomPlayerState { id_ready: change.is_ready, ..seated(s, i) }), old.state.observers@)
                        &&& eff == seq![RoomEffect::Broadcast(RoomEvent::UserReady(UserActionEvent { user_id: id, data: change }))]
                    },
                    None => no_change(old, new, eff),
                },
                RoomActionData::PositionChange(change) => position_change_done(old, new, id, change, eff),
                RoomActionData::Leave => leave_done(old, new, id, eff),
                RoomActionData::RoomManage(m) => if old.info.owner != id {
                    no_change(old, new, eff)
                } else {
                    manage_done(old, new, id, m, has_bot_factory, eff)
                },
                RoomActionData::Reconnect => reconnected(old, new, id) && eff == seq![
                    RoomEffect::Broadcast(RoomEvent::UserReconnected(user_event(id))),
                    RoomEffect::SendGameView(id),
                ],
            }
        },
    }
}

/// The source of an action, as a value.
pub open spec fn opt_id(o: Option<&UserId>) -> Option<UserId> {
    match o {
        Some(u) => Some(*u),
        None => None,
    }
}

} // verus!

verus! {

/// Marks the user connected, at the user's first seat, else at the user's observer entry.
fn mark_reconnected(room: &mut Room, id: &UserId)
    ensures
        reconnected(*old(room), *final(room), *id),
{
    let ghost s = room.state.positions.seats@;
    let ghost o = room.state.observers@;
    match find_user_seat(&room.state.positions.seats, id) {
        Some(i) => {
            let ps = match &room.state.positions.seats[i].1 {
                SeatState::Occupied(ps) => ps.copy(),
                SeatState::Vacant => {
                    assert(false);
                    return;
                },
            };
            room.state.positions.seats[i].1 = SeatState::Occupied(RoomPlayerState { is_connected: true, ..ps });
            assert(room.state.positions.seats@ =~= with_player(s, i as int, RoomPlayerState { is_connected: true, ..seated(s, i as int) }));
        },
        None => match find_observer(&room.state.observers, id) {
            Some(k) => {
                room.state.observers[k].1.is_connected = true;
                assert(room.state.observers@ =~= o.update(k as int, (o[k as int].0, RoomObserverState { is_connected: true, ..o[k as int].1 })));
            },
            None => {},
        },
    }
}

/// Sets the entry of `id` to `st`, or adds it at the end.
fn put_observer(obs: &mut Vec<(UserId, RoomObserverState)>, id: UserId, st: RoomObserverState)
    ensures
        final(obs)@ == observers_with(old(obs)@, id, st),
{
    match find_observer(obs, &id) {
        Some(k) => {
            obs.set(k, (id, st));
        },
        None => {
            obs.push((id, st));
        },
    }
}

/// A user joins, or rejoins.
fn join_room(room: &mut Room, id: &UserId, join: JoinRoom) -> (eff: Vec<RoomEffect>)
    ensures
        join_done(*old(room), *final(room), *id, join, eff@),
{
    let in_seats = find_user_seat(&room.state.positions.seats, id).is_some();
    let in_observers = find_observer(&room.state.observers, id).is_some();
    if !in_seats && !in_observers {
        let user = User { nickname: join.nickname, id: *id, avatar_url: None, is_bot: false };
        room.state.observers.push((*id, RoomObserverState { is_connected: true, view: RoomObserverView::Neutral, player: user }));
        let eff = vec![RoomEffect::Broadcast(RoomEvent::UserJoin(UserActionEvent { user_id: *id, data: () }))];
        assert(eff@ =~= seq![RoomEffect::Broadcast(RoomEvent::UserJoin(user_event(*id)))]);
        eff
    } else {
        mark_reconnected(room, id);
        let eff = vec![
            RoomEffect::Broadcast(RoomEvent::UserReconnected(UserActionEvent { user_id: *id, data: () })),
            RoomEffect::SendGameView(*id),
        ];
        assert(eff@ =~= seq![
            RoomEffect::Broadcast(RoomEvent::UserReconnected(user_event(*id))),
            RoomEffect::SendGameView(*id),
        ]);
        eff
    }
}

/// Whether the user `id` is where `from` says.
fn is_at_position(room: &Room, id: &UserId, from: &RoomUserPosition) -> (r: bool)
    ensures
        r == at_position(*room, *id, *from),
{
    match from {
        RoomUserPosition::Observer(_) => find_observer(&room.state.observers, id).is_some(),
        RoomUserPosition::Player(pos) => match room.state.get_player_state(pos) {
            Some(ps) => ps.player.id.same(id),
            None => false,
        },
    }
}

/// A user moves between watching and a seat, or between seats.
#[verifier::rlimit(40)]
fn change_position(room: &mut Room, id: &UserId, change: PositionChange) -> (eff: Vec<RoomEffect>)
    ensures
        position_change_done(*old(room), *final(room), *id, change, eff@),
{
    let ghost s = room.state.positions.seats@;
    let ghost o = room.state.observers@;
    if !is_at_position(room, id, &change.from) {
        return Vec::new();
    }
    match &change.from {
        RoomUserPosition::Observer(_) => match &change.to {
            RoomUserPosition::Player(target) => {
                if room.state.get_player_state(target).is_some() {
                    return Vec::new();
                }
                let k = match find_observer(&room.state.observers, id) {
                    Some(k) => k,
                    None => return Vec::new(),
                };
                let (_, obs) = room.state.observers.remove(k);
                room.state.set_player_state(
                    target.copy(),
                    RoomPlayerState { id_ready: false, is_connected: obs.is_connected, player: obs.player },
                );
            },
            RoomUserPosition::Observer(_) => {
                return Vec::new();
            },
        },
        RoomUserPosition::Player(from) => match &change.to {
            RoomUserPosition::Observer(view) => {
                let i = match find_named(&room.state.positions.seats, from) {
                    Some(i) => i,
                    None => return Vec::new(),
                };
                match room.state.clear_position(from) {
                    Some(ps) => {
                        let st = RoomObserverState { is_connected: ps.is_connected, view: view.copy(), player: ps.player };
                        let ghost stv = st;
                        put_observer(&mut room.state.observers, *id, st);
                        assert(room_is(*room, *old(room), crate::host::service::emptied(s, i as int), observers_with(o, *id, stv)));
                    },
                    None => {
                        return Vec::new();
                    },
                }
            },
            RoomUserPosition::Player(target) => {
                if room.state.get_player_state(target).is_some() {
                    return Vec::new();
                }
                match room.state.clear_position(from) {
                    Some(ps) => {
                        room.state.set_player_state(target.copy(), ps);
                    },
                    None => {
                        return Vec::new();
                    },
                }
            },
        },
    }
    let ghost ch = change;
    let eff = vec![RoomEffect::Broadcast(RoomEvent::UserChangePosition(UserActionEvent { user_id: *id, data: change }))];
    assert(eff@ =~= seq![RoomEffect::Broadcast(RoomEvent::UserChangePosition(UserActionEvent { user_id: *id, data: ch }))]);
    eff
}

/// A user leaves.
fn leave_room(room: &mut Room, id: &UserId) -> (eff: Vec<RoomEffect>)
    ensures
        leave_done(*old(room), *final(room), *id, eff@),
{
    let ghost s = room.state.positions.seats@;
    let ghost o = room.state.observers@;
    let left = vec![RoomEffect::Broadcast(RoomEvent::UserLeave(UserActionEvent { user_id: *id, data: () }))];
    assert(left@ =~= seq![RoomEffect::Broadcast(RoomEvent::UserLeave(user_event(*id)))]);
    if room.state.phase.kind == RoomPhaseKind::Gaming {
        match find_user_seat(&room.state.positions.seats, id) {
            Some(i) => {
                let ps = match &room.state.positions.seats[i].1 {
                    SeatState::Occupied(ps) => ps.copy(),
                    SeatState::Vacant => {
                        assert(false);
                        return Vec::new();
                    },
                };
                room.state.positions.seats[i].1 = SeatState::Occupied(RoomPlayerState { is_connected: false, ..ps });
                assert(room.state.positions.seats@ =~= with_player(s, i as int, RoomPlayerState { is_connected: false, ..seated(s, i as int) }));
                left
            },
            None => match find_observer(&room.state.observers, id) {
                Some(k) => {
                    room.state.observers.remove(k);
                    left
                },
                None => Vec::new(),
            },
        }
    } else {
        let r = room.remove_player(id);
        if r.is_some() {
            left
        } else {
            Vec::new()
        }
    }
}

/// The owner's request.
fn manage_room(room: &mut Room, id: &UserId, manage: RoomManage, has_bot_factory: bool) -> (eff: Vec<RoomEffect>)
    ensures
        manage_done(*old(room), *final(room), *id, manage, has_bot_factory, eff@),
{
    match manage {
        RoomManage::KickOut(kick) => {
            let r = room.remove_player(&kick.player);
            assert(removed_from(*old(room), *room, kick.player, r));
            if r.is_some() {
                let eff = vec![RoomEffect::Broadcast(RoomEvent::UserKickedOut(UserActionEvent { user_id: kick.player, data: () }))];
                assert(eff@ =~= seq![RoomEffect::Broadcast(RoomEvent::UserKickedOut(user_event(kick.player)))]);
                eff
            } else {
                Vec::new()
            }
        },
        RoomManage::SetGameConfig(config) => {
            room.info.game_config = Some(config.copy());
            let ghost cfg = config;
            let eff = vec![RoomEffect::ApplyGameConfig(config)];
            assert(eff@ =~= seq![RoomEffect::ApplyGameConfig(cfg)]);
            eff
        },
        RoomManage::AddBot(add) => {
            if room.state.get_player_state(&add.position).is_some() || !has_bot_factory {
                return Vec::new();
            }
            let ghost a = add;
            let eff = vec![RoomEffect::CreateBot(add)];
            assert(eff@ =~= seq![RoomEffect::CreateBot(a)]);
            eff
        },
        RoomManage::SetRoomConfig => Vec::new(),
        RoomManage::StartGame => {
            if room.state.player_count() < 3 {
                return Vec::new();
            }
            if !room.state.all_players_ready() {
                return Vec::new();
            }
            room.state.phase = RoomPhase { kind: RoomPhaseKind::Gaming, since: now_millis() };
            let eff = vec![RoomEffect::StartGame];
            assert(eff@ =~= seq![RoomEffect::StartGame]);
            eff
        },
    }
}

/// Applies a room action of the user `source_id` to the room, and returns what the room
/// then has to do, in order. During a game, moving, changing readiness, and the owner's
/// kicking out, adding bots, and starting are refused; the owner's requests are refused
/// to anyone else; an action with no user changes nothing.
pub fn handle_room_action(
    room: &mut Room,
    source_id: Option<&UserId>,
    action: RoomActionData,
    has_bot_factory: bool,
) -> (eff: Vec<RoomEffect>)
    ensures
        room_action_done(*old(room), *final(room), opt_id(source_id), action, has_bot_factory, eff@),
{
    let id = match source_id {
        Some(id) => id,
        None => return Vec::new(),
    };
    let is_gaming = room.state.phase.kind == RoomPhaseKind::Gaming;
    if is_gaming {
        let refused = match &action {
            RoomActionData::PositionChange(_) | RoomActionData::ChangeReadyState(_) => true,
            RoomActionData::RoomManage(m) => match m {
                RoomManage::StartGame | RoomManage::AddBot(_) | RoomManage::KickOut(_) => true,
                _ => false,
            },
            _ => false,
        };
        if refused {
            return Vec::new();
        }
    }
    match action {
        RoomActionData::Join(join) => join_room(room, id, join),
        RoomActionData::Chat(chat) => {
            let ghost c = chat;
            let eff = vec![RoomEffect::Broadcast(RoomEvent::UserChat(UserActionEvent { user_id: *id, data: chat }))];
            assert(eff@ =~= seq![RoomEffect::Broadcast(RoomEvent::UserChat(UserActionEvent { user_id: *id, data: c }))]);
            eff
        },
        RoomActionData::ChangeReadyState(change) => {
            let ghost s = room.state.positions.seats@;
            match find_user_seat(&room.state.positions.seats, id) {
                Some(i) => {
                    let ps = match &room.state.positions.seats[i].1 {
                        SeatState::Occupied(ps) => ps.copy(),
                        SeatState::Vacant => {
                            assert(false);
                            return Vec::new();
                        },
                    };
                    room.state.positions.seats[i].1 = SeatState::Occupied(RoomPlayerState { id_ready: change.is_ready, ..ps });
                    assert(room.state.positions.seats@ =~= with_player(s, i as int, RoomPlayerState { id_ready: change.is_ready, ..seated(s, i as int) }));
                    let eff = vec![RoomEffect::Broadcast(RoomEvent::UserReady(UserActionEvent { user_id: *id, data: change }))];
                    assert(eff@ =~= seq![RoomEffect::Broadcast(RoomEvent::UserReady(UserActionEvent { user_id: *id, data: change }))]);
                    eff
                },
                None => Vec::new(),
            }
        },
        RoomActionData::PositionChange(change) => change_position(room, id, change),
        RoomActionData::Leave => leave_room(room, id),
        RoomActionData::RoomManage(manage) => {
            if !room.info.owner.same(id) {
                return Vec::new();
            }
            manage_room(room, id, manage, has_bot_factory)
        },
        RoomActionData::Reconnect => {
            mark_reconnected(room, id);
            let eff = vec![
                RoomEffect::Broadcast(RoomEvent::UserReconnected(UserActionEvent { user_id: *id, data: () })),
                RoomEffect::SendGameView(*id),
            ];
            assert(eff@ =~= seq![
                RoomEffect::Broadcast(RoomEvent::UserReconnected(user_event(*id))),
                RoomEffect::SendGameView(*id),
            ]);
            eff
        },
    }
}


/// No room action gives a user two observer entries: the observers stay distinct, as
/// the keys of a map would be.
pub proof fn lemma_room_action_keeps_observers_distinct(
    old: Room,
    new: Room,
    source: Option<UserId>,
    action: RoomActionData,
    has_bot_factory: bool,
    eff: Seq<RoomEffect>,
)
    requires
        distinct_observers(old.state.observers@),
        room_action_done(old, new, source, action, has_bot_factory, eff),
    ensures
        distinct_observers(new.state.observers@),
{
    let o = old.state.observers@;
    match source {
        None => {},
        Some(id) => {
            if !(old.state.phase.kind == RoomPhaseKind::Gaming && refused_in_game(action)) {
                match action {
                    RoomActionData::Join(join) => {
                        let st = RoomObserverState {
                            is_connected: true,
                            view: RoomObserverView::Neutral,
                            player: User { nickname: join.nickname, id, avatar_url: None, is_bot: false },
                        };
                        lemma_distinct_observers_kept(o, id, st, 0);
                        match observer_of(o, id) {
                            Some(k) => {
                                lemma_distinct_observers_kept(o, id, RoomObserverState { is_connected: true, ..o[k].1 }, k);
                            },
                            None => {},
                        }
                    },
                    RoomActionData::PositionChange(change) => {
                        if at_position(old, id, change.from) {
                            match change.from {
                                RoomUserPosition::Observer(_) => {
                                    let k = observer_of(o, id)->0;
                                    let c = choose|c: int| is_first_observer(o, id, c);
                                    lemma_distinct_observers_kept(o, id, o[k].1, k);
                                },
                                RoomUserPosition::Player(_) => {
                                    if change.to is Observer {
                                        let st = choose|st: RoomObserverState|
                                            st.is_connected == seated(old.state.positions.seats@, named_seat(old.state.positions.seats@, change.from->Player_0@)->0).is_connected
                                                && st.player == seated(old.state.positions.seats@, named_seat(old.state.positions.seats@, change.from->Player_0@)->0).player
                                                && same_view(st.view, change.to->Observer_0)
                                                && room_is(new, old, emptied(old.state.positions.seats@, named_seat(old.state.positions.seats@, change.from->Player_0@)->0), observers_with(o, id, st));
                                        lemma_distinct_observers_kept(o, id, st, 0);
                                    }
                                },
                            }
                        }
                    },
                    RoomActionData::Leave => {
                        if old.state.phase.kind == RoomPhaseKind::Gaming {
                            match observer_of(o, id) {
                                Some(k) => {
                                    let c = choose|c: int| is_first_observer(o, id, c);
                                    lemma_distinct_observers_kept(o, id, o[k].1, k);
                                },
                                None => {},
                            }
                        } else {
                            match observer_of(o, id) {
                                Some(k) => {
                                    let c = choose|c: int| is_first_observer(o, id, c);
                                    lemma_distinct_observers_kept(o, id, o[k].1, k);
                                },
                                None => {},
                            }
                        }
                    },
                    RoomActionData::RoomManage(m) => {
                        if old.info.owner == id {
                            if let RoomManage::KickOut(kick) = m {
                                match observer_of(o, kick.player) {
                                    Some(k) => {
                                        let c = choose|c: int| is_first_observer(o, kick.player, c);
                                        lemma_distinct_observers_kept(o, kick.player, o[k].1, k);
                                    },
                                    None => {},
                                }
                            }
                        }
                    },
                    RoomActionData::Reconnect => {
                        match observer_of(o, id) {
                            Some(k) => {
                                let c = choose|c: int| is_first_observer(o, id, c);
                                lemma_distinct_observers_kept(o, id, RoomObserverState { is_connected: true, ..o[k].1 }, k);
                            },
                            None => {},
                        }
                    },
                    _ => {},
                }
            }
        },
    }
}


/// No room action gives two seats the same name: the seats stay distinct, as the keys of
/// a map would be.
pub proof fn lemma_room_action_keeps_seats_distinct(
    old: Room,
    new: Room,
    source: Option<UserId>,
    action: RoomActionData,
    has_bot_factory: bool,
    eff: Seq<RoomEffect>,
)
    requires
        distinct_seats(old.state.positions.seats@),
        room_action_done(old, new, source, action, has_bot_factory, eff),
    ensures
        distinct_seats(new.state.positions.seats@),
{
    let s = old.state.positions.seats@;
    let ns = new.state.positions.seats@;
    match source {
        None => {},
        Some(id) => {
            if !(old.state.phase.kind == RoomPhaseKind::Gaming && refused_in_game(action)) {
                match seat_of_user(s, id) {
                    Some(i) => {
                        let c = choose|c: int| is_first_seat_of(s, id, c);
                        lemma_distinct_seats_kept(s, i, SeatState::Occupied(RoomPlayerState { is_connected: true, ..seated(s, i) }), ns, seq![]);
                        lemma_distinct_seats_kept(s, i, SeatState::Occupied(RoomPlayerState { is_connected: false, ..seated(s, i) }), ns, seq![]);
                        lemma_distinct_seats_kept(s, i, SeatState::Vacant, ns, seq![]);
                        if let RoomActionData::ChangeReadyState(change) = action {
                            lemma_distinct_seats_kept(s, i, SeatState::Occupied(RoomPlayerState { id_ready: change.is_ready, ..seated(s, i) }), ns, seq![]);
                        }
                    },
                    None => {},
                }
                match action {
                    RoomActionData::PositionChange(change) => {
                        if at_position(old, id, change.from) {
                            match change.from {
                                RoomUserPosition::Observer(_) => {
                                    if let RoomUserPosition::Player(target) = change.to {
                                        let o = old.state.observers@;
                                        let k = observer_of(o, id)->0;
                                        let st = SeatState::Occupied(RoomPlayerState {
                                            id_ready: false,
                                            is_connected: o[k].1.is_connected,
                                            player: o[k].1.player,
                                        });
                                        lemma_distinct_seats_kept(s, 0, st, ns, target@);
                                    }
                                },
                                RoomUserPosition::Player(from) => {
                                    let i = named_seat(s, from@)->0;
                                    let c = choose|c: int| is_first_named(s, from@, c);
                                    let e = emptied(s, i);
                                    lemma_distinct_seats_kept(s, i, SeatState::Vacant, ns, seq![]);
                                    if let RoomUserPosition::Player(target) = change.to {
                                        lemma_distinct_seats_kept(e, 0, SeatState::Occupied(seated(s, i)), ns, target@);
                                    }
                                },
                            }
                        }
                    },
                    RoomActionData::RoomManage(m) => {
                        if old.info.owner == id {
                            if let RoomManage::KickOut(kick) = m {
                                match seat_of_user(s, kick.player) {
                                    Some(i) => {
                                        let c = choose|c: int| is_first_seat_of(s, kick.player, c);
                                        lemma_distinct_seats_kept(s, i, SeatState::Vacant, ns, seq![]);
                                    },
                                    None => {},
                                }
                            }
                        }
                    },
                    _ => {},
                }
            }
        },
    }
}

/// Marking a user connected keeps every user in one place at most.
proof fn lemma_reconnected_keeps_one_place(old: Room, new: Room, id: UserId)
    requires
        one_place_each(old.state.positions.seats@, old.state.observers@),
        reconnected(old, new, id),
    ensures
        one_place_each(new.state.positions.seats@, new.state.observers@),
{
    let s = old.state.positions.seats@;
    let o = old.state.observers@;
    match seat_of_user(s, id) {
        Some(i) => {
            let c = choose|c: int| is_first_seat_of(s, id, c);
            let st = SeatState::Occupied(RoomPlayerState { is_connected: true, ..seated(s, i) });
            lemma_one_place_kept(s, o, i, st, 0, vstd::pervasive::arbitrary(), id);
        },
        None => match observer_of(o, id) {
            Some(k) => {
                let c = choose|c: int| is_first_observer(o, id, c);
                lemma_one_place_kept(s, o, 0, SeatState::Vacant, k, RoomObserverState { is_connected: true, ..o[k].1 }, id);
            },
            None => {},
        },
    }
}

/// Taking a user out of the room keeps every user in one place at most.
proof fn lemma_removed_keeps_one_place(old: Room, new: Room, id: UserId, r: Option<User>)
    requires
        one_place_each(old.state.positions.seats@, old.state.observers@),
        removed_from(old, new, id, r),
    ensures
        one_place_each(new.state.positions.seats@, new.state.observers@),
{
    let s = old.state.positions.seats@;
    let o = old.state.observers@;
    match observer_of(o, id) {
        Some(k) => {
            let c = choose|c: int| is_first_observer(o, id, c);
            lemma_one_place_kept(s, o, 0, SeatState::Vacant, k, vstd::pervasive::arbitrary(), id);
        },
        None => match seat_of_user(s, id) {
            Some(i) => {
                let c = choose|c: int| is_first_seat_of(s, id, c);
                lemma_one_place_kept(s, o, i, SeatState::Vacant, 0, vstd::pervasive::arbitrary(), id);
            },
            None => {},
        },
    }
}

/// No room action puts a user in two places: no two seats hold the same user, no seated
/// user also watches, and each observer entry is the user it is filed under, before and
/// after any action (with the observers distinct, as the keys of a map are).
pub proof fn lemma_room_action_keeps_one_place_each(
    old: Room,
    new: Room,
    source: Option<UserId>,
    action: RoomActionData,
    has_bot_factory: bool,
    eff: Seq<RoomEffect>,
)
    requires
        distinct_observers(old.state.observers@),
        one_place_each(old.state.positions.seats@, old.state.observers@),
        room_action_done(old, new, source, action, has_bot_factory, eff),
    ensures
        one_place_each(new.state.positions.seats@, new.state.observers@),
{
    let s = old.state.positions.seats@;
    let o = old.state.observers@;
    match source {
        None => {},
        Some(id) => {
            if !(old.state.phase.kind == RoomPhaseKind::Gaming && refused_in_game(action)) {
                match action {
                    RoomActionData::Join(join) => {
                        if seat_of_user(s, id) is None && observer_of(o, id) is None {
                            let st = RoomObserverState {
                                is_connected: true,
                                view: RoomObserverView::Neutral,
                                player: User { nickname: join.nickname, id, avatar_url: None, is_bot: false },
                            };
                            assert forall|j: int| 0 <= j < s.len() implies holder(#[trigger] s[j]) != Some(id) by {
                                lemma_no_seat_of_user(s, id, j);
                            }
                            assert forall|j: int| 0 <= j < o.len() implies (#[trigger] o[j]).0 != id by {
                                lemma_no_observer_entry(o, id, j);
                            }
                            lemma_one_place_kept(s, o, 0, SeatState::Vacant, 0, st, id);
                        } else {
                            lemma_reconnected_keeps_one_place(old, new, id);
                        }
                    },
                    RoomActionData::ChangeReadyState(change) => {
                        match seat_of_user(s, id) {
                            Some(i) => {
                                let c = choose|c: int| is_first_seat_of(s, id, c);
                                let st = SeatState::Occupied(RoomPlayerState { id_ready: change.is_ready, ..seated(s, i) });
                                lemma_one_place_kept(s, o, i, st, 0, vstd::pervasive::arbitrary(), id);
                            },
                            None => {},
                        }
                    },
                    RoomActionData::PositionChange(change) => {
                        if at_position(old, id, change.from) {
                            match change.from {
                                RoomUserPosition::Observer(_) => {
                                    if let RoomUserPosition::Player(target) = change.to {
                                        if player_at(s, target@) is None {
                                            let k = observer_of(o, id)->0;
                                            let c = choose|c: int| is_first_observer(o, id, c);
                                            let ps = RoomPlayerState {
                                                id_ready: false,
                                                is_connected: o[k].1.is_connected,
                                                player: o[k].1.player,
                                            };
                                            let r = o.remove(k);
                                            lemma_one_place_kept(s, o, 0, SeatState::Vacant, k, vstd::pervasive::arbitrary(), id);
                                            assert forall|j: int| 0 <= j < s.len() implies holder(#[trigger] s[j]) != Some(ps.player.id) by {
                                                assert(holder(s[j]) != Some(o[k].0));
                                            }
                                            assert forall|m: int| 0 <= m < r.len() implies (#[trigger] r[m]).0 != ps.player.id by {
                                                let om = if m < k { m } else { m + 1 };
                                                assert(r[m] == o[om]);
                                                assert(o[om].0 != o[k].0);
                                            }
                                            lemma_one_place_seated(s, r, new.state.positions.seats@, target@, ps);
                                        }
                                    }
                                },
                                RoomUserPosition::Player(from) => {
                                    let i = named_seat(s, from@)->0;
                                    let ps = seated(s, i);
                                    let e = emptied(s, i);
                                    assert(holder(s[i]) == Some(id));
                                    lemma_one_place_seat_of_user(s, o, id, i);
                                    lemma_one_place_kept(s, o, i, SeatState::Vacant, 0, vstd::pervasive::arbitrary(), id);
                                    assert forall|j: int| 0 <= j < e.len() implies holder(#[trigger] e[j]) != Some(id) by {
                                        if j != i {
                                            assert(holder(s[j]) != holder(s[i]));
                                        }
                                    }
                                    assert forall|m: int| 0 <= m < o.len() implies (#[trigger] o[m]).0 != id by {
                                        lemma_no_observer_entry(o, id, m);
                                    }
                                    match change.to {
                                        RoomUserPosition::Observer(view) => {
                                            let st = choose|st: RoomObserverState|
                                                st.is_connected == ps.is_connected && st.player == ps.player
                                                    && same_view(st.view, view) && room_is(new, old, e, observers_with(o, id, st));
                                            lemma_one_place_kept(e, o, 0, SeatState::Vacant, 0, st, id);
                                        },
                                        RoomUserPosition::Player(target) => {
                                            if player_at(s, target@) is None {
                                                lemma_one_place_seated(e, o, new.state.positions.seats@, target@, ps);
                                            }
                                        },
                                    }
                                },
                            }
                        }
                    },
                    RoomActionData::Leave => {
                        if old.state.phase.kind == RoomPhaseKind::Gaming {
                            match seat_of_user(s, id) {
                                Some(i) => {
                                    let c = choose|c: int| is_first_seat_of(s, id, c);
                                    let st = SeatState::Occupied(RoomPlayerState { is_connected: false, ..seated(s, i) });
                                    lemma_one_place_kept(s, o, i, st, 0, vstd::pervasive::arbitrary(), id);
                                },
                                None => match observer_of(o, id) {
                                    Some(k) => {
                                        let c = choose|c: int| is_first_observer(o, id, c);
                                        lemma_one_place_kept(s, o, 0, SeatState::Vacant, k, vstd::pervasive::arbitrary(), id);
                                    },
                                    None => {},
                                },
                            }
                        } else {
                            let r = choose|r: Option<User>| removed_from(old, new, id, r) && (if r is Some {
                                eff == seq![RoomEffect::Broadcast(RoomEvent::UserLeave(user_event(id)))]
                            } else {
                                eff.len() == 0
                            });
                            lemma_removed_keeps_one_place(old, new, id, r);
                        }
                    },
                    RoomActionData::RoomManage(m) => {
                        if old.info.owner == id {
                            if let RoomManage::KickOut(kick) = m {
                                let r = choose|r: Option<User>| removed_from(old, new, kick.player, r) && (if r is Some {
                                    eff == seq![RoomEffect::Broadcast(RoomEvent::UserKickedOut(user_event(kick.player)))]
                                } else {
                                    eff.len() == 0
                                });
                                lemma_removed_keeps_one_place(old, new, kick.player, r);
                            }
                        }
                    },
                    RoomActionData::Reconnect => {
                        lemma_reconnected_keeps_one_place(old, new, id);
                    },
                    _ => {},
                }
            }
        },
    }
}

} // verus!

verus! {

/// Timer work a game's commands ask of the room.
#[derive(Debug, Clone)]
pub enum TimerOp {
    /// Start a one-shot timer of `duration_secs` seconds.
    StartTimer { id: Id, duration_secs: u64 },
    /// Stop a timer.
    StopTimer(Id),
    /// Start a timer that ticks every second.
    StartInterval(Id),
    /// Stop a ticking timer.
    StopInterval(Id),
}

/// The timer work of the commands, in order.
pub open spec fn timer_ops(cmds: Seq<GameCommand>) -> Seq<TimerOp>
    decreases cmds.len(),
{
    if cmds.len() == 0 {
        seq![]
    } else {
        timer_ops(cmds.drop_last()) + match cmds.last() {
            GameCommand::CreateTimer { id, duration_secs } => seq![TimerOp::StartTimer { id, duration_secs }],
            GameCommand::CancelTimer { id, .. } => seq![TimerOp::StopTimer(id)],
            GameCommand::CreateInterval { id } => seq![TimerOp::StartInterval(id)],
            GameCommand::CancelInterval { id } => seq![TimerOp::StopInterval(id)],
            GameCommand::GameOver => seq![],
        }
    }
}

/// A seat after a game: a human player is no longer ready; a bot stays ready.
pub open spec fn unready_human(st: (RoomPlayerPosition, SeatState)) -> (RoomPlayerPosition, SeatState) {
    match st.1 {
        SeatState::Occupied(ps) => if !ps.player.is_bot {
            (st.0, SeatState::Occupied(RoomPlayerState { id_ready: false, ..ps }))
        } else {
            st
        },
        SeatState::Vacant => st,
    }
}

/// The room after a game ended: waiting again, with every human player unready.
pub open spec fn game_ended(old: Room, new: Room) -> bool {
    let s = old.state.positions.seats@;
    &&& new.info == old.info
    &&& new.state.positions.mode == old.state.positions.mode
    &&& new.state.observers == old.state.observers
    &&& new.state.phase.kind == RoomPhaseKind::Waiting
    &&& new.state.positions.seats@ == Seq::new(s.len(), |k: int| unready_human(s[k]))
}

/// Ending a game keeps every user in one place at most: the seats keep their players.
pub proof fn lemma_game_end_keeps_one_place_each(old: Room, new: Room)
    requires
        one_place_each(old.state.positions.seats@, old.state.observers@),
        game_ended(old, new),
    ensures
        one_place_each(new.state.positions.seats@, new.state.observers@),
{
    let s = old.state.positions.seats@;
    let n = new.state.positions.seats@;
    let o = old.state.observers@;
    assert forall|i: int| 0 <= i < n.len() implies holder(#[trigger] n[i]) == holder(s[i]) by {
        assert(n[i] == unready_human(s[i]));
    }
    assert forall|i: int, j: int|
        0 <= i < n.len() && 0 <= j < n.len() && i != j && holder(n[i]) is Some implies holder(#[trigger] n[i])
            != holder(#[trigger] n[j]) by {
        assert(holder(n[i]) == holder(s[i]));
        assert(holder(n[j]) == holder(s[j]));
    }
    assert forall|i: int, k: int| 0 <= i < n.len() && 0 <= k < o.len() implies holder(#[trigger] n[i]) != Some(
        (#[trigger] o[k]).0,
    ) by {
        assert(holder(n[i]) == holder(s[i]));
    }
}

/// Puts the room back to waiting after a game, every human player unready.
pub fn end_game(room: &mut Room)
    ensures
        game_ended(*old(room), *final(room)),
{
    let ghost s = room.state.positions.seats@;
    room.state.phase = RoomPhase { kind: RoomPhaseKind::Waiting, since: now_millis() };
    let n = room.state.positions.seats.len();
    for i in 0..n
        invariant
            n == s.len(),
            room.state.positions.seats@.len() == n,
            forall|k: int| 0 <= k < i ==> (#[trigger] room.state.positions.seats@[k]) == unready_human(s[k]),
            forall|k: int| i <= k < n ==> (#[trigger] room.state.positions.seats@[k]) == s[k],
            room.info == old(room).info,
            room.state.positions.mode == old(room).state.positions.mode,
            room.state.observers == old(room).state.observers,
            room.state.phase.kind == RoomPhaseKind::Waiting,
    {
        let human = match &room.state.positions.seats[i].1 {
            SeatState::Occupied(ps) => !ps.player.is_bot,
            SeatState::Vacant => false,
        };
        if human {
            let ps = match &room.state.positions.seats[i].1 {
                SeatState::Occupied(ps) => ps.copy(),
                SeatState::Vacant => {
                    assert(false);
                    return;
                },
            };
            room.state.positions.seats[i].1 = SeatState::Occupied(RoomPlayerState { id_ready: false, ..ps });
        }
    }
    assert(room.state.positions.seats@ =~= Seq::new(s.len(), |k: int| unready_human(s[k])));
}

/// Carries out a game's commands: a game over puts the room back to waiting (see
/// `end_game`); the timer work is returned, in order.
pub fn process_game_commands(commands: Vec<GameCommand>, room: &mut Room) -> (ops: Vec<TimerOp>)
    ensures
        ops@ == timer_ops(commands@),
        (exists|k: int| 0 <= k < commands@.len() && commands@[k] is GameOver) ==> game_ended(
            *old(room),
            *final(room),
        ),
        !(exists|k: int| 0 <= k < commands@.len() && commands@[k] is GameOver) ==> *final(room)
            == *old(room),
{
    let mut ops: Vec<TimerOp> = Vec::new();
    let n = commands.len();
    let ghost cmds = commands@;
    let mut ended = false;
    for i in 0..n
        invariant
            n == cmds.len(),
            cmds == commands@,
            ops@ == timer_ops(cmds.take(i as int)),
            ended <==> exists|k: int| 0 <= k < i && cmds[k] is GameOver,
            ended ==> game_ended(*old(room), *room),
            !ended ==> *room == *old(room),
    {
        assert(cmds.take(i + 1).drop_last() =~= cmds.take(i as int));
        assert(cmds.take(i + 1).last() == cmds[i as int]);
        match &commands[i] {
            GameCommand::CreateTimer { id, duration_secs } => {
                ops.push(TimerOp::StartTimer { id: id.copy(), duration_secs: *duration_secs });
            },
            GameCommand::CancelTimer { id, .. } => {
                ops.push(TimerOp::StopTimer(id.copy()));
            },
            GameCommand::CreateInterval { id } => {
                ops.push(TimerOp::StartInterval(id.copy()));
            },
            GameCommand::CancelInterval { id } => {
                ops.push(TimerOp::StopInterval(id.copy()));
            },
            GameCommand::GameOver => {
                let ghost before = *room;
                end_game(room);
                proof {
                    if ended {
                        assert(game_ended(*old(room), *room)) by {
                            let s = old(room).state.positions.seats@;
                            let m = before.state.positions.seats@;
                            assert forall|k: int| 0 <= k < s.len() implies (#[trigger] room.state.positions.seats@[k]) == unready_human(s[k]) by {
                                assert(m[k] == unready_human(s[k]));
                            }
                            assert(room.state.positions.seats@ =~= Seq::new(s.len(), |k: int| unready_human(s[k])));
                        }
                    }
                }
                ended = true;
            },
        }
    }
    assert(cmds.take(n as int) =~= cmds);
    ops
}

} // verus!

verus! {

/// The seat views among the first `upto` views that reach a player: the player at the
/// view's seat is sent that view (by its index).
pub open spec fn seat_view_sends(
    views: Seq<RoomView>,
    seats: Seq<(RoomPlayerPosition, SeatState)>,
    upto: nat,
) -> Seq<(UserId, usize)>
    decreases upto,
{
    if upto == 0 {
        seq![]
    } else {
        seat_view_sends(views, seats, (upto - 1) as nat) + match views[upto - 1] {
            RoomView::Position(p) => match player_at(seats, p@) {
                Some(ps) => seq![(ps.player.id, (upto - 1) as usize)],
                None => seq![],
            },
            RoomView::Neutral => seq![],
        }
    }
}

/// The user was sent some view already.
pub open spec fn was_sent(sends: Seq<(UserId, usize)>, id: UserId) -> bool {
    exists|k: int| 0 <= k < sends.len() && sends[k].0 == id
}

/// View `k` is the first neutral view.
pub open spec fn is_first_neutral(views: Seq<RoomView>, k: int) -> bool {
    &&& 0 <= k < views.len()
    &&& views[k] is Neutral
    &&& forall|j: int| 0 <= j < k ==> !((#[trigger] views[j]) is Neutral)
}

/// The first neutral view, if any.
pub open spec fn first_neutral(views: Seq<RoomView>) -> Option<int> {
    if exists|k: int| is_first_neutral(views, k) {
        Some(choose|k: int| is_first_neutral(views, k))
    } else {
        None
    }
}

/// The neutral view `n` for the players of the first `upto` seats not sent a view yet.
pub open spec fn neutral_seat_sends(
    seats: Seq<(RoomPlayerPosition, SeatState)>,
    handled: Seq<(UserId, usize)>,
    n: usize,
    upto: nat,
) -> Seq<(UserId, usize)>
    decreases upto,
{
    if upto == 0 {
        seq![]
    } else {
        neutral_seat_sends(seats, handled, n, (upto - 1) as nat) + match seats[upto - 1].1 {
            SeatState::Occupied(ps) => if !was_sent(handled, ps.player.id) {
                seq![(ps.player.id, n)]
            } else {
                seq![]
            },
            SeatState::Vacant => seq![],
        }
    }
}

/// The neutral view `n` for the first `upto` observers not sent a view yet.
pub open spec fn neutral_observer_sends(
    obs: Seq<(UserId, RoomObserverState)>,
    handled: Seq<(UserId, usize)>,
    n: usize,
    upto: nat,
) -> Seq<(UserId, usize)>
    decreases upto,
{
    if upto == 0 {
        seq![]
    } else {
        neutral_observer_sends(obs, handled, n, (upto - 1) as nat) + if !was_sent(handled, obs[upto - 1].0) {
            seq![(obs[upto - 1].0, n)]
        } else {
            seq![]
        }
    }
}

/// Who is sent which of the game's views: each seat view goes to the player at that
/// seat, and the neutral view to every other seated player and to every observer.
pub open spec fn view_sends(views: Seq<RoomView>, room: Room) -> Seq<(UserId, usize)> {
    let seats = room.state.positions.seats@;
    let h = seat_view_sends(views, seats, views.len());
    h + match first_neutral(views) {
        Some(n) => neutral_seat_sends(seats, h, n as usize, seats.len()) + neutral_observer_sends(
            room.state.observers@,
            h,
            n as usize,
            room.state.observers@.len(),
        ),
        None => seq![],
    }
}

/// Whether the user was sent a view among `sends`.
fn sent_to(sends: &Vec<(UserId, usize)>, id: &UserId) -> (r: bool)
    ensures
        r == was_sent(sends@, *id),
{
    let n = sends.len();
    for k in 0..n
        invariant
            n == sends@.len(),
            forall|j: int| 0 <= j < k ==> (#[trigger] sends@[j]).0 != *id,
    {
        if sends[k].0.same(id) {
            return true;
        }
    }
    false
}

/// The recipients of the game's views: pairs of a user and the index of the view the
/// user is sent.
#[verifier::loop_isolation(false)]
pub fn game_view_recipients(views: &Vec<RoomView>, room: &Room) -> (r: Vec<(UserId, usize)>)
    ensures
        r@ == view_sends(views@, *room),
{
    let seats = &room.state.positions.seats;
    let mut sends: Vec<(UserId, usize)> = Vec::new();
    let nv = views.len();
    let mut neutral: Option<usize> = None;
    for k in 0..nv
        invariant
            nv == views@.len(),
            sends@ == seat_view_sends(views@, seats@, k as nat),
            match neutral {
                Some(n) => is_first_neutral(views@, n as int),
                None => forall|j: int| 0 <= j < k ==> !((#[trigger] views@[j]) is Neutral),
            },
    {
        let ghost before = sends@;
        proof {
            let kk = (k + 1) as nat;
            assert((kk - 1) as nat == k as nat);
            assert(seat_view_sends(views@, seats@, kk) == seat_view_sends(views@, seats@, k as nat) + match views@[k as int] {
                RoomView::Position(p) => match player_at(seats@, p@) {
                    Some(ps) => seq![(ps.player.id, k)],
                    None => seq![],
                },
                RoomView::Neutral => seq![],
            });
        }
        match &views[k] {
            RoomView::Position(p) => {
                assert(views@[k as int] == RoomView::Position(*p));
                match room.state.get_player_state(p) {
                    Some(ps) => {
                        sends.push((ps.player.id, k));
                        assert(player_at(seats@, p@) == Some(*ps));
                        assert(sends@ =~= before + seq![(ps.player.id, k)]);
                        assert(sends@ =~= seat_view_sends(views@, seats@, (k + 1) as nat));
                    },
                    None => {
                        assert(sends@ =~= seat_view_sends(views@, seats@, (k + 1) as nat));
                    },
                }
            },
            RoomView::Neutral => {
                if neutral.is_none() {
                    neutral = Some(k);
                }
                assert(sends@ =~= seat_view_sends(views@, seats@, (k + 1) as nat));
            },
        }
    }
    let ghost h = sends@;
    assert(views@.len() == nv);
    proof {
        match neutral {
            Some(n) => {
                assert forall|k: int| is_first_neutral(views@, k) implies k == n by {
                    if k < n {
                        assert(!(views@[k] is Neutral));
                    }
                    if k > n {
                        assert(!(views@[n as int] is Neutral));
                    }
                }
            },
            None => {
                assert forall|k: int| !is_first_neutral(views@, k) by {}
            },
        }
    }
    match neutral {
        Some(n) => {
            let handled = copy_sends(&sends);
            let ns = seats.len();
            for i in 0..ns
                invariant
                    ns == seats@.len(),
                    handled@ == h,
                    sends@ == h + neutral_seat_sends(seats@, h, n, i as nat),
            {
                match &seats[i].1 {
                    SeatState::Occupied(ps) => {
                        if !sent_to(&handled, &ps.player.id) {
                            sends.push((ps.player.id, n));
                        }
                    },
                    SeatState::Vacant => {},
                }
                assert(sends@ =~= h + neutral_seat_sends(seats@, h, n, (i + 1) as nat));
            }
            let ghost h2 = sends@;
            let obs = &room.state.observers;
            let no = obs.len();
            for j in 0..no
                invariant
                    no == obs@.len(),
                    handled@ == h,
                    sends@ == h2 + neutral_observer_sends(obs@, h, n, j as nat),
            {
                if !sent_to(&handled, &obs[j].0) {
                    sends.push((obs[j].0, n));
                }
                assert(sends@ =~= h2 + neutral_observer_sends(obs@, h, n, (j + 1) as nat));
            }
            assert(sends@ =~= view_sends(views@, *room));
        },
        None => {
            assert(sends@ =~= view_sends(views@, *room));
        },
    }
    sends
}

/// A copy of the list of sends.
fn copy_sends(v: &Vec<(UserId, usize)>) -> (r: Vec<(UserId, usize)>)
    ensures
        r@ == v@,
{
    let mut r: Vec<(UserId, usize)> = Vec::new();
    let n = v.len();
    for i in 0..n
        invariant
            n == v@.len(),
            r@ == v@.take(i as int),
    {
        r.push(v[i]);
        assert(v@.take(i + 1) =~= v@.take(i as int).push(v@[i as int]));
    }
    assert(v@.take(n as int) =~= v@);
    r
}

/// The view a user joining or coming back during a game is sent: the view of the user's
/// seat if there is one, else the neutral view; none between games.
pub open spec fn view_for(views: Seq<RoomView>, room: Room, id: UserId) -> Option<int> {
    if room.state.phase.kind != RoomPhaseKind::Gaming {
        None
    } else {
        let seat_view = match seat_of_user(room.state.positions.seats@, id) {
            Some(i) => first_position_view(views, room.state.positions.seats@[i].0@),
            None => None,
        };
        match seat_view {
            Some(k) => Some(k),
            None => first_neutral(views),
        }
    }
}

/// View `k` is the first view of the seat named `name`.
pub open spec fn is_first_position_view(views: Seq<RoomView>, name: Seq<char>, k: int) -> bool {
    &&& 0 <= k < views.len()
    &&& views[k] matches RoomView::Position(p) && p@ == name
    &&& forall|j: int| 0 <= j < k ==> !((#[trigger] views[j]) matches RoomView::Position(p) && p@ == name)
}

/// The first view of the seat named `name`, if any.
pub open spec fn first_position_view(views: Seq<RoomView>, name: Seq<char>) -> Option<int> {
    if exists|k: int| is_first_position_view(views, name, k) {
        Some(choose|k: int| is_first_position_view(views, name, k))
    } else {
        None
    }
}

/// The index of the view the user `user_id` is to be sent now.
#[verifier::loop_isolation(false)]
pub fn current_view_for(views: &Vec<RoomView>, room: &Room, user_id: &UserId) -> (r: Option<usize>)
    ensures
        match r {
            Some(k) => view_for(views@, *room, *user_id) == Some(k as int),
            None => view_for(views@, *room, *user_id) is None,
        },
{
    if room.state.phase.kind != RoomPhaseKind::Gaming {
        return None;
    }
    let nv = views.len();
    match room.state.find_player_position(user_id) {
        Some(pos) => {
            for k in 0..nv
                invariant
                    nv == views@.len(),
                    forall|j: int| 0 <= j < k ==> !((#[trigger] views@[j]) matches RoomView::Position(p) && p@ == pos@),
            {
                let hit = match &views[k] {
                    RoomView::Position(p) => p.same(&pos),
                    RoomView::Neutral => false,
                };
                if hit {
                    proof {
                        assert(is_first_position_view(views@, pos@, k as int));
                        assert forall|m: int| is_first_position_view(views@, pos@, m) implies m == k by {
                            if m < k {
                                assert(!(views@[m] matches RoomView::Position(p) && p@ == pos@));
                            }
                            if m > k {
                                assert(!(views@[k as int] matches RoomView::Position(p) && p@ == pos@));
                            }
                        }
                    }
                    return Some(k);
                }
            }
            proof {
                assert forall|m: int| !is_first_position_view(views@, pos@, m) by {
                    if 0 <= m < nv {
                        assert(!(views@[m] matches RoomView::Position(p) && p@ == pos@));
                    }
                }
            }
        },
        None => {},
    }
    for k in 0..nv
        invariant
            nv == views@.len(),
            forall|j: int| 0 <= j < k ==> !((#[trigger] views@[j]) is Neutral),
    {
        if let RoomView::Neutral = &views[k] {
            proof {
                assert(is_first_neutral(views@, k as int));
                assert forall|m: int| is_first_neutral(views@, m) implies m == k by {
                    if m < k {
                        assert(!(views@[m] is Neutral));
                    }
                    if m > k {
                        assert(!(views@[k as int] is Neutral));
                    }
                }
            }
            return Some(k);
        }
    }
    proof {
        assert forall|m: int| !is_first_neutral(views@, m) by {
            if 0 <= m < nv {
                assert(!(views@[m] is Neutral));
            }
        }
    }
    None
}

} // verus!
