//! The game inside a room: which user moves, the move made for a player whose turn ran
//! out, and the events the room hands to the game.

use vstd::prelude::*;
use crate::poker::Card;
use crate::basic::game::{GameCommand, GameEvent, GameMeta, SequencedGameUpdate, TimeExpired};
use crate::basic::message::TypedData;
use crate::basic::room::{RoomPlayerPosition, RoomView, decimal, usize_to_decimal};
use crate::basic::user::{Action as UserAction, ActionData as UserActionData, ActionSource, User, UserId};
use crate::doudizhu::game::{
    APP_ID, Action, ActionData, ActionView, DouDizhuConfig, DouDizhuGame, GameView, LastPlay,
    PlayerAction, PlayerState, PlayerView, Stage, bidding_dealt, get_app, move_made, timer_restarted,
};
use crate::doudizhu::hand::copy_cards;
use crate::doudizhu::pattern::no_wild;

verus! {

/// Seat `k` is the first seat held by the user `id`.
pub open spec fn is_first_seat(ps: Seq<PlayerView>, id: UserId, k: int) -> bool {
    &&& 0 <= k < ps.len()
    &&& ps[k].player.id == id
    &&& forall|j: int| 0 <= j < k ==> (#[trigger] ps[j]).player.id != id
}

/// The first seat held by the user `id`, if any.
pub open spec fn first_seat(ps: Seq<PlayerView>, id: UserId) -> Option<int> {
    if exists|k: int| is_first_seat(ps, id, k) {
        Some(choose|k: int| is_first_seat(ps, id, k))
    } else {
        None
    }
}

/// The seat a move of user `id` made against version `ref_version` is taken from: the
/// user's first seat, if the version is the current one and the turn is that seat's.
pub open spec fn admitted_seat(g: GameView, id: UserId, ref_version: u32) -> Option<int> {
    if ref_version != g.version {
        None
    } else {
        match first_seat(g.players, id) {
            Some(i) => if i == g.current_turn { Some(i) } else { None },
            None => None,
        }
    }
}

/// Nothing changed and no command was issued.
pub open spec fn unchanged(old: GameView, new: GameView, cmds: Seq<GameCommand>) -> bool {
    new == old && cmds.len() == 0
}

/// The move of user `id` against version `ref_version` was handled.
pub open spec fn player_move_applied(
    old: GameView,
    new: GameView,
    cmds: Seq<GameCommand>,
    id: UserId,
    ref_version: u32,
    action: ActionView,
) -> bool {
    match admitted_seat(old, id, ref_version) {
        Some(i) => move_made(old, new, cmds, i, action),
        None => unchanged(old, new, cmds),
    }
}

/// The values of an optional move.
pub open spec fn opt_view(o: Option<Action>) -> Option<ActionView> {
    match o {
        Some(a) => Some(a@),
        None => None,
    }
}

/// A user's game action, whose payload decoded to `decoded`, was handled.
pub open spec fn user_action_applied(
    old: GameView,
    new: GameView,
    cmds: Seq<GameCommand>,
    action: UserAction,
    decoded: Option<ActionView>,
) -> bool {
    match action.source {
        ActionSource::User(uid) => match action.data {
            UserActionData::GameAction(d) => match decoded {
                Some(a) => player_move_applied(old, new, cmds, uid, d.ref_version, a),
                None => unchanged(old, new, cmds),
            },
            _ => unchanged(old, new, cmds),
        },
        _ => unchanged(old, new, cmds),
    }
}

/// A card played by an admitted move in the playing stage is no wild card.
pub open spec fn move_has_no_wild(g: GameView, id: UserId, ref_version: u32, a: ActionView) -> bool {
    (admitted_seat(g, id, ref_version) is Some && g.stage == Stage::Playing) ==> (
    a matches ActionView::Play { cards } ==> no_wild(cards))
}

/// The decoded move of a user's game action plays no wild card, if it is admitted.
pub open spec fn user_move_has_no_wild(g: GameView, action: UserAction, decoded: Option<ActionView>) -> bool {
    match action.source {
        ActionSource::User(uid) => match action.data {
            UserActionData::GameAction(d) => match decoded {
                Some(a) => move_has_no_wild(g, uid, d.ref_version, a),
                None => true,
            },
            _ => true,
        },
        _ => true,
    }
}

/// The current player may play anything: nothing is on the table, or the cards on it
/// are the player's own.
pub open spec fn free_turn(g: GameView) -> bool {
    match g.last_play {
        Some(last) => last.player_idx == g.current_turn,
        None => true,
    }
}

/// The move made for user `id` when the turn runs out: pass in the bidding; in play, the
/// lowest card of the hand on a free turn, else pass. None when it is not that user's
/// turn, the game is not on, or the hand is empty on a free turn.
pub open spec fn default_move(g: GameView, id: UserId) -> Option<ActionView> {
    match first_seat(g.players, id) {
        Some(i) => if i != g.current_turn {
            None
        } else {
            match g.stage {
                Stage::Bidding => Some(ActionView::Bid { score: 0 }),
                Stage::Playing => if free_turn(g) {
                    let hand = g.players[i].hand;
                    if hand.len() > 0 {
                        Some(ActionView::Play { cards: seq![hand.last()] })
                    } else {
                        None
                    }
                } else {
                    Some(ActionView::Pass)
                },
                _ => None,
            }
        },
        None => None,
    }
}

/// The expired timer is the game's current turn timer.
pub open spec fn timer_fires(g: GameView, t: TimeExpired) -> bool {
    g.timer_id matches Some(cur) && cur.0@ == t.timer_id.0@
}

/// The expiry of timer `t` was handled: if it is the turn timer, the default move of the
/// player whose turn it is was made for that player.
pub open spec fn timer_applied(old: GameView, new: GameView, cmds: Seq<GameCommand>, t: TimeExpired) -> bool {
    if timer_fires(old, t) {
        let id = old.players[old.current_turn as int].player.id;
        match default_move(old, id) {
            Some(a) => player_move_applied(old, new, cmds, id, old.version, a),
            None => unchanged(old, new, cmds),
        }
    } else {
        unchanged(old, new, cmds)
    }
}

/// `new` is a game started for `users`: with three users a fresh deal and bidding, at
/// version 1; with any other number nothing changes.
pub open spec fn started(g: GameView, new: GameView, users: Seq<User>) -> bool {
    if users.len() != 3 {
        new == g
    } else {
        &&& bidding_dealt(new, users)
        &&& new.version == 1
        &&& new.timeout_secs == g.timeout_secs
        &&& new.timer_id == g.timer_id
        &&& new.turn_deadline is None
    }
}

/// The reply to a handled event: no view update when nothing happened, else the commands.
pub open spec fn reply(r: Option<Vec<GameCommand>>, cmds: Seq<GameCommand>) -> bool {
    if cmds.len() == 0 {
        r is None
    } else {
        r matches Some(c) && c@ == cmds
    }
}

impl DouDizhuGame {
    /// The first seat of the user `player_id`.
    pub fn seat_of(&self, player_id: &UserId) -> (r: Option<usize>)
        ensures
            match r {
                Some(i) => first_seat(self@.players, *player_id) == Some(i as int),
                None => first_seat(self@.players, *player_id) is None,
            },
    {
        let ghost ps = self@.players;
        let n = self.players.len();
        for i in 0..n
            invariant
                n == self.players@.len(),
                ps == self@.players,
                forall|j: int| 0 <= j < i ==> (#[trigger] ps[j]).player.id != *player_id,
        {
            assert(ps[i as int] == self.players@[i as int]@);
            if self.players[i].player.id.same(player_id) {
                proof {
                    assert(is_first_seat(ps, *player_id, i as int));
                    assert forall|k: int| is_first_seat(ps, *player_id, k) implies k == i by {
                        if k < i {
                            assert(ps[k].player.id != *player_id);
                        }
                        if k > i {
                            assert(ps[i as int].player.id != *player_id);
                        }
                    }
                }
                return Some(i);
            }
        }
        proof {
            assert forall|k: int| !is_first_seat(ps, *player_id, k) by {
                if 0 <= k < ps.len() {
                    assert(ps[k].player.id != *player_id);
                }
            }
        }
        None
    }

    /// The move made for `player_id` when the turn runs out, against the current version.
    pub fn default_action(&self, player_id: &UserId) -> (r: Option<ActionData>)
        ensures
            match r {
                Some(ad) => ad.ref_version == self.version && default_move(self@, *player_id) == Some(
                    ad.action@,
                ),
                None => default_move(self@, *player_id) is None,
            },
    {
        let i = match self.seat_of(player_id) {
            Some(i) => i,
            None => return None,
        };
        if i != self.current_turn {
            return None;
        }
        assert(self@.players[i as int] == self.players@[i as int]@);
        let action = match self.stage {
            Stage::Bidding => Action::Bid { score: 0 },
            Stage::Playing => {
                let free = match &self.last_play {
                    Some(last) => last.player_idx == self.current_turn,
                    None => true,
                };
                if free {
                    let hand = &self.players[i].hand;
                    if hand.len() > 0 {
                        let lowest = hand[hand.len() - 1];
                        let mut cards: Vec<Card> = Vec::new();
                        cards.push(lowest);
                        assert(cards@ =~= seq![hand@.last()]);
                        Action::Play { cards }
                    } else {
                        return None;
                    }
                } else {
                    Action::Pass
                }
            },
            _ => return None,
        };
        Some(ActionData { action, ref_version: self.version })
    }

    /// Makes the move of user `player_id`, sent against version `ref_version`, if the
    /// version is current and it is that user's turn; otherwise nothing changes.
    pub fn handle_player_move(&mut self, player_id: &UserId, ref_version: u32, action: Action) -> (cmds: Vec<GameCommand>)
        requires
            old(self).live_wf(),
            old(self).in_play() ==> old(self).can_grow(),
            move_has_no_wild(old(self)@, *player_id, ref_version, action@),
        ensures
            final(self).live_wf(),
            old(self).wf() ==> final(self).wf(),
            player_move_applied(old(self)@, final(self)@, cmds@, *player_id, ref_version, action@),
    {
        if ref_version != self.version {
            return Vec::new();
        }
        let i = match self.seat_of(player_id) {
            Some(i) => i,
            None => return Vec::new(),
        };
        if i != self.current_turn {
            return Vec::new();
        }
        self.process_game_action(i, action)
    }

    /// Handles a user's action: a game action of a user, whose payload decoded to
    /// `decoded`, is made as that user's move; anything else changes nothing.
    pub fn handle_user_action(&mut self, action: &UserAction, decoded: Option<Action>) -> (cmds: Vec<
        GameCommand,
    >)
        requires
            old(self).live_wf(),
            old(self).in_play() ==> old(self).can_grow(),
            user_move_has_no_wild(old(self)@, *action, opt_view(decoded)),
        ensures
            final(self).live_wf(),
            old(self).wf() ==> final(self).wf(),
            user_action_applied(old(self)@, final(self)@, cmds@, *action, opt_view(decoded)),
    {
        let player_id = match &action.source {
            ActionSource::User(uid) => uid,
            _ => return Vec::new(),
        };
        let data = match &action.data {
            UserActionData::GameAction(data) => data,
            _ => return Vec::new(),
        };
        match decoded {
            Some(m) => self.handle_player_move(player_id, data.ref_version, m),
            None => Vec::new(),
        }
    }

    /// Handles the expiry of a timer: when it is the turn timer, the default move is made
    /// for the player whose turn it is.
    pub fn handle_timer_expired(&mut self, timer: &TimeExpired) -> (cmds: Vec<GameCommand>)
        requires
            old(self).live_wf(),
            old(self).in_play() ==> old(self).can_grow(),
            timer_fires(old(self)@, *timer) ==> old(self).current_turn < old(self).players@.len(),
        ensures
            final(self).live_wf(),
            old(self).wf() ==> final(self).wf(),
            timer_applied(old(self)@, final(self)@, cmds@, *timer),
    {
        let fires = match &self.timer_id {
            Some(current) => current.0 == timer.timer_id.0,
            None => false,
        };
        if !fires {
            return Vec::new();
        }
        let player_id = self.players[self.current_turn].player.id;
        assert(self@.players[self.current_turn as int] == self.players@[self.current_turn as int]@);
        match self.default_action(&player_id) {
            Some(ad) => {
                proof {
                    let i = first_seat(self@.players, player_id)->0;
                    if self.stage == Stage::Playing {
                        assert(self.players@[i]@ == self@.players[i]);
                        let hand = self.players@[i].hand@;
                        if let ActionView::Play { cards } = ad.action@ {
                            assert(no_wild(hand));
                            assert(cards[0] == hand[hand.len() - 1]);
                            assert(no_wild(cards));
                        }
                    }
                }
                self.handle_player_move(&player_id, ad.ref_version, ad.action)
            },
            None => Vec::new(),
        }
    }
}

} // verus!

verus! {

/// What handling an event did: the start of a game with three users deals and starts
/// the bidding (with its turn timer); a user's action and a timer's expiry are applied;
/// an interval changes nothing.
pub open spec fn event_handled(
    old: DouDizhuGame,
    new: DouDizhuGame,
    update: SequencedGameUpdate,
    room_players: Seq<User>,
    decoded: Option<Action>,
    r: Option<Vec<GameCommand>>,
) -> bool {
        match update.event {
            GameEvent::GameStart => if room_players.len() == 3 {
                &&& r matches Some(c)
                &&& exists|mid: GameView|
                    started(old@, mid, room_players) && timer_restarted(
                        mid,
                        new@,
                        c@,
                    )
                &&& new.wf()
            } else if old.stage == Stage::Bidding {
                r matches Some(c) && timer_restarted(old@, new@, c@)
            } else {
                r is None && new@ == old@
            },
            GameEvent::Action(ua) => exists|cmds: Seq<GameCommand>|
                user_action_applied(old@, new@, cmds, ua, opt_view(decoded))
                    && reply(r, cmds),
            GameEvent::TimerExpired(t) => exists|cmds: Seq<GameCommand>|
                timer_applied(old@, new@, cmds, t) && reply(r, cmds),
            GameEvent::Interval(_) => r is None && new@ == old@,
        }
}

impl DouDizhuGame {
    /// Handles an event of the room: the start of a game (with the users seated in order),
    /// a user's action (whose payload decoded to `decoded`), or a timer's expiry. Returns
    /// the commands when the views are to be sent, and None when nothing happened.
    pub fn handle_action(
        &mut self,
        update: SequencedGameUpdate,
        room_players: Vec<User>,
        decoded: Option<Action>,
    ) -> (r: Option<Vec<GameCommand>>)
        requires
            !(update.event is GameStart) ==> old(self).live_wf() && (old(self).in_play()
                ==> old(self).can_grow()),
            update.event matches GameEvent::Action(ua) ==> user_move_has_no_wild(
                old(self)@,
                ua,
                opt_view(decoded),
            ),
            update.event matches GameEvent::TimerExpired(t) ==> (timer_fires(old(self)@, t)
                ==> old(self).current_turn < old(self).players@.len()),
        ensures
            event_handled(*old(self), *final(self), update, room_players@, decoded, r),
    {
        match update.event {
            GameEvent::GameStart => {
                let ghost users = room_players@;
                self.start(room_players);
                if self.stage != Stage::Bidding {
                    return None;
                }
                let ghost mid = self@;
                assert(users.len() == 3 ==> started(old(self)@, mid, users));
                let cmds = self.start_turn_timer();
                proof {
                    if users.len() == 3 {
                        assert(self.players@ == old(self).players@ || true);
                        assert(self@.players == mid.players);
                        assert forall|k: int| 0 <= k < 3 implies no_wild(#[trigger] self.players@[k].hand@) by {
                            assert(self@.players[k] == self.players@[k]@);
                            assert(mid.players[k].hand == self@.players[k].hand);
                        }
                    }
                }
                Some(cmds)
            },
            GameEvent::Action(ua) => {
                let ghost dv = opt_view(decoded);
                let cmds = self.handle_user_action(&ua, decoded);
                let ghost c = cmds@;
                let r = if cmds.len() == 0 {
                    None
                } else {
                    Some(cmds)
                };
                assert(user_action_applied(old(self)@, self@, c, ua, dv) && reply(r, c));
                r
            },
            GameEvent::TimerExpired(t) => {
                let cmds = self.handle_timer_expired(&t);
                let ghost c = cmds@;
                let r = if cmds.len() == 0 {
                    None
                } else {
                    Some(cmds)
                };
                assert(timer_applied(old(self)@, self@, c, t) && reply(r, c));
                r
            },
            GameEvent::Interval(_) => None,
        }
    }
}


/// No card is a wild card.
fn wild_free(cards: &Vec<Card>) -> (b: bool)
    ensures
        b == no_wild(cards@),
{
    let n = cards.len();
    let mut i: usize = 0;
    while i < n
        invariant
            n == cards@.len(),
            i <= n,
            forall|k: int| 0 <= k < i ==> !(#[trigger] cards@[k] is WildCard),
        decreases n - i,
    {
        if let Card::WildCard = cards[i] {
            return false;
        }
        i = i + 1;
    }
    true
}

/// The game can take the event: except for a start, a game that is bidding or playing is
/// well formed and has room for one more move; a decoded move plays no wild card; a
/// turn timer that runs out belongs to an existing seat.
pub open spec fn event_checked(g: DouDizhuGame, update: SequencedGameUpdate, decoded: Option<Action>) -> bool {
    &&& !(update.event is GameStart) ==> g.live_wf() && (g.in_play() ==> g.can_grow())
    &&& (decoded matches Some(Action::Play { cards }) ==> no_wild(cards@))
    &&& (update.event matches GameEvent::TimerExpired(t) ==> (timer_fires(g@, t) ==> g.current_turn < g.players@.len()))
}

impl DouDizhuGame {
    /// Whether the game is well formed, when it is bidding or playing.
    fn is_live_wf(&self) -> (b: bool)
        ensures
            b == self.live_wf(),
    {
        if !(self.stage == Stage::Bidding || self.stage == Stage::Playing) {
            return true;
        }
        if self.players.len() != 3 || self.current_turn >= 3 || self.consecutive_passes > 3 {
            return false;
        }
        let mut k: usize = 0;
        while k < 3
            invariant
                self.players@.len() == 3,
                self.in_play(),
                k <= 3,
                forall|j: int| 0 <= j < k ==> no_wild(#[trigger] self.players@[j].hand@),
            decreases 3 - k,
        {
            if !wild_free(&self.players[k].hand) {
                assert(!no_wild(self.players@[k as int].hand@));
                return false;
            }
            k = k + 1;
        }
        if !wild_free(&self.hole_cards) {
            return false;
        }
        let landlord_ok = match self.landlord_idx {
            Some(l) => l < 3,
            None => true,
        };
        landlord_ok && (self.highest_bid == 0 || self.landlord_idx.is_some())
    }

    /// Whether the game can take the event.
    fn check_event(&self, update: &SequencedGameUpdate, decoded: &Option<Action>) -> (b: bool)
        ensures
            b == event_checked(*self, *update, *decoded),
    {
        let start = match update.event {
            GameEvent::GameStart => true,
            _ => false,
        };
        if !start {
            if !self.is_live_wf() {
                return false;
            }
            let in_play = self.stage == Stage::Bidding || self.stage == Stage::Playing;
            if in_play && !(self.version < u32::MAX && self.multiplier <= u32::MAX / 2) {
                return false;
            }
        }
        if let Some(Action::Play { cards }) = decoded {
            if !wild_free(cards) {
                return false;
            }
        }
        if let GameEvent::TimerExpired(t) = &update.event {
            let fires = match &self.timer_id {
                Some(cur) => cur.0 == t.timer_id.0,
                None => false,
            };
            if fires && self.current_turn >= self.players.len() {
                return false;
            }
        }
        true
    }

    /// Handles an event when the game can take it (`event_checked`), as `handle_action`
    /// does; otherwise nothing changes and None is returned.
    pub fn handle_event(&mut self, update: SequencedGameUpdate, room_players: Vec<User>, decoded: Option<Action>) -> (r: Option<Vec<GameCommand>>)
        ensures
            event_checked(*old(self), update, decoded) ==> event_handled(*old(self), *final(self), update, room_players@, decoded, r),
            !event_checked(*old(self), update, decoded) ==> r is None && *final(self) == *old(self),
    {
        if !self.check_event(&update, &decoded) {
            return None;
        }
        self.handle_action(update, room_players, decoded)
    }
}

} // verus!

verus! {

/// The game as `viewer` sees it (None for an observer): every other seat's hand is
/// hidden and only its size shown, and the hole cards are hidden until the bidding ends.
pub open spec fn masked(g: GameView, viewer: Option<int>) -> GameView {
    GameView {
        players: Seq::new(
            g.players.len(),
            |k: int|
                if viewer == Some(k) {
                    g.players[k]
                } else {
                    PlayerView {
                        hand: Seq::empty(),
                        hand_count: g.players[k].hand.len() as usize,
                        ..g.players[k]
                    }
                },
        ),
        hole_cards: if g.stage == Stage::Setup || g.stage == Stage::Bidding {
            Seq::empty()
        } else {
            g.hole_cards
        },
        ..g
    }
}

/// The seat index, if any, as an integer.
pub open spec fn opt_int(o: Option<usize>) -> Option<int> {
    match o {
        Some(i) => Some(i as int),
        None => None,
    }
}

/// The views of the game sent out: seat `k`, named by its number, sees the game as its
/// player does, and the neutral view sees it as an observer.
pub open spec fn views_of(g: GameView, v: Seq<(RoomView, DouDizhuGame)>) -> bool {
    &&& v.len() == g.players.len() + 1
    &&& forall|k: int|
        0 <= k < g.players.len() ==> {
            &&& (#[trigger] v[k]).0 matches RoomView::Position(p) && p@ == decimal(k as nat)
            &&& v[k].1@ == masked(g, Some(k))
        }
    &&& v[g.players.len() as int].0 is Neutral
    &&& v[g.players.len() as int].1@ == masked(g, None)
}

/// Why a configuration was refused.
#[derive(Debug, Clone, Copy, PartialEq, Eq, Structural)]
pub enum ConfigError {
    /// The payload is not a configuration of this game.
    InvalidType,
    /// The payload did not decode to a configuration.
    InvalidFormat,
}

impl PlayerAction {
    /// A copy of the action.
    pub fn copy(&self) -> (r: PlayerAction)
        ensures
            r@ == self@,
    {
        match self {
            PlayerAction::PlayCards(cards) => PlayerAction::PlayCards(copy_cards(cards)),
            PlayerAction::Pass => PlayerAction::Pass,
        }
    }
}

impl PlayerState {
    /// A copy of the seat with its hand hidden and its size kept.
    pub fn hidden(&self) -> (r: PlayerState)
        ensures
            r@ == (PlayerView { hand: Seq::empty(), hand_count: self.hand@.len() as usize, ..self@ }),
    {
        let last_action = match &self.last_action {
            Some(a) => Some(a.copy()),
            None => None,
        };
        let r = PlayerState {
            player: self.player.copy(),
            hand: Vec::new(),
            hand_count: self.hand.len(),
            role: self.role,
            has_passed: self.has_passed,
            bid_score: self.bid_score,
            last_action,
        };
        assert(r@.hand =~= Seq::<Card>::empty());
        r
    }

    /// A copy of the seat.
    pub fn copy(&self) -> (r: PlayerState)
        ensures
            r@ == self@,
    {
        let last_action = match &self.last_action {
            Some(a) => Some(a.copy()),
            None => None,
        };
        PlayerState {
            player: self.player.copy(),
            hand: copy_cards(&self.hand),
            hand_count: self.hand_count,
            role: self.role,
            has_passed: self.has_passed,
            bid_score: self.bid_score,
            last_action,
        }
    }
}

impl LastPlay {
    /// A copy of the play.
    pub fn copy(&self) -> (r: LastPlay)
        ensures
            r@ == self@,
    {
        LastPlay { player_idx: self.player_idx, cards: copy_cards(&self.cards), pattern: self.pattern }
    }
}

impl DouDizhuGame {
    /// The game as the player at seat `for_player_idx` sees it, or as an observer sees it
    /// when None.
    pub fn masked_view(&self, for_player_idx: Option<usize>) -> (m: DouDizhuGame)
        ensures
            m@ == masked(self@, opt_int(for_player_idx)),
    {
        let ghost target = masked(self@, opt_int(for_player_idx));
        let mut players: Vec<PlayerState> = Vec::new();
        let n = self.players.len();
        for i in 0..n
            invariant
                n == self.players@.len(),
                players@.len() == i,
                target == masked(self@, opt_int(for_player_idx)),
                forall|k: int| 0 <= k < i ==> (#[trigger] players@[k])@ == target.players[k],
        {
            assert(self@.players[i as int] == self.players@[i as int]@);
            let keep = match for_player_idx {
                Some(j) => j == i,
                None => false,
            };
            if keep {
                players.push(self.players[i].copy());
            } else {
                players.push(self.players[i].hidden());
            }
        }
        let hole_cards = if self.stage == Stage::Setup || self.stage == Stage::Bidding {
            Vec::new()
        } else {
            copy_cards(&self.hole_cards)
        };
        let last_play = match &self.last_play {
            Some(lp) => Some(lp.copy()),
            None => None,
        };
        let timer_id = match &self.timer_id {
            Some(t) => Some(t.copy()),
            None => None,
        };
        let m = DouDizhuGame {
            config: self.config,
            version: self.version,
            players,
            deck: self.deck.clone(),
            hole_cards,
            stage: self.stage,
            current_turn: self.current_turn,
            landlord_idx: self.landlord_idx,
            last_play,
            consecutive_passes: self.consecutive_passes,
            base_score: self.base_score,
            multiplier: self.multiplier,
            highest_bid: self.highest_bid,
            winner: self.winner,
            turn_deadline: self.turn_deadline,
            timer_id,
        };
        assert(m@.players =~= target.players);
        assert(m@.hole_cards =~= target.hole_cards);
        m
    }

    /// The views sent to the room: one per seat, named by the seat number, and the
    /// neutral one.
    pub fn views(&self) -> (v: Vec<(RoomView, DouDizhuGame)>)
        ensures
            views_of(self@, v@),
    {
        let mut v: Vec<(RoomView, DouDizhuGame)> = Vec::new();
        let n = self.players.len();
        for i in 0..n
            invariant
                n == self.players@.len(),
                v@.len() == i,
                forall|k: int|
                    0 <= k < i ==> {
                        &&& (#[trigger] v@[k]).0 matches RoomView::Position(p) && p@ == decimal(k as nat)
                        &&& v@[k].1@ == masked(self@, Some(k))
                    },
        {
            let pos = RoomPlayerPosition::from_string(usize_to_decimal(i));
            v.push((RoomView::Position(pos), self.masked_view(Some(i))));
        }
        v.push((RoomView::Neutral, self.masked_view(None)));
        v
    }

    /// The views of a game that has started; None before the start.
    pub fn current_view(&self) -> (r: Option<Vec<(RoomView, DouDizhuGame)>>)
        ensures
            self.stage == Stage::Setup ==> r is None,
            self.stage != Stage::Setup ==> (r matches Some(v) && views_of(self@, v@)),
    {
        if self.stage == Stage::Setup {
            None
        } else {
            Some(self.views())
        }
    }

    /// The description of the game.
    pub fn meta(&self) -> (m: GameMeta)
        ensures
            m.app.id@ == APP_ID@,
            m.app.revision == crate::doudizhu::game::APP_REVISION,
            m.description@ == "Classic Chinese card game for 3 players"@,
    {
        GameMeta { app: get_app(), description: String::from_str("Classic Chinese card game for 3 players") }
    }

    /// Takes a new configuration from `config`, whose data decoded to `decoded`: refused
    /// unless its type is this game's "config".
    pub fn apply_config(&mut self, config: &TypedData, decoded: Option<DouDizhuConfig>) -> (r: Result<(), ConfigError>)
        ensures
            !(config.data_type.app.id@ == APP_ID@ && config.data_type.kind@ == "config"@) ==> r
                == Err::<(), ConfigError>(ConfigError::InvalidType) && *final(self) == *old(self),
            (config.data_type.app.id@ == APP_ID@ && config.data_type.kind@ == "config"@) ==> match decoded {
                Some(c) => r is Ok && *final(self) == (DouDizhuGame { config: c, ..*old(self) }),
                None => r == Err::<(), ConfigError>(ConfigError::InvalidFormat) && *final(self) == *old(self),
            },
    {
        let app_id = String::from_str(APP_ID);
        let config_kind = String::from_str("config");
        if !(config.data_type.app.id == app_id && config.data_type.kind == config_kind) {
            return Err(ConfigError::InvalidType);
        }
        match decoded {
            Some(c) => {
                self.config = c;
                Ok(())
            },
            None => Err(ConfigError::InvalidFormat),
        }
    }
}

} // verus!
