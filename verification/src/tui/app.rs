//! The terminal client's state and what each key press does to it: the lobby, the user
//! manager, the game table, the log view, and the moves between screens.

use vstd::prelude::*;
use crate::poker::Card;
use crate::basic::room::{
    Room, RoomPhaseKind, decimal, usize_to_decimal, RoomObserverView, RoomPlayerPosition, RoomUserPosition, SeatState, player_at,
};
use crate::basic::user::{
    AddBot, KickOut, PositionChange, ReadyStateChange, RoomActionData, RoomManage,
    base64_text,
};
use crate::doudizhu::game::{Action, ActionView, DouDizhuGame, Stage};
use crate::tui::text::{pop_char, push_char, trim_text, trimmed};

verus! {

/// A key, as the terminal reports it.
#[derive(Debug, Clone, Copy, PartialEq, Eq, Structural)]
pub enum Key {
    Char(char),
    Enter,
    Esc,
    Tab,
    BackTab,
    Backspace,
    Up,
    Down,
    Left,
    Right,
    Home,
    End,
    F(u8),
    Other,
}

/// A key press, with whether Control was held.
#[derive(Debug, Clone, Copy, PartialEq, Eq, Structural)]
pub struct KeyPress {
    pub key: Key,
    pub ctrl: bool,
}

/// An action for the server.
#[derive(Debug, Clone)]
pub enum Outgoing {
    /// An action on the room.
    Room(RoomActionData),
    /// A move in the game, against the version of the game state it was made on.
    Game { action: Action, ref_version: u32 },
}

/// What the main loop has to do after a key press.
#[derive(Debug, Clone)]
pub enum KeyAction {
    /// Nothing to do.
    Nothing,
    /// Send this action to the server.
    SendAction(Outgoing),
    /// Connect from the lobby.
    Connect,
    /// Cancel connecting, or leave the game.
    Disconnect,
    Quit,
    /// Load the saved identities and open the user manager with them.
    OpenUserManager,
    /// Load the saved identities again for the user manager.
    ReloadIdentities,
    /// Create and save an identity with this nickname.
    CreateIdentity(String),
    /// Delete the saved identity at this path.
    DeleteIdentity(String),
    /// Ask for a nickname: the one typed is empty.
    NicknameRequired,
}

/// The log panel: hidden, at the bottom, or over the whole screen.
#[derive(Debug, Clone, Copy, PartialEq, Eq, Structural)]
pub enum LogMode {
    Off,
    Panel,
    Fullscreen,
}

/// A saved identity.
#[derive(Debug, Clone)]
pub struct IdentityProfile {
    pub nickname: String,
    pub user_id: String,
    /// Where the key file is saved.
    pub path: String,
}

/// The lobby: the server address and the user id to connect with.
#[derive(Debug)]
pub struct LobbyState {
    pub server_url: String,
    pub user_id: String,
    /// The focused field: 0 the server address, 1 the user id.
    pub focus: usize,
    pub error_message: Option<String>,
    pub selected_identity: Option<IdentityProfile>,
}

/// What the user manager is doing.
#[derive(Debug, Clone, Copy, PartialEq, Eq, Structural)]
pub enum UserManagerMode {
    Browse,
    Create,
    DeleteConfirm,
}

/// The table: the game as this player sees it, the room, and the player's selection.
#[derive(Debug)]
pub struct GameState {
    pub game: Option<DouDizhuGame>,
    /// The version of the game state, for the moves sent.
    pub version: u32,
    pub room: Option<Room>,
    /// This player's seat in the game.
    pub my_index: Option<usize>,
    /// The selected cards, by their index in the hand.
    pub selected: Vec<usize>,
    /// The card under the cursor.
    pub cursor: usize,
    /// B was pressed: a digit 0 to 3 bids.
    pub bid_mode: bool,
    /// A was pressed: a digit 1 to 3 adds a bot at that seat.
    pub add_bot_mode: bool,
    /// K was pressed: a digit 1 to 3 kicks out the player at that seat.
    pub kick_mode: bool,
    pub messages: Vec<String>,
    /// This user's id, as its base64 text.
    pub my_user_id: String,
    pub show_panel: bool,
}

/// The hand of this player, if this player sits in the game.
pub open spec fn hand_of(gs: GameState) -> Seq<Card> {
    match (gs.my_index, gs.game) {
        (Some(i), Some(g)) => if i < g.players@.len() {
            g.players@[i as int].hand@
        } else {
            seq![]
        },
        _ => seq![],
    }
}

/// It is this player's turn.
pub open spec fn my_turn(gs: GameState) -> bool {
    match (gs.my_index, gs.game) {
        (Some(i), Some(g)) => g.current_turn == i,
        _ => false,
    }
}

/// Seat `k` is the first taken seat whose player's id is this user's.
pub open spec fn is_my_seat(room: Room, me: Seq<char>, k: int) -> bool {
    let s = room.state.positions.seats@;
    &&& 0 <= k < s.len()
    &&& s[k].1 matches SeatState::Occupied(ps) && base64_text(ps.player.id@) == me
    &&& forall|j: int| 0 <= j < k ==> !((#[trigger] s[j]).1 matches SeatState::Occupied(ps) && base64_text(ps.player.id@) == me)
}

/// Whether this user is ready, if seated.
pub open spec fn my_ready(gs: GameState) -> Option<bool> {
    match gs.room {
        Some(room) => if exists|k: int| is_my_seat(room, gs.my_user_id@, k) {
            let k = choose|k: int| is_my_seat(room, gs.my_user_id@, k);
            Some(room.state.positions.seats@[k].1->Occupied_0.id_ready)
        } else {
            None
        },
        None => None,
    }
}

/// The texts of the messages.
pub open spec fn msgs_view(v: Seq<String>) -> Seq<Seq<char>> {
    v.map_values(|m: String| m@)
}

/// The messages after `m` is added: the oldest is dropped beyond 50.
pub open spec fn after_msg(old: Seq<Seq<char>>, m: Seq<char>) -> Seq<Seq<char>> {
    let s = old.push(m);
    if s.len() > 50 {
        s.drop_first()
    } else {
        s
    }
}

/// The messages after each of `add` is added in turn.
pub open spec fn after_msgs(old: Seq<Seq<char>>, add: Seq<Seq<char>>) -> Seq<Seq<char>>
    decreases add.len(),
{
    if add.len() == 0 {
        old
    } else {
        after_msg(after_msgs(old, add.drop_last()), add.last())
    }
}

impl GameState {
    /// A table not yet showing a game, for the user `user_id`.
    pub fn new(user_id: &str) -> (gs: GameState)
        ensures
            gs.game is None,
            gs.version == 0,
            gs.room is None,
            gs.my_index is None,
            gs.selected@.len() == 0,
            gs.cursor == 0,
            !gs.bid_mode && !gs.add_bot_mode && !gs.kick_mode,
            gs.messages@.len() == 0,
            gs.my_user_id@ == user_id@,
            gs.show_panel,
    {
        GameState {
            game: None,
            version: 0,
            room: None,
            my_index: None,
            selected: Vec::new(),
            cursor: 0,
            bid_mode: false,
            add_bot_mode: false,
            kick_mode: false,
            messages: Vec::new(),
            my_user_id: String::from_str(user_id),
            show_panel: true,
        }
    }

    /// This player's hand; empty when not seated in a game.
    pub fn my_hand(&self) -> (h: &[Card])
        ensures
            h@ == hand_of(*self),
    {
        match (self.my_index, &self.game) {
            (Some(idx), Some(game)) => {
                if idx < game.players.len() {
                    return game.players[idx].hand.as_slice();
                }
            },
            _ => {},
        }
        &[]
    }

    /// Whether it is this player's turn.
    pub fn is_my_turn(&self) -> (r: bool)
        ensures
            r == my_turn(*self),
    {
        match (self.my_index, &self.game) {
            (Some(idx), Some(game)) => game.current_turn == idx,
            _ => false,
        }
    }

    /// Adds a message, keeping the latest 50.
    pub fn push_message(&mut self, msg: String)
        ensures
            msgs_view(final(self).messages@) == after_msg(msgs_view(old(self).messages@), msg@),
            *final(self) == (GameState { messages: final(self).messages, ..*old(self) }),
    {
        let ghost before = self.messages@;
        let ghost m = msg@;
        self.messages.push(msg);
        if self.messages.len() > 50 {
            self.messages.remove(0);
        }
        assert(msgs_view(self.messages@) =~= after_msg(msgs_view(before), m));
    }

    /// Whether this user is ready, if seated in the room.
    pub fn my_ready_state(&self) -> (r: Option<bool>)
        ensures
            r == my_ready(*self),
    {
        let room = match &self.room {
            Some(room) => room,
            None => return None,
        };
        let seats = &room.state.positions.seats;
        let n = seats.len();
        let ghost me = self.my_user_id@;
        for i in 0..n
            invariant
                n == seats@.len(),
                seats@ == room.state.positions.seats@,
                me == self.my_user_id@,
                self.room == Some(*room),
                forall|j: int| 0 <= j < i ==> !((#[trigger] seats@[j]).1 matches SeatState::Occupied(ps) && base64_text(ps.player.id@) == me),
        {
            if let SeatState::Occupied(ps) = &seats[i].1 {
                let id_text = ps.player.id.to_base64();
                if id_text == self.my_user_id {
                    proof {
                        assert(is_my_seat(*room, me, i as int));
                        assert forall|k: int| is_my_seat(*room, me, k) implies k == i by {
                            if k < i {
                                assert(!(seats@[k].1 matches SeatState::Occupied(ps) && base64_text(ps.player.id@) == me));
                            }
                            if k > i {
                                assert(!(seats@[i as int].1 matches SeatState::Occupied(ps) && base64_text(ps.player.id@) == me));
                            }
                        }
                    }
                    return Some(ps.id_ready);
                }
            }
        }
        proof {
            assert forall|k: int| !is_my_seat(*room, me, k) by {
                if 0 <= k < n {
                    assert(!(seats@[k].1 matches SeatState::Occupied(ps) && base64_text(ps.player.id@) == me));
                }
            }
        }
        None
    }
}

/// The seat a digit key names: "1" to "3" are the seats "0" to "2".
pub open spec fn digit_seat(c: char) -> char {
    if c == '1' {
        '0'
    } else if c == '2' {
        '1'
    } else {
        '2'
    }
}

/// The seat named by a digit key 1 to 3.
fn seat_of_digit(c: char) -> (p: RoomPlayerPosition)
    requires
        c == '1' || c == '2' || c == '3',
    ensures
        p@ == seq![digit_seat(c)],
{
    let name = if c == '1' {
        "0"
    } else if c == '2' {
        "1"
    } else {
        "2"
    };
    proof {
        reveal_strlit("0");
        reveal_strlit("1");
        reveal_strlit("2");
    }
    RoomPlayerPosition::from_str(name)
}

/// The key is a digit from `lo` to `hi`.
pub open spec fn digit_in(k: Key, lo: char, hi: char) -> bool {
    k matches Key::Char(c) && (lo as u32) <= (c as u32) <= (hi as u32)
}

/// The key is the letter `c`, in either case.
pub open spec fn letter(k: Key, lower: char, upper: char) -> bool {
    k == Key::Char(lower) || k == Key::Char(upper)
}

/// The room action toggling this user's readiness.
pub open spec fn is_ready_toggle(a: KeyAction, gs: GameState) -> bool {
    a matches KeyAction::SendAction(Outgoing::Room(RoomActionData::ChangeReadyState(c)))
        && c.is_ready == !(match my_ready(gs) { Some(b) => b, None => false })
}

/// The room action asking to start the game.
pub open spec fn is_start(a: KeyAction) -> bool {
    a matches KeyAction::SendAction(Outgoing::Room(RoomActionData::RoomManage(RoomManage::StartGame)))
}

/// The move sent, with the table's version.
pub open spec fn is_move(a: KeyAction, gs: GameState, m: ActionView) -> bool {
    a matches KeyAction::SendAction(Outgoing::Game { action, ref_version }) && action@ == m && ref_version
        == gs.version
}

/// Everything but the selection, the cursor, the modes and the panel is kept.
pub open spec fn kept(old: GameState, new: GameState) -> bool {
    &&& new.game == old.game
    &&& new.version == old.version
    &&& new.room == old.room
    &&& new.my_index == old.my_index
    &&& new.messages == old.messages
    &&& new.my_user_id == old.my_user_id
}

/// Only the modes may have changed.
pub open spec fn only_modes(old: GameState, new: GameState) -> bool {
    &&& kept(old, new)
    &&& new.selected == old.selected
    &&& new.cursor == old.cursor
    &&& new.show_panel == old.show_panel
}

/// The cards of the hand at the selected indices that exist, in the order selected.
pub open spec fn picked(hand: Seq<Card>, sel: Seq<usize>) -> Seq<Card>
    decreases sel.len(),
{
    if sel.len() == 0 {
        seq![]
    } else {
        picked(hand, sel.drop_last()) + if sel.last() < hand.len() {
            seq![hand[sel.last() as int]]
        } else {
            seq![]
        }
    }
}

/// The selection with index `c` taken out (its first occurrence) if there, else added.
pub open spec fn toggled(sel: Seq<usize>, c: usize) -> Seq<usize> {
    if exists|k: int| 0 <= k < sel.len() && sel[k] == c {
        let k = choose|k: int| 0 <= k < sel.len() && sel[k] == c && forall|j: int| 0 <= j < k ==> sel[j] != c;
        sel.remove(k)
    } else {
        sel.push(c)
    }
}

} // verus!

verus! {

/// What a key does on the table. Q or Esc leaves a pending bid, bot or kick choice, or
/// else leaves the game. A pending choice takes the next key: a digit bids, adds a bot at
/// that seat, or kicks out the player there; any other key drops the choice. After a
/// game: R toggles readiness, S starts the next game, Enter leaves the result, Tab toggles
/// the panel. Before a game: a digit 1 to 3 sits down there, A and K open the bot and
/// kick choices, R and S as after a game. In a game: Tab, R, B (bid, on one's turn in the
/// bidding), the arrows move the cursor, Space selects, Enter plays the selected cards
/// and P passes (on one's turn in play).
pub open spec fn game_key_done(old: GameState, new: GameState, k: Key, a: KeyAction) -> bool {
    if letter(k, 'q', 'Q') || k == Key::Esc {
        if old.bid_mode {
            only_modes(old, new) && !new.bid_mode && new.add_bot_mode == old.add_bot_mode && new.kick_mode == old.kick_mode && a is Nothing
        } else if old.add_bot_mode {
            only_modes(old, new) && !new.bid_mode && !new.add_bot_mode && new.kick_mode == old.kick_mode && a is Nothing
        } else if old.kick_mode {
            only_modes(old, new) && !new.bid_mode && !new.add_bot_mode && !new.kick_mode && a is Nothing
        } else {
            new == old && a is Disconnect
        }
    } else if old.bid_mode {
        &&& only_modes(old, new)
        &&& !new.bid_mode && new.add_bot_mode == old.add_bot_mode && new.kick_mode == old.kick_mode
        &&& if digit_in(k, '0', '3') {
            is_move(a, old, ActionView::Bid { score: ((k->Char_0 as u32) - ('0' as u32)) as u8 })
        } else {
            a is Nothing
        }
    } else if old.add_bot_mode {
        &&& only_modes(old, new)
        &&& !new.bid_mode && !new.add_bot_mode && new.kick_mode == old.kick_mode
        &&& if digit_in(k, '1', '3') {
            a matches KeyAction::SendAction(Outgoing::Room(RoomActionData::RoomManage(RoomManage::AddBot(b))))
                && b.position@ == seq![digit_seat(k->Char_0)] && b.name is None
        } else {
            a is Nothing
        }
    } else if old.kick_mode {
        &&& only_modes(old, new)
        &&& !new.bid_mode && !new.add_bot_mode && !new.kick_mode
        &&& if digit_in(k, '1', '3') {
            match old.room {
                Some(room) => match player_at(room.state.positions.seats@, seq![digit_seat(k->Char_0)]) {
                    Some(ps) => a matches KeyAction::SendAction(Outgoing::Room(RoomActionData::RoomManage(RoomManage::KickOut(ko))))
                        && ko.player == ps.player.id && ko.reason is None,
                    None => a is Nothing,
                },
                None => a is Nothing,
            }
        } else {
            a is Nothing
        }
    } else if old.game matches Some(g) && g.stage == Stage::Finished {
        if letter(k, 'r', 'R') {
            new == old && is_ready_toggle(a, old)
        } else if letter(k, 's', 'S') {
            new == old && is_start(a)
        } else if k == Key::Enter {
            &&& new.game is None && new.selected@.len() == 0 && new.cursor == 0 && !new.bid_mode
            &&& new.version == old.version && new.room == old.room && new.my_index == old.my_index
            &&& new.messages == old.messages && new.my_user_id == old.my_user_id
            &&& new.show_panel == old.show_panel && new.add_bot_mode == old.add_bot_mode && new.kick_mode == old.kick_mode
            &&& a is Nothing
        } else if k == Key::Tab {
            new == (GameState { show_panel: !old.show_panel, ..old }) && a is Nothing
        } else {
            new == old && a is Nothing
        }
    } else if old.game is None {
        if digit_in(k, '1', '3') {
            &&& new == old
            &&& a matches KeyAction::SendAction(Outgoing::Room(RoomActionData::PositionChange(pc)))
                && pc.from == RoomUserPosition::Observer(RoomObserverView::Neutral)
                && (pc.to matches RoomUserPosition::Player(p) && p@ == seq![digit_seat(k->Char_0)])
        } else if letter(k, 'a', 'A') {
            new == (GameState { add_bot_mode: true, ..old }) && a is Nothing
        } else if letter(k, 'k', 'K') {
            new == (GameState { kick_mode: true, ..old }) && a is Nothing
        } else if letter(k, 'r', 'R') {
            new == old && is_ready_toggle(a, old)
        } else if letter(k, 's', 'S') {
            new == old && is_start(a)
        } else {
            new == old && a is Nothing
        }
    } else {
        let hand = hand_of(old);
        if k == Key::Tab {
            new == (GameState { show_panel: !old.show_panel, ..old }) && a is Nothing
        } else if letter(k, 'r', 'R') {
            new == old && is_ready_toggle(a, old)
        } else if letter(k, 'b', 'B') {
            new == (GameState { bid_mode: old.bid_mode || (old.game->0.stage == Stage::Bidding && my_turn(old)), ..old })
                && a is Nothing
        } else if k == Key::Left {
            new == (GameState { cursor: if old.cursor > 0 { (old.cursor - 1) as usize } else { old.cursor }, ..old })
                && a is Nothing
        } else if k == Key::Right {
            new == (GameState {
                cursor: if hand.len() > 0 && old.cursor < hand.len() - 1 { (old.cursor + 1) as usize } else { old.cursor },
                ..old
            }) && a is Nothing
        } else if k == Key::Char(' ') {
            &&& kept(old, new) && new.cursor == old.cursor && new.show_panel == old.show_panel
            &&& new.bid_mode == old.bid_mode && new.add_bot_mode == old.add_bot_mode && new.kick_mode == old.kick_mode
            &&& new.selected@ == if old.cursor < hand.len() { toggled(old.selected@, old.cursor) } else { old.selected@ }
            &&& a is Nothing
        } else if k == Key::Enter {
            if my_turn(old) && old.selected@.len() > 0 && old.game->0.stage == Stage::Playing {
                &&& kept(old, new) && new.cursor == old.cursor && new.show_panel == old.show_panel
                &&& new.bid_mode == old.bid_mode && new.add_bot_mode == old.add_bot_mode && new.kick_mode == old.kick_mode
                &&& new.selected@.len() == 0
                &&& is_move(a, old, ActionView::Play { cards: picked(hand, old.selected@) })
            } else {
                new == old && a is Nothing
            }
        } else if letter(k, 'p', 'P') {
            new == old && if my_turn(old) && old.game->0.stage == Stage::Playing {
                is_move(a, old, ActionView::Pass)
            } else {
                a is Nothing
            }
        } else {
            new == old && a is Nothing
        }
    }
}

/// The room action toggling this user's readiness.
fn ready_toggle(gs: &GameState) -> (a: KeyAction)
    ensures
        is_ready_toggle(a, *gs),
{
    let ready = match gs.my_ready_state() {
        Some(b) => b,
        None => false,
    };
    KeyAction::SendAction(Outgoing::Room(RoomActionData::ChangeReadyState(ReadyStateChange { is_ready: !ready })))
}

/// The cards of the hand at the selected indices that exist.
fn pick_cards(hand: &[Card], sel: &Vec<usize>) -> (v: Vec<Card>)
    ensures
        v@ == picked(hand@, sel@),
{
    let mut v: Vec<Card> = Vec::new();
    let n = sel.len();
    for i in 0..n
        invariant
            n == sel@.len(),
            v@ == picked(hand@, sel@.take(i as int)),
    {
        let ghost t = sel@.take(i + 1);
        assert(t.drop_last() =~= sel@.take(i as int));
        let j = sel[i];
        if j < hand.len() {
            v.push(hand[j]);
        }
        assert(v@ =~= picked(hand@, t));
    }
    assert(sel@.take(n as int) =~= sel@);
    v
}

/// Selects the card under the cursor, or unselects it.
fn toggle_selected(sel: &mut Vec<usize>, c: usize)
    ensures
        final(sel)@ == toggled(old(sel)@, c),
{
    let n = sel.len();
    for k in 0..n
        invariant
            n == sel@.len(),
            sel@ == old(sel)@,
            forall|j: int| 0 <= j < k ==> sel@[j] != c,
    {
        if sel[k] == c {
            proof {
                let s = old(sel)@;
                let kk = choose|m: int| 0 <= m < s.len() && s[m] == c && forall|j: int| 0 <= j < m ==> s[j] != c;
                assert(0 <= k < s.len() && s[k as int] == c && forall|j: int| 0 <= j < k ==> s[j] != c);
                if kk < k {
                    assert(s[kk] != c);
                }
                if kk > k {
                    assert(s[k as int] != c);
                }
            }
            sel.remove(k);
            return;
        }
    }
    sel.push(c);
}

/// What a key does on the table.
pub fn handle_game_key(gs: &mut GameState, key: Key) -> (a: KeyAction)
    ensures
        game_key_done(*old(gs), *final(gs), key, a),
{
    if key == Key::Char('q') || key == Key::Char('Q') || key == Key::Esc {
        if gs.bid_mode {
            gs.bid_mode = false;
            return KeyAction::Nothing;
        }
        if gs.add_bot_mode {
            gs.add_bot_mode = false;
            return KeyAction::Nothing;
        }
        if gs.kick_mode {
            gs.kick_mode = false;
            return KeyAction::Nothing;
        }
        return KeyAction::Disconnect;
    }
    if gs.bid_mode {
        gs.bid_mode = false;
        if let Key::Char(c) = key {
            if '0' <= c && c <= '3' {
                let score = ((c as u32) - ('0' as u32)) as u8;
                return KeyAction::SendAction(Outgoing::Game { action: Action::Bid { score }, ref_version: gs.version });
            }
        }
        return KeyAction::Nothing;
    }
    if gs.add_bot_mode {
        gs.add_bot_mode = false;
        if let Key::Char(c) = key {
            if '1' <= c && c <= '3' {
                let position = seat_of_digit(c);
                return KeyAction::SendAction(Outgoing::Room(RoomActionData::RoomManage(RoomManage::AddBot(AddBot { position, name: None }))));
            }
        }
        return KeyAction::Nothing;
    }
    if gs.kick_mode {
        gs.kick_mode = false;
        if let Key::Char(c) = key {
            if '1' <= c && c <= '3' {
                let pos = seat_of_digit(c);
                if let Some(room) = &gs.room {
                    if let Some(ps) = room.state.get_player_state(&pos) {
                        return KeyAction::SendAction(Outgoing::Room(RoomActionData::RoomManage(RoomManage::KickOut(KickOut { player: ps.player.id, reason: None }))));
                    }
                }
                return KeyAction::Nothing;
            }
        }
        return KeyAction::Nothing;
    }
    let finished = match &gs.game {
        Some(game) => game.stage == Stage::Finished,
        None => false,
    };
    if finished {
        if key == Key::Char('r') || key == Key::Char('R') {
            return ready_toggle(gs);
        }
        if key == Key::Char('s') || key == Key::Char('S') {
            return KeyAction::SendAction(Outgoing::Room(RoomActionData::RoomManage(RoomManage::StartGame)));
        }
        if key == Key::Enter {
            gs.game = None;
            gs.selected = Vec::new();
            gs.cursor = 0;
            gs.bid_mode = false;
            return KeyAction::Nothing;
        }
        if key == Key::Tab {
            gs.show_panel = !gs.show_panel;
        }
        return KeyAction::Nothing;
    }
    if gs.game.is_none() {
        if let Key::Char(c) = key {
            if '1' <= c && c <= '3' {
                let to = seat_of_digit(c);
                return KeyAction::SendAction(Outgoing::Room(RoomActionData::PositionChange(PositionChange {
                    from: RoomUserPosition::Observer(RoomObserverView::Neutral),
                    to: RoomUserPosition::Player(to),
                })));
            }
        }
        if key == Key::Char('a') || key == Key::Char('A') {
            gs.add_bot_mode = true;
        } else if key == Key::Char('k') || key == Key::Char('K') {
            gs.kick_mode = true;
        } else if key == Key::Char('r') || key == Key::Char('R') {
            return ready_toggle(gs);
        } else if key == Key::Char('s') || key == Key::Char('S') {
            return KeyAction::SendAction(Outgoing::Room(RoomActionData::RoomManage(RoomManage::StartGame)));
        }
        return KeyAction::Nothing;
    }
    let stage = match &gs.game {
        Some(game) => game.stage,
        None => Stage::Setup,
    };
    if key == Key::Tab {
        gs.show_panel = !gs.show_panel;
    } else if key == Key::Char('r') || key == Key::Char('R') {
        return ready_toggle(gs);
    } else if key == Key::Char('b') || key == Key::Char('B') {
        if stage == Stage::Bidding && gs.is_my_turn() {
            gs.bid_mode = true;
        }
    } else if key == Key::Left {
        if gs.cursor > 0 {
            gs.cursor = gs.cursor - 1;
        }
    } else if key == Key::Right {
        let hand_len = gs.my_hand().len();
        if hand_len > 0 && gs.cursor < hand_len - 1 {
            gs.cursor = gs.cursor + 1;
        }
    } else if key == Key::Char(' ') {
        let hand_len = gs.my_hand().len();
        if gs.cursor < hand_len {
            let c = gs.cursor;
            toggle_selected(&mut gs.selected, c);
        }
    } else if key == Key::Enter {
        if gs.is_my_turn() && gs.selected.len() > 0 && stage == Stage::Playing {
            let cards = pick_cards(gs.my_hand(), &gs.selected);
            gs.selected = Vec::new();
            return KeyAction::SendAction(Outgoing::Game { action: Action::Play { cards }, ref_version: gs.version });
        }
    } else if key == Key::Char('p') || key == Key::Char('P') {
        if gs.is_my_turn() && stage == Stage::Playing {
            return KeyAction::SendAction(Outgoing::Game { action: Action::Pass, ref_version: gs.version });
        }
    }
    KeyAction::Nothing
}

} // verus!

verus! {

/// A lobby field after a key: characters are typed at the end, Backspace removes the
/// last one; typing into or erasing the user id while an identity is selected drops the
/// identity and starts the id over.
pub open spec fn lobby_key_done(old: LobbyState, new: LobbyState, k: Key) -> bool {
    &&& new.error_message == old.error_message
    &&& match k {
        Key::Tab => new.focus == (old.focus + 1) % 2 && new.server_url == old.server_url
            && new.user_id == old.user_id && new.selected_identity == old.selected_identity,
        Key::BackTab => new.focus == (if old.focus == 0 { 1usize } else { 0usize }) && new.server_url
            == old.server_url && new.user_id == old.user_id && new.selected_identity == old.selected_identity,
        Key::Char(c) => new.focus == old.focus && if old.focus == 0 {
            new.server_url@ == old.server_url@.push(c) && new.user_id == old.user_id
                && new.selected_identity == old.selected_identity
        } else {
            new.server_url == old.server_url && new.selected_identity is None && new.user_id@ == (
            if old.selected_identity is Some { seq![c] } else { old.user_id@.push(c) })
        },
        Key::Backspace => new.focus == old.focus && if old.focus == 0 {
            new.server_url@ == (if old.server_url@.len() > 0 { old.server_url@.drop_last() } else { old.server_url@ })
                && new.user_id == old.user_id && new.selected_identity == old.selected_identity
        } else {
            new.server_url == old.server_url && new.selected_identity is None && new.user_id@ == (
            if old.selected_identity is Some {
                Seq::<char>::empty()
            } else if old.user_id@.len() > 0 {
                old.user_id@.drop_last()
            } else {
                old.user_id@
            })
        },
        _ => new == old,
    }
}

/// What a key does in the lobby's fields.
pub fn handle_lobby_key(lobby: &mut LobbyState, key: Key)
    requires
        old(lobby).focus < usize::MAX,
    ensures
        lobby_key_done(*old(lobby), *final(lobby), key),
{
    match key {
        Key::Tab => {
            lobby.focus = (lobby.focus + 1) % 2;
        },
        Key::BackTab => {
            lobby.focus = if lobby.focus == 0 {
                1
            } else {
                0
            };
        },
        Key::Char(c) => {
            if lobby.focus == 0 {
                push_char(&mut lobby.server_url, c);
            } else {
                if lobby.selected_identity.take().is_some() {
                    lobby.user_id = String::new();
                }
                push_char(&mut lobby.user_id, c);
            }
        },
        Key::Backspace => {
            if lobby.focus == 0 {
                pop_char(&mut lobby.server_url);
            } else {
                if lobby.selected_identity.take().is_some() {
                    lobby.user_id = String::new();
                } else {
                    pop_char(&mut lobby.user_id);
                }
            }
        },
        _ => {},
    }
}

/// The profile of a saved identity: its nickname, its user id as standard base64, and
/// where it is saved.
pub fn to_profile(path: String, key_pair: &crate::identity::KeyPair) -> (p: IdentityProfile)
    ensures
        p.nickname == key_pair.owner().nickname,
        p.user_id@ == crate::basic::user::base64_text(crate::identity::ed25519_public(key_pair.secret())),
        p.path == path,
{
    let id = key_pair.user_id();
    IdentityProfile { nickname: key_pair.user().nickname.clone(), user_id: id.to_base64(), path }
}

/// Profile `a` comes before profile `b`: by nickname, then by user id.
pub open spec fn profile_lt(a: IdentityProfile, b: IdentityProfile) -> bool {
    crate::basic::room::name_lt(a.nickname@, b.nickname@) || (a.nickname@ == b.nickname@
        && crate::basic::room::name_lt(a.user_id@, b.user_id@))
}

/// `x` put into `s` before the first profile that comes after it.
pub open spec fn insert_profile(s: Seq<IdentityProfile>, x: IdentityProfile) -> Seq<IdentityProfile>
    decreases s.len(),
{
    if s.len() == 0 {
        seq![x]
    } else if profile_lt(x, s[0]) {
        seq![x] + s
    } else {
        seq![s[0]] + insert_profile(s.drop_first(), x)
    }
}

/// The profiles sorted by nickname and user id, stably.
pub open spec fn sort_profiles(s: Seq<IdentityProfile>) -> Seq<IdentityProfile>
    decreases s.len(),
{
    if s.len() == 0 {
        seq![]
    } else {
        insert_profile(sort_profiles(s.drop_last()), s.last())
    }
}

proof fn lemma_insert_profile_at(s: Seq<IdentityProfile>, x: IdentityProfile, p: int)
    requires
        0 <= p <= s.len(),
        forall|q: int| 0 <= q < p ==> !profile_lt(x, #[trigger] s[q]),
        p < s.len() ==> profile_lt(x, s[p]),
    ensures
        insert_profile(s, x) == s.insert(p, x),
    decreases s.len(),
{
    if s.len() == 0 {
        assert(s.insert(p, x) =~= seq![x]);
    } else if p == 0 {
        assert(s.insert(p, x) =~= seq![x] + s);
    } else {
        let t = s.drop_first();
        assert forall|q: int| 0 <= q < p - 1 implies !profile_lt(x, #[trigger] t[q]) by {
            assert(t[q] == s[q + 1]);
        }
        lemma_insert_profile_at(t, x, p - 1);
        assert(seq![s[0]] + t.insert(p - 1, x) =~= s.insert(p, x));
    }
}

impl IdentityProfile {
    /// A copy of the profile.
    pub fn copy(&self) -> (r: IdentityProfile)
        ensures
            r == *self,
    {
        IdentityProfile { nickname: self.nickname.clone(), user_id: self.user_id.clone(), path: self.path.clone() }
    }
}

/// Whether profile `a` comes before profile `b`.
fn profile_less(a: &IdentityProfile, b: &IdentityProfile) -> (r: bool)
    ensures
        r == profile_lt(*a, *b),
{
    if crate::basic::room::name_less(a.nickname.as_str(), b.nickname.as_str()) {
        return true;
    }
    a.nickname == b.nickname && crate::basic::room::name_less(a.user_id.as_str(), b.user_id.as_str())
}

/// The profiles sorted by nickname and user id, stably.
pub fn sorted_profiles(profiles: Vec<IdentityProfile>) -> (r: Vec<IdentityProfile>)
    ensures
        r@ == sort_profiles(profiles@),
{
    let mut out: Vec<IdentityProfile> = Vec::new();
    let n = profiles.len();
    for i in 0..n
        invariant
            n == profiles@.len(),
            out@ == sort_profiles(profiles@.take(i as int)),
    {
        let x = profiles[i].copy();
        let m = out.len();
        let mut j: usize = 0;
        let mut found = false;
        while j < m && !found
            invariant
                m == out@.len(),
                j <= m,
                x == profiles@[i as int],
                forall|q: int| 0 <= q < j ==> !profile_lt(x, #[trigger] out@[q]),
                found ==> j < m && profile_lt(x, out@[j as int]),
            decreases m - j + if found { 0int } else { 1int },
        {
            if profile_less(&x, &out[j]) {
                found = true;
            } else {
                j = j + 1;
            }
        }
        proof {
            lemma_insert_profile_at(out@, x, j as int);
            let t = profiles@.take(i + 1);
            assert(t.drop_last() =~= profiles@.take(i as int));
            assert(t.last() == x);
        }
        out.insert(j, x);
    }
    assert(profiles@.take(n as int) =~= profiles@);
    out
}

/// The identity chosen when none is: the first by nickname and user id.
pub open spec fn first_profile(profiles: Seq<IdentityProfile>) -> Option<IdentityProfile> {
    if profiles.len() > 0 {
        Some(sort_profiles(profiles)[0])
    } else {
        None
    }
}

proof fn lemma_sort_profiles_len(s: Seq<IdentityProfile>)
    ensures
        sort_profiles(s).len() == s.len(),
    decreases s.len(),
{
    if s.len() > 0 {
        lemma_sort_profiles_len(s.drop_last());
        lemma_insert_profile_len(sort_profiles(s.drop_last()), s.last());
    }
}

proof fn lemma_insert_profile_len(s: Seq<IdentityProfile>, x: IdentityProfile)
    ensures
        insert_profile(s, x).len() == s.len() + 1,
    decreases s.len(),
{
    if s.len() > 0 && !profile_lt(x, s[0]) {
        lemma_insert_profile_len(s.drop_first(), x);
    }
}

/// The identity chosen when none is, among the saved ones.
pub fn default_identity(profiles: Vec<IdentityProfile>) -> (r: Option<IdentityProfile>)
    ensures
        r == first_profile(profiles@),
{
    let sorted = sorted_profiles(profiles);
    proof {
        lemma_sort_profiles_len(profiles@);
    }
    if sorted.len() > 0 {
        Some(sorted[0].copy())
    } else {
        None
    }
}

/// A lobby for `server_url` with the default identity selected, if there is one.
pub fn make_lobby_state(server_url: String, error_message: Option<String>, profiles: Vec<IdentityProfile>) -> (l: LobbyState)
    ensures
        l.server_url == server_url,
        l.error_message == error_message,
        l.focus == 0,
        l.selected_identity == first_profile(profiles@),
        l.user_id@ == match first_profile(profiles@) {
            Some(p) => p.user_id@,
            None => Seq::<char>::empty(),
        },
{
    let selected_identity = default_identity(profiles);
    let user_id = match &selected_identity {
        Some(p) => p.user_id.clone(),
        None => String::new(),
    };
    LobbyState { server_url, user_id, focus: 0, error_message, selected_identity }
}

} // verus!

verus! {

/// The screen being shown.
#[derive(Debug)]
pub enum Screen {
    Lobby(LobbyState),
    Connecting,
    Game(GameState),
    /// Connecting again after the connection was lost in a game; the table stays shown.
    Reconnecting(ReconnectingState),
    UserManager(UserManagerState),
}

/// Connecting again after the connection was lost.
#[derive(Debug)]
pub struct ReconnectingState {
    pub game_state: GameState,
    pub server_url: String,
    pub room_path: String,
    pub attempts: u32,
    pub max_attempts: u32,
    pub last_error: Option<String>,
}

/// The user manager: the saved identities, the one under the cursor, and what it is
/// doing; it returns to the screen it was opened from.
#[derive(Debug)]
pub struct UserManagerState {
    pub profiles: Vec<IdentityProfile>,
    pub selected: usize,
    pub input: String,
    pub mode: UserManagerMode,
    pub error_message: Option<String>,
    pub previous_screen: Box<Screen>,
}

/// The previous screen with the profile chosen: a lobby gets it as its identity.
pub open spec fn with_identity(prev: Screen, p: IdentityProfile) -> Screen {
    match prev {
        Screen::Lobby(l) => Screen::Lobby(LobbyState { selected_identity: Some(p), user_id: p.user_id, ..l }),
        _ => prev,
    }
}

/// Only the mode, the input and the message may have changed.
pub open spec fn um_kept(old: UserManagerState, new: UserManagerState) -> bool {
    &&& new.profiles == old.profiles
    &&& new.selected == old.selected
    &&& new.previous_screen == old.previous_screen
}

/// What a key does in the user manager. Browsing: Esc goes back, the arrows move, Enter
/// chooses the identity (a lobby takes it) and goes back, N starts a new identity, D asks
/// to delete the one under the cursor, R loads the identities again. Creating: Esc drops
/// it, Enter creates an identity under the typed nickname without its surrounding
/// spaces (asking again when none is left), other keys edit the nickname. Deleting: Esc
/// or N drops it, Enter or Y deletes.
pub open spec fn um_key_done(old: UserManagerState, new: UserManagerState, k: Key, next: Option<Screen>, a: KeyAction) -> bool {
    match old.mode {
        UserManagerMode::Browse => if k == Key::Esc {
            next == Some(*old.previous_screen) && a is Nothing
        } else if k == Key::Up {
            new == (UserManagerState { selected: if old.selected > 0 { (old.selected - 1) as usize } else { old.selected }, ..old })
                && next is None && a is Nothing
        } else if k == Key::Down {
            new == (UserManagerState {
                selected: if old.selected + 1 < old.profiles@.len() { (old.selected + 1) as usize } else { old.selected },
                ..old
            }) && next is None && a is Nothing
        } else if k == Key::Enter {
            if old.selected < old.profiles@.len() {
                next == Some(with_identity(*old.previous_screen, old.profiles@[old.selected as int])) && a is Nothing
            } else {
                new == old && next is None && a is Nothing
            }
        } else if letter(k, 'n', 'N') {
            um_kept(old, new) && new.mode == UserManagerMode::Create && new.input@.len() == 0 && new.error_message is None
                && next is None && a is Nothing
        } else if letter(k, 'd', 'D') {
            new == (UserManagerState {
                mode: if old.profiles@.len() > 0 { UserManagerMode::DeleteConfirm } else { old.mode },
                ..old
            }) && next is None && a is Nothing
        } else if letter(k, 'r', 'R') {
            new == old && next is None && a is ReloadIdentities
        } else {
            new == old && next is None && a is Nothing
        },
        UserManagerMode::Create => if k == Key::Esc {
            um_kept(old, new) && new.mode == UserManagerMode::Browse && new.input@.len() == 0
                && new.error_message == old.error_message && next is None && a is Nothing
        } else if k == Key::Enter {
            new == old && next is None && if trimmed(old.input@).len() == 0 {
                a is NicknameRequired
            } else {
                a matches KeyAction::CreateIdentity(n) && n@ == trimmed(old.input@)
            }
        } else if k == Key::Backspace {
            um_kept(old, new) && new.mode == old.mode && new.error_message == old.error_message
                && new.input@ == (if old.input@.len() > 0 { old.input@.drop_last() } else { old.input@ })
                && next is None && a is Nothing
        } else if k is Char {
            um_kept(old, new) && new.mode == old.mode && new.error_message == old.error_message
                && new.input@ == old.input@.push(k->Char_0) && next is None && a is Nothing
        } else {
            new == old && next is None && a is Nothing
        },
        UserManagerMode::DeleteConfirm => if k == Key::Esc || letter(k, 'n', 'N') {
            new == (UserManagerState { mode: UserManagerMode::Browse, ..old }) && next is None && a is Nothing
        } else if k == Key::Enter || letter(k, 'y', 'Y') {
            if old.selected < old.profiles@.len() {
                new == old && next is None && (a matches KeyAction::DeleteIdentity(p) && p
                    == old.profiles@[old.selected as int].path)
            } else {
                new == (UserManagerState { mode: UserManagerMode::Browse, ..old }) && next is None && a is Nothing
            }
        } else {
            new == old && next is None && a is Nothing
        },
    }
}

/// Takes the previous screen out of the user manager, leaving a placeholder.
fn take_previous(um: &mut UserManagerState) -> (s: Screen)
    ensures
        s == *old(um).previous_screen,
{
    let mut tmp = Box::new(Screen::Connecting);
    std::mem::swap(&mut tmp, &mut um.previous_screen);
    *tmp
}

/// What a key does in the user manager; the screen to go to, if it is left.
pub fn handle_user_manager_key(um: &mut UserManagerState, key: Key) -> (r: (Option<Screen>, KeyAction))
    requires
        old(um).selected < usize::MAX,
    ensures
        um_key_done(*old(um), *final(um), key, r.0, r.1),
{
    match um.mode {
        UserManagerMode::Browse => {
            if key == Key::Esc {
                let prev = take_previous(um);
                return (Some(prev), KeyAction::Nothing);
            } else if key == Key::Up {
                if um.selected > 0 {
                    um.selected = um.selected - 1;
                }
            } else if key == Key::Down {
                if um.selected + 1 < um.profiles.len() {
                    um.selected = um.selected + 1;
                }
            } else if key == Key::Enter {
                if um.selected < um.profiles.len() {
                    let profile = um.profiles[um.selected].copy();
                    let prev = take_previous(um);
                    let next = match prev {
                        Screen::Lobby(lobby) => {
                            let user_id = profile.user_id.clone();
                            Screen::Lobby(LobbyState { selected_identity: Some(profile), user_id, ..lobby })
                        },
                        other => other,
                    };
                    return (Some(next), KeyAction::Nothing);
                }
            } else if key == Key::Char('n') || key == Key::Char('N') {
                um.mode = UserManagerMode::Create;
                um.input = String::new();
                um.error_message = None;
            } else if key == Key::Char('d') || key == Key::Char('D') {
                if um.profiles.len() > 0 {
                    um.mode = UserManagerMode::DeleteConfirm;
                }
            } else if key == Key::Char('r') || key == Key::Char('R') {
                return (None, KeyAction::ReloadIdentities);
            }
            (None, KeyAction::Nothing)
        },
        UserManagerMode::Create => {
            if key == Key::Esc {
                um.mode = UserManagerMode::Browse;
                um.input = String::new();
            } else if key == Key::Enter {
                let nickname = trim_text(um.input.as_str());
                if nickname.unicode_len() == 0 {
                    return (None, KeyAction::NicknameRequired);
                }
                return (None, KeyAction::CreateIdentity(String::from_str(nickname)));
            } else if key == Key::Backspace {
                pop_char(&mut um.input);
            } else if let Key::Char(c) = key {
                push_char(&mut um.input, c);
            }
            (None, KeyAction::Nothing)
        },
        UserManagerMode::DeleteConfirm => {
            if key == Key::Esc || key == Key::Char('n') || key == Key::Char('N') {
                um.mode = UserManagerMode::Browse;
            } else if key == Key::Enter || key == Key::Char('y') || key == Key::Char('Y') {
                if um.selected < um.profiles.len() {
                    return (None, KeyAction::DeleteIdentity(um.profiles[um.selected].path.clone()));
                }
                um.mode = UserManagerMode::Browse;
            }
            (None, KeyAction::Nothing)
        },
    }
}

/// Profile `k` is the first with the user id `uid`.
pub open spec fn is_first_with_id(s: Seq<IdentityProfile>, uid: Seq<char>, k: int) -> bool {
    &&& 0 <= k < s.len()
    &&& s[k].user_id@ == uid
    &&& forall|j: int| 0 <= j < k ==> (#[trigger] s[j]).user_id@ != uid
}

/// The index of the first profile with the user id `uid`, or 0 when there is none.
pub open spec fn first_with_id(s: Seq<IdentityProfile>, uid: Seq<char>) -> int {
    if exists|k: int| is_first_with_id(s, uid, k) {
        choose|k: int| is_first_with_id(s, uid, k)
    } else {
        0
    }
}

impl UserManagerState {
    /// Shows a message, such as a request to type a nickname.
    pub fn set_error(&mut self, msg: String)
        ensures
            *final(self) == (UserManagerState { error_message: Some(msg), ..*old(self) }),
    {
        self.error_message = Some(msg);
    }

    /// Takes the identities loaded again: the cursor stays, or moves to the last one;
    /// a failure to load is shown and nothing else changes.
    pub fn identities_reloaded(&mut self, r: Result<Vec<IdentityProfile>, String>)
        ensures
            match r {
                Ok(p) => final(self).profiles@ == p@ && final(self).error_message is None
                    && final(self).selected == (if old(self).selected < p@.len() { old(self).selected as int } else if p@.len() > 0 { p@.len() - 1 } else { 0 })
                    && final(self).mode == old(self).mode && final(self).input == old(self).input
                    && final(self).previous_screen == old(self).previous_screen,
                Err(e) => *final(self) == (UserManagerState { error_message: Some(e), ..*old(self) }),
            },
    {
        match r {
            Ok(profiles) => {
                self.profiles = profiles;
                let last = if self.profiles.len() > 0 {
                    self.profiles.len() - 1
                } else {
                    0
                };
                if self.selected > last {
                    self.selected = last;
                }
                self.error_message = None;
            },
            Err(e) => {
                self.error_message = Some(e);
            },
        }
    }

    /// Takes the identity just created: it joins the list, sorted by nickname and user
    /// id, the cursor goes to it, and browsing resumes; a failure is shown.
    pub fn identity_created(&mut self, r: Result<IdentityProfile, String>)
        ensures
            match r {
                Ok(p) => {
                    let s = sort_profiles(old(self).profiles@.push(p));
                    &&& final(self).profiles@ == s
                    &&& final(self).selected == first_with_id(s, p.user_id@)
                    &&& final(self).mode == UserManagerMode::Browse
                    &&& final(self).input@.len() == 0
                    &&& final(self).error_message is None
                    &&& final(self).previous_screen == old(self).previous_screen
                },
                Err(e) => *final(self) == (UserManagerState { error_message: Some(e), ..*old(self) }),
            },
    {
        match r {
            Ok(profile) => {
                let new_user_id = profile.user_id.clone();
                let mut profiles: Vec<IdentityProfile> = Vec::new();
                std::mem::swap(&mut profiles, &mut self.profiles);
                profiles.push(profile);
                self.profiles = sorted_profiles(profiles);
                let mut pos: usize = 0;
                let n = self.profiles.len();
                let mut k: usize = 0;
                let mut found = false;
                while k < n && !found
                    invariant
                        n == self.profiles@.len(),
                        k <= n,
                        found ==> k < n && is_first_with_id(self.profiles@, new_user_id@, k as int),
                        !found ==> forall|j: int| 0 <= j < k ==> (#[trigger] self.profiles@[j]).user_id@ != new_user_id@,
                    decreases n - k + if found { 0int } else { 1int },
                {
                    if self.profiles[k].user_id == new_user_id {
                        found = true;
                    } else {
                        k = k + 1;
                    }
                }
                if found {
                    pos = k;
                }
                proof {
                    let s = self.profiles@;
                    if found {
                        assert forall|m: int| is_first_with_id(s, new_user_id@, m) implies m == k by {
                            if m < k {
                                assert(s[m].user_id@ != new_user_id@);
                            }
                            if m > k {
                                assert(s[k as int].user_id@ != new_user_id@);
                            }
                        }
                    } else {
                        assert forall|m: int| !is_first_with_id(s, new_user_id@, m) by {
                            if 0 <= m < n {
                                assert(s[m].user_id@ != new_user_id@);
                            }
                        }
                    }
                }
                self.selected = pos;
                self.mode = UserManagerMode::Browse;
                self.input = String::new();
                self.error_message = None;
            },
            Err(e) => {
                self.error_message = Some(e);
            },
        }
    }
}

} // verus!

verus! {

impl UserManagerState {
    /// Takes the result of deleting the identity under the cursor: on success it leaves the
    /// list (a lobby that had it selected drops it), the cursor stays in the list, and
    /// browsing resumes; a failure is shown.
    pub fn identity_deleted(&mut self, r: Result<(), String>)
        requires
            old(self).selected < old(self).profiles@.len(),
        ensures
            match r {
                Ok(_) => {
                    let s = old(self).profiles@.remove(old(self).selected as int);
                    let uid = old(self).profiles@[old(self).selected as int].user_id@;
                    &&& final(self).profiles@ == s
                    &&& final(self).selected == (if old(self).selected >= s.len() && s.len() > 0 { s.len() - 1 } else { old(self).selected as int })
                    &&& final(self).mode == UserManagerMode::Browse
                    &&& final(self).error_message is None
                    &&& final(self).input == old(self).input
                    &&& match *old(self).previous_screen {
                        Screen::Lobby(l) => if l.selected_identity matches Some(p) && p.user_id@ == uid {
                            *final(self).previous_screen matches Screen::Lobby(l2) && l2.selected_identity is None
                                && l2.user_id@.len() == 0 && l2.server_url == l.server_url && l2.focus == l.focus
                                && l2.error_message == l.error_message
                        } else {
                            final(self).previous_screen == old(self).previous_screen
                        },
                        _ => final(self).previous_screen == old(self).previous_screen,
                    }
                },
                Err(e) => *final(self) == (UserManagerState { error_message: Some(e), ..*old(self) }),
            },
    {
        match r {
            Ok(_) => {
                let deleted_user_id = self.profiles[self.selected].user_id.clone();
                self.profiles.remove(self.selected);
                let mut prev = Box::new(Screen::Connecting);
                std::mem::swap(&mut prev, &mut self.previous_screen);
                let prev = match *prev {
                    Screen::Lobby(lobby) => {
                        let drop = match &lobby.selected_identity {
                            Some(p) => p.user_id == deleted_user_id,
                            None => false,
                        };
                        if drop {
                            Screen::Lobby(LobbyState { selected_identity: None, user_id: String::new(), ..lobby })
                        } else {
                            Screen::Lobby(lobby)
                        }
                    },
                    other => other,
                };
                self.previous_screen = Box::new(prev);
                if self.selected >= self.profiles.len() && self.profiles.len() > 0 {
                    self.selected = self.profiles.len() - 1;
                }
                self.mode = UserManagerMode::Browse;
                self.error_message = None;
            },
            Err(e) => {
                self.error_message = Some(e);
            },
        }
    }
}

/// The client's state.
#[derive(Debug)]
pub struct App {
    pub screen: Screen,
    /// The user id of the connection being made.
    pub pending_user_id: Option<String>,
    /// The key file of the connection being made.
    pub pending_key_file: Option<String>,
    /// The nickname of the connection being made.
    pub pending_nickname: Option<String>,
    /// The key file of the current session, for reconnecting.
    pub current_key_file: Option<String>,
    /// The nickname of the current session, for reconnecting.
    pub current_nickname: Option<String>,
    pub log_mode: LogMode,
    /// How far the full-screen log is scrolled back from the latest entry.
    pub log_scroll: usize,
}

/// The log panel mode after F12: off, then at the bottom, then full screen, then off.
pub open spec fn next_log_mode(m: LogMode) -> LogMode {
    match m {
        LogMode::Off => LogMode::Panel,
        LogMode::Panel => LogMode::Fullscreen,
        LogMode::Fullscreen => LogMode::Off,
    }
}

/// Everything but the screen is kept.
pub open spec fn app_kept(old: App, new: App) -> bool {
    &&& new.pending_user_id == old.pending_user_id
    &&& new.pending_key_file == old.pending_key_file
    &&& new.pending_nickname == old.pending_nickname
    &&& new.current_key_file == old.current_key_file
    &&& new.current_nickname == old.current_nickname
    &&& new.log_mode == old.log_mode
    &&& new.log_scroll == old.log_scroll
}

/// The key presses the client can take without overflow.
pub open spec fn keys_ok(app: App) -> bool {
    match app.screen {
        Screen::Lobby(l) => l.focus < usize::MAX,
        Screen::UserManager(um) => um.selected < usize::MAX,
        _ => true,
    }
}

/// What a key press does. Ctrl+C quits; Ctrl+U opens the user manager; F12 cycles the log
/// panel; the full-screen log takes Esc (close), the arrows, Home and End (scroll) and
/// nothing else. Otherwise the screen takes the key: the lobby connects on Enter when both
/// fields are filled and edits them on other keys; Esc or Q cancels connecting; the table
/// and the user manager act as `game_key_done` and `um_key_done` say.
pub open spec fn app_key_done(old: App, new: App, key: KeyPress, log_len: usize, a: KeyAction) -> bool {
    let k = key.key;
    if key.ctrl && k == Key::Char('c') {
        new == old && a is Quit
    } else if key.ctrl && k == Key::Char('u') {
        new == old && if old.screen is UserManager {
            a is Nothing
        } else {
            a is OpenUserManager
        }
    } else if k == Key::F(12) {
        new == (App { log_mode: next_log_mode(old.log_mode), log_scroll: 0, ..old }) && a is Nothing
    } else if old.log_mode == LogMode::Fullscreen {
        &&& a is Nothing
        &&& match k {
            Key::Esc => new == (App { log_mode: LogMode::Off, log_scroll: 0, ..old }),
            Key::Up => new == (App { log_scroll: if old.log_scroll < usize::MAX { (old.log_scroll + 1) as usize } else { old.log_scroll }, ..old }),
            Key::Down => new == (App { log_scroll: if old.log_scroll > 0 { (old.log_scroll - 1) as usize } else { 0 }, ..old }),
            Key::Home => new == (App { log_scroll: if log_len > 0 { (log_len - 1) as usize } else { 0 }, ..old }),
            Key::End => new == (App { log_scroll: 0, ..old }),
            _ => new == old,
        }
    } else {
        &&& app_kept(old, new)
        &&& match old.screen {
            Screen::Lobby(l) => if k == Key::Enter {
                new == old && if l.server_url@.len() > 0 && l.user_id@.len() > 0 {
                    a is Connect
                } else {
                    a is Nothing
                }
            } else {
                (new.screen matches Screen::Lobby(l2) && lobby_key_done(l, l2, k)) && a is Nothing
            },
            Screen::Connecting | Screen::Reconnecting(_) => new == old && if k == Key::Esc || letter(k, 'q', 'Q') {
                a is Disconnect
            } else {
                a is Nothing
            },
            Screen::Game(gs) => new.screen matches Screen::Game(g2) && game_key_done(gs, g2, k, a),
            Screen::UserManager(um) => exists|um2: UserManagerState, next: Option<Screen>|
                um_key_done(um, um2, k, next, a) && new.screen == match next {
                    Some(s) => s,
                    None => Screen::UserManager(um2),
                },
        }
    }
}

impl App {
    /// The client at the lobby for `server_url`: with the given user id, or else the
    /// default identity's.
    pub fn new(server_url: String, user_id: Option<String>, default_profile: Option<IdentityProfile>) -> (a: App)
        ensures
            a.screen matches Screen::Lobby(l) && l.server_url == server_url && l.focus == 0
                && l.error_message is None && match user_id {
                    Some(u) => l.user_id == u && l.selected_identity is None,
                    None => match default_profile {
                        Some(p) => l.user_id == p.user_id && l.selected_identity == Some(p),
                        None => l.user_id@.len() == 0 && l.selected_identity is None,
                    },
                },
            a.pending_user_id is None && a.pending_key_file is None && a.pending_nickname is None,
            a.current_key_file is None && a.current_nickname is None,
            a.log_mode == LogMode::Off,
            a.log_scroll == 0,
    {
        let (selected_identity, user_id_value) = match user_id {
            Some(uid) => (None, uid),
            None => match default_profile {
                Some(profile) => {
                    let uid = profile.user_id.clone();
                    (Some(profile), uid)
                },
                None => (None, String::new()),
            },
        };
        App {
            screen: Screen::Lobby(LobbyState {
                server_url,
                user_id: user_id_value,
                focus: 0,
                error_message: None,
                selected_identity,
            }),
            pending_user_id: None,
            pending_key_file: None,
            pending_nickname: None,
            current_key_file: None,
            current_nickname: None,
            log_mode: LogMode::Off,
            log_scroll: 0,
        }
    }

    /// What a key press does; `log_len` is the number of log entries held.
    pub fn handle_key(&mut self, key: KeyPress, log_len: usize) -> (a: KeyAction)
        requires
            keys_ok(*old(self)),
        ensures
            app_key_done(*old(self), *final(self), key, log_len, a),
    {
        if key.ctrl && key.key == Key::Char('c') {
            return KeyAction::Quit;
        }
        if key.ctrl && key.key == Key::Char('u') {
            if let Screen::UserManager(_) = &self.screen {
                return KeyAction::Nothing;
            }
            return KeyAction::OpenUserManager;
        }
        if key.key == Key::F(12) {
            self.log_mode = match self.log_mode {
                LogMode::Off => LogMode::Panel,
                LogMode::Panel => LogMode::Fullscreen,
                LogMode::Fullscreen => LogMode::Off,
            };
            self.log_scroll = 0;
            return KeyAction::Nothing;
        }
        if self.log_mode == LogMode::Fullscreen {
            match key.key {
                Key::Esc => {
                    self.log_mode = LogMode::Off;
                    self.log_scroll = 0;
                },
                Key::Up => {
                    if self.log_scroll < usize::MAX {
                        self.log_scroll = self.log_scroll + 1;
                    }
                },
                Key::Down => {
                    if self.log_scroll > 0 {
                        self.log_scroll = self.log_scroll - 1;
                    }
                },
                Key::Home => {
                    self.log_scroll = if log_len > 0 {
                        log_len - 1
                    } else {
                        0
                    };
                },
                Key::End => {
                    self.log_scroll = 0;
                },
                _ => {},
            }
            return KeyAction::Nothing;
        }
        let mut screen = Screen::Connecting;
        std::mem::swap(&mut screen, &mut self.screen);
        let (next, action) = match screen {
            Screen::Lobby(mut lobby) => {
                if key.key == Key::Enter {
                    let ready = lobby.server_url.unicode_len() > 0 && lobby.user_id.unicode_len() > 0;
                    (Screen::Lobby(lobby), if ready {
                        KeyAction::Connect
                    } else {
                        KeyAction::Nothing
                    })
                } else {
                    handle_lobby_key(&mut lobby, key.key);
                    (Screen::Lobby(lobby), KeyAction::Nothing)
                }
            },
            Screen::Connecting => {
                let a = if key.key == Key::Esc || key.key == Key::Char('q') || key.key == Key::Char('Q') {
                    KeyAction::Disconnect
                } else {
                    KeyAction::Nothing
                };
                (Screen::Connecting, a)
            },
            Screen::Reconnecting(rs) => {
                let a = if key.key == Key::Esc || key.key == Key::Char('q') || key.key == Key::Char('Q') {
                    KeyAction::Disconnect
                } else {
                    KeyAction::Nothing
                };
                (Screen::Reconnecting(rs), a)
            },
            Screen::Game(mut gs) => {
                let a = handle_game_key(&mut gs, key.key);
                (Screen::Game(gs), a)
            },
            Screen::UserManager(mut um) => {
                let (next, a) = handle_user_manager_key(&mut um, key.key);
                let s = match next {
                    Some(s) => s,
                    None => Screen::UserManager(um),
                };
                (s, a)
            },
        };
        self.screen = next;
        action
    }

    /// Opens the user manager over the current screen with the loaded identities; the
    /// cursor starts on the lobby's selected identity, if listed, else on the first.
    pub fn open_user_manager(&mut self, profiles: Vec<IdentityProfile>)
        ensures
            final(self).screen matches Screen::UserManager(um) && um.profiles == profiles
                && *um.previous_screen == old(self).screen && um.mode == UserManagerMode::Browse
                && um.input@.len() == 0 && um.error_message is None
                && um.selected == match old(self).screen {
                    Screen::Lobby(l) => match l.selected_identity {
                        Some(p) => first_with_id(profiles@, p.user_id@),
                        None => 0,
                    },
                    _ => 0,
                },
            app_kept(*old(self), *final(self)),
    {
        let uid: Option<String> = match &self.screen {
            Screen::Lobby(lobby) => match &lobby.selected_identity {
                Some(p) => Some(p.user_id.clone()),
                None => None,
            },
            _ => None,
        };
        let mut selected: usize = 0;
        if let Some(u) = uid {
            let n = profiles.len();
            let mut k: usize = 0;
            let mut found = false;
            while k < n && !found
                invariant
                    n == profiles@.len(),
                    k <= n,
                    found ==> k < n && is_first_with_id(profiles@, u@, k as int),
                    !found ==> forall|j: int| 0 <= j < k ==> (#[trigger] profiles@[j]).user_id@ != u@,
                decreases n - k + if found { 0int } else { 1int },
            {
                if profiles[k].user_id == u {
                    found = true;
                } else {
                    k = k + 1;
                }
            }
            proof {
                let s = profiles@;
                if found {
                    assert forall|m: int| is_first_with_id(s, u@, m) implies m == k by {
                        if m < k {
                            assert(s[m].user_id@ != u@);
                        }
                        if m > k {
                            assert(s[k as int].user_id@ != u@);
                        }
                    }
                } else {
                    assert forall|m: int| !is_first_with_id(s, u@, m) by {
                        if 0 <= m < n {
                            assert(s[m].user_id@ != u@);
                        }
                    }
                }
            }
            if found {
                selected = k;
            }
        }
        let mut previous = Screen::Connecting;
        std::mem::swap(&mut previous, &mut self.screen);
        self.screen = Screen::UserManager(UserManagerState {
            profiles,
            selected,
            input: String::new(),
            mode: UserManagerMode::Browse,
            error_message: None,
            previous_screen: Box::new(previous),
        });
    }

    /// Moves from the lobby to connecting, when both fields are filled: remembers the
    /// user id and the selected identity's nickname and key file, and returns the server
    /// address and the user id.
    pub fn start_connect(&mut self) -> (r: Option<(String, String)>)
        ensures
            match old(self).screen {
                Screen::Lobby(l) => if l.server_url@.len() > 0 && l.user_id@.len() > 0 {
                    &&& r matches Some(p) && p.0 == l.server_url && p.1 == l.user_id
                    &&& final(self).screen is Connecting
                    &&& final(self).pending_user_id == Some(l.user_id)
                    &&& final(self).pending_nickname == match l.selected_identity { Some(p) => Some(p.nickname), None => None }
                    &&& final(self).pending_key_file == match l.selected_identity { Some(p) => Some(p.path), None => None }
                    &&& final(self).current_key_file == old(self).current_key_file
                    &&& final(self).current_nickname == old(self).current_nickname
                    &&& final(self).log_mode == old(self).log_mode && final(self).log_scroll == old(self).log_scroll
                } else {
                    r is None && *final(self) == *old(self)
                },
                _ => r is None && *final(self) == *old(self),
            },
    {
        let (url, uid, nick, key_file) = match &self.screen {
            Screen::Lobby(lobby) => {
                if lobby.server_url.unicode_len() == 0 || lobby.user_id.unicode_len() == 0 {
                    return None;
                }
                let nick = match &lobby.selected_identity {
                    Some(p) => Some(p.nickname.clone()),
                    None => None,
                };
                let key_file = match &lobby.selected_identity {
                    Some(p) => Some(p.path.clone()),
                    None => None,
                };
                (lobby.server_url.clone(), lobby.user_id.clone(), nick, key_file)
            },
            _ => return None,
        };
        self.pending_user_id = Some(uid.clone());
        self.pending_nickname = nick;
        self.pending_key_file = key_file;
        self.screen = Screen::Connecting;
        Some((url, uid))
    }

    /// The connection is open: the table is shown for the pending user id, and the
    /// pending key file and nickname become the session's.
    pub fn connected(&mut self)
        ensures
            match old(self).pending_user_id {
                Some(u) => final(self).screen matches Screen::Game(gs) && gs.my_user_id@ == u@ && gs.game is None
                    && gs.room is None && gs.version == 0 && gs.my_index is None,
                None => final(self).screen == old(self).screen,
            },
            final(self).pending_user_id is None,
            final(self).current_key_file == old(self).pending_key_file,
            final(self).current_nickname == old(self).pending_nickname,
            final(self).pending_key_file is None,
            final(self).pending_nickname is None,
            final(self).log_mode == old(self).log_mode && final(self).log_scroll == old(self).log_scroll,
    {
        if let Some(user_id) = self.pending_user_id.take() {
            self.screen = Screen::Game(GameState::new(user_id.as_str()));
        }
        self.current_key_file = self.pending_key_file.take();
        self.current_nickname = self.pending_nickname.take();
    }

    /// The connection failed: back to the lobby (with the default identity among
    /// `profiles`) showing the error; nothing pending or current is kept.
    pub fn connection_failed(&mut self, error: String, profiles: Vec<IdentityProfile>)
        ensures
            final(self).screen matches Screen::Lobby(l) && l.error_message == Some(error) && l.server_url@.len() == 0
                && l.focus == 0 && l.selected_identity == first_profile(profiles@),
            final(self).pending_user_id is None && final(self).pending_key_file is None && final(self).pending_nickname is None,
            final(self).current_key_file is None && final(self).current_nickname is None,
            final(self).log_mode == old(self).log_mode && final(self).log_scroll == old(self).log_scroll,
    {
        self.pending_user_id = None;
        self.pending_key_file = None;
        self.pending_nickname = None;
        self.current_key_file = None;
        self.current_nickname = None;
        self.screen = Screen::Lobby(make_lobby_state(String::new(), Some(error), profiles));
    }

    /// Back to the lobby (with the default identity among `profiles`), with an error if
    /// given; nothing pending or current is kept.
    pub fn go_to_lobby(&mut self, error: Option<String>, profiles: Vec<IdentityProfile>)
        ensures
            final(self).screen matches Screen::Lobby(l) && l.error_message == error && l.server_url@.len() == 0
                && l.focus == 0 && l.selected_identity == first_profile(profiles@),
            final(self).pending_user_id is None && final(self).pending_key_file is None && final(self).pending_nickname is None,
            final(self).current_key_file is None && final(self).current_nickname is None,
            final(self).log_mode == old(self).log_mode && final(self).log_scroll == old(self).log_scroll,
    {
        self.pending_user_id = None;
        self.pending_key_file = None;
        self.pending_nickname = None;
        self.current_key_file = None;
        self.current_nickname = None;
        self.screen = Screen::Lobby(make_lobby_state(String::new(), error, profiles));
    }

    /// The connection was lost in a game: the table is kept on the reconnecting screen
    /// (up to 10 attempts), and the session's key file and nickname are pending again.
    /// From another screen, back to the lobby (with the default identity among `profiles`).
    pub fn go_to_reconnecting(&mut self, server_url: String, room_path: String, profiles: Vec<IdentityProfile>)
        ensures
            match old(self).screen {
                Screen::Game(gs) => final(self).screen == Screen::Reconnecting(ReconnectingState {
                    game_state: gs,
                    server_url,
                    room_path,
                    attempts: 0,
                    max_attempts: 10,
                    last_error: None,
                }),
                _ => final(self).screen matches Screen::Lobby(l) && l.error_message is None && l.server_url@.len() == 0
                    && l.selected_identity == first_profile(profiles@),
            },
            final(self).pending_key_file == old(self).current_key_file,
            final(self).pending_nickname == old(self).current_nickname,
            final(self).pending_user_id == old(self).pending_user_id,
            final(self).current_key_file == old(self).current_key_file,
            final(self).current_nickname == old(self).current_nickname,
            final(self).log_mode == old(self).log_mode && final(self).log_scroll == old(self).log_scroll,
    {
        self.pending_key_file = self.current_key_file.clone();
        self.pending_nickname = self.current_nickname.clone();
        let mut old_screen = Screen::Lobby(make_lobby_state(String::new(), None, profiles));
        std::mem::swap(&mut old_screen, &mut self.screen);
        if let Screen::Game(gs) = old_screen {
            self.screen = Screen::Reconnecting(ReconnectingState {
                game_state: gs,
                server_url,
                room_path,
                attempts: 0,
                max_attempts: 10,
                last_error: None,
            });
        }
    }

    /// Connected again: the kept table is shown again, and nothing is pending. From
    /// another screen, back to the lobby (with the default identity among `profiles`).
    pub fn reconnected(&mut self, profiles: Vec<IdentityProfile>)
        ensures
            match old(self).screen {
                Screen::Reconnecting(rs) => final(self).screen == Screen::Game(rs.game_state),
                _ => final(self).screen matches Screen::Lobby(l) && l.error_message is None && l.server_url@.len() == 0
                    && l.selected_identity == first_profile(profiles@),
            },
            final(self).pending_key_file is None,
            final(self).pending_nickname is None,
            final(self).pending_user_id == old(self).pending_user_id,
            final(self).current_key_file == old(self).current_key_file,
            final(self).current_nickname == old(self).current_nickname,
            final(self).log_mode == old(self).log_mode && final(self).log_scroll == old(self).log_scroll,
    {
        let mut old_screen = Screen::Lobby(make_lobby_state(String::new(), None, profiles));
        std::mem::swap(&mut old_screen, &mut self.screen);
        if let Screen::Reconnecting(rs) = old_screen {
            self.screen = Screen::Game(rs.game_state);
        }
        self.pending_key_file = None;
        self.pending_nickname = None;
    }
}

} // verus!

verus! {

/// News from the server, decoded.
#[derive(Debug)]
pub enum ServerUpdate {
    /// The room changed; `events` are the texts of what happened in it.
    Room { room: Room, events: Vec<String> },
    /// A new view of the game: its version, the game decoded from it (None when it did not
    /// decode), and the sequence numbers of its events.
    GameView { version: u32, game: Option<DouDizhuGame>, event_seqs: Vec<u32> },
}

/// Seat `k` is the first seat of the game held by this user.
pub open spec fn is_my_game_seat(g: DouDizhuGame, me: Seq<char>, k: int) -> bool {
    &&& 0 <= k < g.players@.len()
    &&& base64_text(g.players@[k].player.id@) == me
    &&& forall|j: int| 0 <= j < k ==> base64_text((#[trigger] g.players@[j]).player.id@) != me
}

/// This user's seat in the game, if any.
pub open spec fn my_game_seat(g: DouDizhuGame, me: Seq<char>) -> Option<int> {
    if exists|k: int| is_my_game_seat(g, me, k) {
        Some(choose|k: int| is_my_game_seat(g, me, k))
    } else {
        None
    }
}

/// The text recorded for a game event.
pub open spec fn seq_message(n: u32) -> Seq<char> {
    "Game event seq="@ + decimal(n as nat)
}

/// The table after news from the server. A room update is kept, and clears the game
/// (unless it is over) when the room waits again; its events are recorded. A game view
/// sets the version; a decoded game replaces the shown one, this user's seat is found
/// again, the selection is dropped and the cursor kept within the hand; its events are
/// recorded by sequence number.
pub open spec fn table_updated(old: GameState, new: GameState, u: ServerUpdate) -> bool {
    &&& new.my_user_id == old.my_user_id
    &&& new.add_bot_mode == old.add_bot_mode
    &&& new.kick_mode == old.kick_mode
    &&& new.show_panel == old.show_panel
    &&& match u {
        ServerUpdate::Room { room, events } => {
            let cleared = old.game matches Some(g) && room.state.phase.kind == RoomPhaseKind::Waiting
                && g.stage != Stage::Finished;
            &&& new.room == Some(room)
            &&& new.version == old.version
            &&& new.my_index == old.my_index
            &&& if cleared {
                new.game is None && new.selected@.len() == 0 && new.cursor == 0 && !new.bid_mode
            } else {
                new.game == old.game && new.selected == old.selected && new.cursor == old.cursor
                    && new.bid_mode == old.bid_mode
            }
            &&& msgs_view(new.messages@) == after_msgs(msgs_view(old.messages@), msgs_view(events@))
        },
        ServerUpdate::GameView { version, game, event_seqs } => {
            &&& new.version == version
            &&& new.room == old.room
            &&& new.bid_mode == old.bid_mode
            &&& match game {
                Some(g) => {
                    let hl = hand_of(new).len();
                    &&& new.game == Some(g)
                    &&& new.my_index == match my_game_seat(g, old.my_user_id@) {
                        Some(i) => Some(i as usize),
                        None => old.my_index,
                    }
                    &&& new.selected@.len() == 0
                    &&& new.cursor == if old.cursor >= hl && hl > 0 { (hl - 1) as usize } else { old.cursor }
                },
                None => new.game == old.game && new.my_index == old.my_index && new.selected == old.selected
                    && new.cursor == old.cursor,
            }
            &&& msgs_view(new.messages@) == after_msgs(
                msgs_view(old.messages@),
                event_seqs@.map_values(|n: u32| seq_message(n)),
            )
        },
    }
}

impl GameState {
    /// Finds this user's seat in the shown game; the seat found before is kept when the
    /// user has none.
    fn detect_my_index(&mut self)
        ensures
            final(self).my_index == match old(self).game {
                Some(g) => match my_game_seat(g, old(self).my_user_id@) {
                    Some(i) => Some(i as usize),
                    None => old(self).my_index,
                },
                None => old(self).my_index,
            },
            *final(self) == (GameState { my_index: final(self).my_index, ..*old(self) }),
    {
        let found: Option<usize> = match &self.game {
            Some(game) => {
                let n = game.players.len();
                let ghost me = self.my_user_id@;
                let mut r: Option<usize> = None;
                let mut i: usize = 0;
                while i < n && r.is_none()
                    invariant
                        n == game.players@.len(),
                        i <= n,
                        me == self.my_user_id@,
                        self.game == Some(*game),
                        r matches Some(k) ==> is_my_game_seat(*game, me, k as int),
                        r is None ==> forall|j: int| 0 <= j < i ==> base64_text((#[trigger] game.players@[j]).player.id@) != me,
                    decreases n - i + if r is Some { 0int } else { 1int },
                {
                    let text = game.players[i].player.id.to_base64();
                    if text == self.my_user_id {
                        r = Some(i);
                    } else {
                        i = i + 1;
                    }
                }
                proof {
                    match r {
                        Some(k) => {
                            assert forall|m: int| is_my_game_seat(*game, me, m) implies m == k by {
                                if m < k {
                                    assert(base64_text(game.players@[m].player.id@) != me);
                                }
                                if m > k {
                                    assert(base64_text(game.players@[k as int].player.id@) != me);
                                }
                            }
                        },
                        None => {
                            assert forall|m: int| !is_my_game_seat(*game, me, m) by {
                                if 0 <= m < n {
                                    assert(base64_text(game.players@[m].player.id@) != me);
                                }
                            }
                        },
                    }
                }
                r
            },
            None => None,
        };
        if let Some(i) = found {
            self.my_index = Some(i);
        }
    }

    /// Takes news from the server.
    #[verifier::loop_isolation(false)]
    pub fn apply_update(&mut self, update: ServerUpdate)
        ensures
            table_updated(*old(self), *final(self), update),
    {
        match update {
            ServerUpdate::Room { room, events } => {
                let waiting = room.state.phase.kind == RoomPhaseKind::Waiting;
                let clear = match &self.game {
                    Some(g) => waiting && g.stage != Stage::Finished,
                    None => false,
                };
                if clear {
                    self.game = None;
                    self.selected = Vec::new();
                    self.cursor = 0;
                    self.bid_mode = false;
                }
                self.room = Some(room);
                let n = events.len();
                let ghost m0 = msgs_view(self.messages@);
                let ghost ev = msgs_view(events@);
                let texts = events;
                let ghost mid = *self;
                for i in 0..n
                    invariant
                        n == texts@.len(),
                        ev == msgs_view(texts@),
                        msgs_view(self.messages@) == after_msgs(m0, ev.take(i as int)),
                        *self == (GameState { messages: self.messages, ..mid }),
                {
                    let t = texts[i].clone();
                    self.push_message(t);
                    proof {
                        let tk = ev.take(i + 1);
                        assert(tk.drop_last() =~= ev.take(i as int));
                        assert(tk.last() == ev[i as int]);
                    }
                }
                assert(ev.take(n as int) =~= ev);
            },
            ServerUpdate::GameView { version, game, event_seqs } => {
                self.version = version;
                if let Some(g) = game {
                    self.game = Some(g);
                    self.detect_my_index();
                    self.selected = Vec::new();
                    let hand_len = self.my_hand().len();
                    if self.cursor >= hand_len && hand_len > 0 {
                        self.cursor = hand_len - 1;
                    }
                }
                let n = event_seqs.len();
                let ghost m0 = msgs_view(self.messages@);
                let ghost ev = event_seqs@.map_values(|k: u32| seq_message(k));
                let ghost mid = *self;
                for i in 0..n
                    invariant
                        n == event_seqs@.len(),
                        ev == event_seqs@.map_values(|k: u32| seq_message(k)),
                        msgs_view(self.messages@) == after_msgs(m0, ev.take(i as int)),
                        *self == (GameState { messages: self.messages, ..mid }),
                {
                    let mut text = String::from_str("Game event seq=");
                    let num = usize_to_decimal(event_seqs[i] as usize);
                    text.append(num.as_str());
                    assert(text@ == seq_message(event_seqs@[i as int]));
                    self.push_message(text);
                    proof {
                        let tk = ev.take(i + 1);
                        assert(tk.drop_last() =~= ev.take(i as int));
                        assert(tk.last() == ev[i as int]);
                    }
                }
                assert(ev.take(n as int) =~= ev);
            },
        }
    }
}

impl App {
    /// Takes news from the server on the table or the reconnecting screen; on other
    /// screens it is dropped.
    pub fn handle_server_update(&mut self, update: ServerUpdate)
        ensures
            app_kept(*old(self), *final(self)),
            match old(self).screen {
                Screen::Game(gs) => final(self).screen matches Screen::Game(g2) && table_updated(gs, g2, update),
                Screen::Reconnecting(rs) => final(self).screen matches Screen::Reconnecting(r2)
                    && table_updated(rs.game_state, r2.game_state, update)
                    && r2 == (ReconnectingState { game_state: r2.game_state, ..rs }),
                _ => final(self).screen == old(self).screen,
            },
    {
        match &mut self.screen {
            Screen::Game(gs) => gs.apply_update(update),
            Screen::Reconnecting(rs) => rs.game_state.apply_update(update),
            _ => {},
        }
    }
}

} // verus!
