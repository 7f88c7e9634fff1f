//! The Dou Dizhu game: dealing, bidding for the landlord, playing tricks, and the end.

use vstd::prelude::*;
use vstd::multiset::Multiset;
use crate::poker::{Card, Deck, cards_with_jokers};
use crate::basic::game::{GameCommand, Id};
use crate::basic::message::App;
use crate::basic::room::now_millis;
use crate::basic::user::User;
use rand::Rng;
use crate::doudizhu::pattern::{Pattern, analyze_pattern, count_rank, pattern_of, spec_beats, no_wild};
use crate::doudizhu::hand::{
    remove_cards, sort_desc, sorted_desc, copy_cards, take_cards, sort_cards_desc, lemma_sort_desc,
    lemma_no_wild_multiset, lemma_remove_cards_no_wild,
};

verus! {

broadcast use vstd::seq_lib::group_to_multiset_ensures, vstd::multiset::group_multiset_axioms;

/// The phases of a game.
#[derive(Debug, Clone, Copy, PartialEq, Eq, Structural)]
pub enum Stage {
    Setup,
    Bidding,
    Playing,
    Finished,
}

/// A player's side.
#[derive(Debug, Clone, Copy, PartialEq, Eq, Structural)]
pub enum Role {
    Undecided,
    Landlord,
    Peasant,
}

/// What a player did in the current trick.
#[derive(Debug, Clone)]
pub enum PlayerAction {
    PlayCards(Vec<Card>),
    Pass,
}

/// What a player did in the current trick, as values.
pub enum PlayerActionView {
    PlayCards(Seq<Card>),
    Pass,
}

impl View for PlayerAction {
    type V = PlayerActionView;

    open spec fn view(&self) -> PlayerActionView {
        match self {
            PlayerAction::PlayCards(cards) => PlayerActionView::PlayCards(cards@),
            PlayerAction::Pass => PlayerActionView::Pass,
        }
    }
}

/// A seat at the table.
#[derive(Debug, Clone)]
pub struct PlayerState {
    pub player: User,
    pub hand: Vec<Card>,
    pub hand_count: usize,
    pub role: Role,
    pub has_passed: bool,
    pub bid_score: u8,
    pub last_action: Option<PlayerAction>,
}

/// A seat at the table, as values.
pub struct PlayerView {
    pub player: User,
    pub hand: Seq<Card>,
    pub hand_count: usize,
    pub role: Role,
    pub has_passed: bool,
    pub bid_score: u8,
    pub last_action: Option<PlayerActionView>,
}

impl View for PlayerState {
    type V = PlayerView;

    open spec fn view(&self) -> PlayerView {
        PlayerView {
            player: self.player,
            hand: self.hand@,
            hand_count: self.hand_count,
            role: self.role,
            has_passed: self.has_passed,
            bid_score: self.bid_score,
            last_action: match self.last_action {
                Some(a) => Some(a@),
                None => None,
            },
        }
    }
}

/// The cards on the table and who played them.
#[derive(Debug, Clone)]
pub struct LastPlay {
    pub player_idx: usize,
    pub cards: Vec<Card>,
    pub pattern: Pattern,
}

/// The cards on the table, as values.
pub struct LastPlayView {
    pub player_idx: usize,
    pub cards: Seq<Card>,
    pub pattern: Pattern,
}

impl View for LastPlay {
    type V = LastPlayView;

    open spec fn view(&self) -> LastPlayView {
        LastPlayView { player_idx: self.player_idx, cards: self.cards@, pattern: self.pattern }
    }
}

/// Settings of a game.
#[derive(Debug, Clone, Copy)]
pub struct DouDizhuConfig {
    pub turn_timeout_seconds: u64,
}

impl Default for DouDizhuConfig {
    fn default() -> (c: DouDizhuConfig)
        ensures
            c.turn_timeout_seconds == 30,
    {
        DouDizhuConfig { turn_timeout_seconds: 30 }
    }
}

/// The whole state of a game.
#[derive(Debug, Clone)]
pub struct DouDizhuGame {
    pub config: DouDizhuConfig,
    /// Bumped by every change, so that a move made against an older state is refused.
    pub version: u32,
    pub players: Vec<PlayerState>,
    pub deck: Deck,
    /// The three cards the landlord receives.
    pub hole_cards: Vec<Card>,
    pub stage: Stage,
    pub current_turn: usize,
    pub landlord_idx: Option<usize>,
    pub last_play: Option<LastPlay>,
    pub consecutive_passes: usize,
    pub base_score: u32,
    pub multiplier: u32,
    pub highest_bid: u8,
    pub winner: Option<usize>,
    /// Unix milliseconds when the current turn runs out.
    pub turn_deadline: Option<i64>,
    pub timer_id: Option<Id>,
}

/// The whole state of a game, as values.
pub struct GameView {
    pub timeout_secs: u64,
    pub version: u32,
    pub players: Seq<PlayerView>,
    pub deck: Seq<Card>,
    pub hole_cards: Seq<Card>,
    pub stage: Stage,
    pub current_turn: usize,
    pub landlord_idx: Option<usize>,
    pub last_play: Option<LastPlayView>,
    pub consecutive_passes: usize,
    pub base_score: u32,
    pub multiplier: u32,
    pub highest_bid: u8,
    pub winner: Option<usize>,
    pub turn_deadline: Option<i64>,
    pub timer_id: Option<Id>,
}

impl View for DouDizhuGame {
    type V = GameView;

    open spec fn view(&self) -> GameView {
        GameView {
            timeout_secs: self.config.turn_timeout_seconds,
            version: self.version,
            players: self.players@.map_values(|p: PlayerState| p@),
            deck: self.deck@,
            hole_cards: self.hole_cards@,
            stage: self.stage,
            current_turn: self.current_turn,
            landlord_idx: self.landlord_idx,
            last_play: match self.last_play {
                Some(lp) => Some(lp@),
                None => None,
            },
            consecutive_passes: self.consecutive_passes,
            base_score: self.base_score,
            multiplier: self.multiplier,
            highest_bid: self.highest_bid,
            winner: self.winner,
            turn_deadline: self.turn_deadline,
            timer_id: self.timer_id,
        }
    }
}

/// A move of a player.
#[derive(Debug, Clone)]
pub enum Action {
    /// Bid 1 to 3 for the landlord, or 0 to pass.
    Bid { score: u8 },
    Play { cards: Vec<Card> },
    Pass,
}

/// A move of a player, as values.
pub enum ActionView {
    Bid { score: u8 },
    Play { cards: Seq<Card> },
    Pass,
}

impl View for Action {
    type V = ActionView;

    open spec fn view(&self) -> ActionView {
        match self {
            Action::Bid { score } => ActionView::Bid { score: *score },
            Action::Play { cards } => ActionView::Play { cards: cards@ },
            Action::Pass => ActionView::Pass,
        }
    }
}

/// A move with the version of the state it was made against.
#[derive(Debug, Clone)]
pub struct ActionData {
    pub action: Action,
    pub ref_version: u32,
}

pub const APP_ID: &'static str = "doudizhu";

pub const APP_REVISION: u32 = 1;

/// The application description of this game.
pub fn get_app() -> (app: App)
    ensures
        app.id@ == APP_ID@,
        app.revision == APP_REVISION,
{
    App { id: String::from_str(APP_ID), revision: APP_REVISION }
}

/// A fresh timer name from `uuid`'s random version 4 ids.
/// Nothing is claimed of the name: it is chance.
#[verifier::external_body]
fn new_timer_name() -> (s: String) {
    uuid::Uuid::new_v4().to_string()
}

/// The deadline `secs` seconds after `now_ms`, in the wrapping arithmetic of `i64`.
pub open spec fn deadline_after(now_ms: i64, secs: u64) -> i64 {
    (now_ms as int + (secs as i64 as int) * 1000) as i64
}

fn compute_deadline(now_ms: i64, secs: u64) -> (d: i64)
    ensures
        d == deadline_after(now_ms, secs),
{
    let s = secs as i64;
    let ms = s.wrapping_mul(1000);
    let d = now_ms.wrapping_add(ms);
    assert(ms == ((s as int) * 1000) as i64) by (bit_vector)
        requires
            ms == s.wrapping_mul(1000),
    ;
    assert(d == (now_ms as int + ms as int) as i64) by (bit_vector)
        requires
            d == now_ms.wrapping_add(ms),
    ;
    assert(((now_ms as int + ((s as int) * 1000) as i64 as int) as i64) == ((now_ms as int
        + (s as int) * 1000) as i64)) by (bit_vector);
    d
}

/// The commands that stop the old turn timer (if any) and start a new one.
pub open spec fn timer_commands(old_timer: Option<Id>, new_timer: Id, secs: u64) -> Seq<
    GameCommand,
> {
    match old_timer {
        Some(t) => seq![
            GameCommand::CancelTimer { id: t, duration_secs: 0 },
            GameCommand::CreateTimer { id: new_timer, duration_secs: secs },
        ],
        None => seq![GameCommand::CreateTimer { id: new_timer, duration_secs: secs }],
    }
}

/// The commands that stop the old turn timer (if any).
pub open spec fn cancel_commands(old_timer: Option<Id>) -> Seq<GameCommand> {
    match old_timer {
        Some(t) => seq![GameCommand::CancelTimer { id: t, duration_secs: 0 }],
        None => seq![],
    }
}

/// `new` differs from `g` in at most its timer and deadline, and a new turn timer was
/// started with the commands `cmds`.
pub open spec fn timer_restarted(g: GameView, new: GameView, cmds: Seq<GameCommand>) -> bool {
    &&& new == (GameView { timer_id: new.timer_id, turn_deadline: new.turn_deadline, ..g })
    &&& new.timer_id matches Some(nid) && cmds == timer_commands(g.timer_id, nid, g.timeout_secs)
    &&& new.turn_deadline is Some
}

/// The next seat in turn.
pub open spec fn next_seat(t: usize) -> usize {
    ((t + 1) % 3) as usize
}

/// Whether a bid is accepted: a pass (0), or a raise to at most 3.
pub open spec fn bid_accepted(g: GameView, score: u8) -> bool {
    score == 0 || (score > g.highest_bid && score <= 3)
}

/// The state after seat `i`'s accepted bid, before the bidding round is judged.
pub open spec fn after_bid(g: GameView, i: int, score: u8) -> GameView {
    if score == 0 {
        GameView {
            consecutive_passes: (g.consecutive_passes + 1) as usize,
            players: g.players.update(i, (PlayerView { has_passed: true, ..g.players[i] })),
            ..g
        }
    } else {
        GameView {
            highest_bid: score,
            base_score: score as u32,
            landlord_idx: Some(i as usize),
            players: g.players.update(i, (PlayerView { bid_score: score, ..g.players[i] })),
            consecutive_passes: 0,
            ..g
        }
    }
}

/// Every seat's record of the current trick cleared.
pub open spec fn clear_actions(ps: Seq<PlayerView>) -> Seq<PlayerView> {
    ps.map_values(|p: PlayerView| PlayerView { last_action: None, ..p })
}

/// The state once seat `l` has won the bidding: it takes the hole cards into its sorted
/// hand and becomes the landlord, the others become peasants, and play starts with it.
pub open spec fn end_bidding(g: GameView, l: int) -> GameView {
    let hand = sort_desc(g.players[l].hand + g.hole_cards);
    GameView {
        players: clear_actions(
            Seq::new(
                3,
                |k: int|
                    if k == l {
                        PlayerView {
                            hand: hand,
                            hand_count: hand.len() as usize,
                            role: Role::Landlord,
                            ..g.players[k]
                        }
                    } else {
                        PlayerView { role: Role::Peasant, ..g.players[k] }
                    },
            ),
        ),
        stage: Stage::Playing,
        current_turn: l as usize,
        consecutive_passes: 0,
        last_play: None,
        ..g
    }
}

/// Whether seat `i` may play `cards` now: they form a pattern, it beats the cards on the
/// table unless the table is free for `i`, and `i` holds them.
pub open spec fn play_accepted(g: GameView, i: int, cards: Seq<Card>) -> bool {
    &&& pattern_of(cards) matches Some(p)
    &&& (g.last_play matches Some(lp) ==> lp.player_idx == i || spec_beats(p, lp.pattern))
    &&& remove_cards(g.players[i].hand, cards) is Some
}

/// The state after seat `i`'s accepted play, before the turn moves on or the game ends.
pub open spec fn after_play(g: GameView, i: int, cards: Seq<Card>) -> GameView {
    let p = pattern_of(cards).unwrap();
    let hand = remove_cards(g.players[i].hand, cards).unwrap();
    let new_trick = match g.last_play {
        Some(lp) => lp.player_idx == i,
        None => true,
    };
    let ps = if new_trick {
        clear_actions(g.players)
    } else {
        g.players
    };
    GameView {
        players: ps.update(
            i,
            PlayerView {
                hand: hand,
                hand_count: hand.len() as usize,
                last_action: Some(PlayerActionView::PlayCards(cards)),
                ..ps[i]
            },
        ),
        last_play: Some(LastPlayView { player_idx: i as usize, cards: cards, pattern: p }),
        consecutive_passes: 0,
        multiplier: if p is Bomb || p is Rocket {
            (g.multiplier * 2) as u32
        } else {
            g.multiplier
        },
        ..g
    }
}

/// A bomb or the rocket doubles the stakes, and no other play changes them: an accepted
/// play of four cards of one rank, or of both jokers, doubles the multiplier (while the
/// double fits in a `u32`); any other accepted play leaves it as it was.
pub proof fn lemma_bombs_and_rockets_double_the_stakes(g: GameView, i: int, cards: Seq<Card>)
    requires
        play_accepted(g, i, cards),
    ensures
        (pattern_of(cards) matches Some(p) && (p is Bomb || p is Rocket) && 2 * g.multiplier <= u32::MAX)
            ==> after_play(g, i, cards).multiplier == 2 * g.multiplier,
        (pattern_of(cards) matches Some(p) && !(p is Bomb || p is Rocket)) ==> after_play(g, i, cards).multiplier
            == g.multiplier,
        (cards.len() == 2 && count_rank(cards, 13) == 1 && count_rank(cards, 14) == 1 && 2 * g.multiplier
            <= u32::MAX) ==> after_play(g, i, cards).multiplier == 2 * g.multiplier,
{
}

/// Whether seat `i` may pass: there are cards on the table and they are not its own.
pub open spec fn pass_accepted(g: GameView, i: int) -> bool {
    g.last_play matches Some(lp) && lp.player_idx != i
}

/// The state after seat `i`'s pass, before the turn moves on. The second pass in a row
/// ends the trick: the table is cleared, and so is every seat's last action, for a new
/// trick starts.
pub open spec fn after_pass(g: GameView, i: int) -> GameView {
    let passes = g.consecutive_passes + 1;
    GameView {
        players: if passes >= 2 {
            clear_actions(g.players)
        } else {
            g.players.update(i, PlayerView { last_action: Some(PlayerActionView::Pass), ..g.players[i] })
        },
        consecutive_passes: if passes >= 2 {
            0
        } else {
            passes as usize
        },
        last_play: if passes >= 2 {
            None
        } else {
            g.last_play
        },
        current_turn: next_seat(g.current_turn),
        ..g
    }
}

/// The 54 cards were dealt out: three hole cards, seventeen to each seat, each hand sorted
/// from the highest rank down, and nothing left in the deck.
pub open spec fn fresh_deal(g: GameView) -> bool {
    &&& g.players.len() == 3
    &&& g.deck.len() == 0
    &&& g.hole_cards.len() == 3
    &&& forall|k: int|
        0 <= k < 3 ==> (#[trigger] g.players[k]).hand.len() == 17 && g.players[k].hand_count == 17
            && sorted_desc(g.players[k].hand)
    &&& g.hole_cards.to_multiset().add(g.players[0].hand.to_multiset()).add(
        g.players[1].hand.to_multiset(),
    ).add(g.players[2].hand.to_multiset()) == cards_with_jokers().to_multiset()
}

/// The users sitting at the three seats.
pub open spec fn users_of(ps: Seq<PlayerView>) -> Seq<User> {
    Seq::new(3, |k: int| ps[k].player)
}

/// A bidding round over a fresh deal has begun for the three `users`: nobody has bid,
/// nothing is on the table, and every seat starts over.
pub open spec fn bidding_dealt(new: GameView, users: Seq<User>) -> bool {
    &&& fresh_deal(new)
    &&& new.stage == Stage::Bidding
    &&& new.current_turn < 3
    &&& new.highest_bid == 0
    &&& new.base_score == 0
    &&& new.consecutive_passes == 0
    &&& new.multiplier == 1
    &&& new.landlord_idx is None
    &&& new.last_play is None
    &&& new.winner is None
    &&& forall|k: int|
        0 <= k < 3 ==> {
            &&& (#[trigger] new.players[k]).player == users[k]
            &&& new.players[k].role == Role::Undecided
            &&& new.players[k].bid_score == 0
            &&& !new.players[k].has_passed
            &&& new.players[k].last_action is None
        }
}

/// A new bidding round over a fresh deal: `new` keeps the users, the settings, the timer
/// and the version of `g`, and everything else starts over.
pub open spec fn restarted_bidding(g: GameView, new: GameView) -> bool {
    &&& bidding_dealt(new, users_of(g.players))
    &&& new.timeout_secs == g.timeout_secs
    &&& new.version == g.version
    &&& new.timer_id == g.timer_id
}

/// The transition a move of seat `i` makes, with the commands it issues.
pub open spec fn move_made(old: GameView, new: GameView, cmds: Seq<GameCommand>, i: int, action: ActionView) -> bool {
    match action {
        ActionView::Bid { score } => if old.stage == Stage::Bidding && bid_accepted(old, score) {
            let a = after_bid(old, i, score);
            if a.highest_bid == 0 && a.consecutive_passes >= 3 {
                // nobody bid: deal again
                exists|mid: GameView|
                    restarted_bidding(GameView { version: (old.version + 1) as u32, turn_deadline: None, ..a }, mid)
                        && timer_restarted(mid, new, cmds)
            } else if a.highest_bid == 3 || (a.highest_bid > 0 && a.consecutive_passes >= 2) {
                match a.landlord_idx {
                    Some(l) => timer_restarted(
                        GameView { version: (old.version + 1) as u32, ..end_bidding(a, l as int) },
                        new,
                        cmds,
                    ),
                    None => new == (GameView { version: (old.version + 1) as u32, ..a }) && cmds.len() == 0,
                }
            } else {
                timer_restarted(
                    GameView {
                        version: (old.version + 1) as u32,
                        current_turn: next_seat(old.current_turn),
                        ..a
                    },
                    new,
                    cmds,
                )
            }
        } else {
            new == old && cmds.len() == 0
        },
        ActionView::Play { cards } => if old.stage == Stage::Playing && play_accepted(old, i, cards) {
            let a = GameView { version: (old.version + 1) as u32, ..after_play(old, i, cards) };
            if a.players[i].hand.len() == 0 {
                new == (GameView {
                    stage: Stage::Finished,
                    winner: Some(i as usize),
                    turn_deadline: None,
                    timer_id: None,
                    ..a
                }) && cmds == cancel_commands(old.timer_id).push(GameCommand::GameOver)
            } else {
                timer_restarted(GameView { current_turn: next_seat(old.current_turn), ..a }, new, cmds)
            }
        } else {
            new == old && cmds.len() == 0
        },
        ActionView::Pass => if old.stage == Stage::Playing && pass_accepted(old, i) {
            timer_restarted(
                GameView { version: (old.version + 1) as u32, ..after_pass(old, i) },
                new,
                cmds,
            )
        } else {
            new == old && cmds.len() == 0
        },
    }
}

impl DouDizhuGame {
    /// The conditions every game state keeps: three seats, a seat whose turn it is, no
    /// wild cards in play, at most three passes in a row, and a landlord once there is a
    /// bid.
    pub open spec fn wf(&self) -> bool {
        &&& self.players@.len() == 3
        &&& self.current_turn < 3
        &&& self.consecutive_passes <= 3
        &&& forall|k: int| 0 <= k < 3 ==> no_wild(#[trigger] self.players@[k].hand@)
        &&& no_wild(self.hole_cards@)
        &&& (self.landlord_idx matches Some(l) ==> l < 3)
        &&& (self.highest_bid > 0 ==> self.landlord_idx is Some)
    }

    /// Whether the game is in the bidding or the playing stage.
    pub open spec fn in_play(&self) -> bool {
        self.stage == Stage::Bidding || self.stage == Stage::Playing
    }

    /// A game that is bidding or playing is well formed.
    pub open spec fn live_wf(&self) -> bool {
        self.in_play() ==> self.wf()
    }

    /// The version and the multiplier can take one more move.
    pub open spec fn can_grow(&self) -> bool {
        self.version < u32::MAX && self.multiplier <= u32::MAX / 2
    }
}

} // verus!

verus! {

impl DouDizhuGame {
    /// A game in the setup stage for the given users.
    pub fn new(players: Vec<User>) -> (g: DouDizhuGame)
        ensures
            g.players@.len() == players@.len(),
            forall|k: int|
                0 <= k < players@.len() ==> {
                    let p = #[trigger] g.players@[k];
                    &&& p.player == players@[k]
                    &&& p.hand@.len() == 0
                    &&& p.hand_count == 0
                    &&& p.role == Role::Undecided
                    &&& !p.has_passed
                    &&& p.bid_score == 0
                    &&& p.last_action is None
                },
            g.config.turn_timeout_seconds == 30,
            g.version == 0,
            g.deck@ == cards_with_jokers(),
            g.hole_cards@.len() == 0,
            g.stage == Stage::Setup,
            g.current_turn == 0,
            g.landlord_idx is None,
            g.last_play is None,
            g.consecutive_passes == 0,
            g.base_score == 0,
            g.multiplier == 1,
            g.highest_bid == 0,
            g.winner is None,
            g.turn_deadline is None,
            g.timer_id is None,
    {
        let mut states: Vec<PlayerState> = Vec::new();
        let mut players = players;
        let ghost orig = players@;
        let n = players.len();
        // take the users out in order
        let mut rev: Vec<User> = Vec::new();
        while players.len() > 0
            invariant
                rev@.len() + players@.len() == n,
                n == orig.len(),
                players@ == orig.take(players@.len() as int),
                forall|j: int| 0 <= j < rev@.len() ==> #[trigger] rev@[j] == orig[n - 1 - j],
            decreases players@.len(),
        {
            let u = players.pop().unwrap();
            proof {
                assert(orig.take(players@.len() as int + 1).last() == u);
            }
            rev.push(u);
            proof {
                assert(players@ =~= orig.take(players@.len() as int));
            }
        }
        while rev.len() > 0
            invariant
                states@.len() + rev@.len() == n,
                n == orig.len(),
                forall|j: int| 0 <= j < rev@.len() ==> #[trigger] rev@[j] == orig[n - 1 - j],
                forall|j: int|
                    0 <= j < states@.len() ==> {
                        let p = #[trigger] states@[j];
                        &&& p.player == orig[j]
                        &&& p.hand@.len() == 0
                        &&& p.hand_count == 0
                        &&& p.role == Role::Undecided
                        &&& !p.has_passed
                        &&& p.bid_score == 0
                        &&& p.last_action is None
                    },
            decreases rev@.len(),
        {
            let u = rev.pop().unwrap();
            states.push(
                PlayerState {
                    player: u,
                    hand: Vec::new(),
                    hand_count: 0,
                    role: Role::Undecided,
                    has_passed: false,
                    bid_score: 0,
                    last_action: None,
                },
            );
        }
        DouDizhuGame {
            config: DouDizhuConfig::default(),
            version: 0,
            players: states,
            deck: Deck::new_with_jokers(),
            hole_cards: Vec::new(),
            stage: Stage::Setup,
            current_turn: 0,
            landlord_idx: None,
            last_play: None,
            consecutive_passes: 0,
            base_score: 0,
            multiplier: 1,
            highest_bid: 0,
            winner: None,
            turn_deadline: None,
            timer_id: None,
        }
    }
}

} // verus!

verus! {

/// Takes `n` cards off the top of the deck, in the order dealt.
fn deal_n(deck: &mut Deck, n: usize) -> (v: Vec<Card>)
    requires
        old(deck)@.len() >= n,
    ensures
        v@.len() == n,
        final(deck)@.len() == old(deck)@.len() - n,
        final(deck)@.to_multiset().add(v@.to_multiset()) == old(deck)@.to_multiset(),
{

    let mut v: Vec<Card> = Vec::new();
    let ghost start = deck@;
    for k in 0..n
        invariant
            start == old(deck)@,
            start.len() >= n,
            v@.len() == k,
            deck@.len() == start.len() - k,
            deck@.to_multiset().add(v@.to_multiset()) == start.to_multiset(),
    {
        let ghost before = deck@;
        let c = deck.deal().unwrap();
        proof {
            assert(before =~= deck@.push(c));
        }
        v.push(c);
        proof {
            assert(deck@.to_multiset().add(v@.to_multiset()) =~= before.to_multiset().add(
                v@.drop_last().to_multiset(),
            )) by {
                assert(v@ =~= v@.drop_last().push(c));
            }
        }
    }
    v
}

/// The 54-card deck has no wild card.
proof fn lemma_full_deck_no_wild()
    ensures
        no_wild(cards_with_jokers()),
{
    let s = cards_with_jokers();
    assert forall|i: int| 0 <= i < s.len() implies !(#[trigger] s[i] is WildCard) by {
        if i < 13 {
        } else if i < 26 {
        } else if i < 39 {
        } else if i < 52 {
        } else {
        }
    }
}

proof fn lemma_part_no_wild(a: Seq<Card>, rest: Multiset<Card>)
    requires
        a.to_multiset().add(rest) == cards_with_jokers().to_multiset(),
    ensures
        no_wild(a),
{

    lemma_full_deck_no_wild();
    assert forall|i: int| 0 <= i < a.len() implies !(#[trigger] a[i] is WildCard) by {
        assert(a.to_multiset().count(a[i]) > 0);
        assert(cards_with_jokers().to_multiset().count(a[i]) > 0);
        assert(cards_with_jokers().contains(a[i]));
    }
}

impl Id {
    /// The same identifier.
    pub fn copy(&self) -> (r: Id)
        ensures
            r == *self,
    {
        Id(self.0.clone())
    }
}

impl DouDizhuGame {
    /// Stops the turn timer, if one runs, starts a new one and sets the deadline.
    pub(crate) fn start_turn_timer(&mut self) -> (cmds: Vec<GameCommand>)
        ensures
            timer_restarted(old(self)@, final(self)@, cmds@),
            final(self).players@ == old(self).players@,
            final(self).hole_cards@ == old(self).hole_cards@,
    {
        let mut commands: Vec<GameCommand> = Vec::new();
        if let Some(timer_id) = self.timer_id.take() {
            commands.push(GameCommand::CancelTimer { id: timer_id, duration_secs: 0 });
        }
        let ghost old_timer = old(self).timer_id;
        let new_id = Id(new_timer_name());
        let ghost nid = new_id;
        self.timer_id = Some(new_id.copy());
        commands.push(
            GameCommand::CreateTimer {
                id: new_id,
                duration_secs: self.config.turn_timeout_seconds,
            },
        );
        let now_ms = now_millis();
        self.turn_deadline = Some(compute_deadline(now_ms, self.config.turn_timeout_seconds));
        proof {
            assert(self@.players =~= old(self)@.players);
            assert(commands@ =~= timer_commands(old_timer, nid, self.config.turn_timeout_seconds));
            assert(self@ == (GameView { timer_id: self@.timer_id, turn_deadline: self@.turn_deadline, ..old(self)@ }));
        }
        commands
    }

    /// Passes the turn to the next seat and restarts the turn timer.
    fn next_turn(&mut self) -> (cmds: Vec<GameCommand>)
        requires
            old(self).current_turn < 3,
        ensures
            timer_restarted(
                GameView { current_turn: next_seat(old(self).current_turn), ..old(self)@ },
                final(self)@,
                cmds@,
            ),
            final(self).players@ == old(self).players@,
            final(self).hole_cards@ == old(self).hole_cards@,
            final(self).current_turn < 3,
    {
        self.current_turn = (self.current_turn + 1) % 3;
        proof {
            assert(self@.players =~= old(self)@.players);
        }
        self.start_turn_timer()
    }

    /// Deals the shuffled 54 cards: three hole cards, then seventeen to each seat, each
    /// hand sorted from the highest rank down.
    fn deal_cards(&mut self)
        requires
            old(self).players@.len() == 3,
        ensures
            fresh_deal(final(self)@),
            forall|k: int|
                0 <= k < 3 ==> no_wild(#[trigger] final(self).players@[k].hand@),
            no_wild(final(self).hole_cards@),
            final(self)@ == (GameView {
                players: final(self)@.players,
                deck: final(self)@.deck,
                hole_cards: final(self)@.hole_cards,
                ..old(self)@
            }),
            forall|k: int|
                0 <= k < 3 ==> (#[trigger] final(self)@.players[k]) == (PlayerView {
                    hand: final(self)@.players[k].hand,
                    hand_count: final(self)@.players[k].hand_count,
                    ..old(self)@.players[k]
                }),
    {
        let mut deck = Deck::new_with_jokers();
        deck.shuffle();
        let ghost full = deck@;
        let hole = deal_n(&mut deck, 3);
        let h0 = deal_n(&mut deck, 17);
        let h1 = deal_n(&mut deck, 17);
        let h2 = deal_n(&mut deck, 17);
        proof {
            assert(deck@.len() == 0);
            assert(deck@.to_multiset() =~= Multiset::empty());
            assert(hole@.to_multiset().add(h0@.to_multiset()).add(h1@.to_multiset()).add(
                h2@.to_multiset(),
            ) =~= cards_with_jokers().to_multiset());
            assert(hole@.to_multiset().add(h0@.to_multiset().add(h1@.to_multiset()).add(h2@.to_multiset()))
                =~= cards_with_jokers().to_multiset());
            assert(h0@.to_multiset().add(hole@.to_multiset().add(h1@.to_multiset()).add(h2@.to_multiset()))
                =~= cards_with_jokers().to_multiset());
            assert(h1@.to_multiset().add(hole@.to_multiset().add(h0@.to_multiset()).add(h2@.to_multiset()))
                =~= cards_with_jokers().to_multiset());
            assert(h2@.to_multiset().add(hole@.to_multiset().add(h0@.to_multiset()).add(h1@.to_multiset()))
                =~= cards_with_jokers().to_multiset());
            lemma_part_no_wild(
                hole@,
                h0@.to_multiset().add(h1@.to_multiset()).add(h2@.to_multiset()),
            );
            lemma_part_no_wild(
                h0@,
                hole@.to_multiset().add(h1@.to_multiset()).add(h2@.to_multiset()),
            );
            lemma_part_no_wild(
                h1@,
                hole@.to_multiset().add(h0@.to_multiset()).add(h2@.to_multiset()),
            );
            lemma_part_no_wild(
                h2@,
                hole@.to_multiset().add(h0@.to_multiset()).add(h1@.to_multiset()),
            );
            lemma_sort_desc(h0@);
            lemma_sort_desc(h1@);
            lemma_sort_desc(h2@);
        }
        let s0 = sort_cards_desc(&h0);
        let s1 = sort_cards_desc(&h1);
        let s2 = sort_cards_desc(&h2);
        proof {
            lemma_no_wild_multiset(s0@, h0@);
            lemma_no_wild_multiset(s1@, h1@);
            lemma_no_wild_multiset(s2@, h2@);
        }
        let ghost old_players = self.players@;
        self.deck = deck;
        self.hole_cards = hole;
        self.players[0].hand = s0;
        self.players[0].hand_count = 17;
        self.players[1].hand = s1;
        self.players[1].hand_count = 17;
        self.players[2].hand = s2;
        self.players[2].hand_count = 17;
        proof {
            let v = self@;
            assert(v.players[0].hand == s0@);
            assert(v.players[1].hand == s1@);
            assert(v.players[2].hand == s2@);
            assert forall|k: int| 0 <= k < 3 implies (#[trigger] v.players[k]) == PlayerView {
                hand: v.players[k].hand,
                hand_count: v.players[k].hand_count,
                ..old(self)@.players[k]
            } by {
                assert(self.players@[k].player == old_players[k].player);
            }
        }
    }

    /// Sorts seat `i`'s hand from the highest rank down.
    fn sort_hand(&mut self, i: usize)
        requires
            i < old(self).players@.len(),
            no_wild(old(self).players@[i as int].hand@),
        ensures
            final(self).players@ == old(self).players@.update(
                i as int,
                PlayerState { hand: final(self).players@[i as int].hand, ..old(self).players@[i as int] },
            ),
            final(self).players@[i as int].hand@ == sort_desc(old(self).players@[i as int].hand@),
            final(self)@ == (GameView { players: final(self)@.players, ..old(self)@ }),
    {
        let sorted = sort_cards_desc(&self.players[i].hand);
        self.players[i].hand = sorted;
        proof {
            assert(self.players@ =~= old(self).players@.update(
                i as int,
                PlayerState { hand: self.players@[i as int].hand, ..old(self).players@[i as int] },
            ));
        }
    }
}

} // verus!

verus! {

/// A seat chosen by `rand::Rng::random_range(0..n)` on the thread-local generator.
/// Claims only that it is below `n`; which one is chance.
#[verifier::external_body]
fn random_seat(n: usize) -> (r: usize)
    requires
        n > 0,
    ensures
        r < n,
{
    rand::rng().random_range(0..n)
}

impl DouDizhuGame {
    /// Resets seat states and the round for a new bidding round over a fresh deal.
    #[verifier::loop_isolation(false)]
    fn reset_for_bidding(&mut self)
        requires
            old(self).players@.len() == 3,
        ensures
            bidding_dealt(final(self)@, users_of(old(self)@.players)),
            final(self).turn_deadline is None,
            final(self).version == old(self).version,
            final(self).config == old(self).config,
            final(self).timer_id == old(self).timer_id,
            final(self).wf(),
    {
        self.deal_cards();
        let ghost dealt = self@;
        let mut k: usize = 0;
        while k < 3
            invariant
                k <= 3,
                self.players@.len() == 3,
                self.deck@ == dealt.deck,
                self.hole_cards@ == dealt.hole_cards,
                self.version == dealt.version,
                self.config == old(self).config,
                self.timer_id == old(self).timer_id,
                forall|j: int|
                    0 <= j < 3 ==> (#[trigger] self.players@[j]).hand@ == dealt.players[j].hand
                        && self.players@[j].hand_count == dealt.players[j].hand_count
                        && self.players@[j].player == dealt.players[j].player,
                forall|j: int|
                    0 <= j < k ==> {
                        &&& (#[trigger] self.players@[j]).role == Role::Undecided
                        &&& self.players@[j].bid_score == 0
                        &&& !self.players@[j].has_passed
                        &&& self.players@[j].last_action is None
                    },
            decreases 3 - k,
        {
            self.players[k].role = Role::Undecided;
            self.players[k].bid_score = 0;
            self.players[k].has_passed = false;
            self.players[k].last_action = None;
            k = k + 1;
        }
        self.stage = Stage::Bidding;
        self.current_turn = random_seat(3);
        self.highest_bid = 0;
        self.base_score = 0;
        self.consecutive_passes = 0;
        self.multiplier = 1;
        self.landlord_idx = None;
        self.last_play = None;
        self.winner = None;
        self.turn_deadline = None;
        proof {
            assert forall|j: int| 0 <= j < 3 implies (#[trigger] self@.players[j]).player
                == users_of(old(self)@.players)[j] by {
                assert(dealt.players[j].player == old(self)@.players[j].player);
            }
            assert(self@.players[0].hand == dealt.players[0].hand);
            assert(self@.players[1].hand == dealt.players[1].hand);
            assert(self@.players[2].hand == dealt.players[2].hand);
            assert forall|j: int| 0 <= j < 3 implies no_wild(#[trigger] self.players@[j].hand@) by {
                assert(self.players@[j].hand@ == dealt.players[j].hand);
            }
        }
    }

    /// Deals again for a new bidding round with the same players, after everyone passed.
    fn redeal(&mut self)
        requires
            old(self).players@.len() == 3,
            old(self).version < u32::MAX,
        ensures
            restarted_bidding(
                (GameView { version: (old(self).version + 1) as u32, turn_deadline: None, ..old(self)@ }),
                final(self)@,
            ),
            final(self).turn_deadline is None,
            final(self).wf(),
    {
        if self.players.len() != 3 {
            return;
        }
        self.reset_for_bidding();
        self.version = self.version + 1;
    }

    /// Seats the three users in order, deals, and opens the bidding with a random seat.
    /// With any other number of users nothing changes.
    pub fn start(&mut self, room_players: Vec<User>)
        ensures
            room_players@.len() != 3 ==> final(self)@ == old(self)@,
            room_players@.len() == 3 ==> {
                &&& bidding_dealt(final(self)@, room_players@)
                &&& final(self).version == 1
                &&& final(self).config == old(self).config
                &&& final(self).timer_id == old(self).timer_id
                &&& final(self).turn_deadline is None
                &&& final(self).wf()
            },
    {
        if room_players.len() != 3 {
            return;
        }
        let fresh = DouDizhuGame::new(room_players);
        self.players = fresh.players;
        proof {
            assert forall|j: int| 0 <= j < 3 implies (#[trigger] users_of(self@.players)[j]) == room_players@[j] by {
            }
            assert(users_of(self@.players) =~= room_players@);
        }
        self.reset_for_bidding();
        self.version = 1;
    }
}

} // verus!

verus! {

impl DouDizhuGame {
    /// Seat `l` wins the bidding: it takes the hole cards and becomes the landlord, the
    /// others become peasants, and play starts with it.
    fn finish_bidding(&mut self, l: usize) -> (cmds: Vec<GameCommand>)
        requires
            old(self).players@.len() == 3,
            forall|k: int| 0 <= k < 3 ==> no_wild(#[trigger] old(self).players@[k].hand@),
            no_wild(old(self).hole_cards@),
            old(self).landlord_idx matches Some(x) && x < 3,
            l < 3,
        ensures
            timer_restarted(end_bidding(old(self)@, l as int), final(self)@, cmds@),
            final(self).wf(),
    {
        let ghost g = self@;
        let mut hole = copy_cards(&self.hole_cards);
        proof {
            assert(no_wild(self.players@[l as int].hand@));
        }
        self.players[l].hand.append(&mut hole);
        let ghost joined = self.players@[l as int].hand@;
        proof {
            assert(joined =~= g.players[l as int].hand + g.hole_cards);
            assert forall|i: int| 0 <= i < joined.len() implies !(#[trigger] joined[i] is WildCard) by {
                if i < g.players[l as int].hand.len() {
                    assert(joined[i] == g.players[l as int].hand[i]);
                } else {
                    assert(joined[i] == g.hole_cards[i - g.players[l as int].hand.len()]);
                }
            }
            lemma_sort_desc(joined);
        }
        self.sort_hand(l);
        proof {
            lemma_no_wild_multiset(self.players@[l as int].hand@, joined);
        }
        self.players[l].hand_count = self.players[l].hand.len();
        self.players[l].role = Role::Landlord;
        let ghost mid = self.players@;
        let ghost gl = self@;
        let mut k: usize = 0;
        while k < 3
            invariant
                k <= 3,
                l < 3,
                self@ == (GameView { players: self@.players, ..gl }),
                self.hole_cards@ == g.hole_cards,
                self.players@.len() == 3,
                forall|j: int|
                    0 <= j < 3 ==> {
                        &&& (#[trigger] self.players@[j]).hand == mid[j].hand
                        &&& self.players@[j].hand_count == mid[j].hand_count
                        &&& self.players@[j].player == mid[j].player
                        &&& self.players@[j].bid_score == mid[j].bid_score
                        &&& self.players@[j].has_passed == mid[j].has_passed
                    },
                forall|j: int|
                    0 <= j < k ==> (#[trigger] self.players@[j]).last_action is None && (if j == l {
                        self.players@[j].role == Role::Landlord
                    } else {
                        self.players@[j].role == Role::Peasant
                    }),
                forall|j: int|
                    k <= j < 3 ==> (#[trigger] self.players@[j]).role == mid[j].role,
                mid[l as int].role == Role::Landlord,
            decreases 3 - k,
        {
            if k != l {
                self.players[k].role = Role::Peasant;
            }
            self.players[k].last_action = None;
            k = k + 1;
        }
        self.stage = Stage::Playing;
        self.current_turn = l;
        self.consecutive_passes = 0;
        self.last_play = None;
        proof {
            let e = end_bidding(g, l as int);
            assert forall|j: int| 0 <= j < 3 implies (#[trigger] self@.players[j]) == e.players[j] by {
                if j == l {
                    assert(mid[j].hand@ == sort_desc(g.players[l as int].hand + g.hole_cards));
                } else {
                    assert(mid[j].hand == self.players@[j].hand);
                    assert(mid[j].hand@ == g.players[j].hand);
                }
            }
            assert(self@.players =~= e.players);
            assert(self@ == e);
            assert forall|j: int| 0 <= j < 3 implies no_wild(#[trigger] self.players@[j].hand@) by {
                assert(self.players@[j].hand == mid[j].hand);
            }
        }
        self.start_turn_timer()
    }

    /// Seat `i` bids `score`, which is accepted: a pass (0) or a raise to at most 3.
    fn apply_bid(&mut self, i: usize, score: u8) -> (cmds: Vec<GameCommand>)
        requires
            old(self).wf(),
            i < 3,
            old(self).stage == Stage::Bidding,
            bid_accepted(old(self)@, score),
            old(self).version < u32::MAX,
        ensures
            final(self).wf(),
            ({
                let old_v = old(self)@;
                let new = final(self)@;
                let a = after_bid(old_v, i as int, score);
                if a.highest_bid == 0 && a.consecutive_passes >= 3 {
                    exists|mid: GameView|
                        restarted_bidding((GameView { version: (old_v.version + 1) as u32, turn_deadline: None, ..a }), mid)
                            && timer_restarted(mid, new, cmds@)
                } else if a.highest_bid == 3 || (a.highest_bid > 0 && a.consecutive_passes >= 2) {
                    match a.landlord_idx {
                        Some(l) => timer_restarted(
                            (GameView { version: (old_v.version + 1) as u32, ..end_bidding(a, l as int) }),
                            new,
                            cmds@,
                        ),
                        None => new == (GameView { version: (old_v.version + 1) as u32, ..a }) && cmds@.len() == 0,
                    }
                } else {
                    timer_restarted(
                        (GameView {
                            version: (old_v.version + 1) as u32,
                            current_turn: next_seat(old_v.current_turn),
                            ..a
                        }),
                        new,
                        cmds@,
                    )
                }
            }),
    {
        let ghost g = self@;
        if score == 0 {
            self.consecutive_passes = self.consecutive_passes + 1;
            self.players[i].has_passed = true;
        } else {
            self.highest_bid = score;
            self.base_score = score as u32;
            self.landlord_idx = Some(i);
            self.players[i].bid_score = score;
            self.consecutive_passes = 0;
        }
        proof {
            let a = after_bid(g, i as int, score);
            assert(self@.players =~= a.players);
            assert(self@ == a);
        }
        if self.highest_bid == 0 && self.consecutive_passes >= 3 {
            let ghost before = self@;
            self.redeal();
            let ghost mid = self@;
            let cmds = self.start_turn_timer();
            proof {
                assert(before == after_bid(g, i as int, score));
                assert(restarted_bidding(
                    (GameView { version: (g.version + 1) as u32, turn_deadline: None, ..before }),
                    mid,
                ));
            }
            return cmds;
        }
        self.version = self.version + 1;
        let ended = self.highest_bid == 3 || (self.highest_bid > 0 && self.consecutive_passes >= 2);
        if ended {
            match self.landlord_idx {
                Some(l) => self.finish_bidding(l),
                None => Vec::new(),
            }
        } else {
            self.next_turn()
        }
    }
}

} // verus!

verus! {

impl DouDizhuGame {
    /// Seat `i` plays `cards`; a play that is not accepted changes nothing.
    fn apply_play(&mut self, i: usize, cards: Vec<Card>) -> (cmds: Vec<GameCommand>)
        requires
            old(self).wf(),
            i < 3,
            old(self).stage == Stage::Playing,
            no_wild(cards@),
            old(self).version < u32::MAX,
            old(self).multiplier <= u32::MAX / 2,
        ensures
            final(self).wf(),
            ({
                let old_v = old(self)@;
                let new = final(self)@;
                if play_accepted(old_v, i as int, cards@) {
                    let a = GameView { version: (old_v.version + 1) as u32, ..after_play(old_v, i as int, cards@) };
                    if a.players[i as int].hand.len() == 0 {
                        new == (GameView {
                            stage: Stage::Finished,
                            winner: Some(i),
                            turn_deadline: None,
                            timer_id: None,
                            ..a
                        }) && cmds@ == cancel_commands(old_v.timer_id).push(GameCommand::GameOver)
                    } else {
                        timer_restarted((GameView { current_turn: next_seat(old_v.current_turn), ..a }), new, cmds@)
                    }
                } else {
                    new == old_v && cmds@.len() == 0
                }
            }),
    {
        let ghost g = self@;
        let pattern = match analyze_pattern(cards.as_slice()) {
            Some(p) => p,
            None => {
                return Vec::new();
            },
        };
        let mut valid = true;
        match &self.last_play {
            Some(last) => {
                if last.player_idx != i && !pattern.beats(&last.pattern) {
                    valid = false;
                }
            },
            None => {},
        }
        let taken = take_cards(&self.players[i].hand, &cards);
        if !valid {
            return Vec::new();
        }
        let new_hand = match taken {
            Some(h) => h,
            None => {
                return Vec::new();
            },
        };
        proof {
            assert(play_accepted(g, i as int, cards@));
            lemma_remove_cards_no_wild(g.players[i as int].hand, cards@);
        }
        let new_trick = match &self.last_play {
            Some(last) => last.player_idx == i,
            None => true,
        };
        if new_trick {
            self.clear_last_actions();
        }
        let ghost ps = self@.players;
        let played = copy_cards(&cards);
        self.players[i].hand = new_hand;
        self.players[i].hand_count = self.players[i].hand.len();
        self.players[i].last_action = Some(PlayerAction::PlayCards(played));
        self.last_play = Some(LastPlay { player_idx: i, cards, pattern });
        self.consecutive_passes = 0;
        if let Pattern::Bomb(_) = pattern {
            self.multiplier = self.multiplier * 2;
        } else if let Pattern::Rocket = pattern {
            self.multiplier = self.multiplier * 2;
        }
        self.version = self.version + 1;
        proof {
            let a = GameView { version: (g.version + 1) as u32, ..after_play(g, i as int, cards@) };
            assert(self@.players =~= a.players);
            assert(self@ == a);
            assert forall|j: int| 0 <= j < 3 implies no_wild(#[trigger] self.players@[j].hand@) by {
                if j != i {
                    assert(self.players@[j].hand@ == g.players[j].hand);
                }
            }
        }
        if self.players[i].hand.len() == 0 {
            self.stage = Stage::Finished;
            self.winner = Some(i);
            self.turn_deadline = None;
            let mut commands: Vec<GameCommand> = Vec::new();
            let ghost old_timer = self.timer_id;
            if let Some(timer_id) = self.timer_id.take() {
                commands.push(GameCommand::CancelTimer { id: timer_id, duration_secs: 0 });
            }
            commands.push(GameCommand::GameOver);
            proof {
                assert(commands@ =~= cancel_commands(old_timer).push(GameCommand::GameOver));
            }
            commands
        } else {
            self.next_turn()
        }
    }

    /// Clears every seat's last action, as a new trick starts.
    fn clear_last_actions(&mut self)
        requires
            old(self).players@.len() == 3,
        ensures
            final(self)@ == (GameView { players: clear_actions(old(self)@.players), ..old(self)@ }),
            final(self).players@.len() == 3,
            final(self).current_turn == old(self).current_turn,
            final(self).timer_id == old(self).timer_id,
            forall|j: int| 0 <= j < 3 ==> (#[trigger] final(self).players@[j]).hand@ == old(self).players@[j].hand@,
    {
        let ghost gl = self@;
        let mut k: usize = 0;
        while k < 3
            invariant
                k <= 3,
                self.players@.len() == 3,
                self@ == (GameView { players: self@.players, ..gl }),
                self.current_turn == old(self).current_turn,
                self.timer_id == old(self).timer_id,
                gl == old(self)@,
                forall|j: int| 0 <= j < 3 ==> (#[trigger] self.players@[j]).hand@ == old(self).players@[j].hand@,
                forall|j: int|
                    0 <= j < 3 ==> (#[trigger] self.players@[j])@ == (if j < k {
                        PlayerView { last_action: None, ..gl.players[j] }
                    } else {
                        gl.players[j]
                    }),
            decreases 3 - k,
        {
            let ghost before = self.players@;
            self.players[k].last_action = None;
            proof {
                assert forall|j: int| 0 <= j < 3 implies (#[trigger] self.players@[j])@ == (if j < k + 1 {
                    PlayerView { last_action: None, ..gl.players[j] }
                } else {
                    gl.players[j]
                }) by {
                    if j != k {
                        assert(self.players@[j] == before[j]);
                    }
                }
            }
            k = k + 1;
        }
        proof {
            assert(self@.players =~= clear_actions(gl.players));
        }
    }

    /// Seat `i` passes; a pass that is not accepted changes nothing.
    fn apply_pass(&mut self, i: usize) -> (cmds: Vec<GameCommand>)
        requires
            old(self).wf(),
            i < 3,
            old(self).stage == Stage::Playing,
            old(self).version < u32::MAX,
        ensures
            final(self).wf(),
            if pass_accepted(old(self)@, i as int) {
                timer_restarted(
                    (GameView { version: (old(self)@.version + 1) as u32, ..after_pass(old(self)@, i as int) }),
                    final(self)@,
                    cmds@,
                )
            } else {
                final(self)@ == old(self)@ && cmds@.len() == 0
            },
    {
        let ghost g = self@;
        let can_pass = match &self.last_play {
            Some(last) => last.player_idx != i,
            None => false,
        };
        if !can_pass {
            return Vec::new();
        }
        self.players[i].last_action = Some(PlayerAction::Pass);
        self.consecutive_passes = self.consecutive_passes + 1;
        self.version = self.version + 1;
        let cmds = self.next_turn();
        if self.consecutive_passes >= 2 {
            self.last_play = None;
            self.consecutive_passes = 0;
            self.clear_last_actions();
        }
        proof {
            let a = GameView { version: (g.version + 1) as u32, ..after_pass(g, i as int) };
            assert(self@.players =~= a.players);
            assert forall|j: int| 0 <= j < 3 implies no_wild(#[trigger] self.players@[j].hand@) by {
                assert(g.players[j] == old(self).players@[j]@);
                assert(self@.players[j] == self.players@[j]@);
                assert(self@.players[j].hand == g.players[j].hand);
            }
        }
        cmds
    }

    /// Applies seat `i`'s move as the rules of the current stage allow; a move that the
    /// rules refuse changes nothing and issues no command.
    pub fn process_game_action(&mut self, player_idx: usize, action: Action) -> (cmds: Vec<GameCommand>)
        requires
            old(self).live_wf(),
            old(self).in_play() ==> player_idx < 3 && old(self).can_grow(),
            old(self).stage == Stage::Playing ==> (action matches Action::Play { cards } ==> no_wild(cards@)),
        ensures
            final(self).live_wf(),
            old(self).wf() ==> final(self).wf(),
            move_made(old(self)@, final(self)@, cmds@, player_idx as int, action@),
    {
        let ghost g = self@;
        let ghost act = action;
        match action {
            Action::Bid { score } => {
                if self.stage == Stage::Bidding && (score == 0 || (score > self.highest_bid && score <= 3)) {
                    self.apply_bid(player_idx, score)
                } else {
                    Vec::new()
                }
            },
            Action::Play { cards } => {
                if self.stage == Stage::Playing {
                    self.apply_play(player_idx, cards)
                } else {
                    Vec::new()
                }
            },
            Action::Pass => {
                if self.stage == Stage::Playing {
                    self.apply_pass(player_idx)
                } else {
                    Vec::new()
                }
            },
        }
    }
}

} // verus!
