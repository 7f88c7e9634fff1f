//! Texas hold'em: the table, its seats, and what can be said of them as values.

use vstd::prelude::*;
use crate::poker::{Card, Deck};
use crate::basic::player::{Player, PlayerProfile};

verus! {

/// The stages of a hand.
#[derive(Debug, Clone, Copy, PartialEq, Eq, Structural)]
pub enum GameStage {
    Setup,
    PreFlop,
    Flop,
    Turn,
    River,
    Showdown,
    Finished,
}

/// What a player can do on their turn.
#[derive(Debug, Clone, Copy, PartialEq, Eq, Structural)]
pub enum BettingAction {
    Fold,
    Check,
    Call,
    /// Open the betting with this amount.
    Bet(u64),
    /// Raise the bet to this amount.
    Raise(u64),
    AllIn,
}

/// A seat at the table.
#[derive(Debug, Clone, PartialEq, Eq)]
pub struct PlayerState {
    pub player: Player,
    pub chips: u64,
    pub hand: Vec<Card>,
    /// What the player has put in during the current betting round.
    pub current_bet: u64,
    /// What the player has put in during the whole hand.
    pub total_bet: u64,
    pub is_active: bool,
    pub is_all_in: bool,
}

/// A seat, as values.
pub struct SeatView {
    pub player: PlayerProfile,
    pub chips: u64,
    pub hand: Seq<Card>,
    pub current_bet: u64,
    pub total_bet: u64,
    pub is_active: bool,
    pub is_all_in: bool,
}

impl View for PlayerState {
    type V = SeatView;

    open spec fn view(&self) -> SeatView {
        SeatView {
            player: self.player@,
            chips: self.chips,
            hand: self.hand@,
            current_bet: self.current_bet,
            total_bet: self.total_bet,
            is_active: self.is_active,
            is_all_in: self.is_all_in,
        }
    }
}

/// A side pot and the seats that can win it.
#[derive(Debug, Clone)]
pub struct SidePot {
    pub amount: u64,
    pub eligible_players: Vec<usize>,
}

/// A side pot, as values.
pub struct SidePotView {
    pub amount: u64,
    pub eligible_players: Seq<usize>,
}

impl View for SidePot {
    type V = SidePotView;

    open spec fn view(&self) -> SidePotView {
        SidePotView { amount: self.amount, eligible_players: self.eligible_players@ }
    }
}

/// A table of hold'em.
#[derive(Debug, Clone)]
pub struct HoldemGame {
    pub players: Vec<PlayerState>,
    pub deck: Deck,
    pub community_cards: Vec<Card>,
    pub pot: u64,
    pub side_pots: Vec<SidePot>,
    pub current_stage: GameStage,
    pub dealer_position: usize,
    pub current_player: usize,
    pub small_blind: u64,
    pub big_blind: u64,
    /// The highest bet of the current betting round.
    pub current_bet: u64,
    /// The least a raise must add.
    pub min_raise: u64,
}

/// A table, as values.
pub struct TableView {
    pub players: Seq<SeatView>,
    pub deck: Seq<Card>,
    pub community_cards: Seq<Card>,
    pub pot: u64,
    pub side_pots: Seq<SidePotView>,
    pub current_stage: GameStage,
    pub dealer_position: usize,
    pub current_player: usize,
    pub small_blind: u64,
    pub big_blind: u64,
    pub current_bet: u64,
    pub min_raise: u64,
}

impl View for HoldemGame {
    type V = TableView;

    open spec fn view(&self) -> TableView {
        TableView {
            players: self.players@.map_values(|p: PlayerState| p@),
            deck: self.deck@,
            community_cards: self.community_cards@,
            pot: self.pot,
            side_pots: self.side_pots@.map_values(|s: SidePot| s@),
            current_stage: self.current_stage,
            dealer_position: self.dealer_position,
            current_player: self.current_player,
            small_blind: self.small_blind,
            big_blind: self.big_blind,
            current_bet: self.current_bet,
            min_raise: self.min_raise,
        }
    }
}

/// The rank of a five-card hand, weakest first.
#[derive(Debug, Clone, PartialEq, Eq, PartialOrd, Ord)]
pub enum HandRank {
    HighCard(Vec<u8>),
    OnePair(u8, Vec<u8>),
    TwoPair(u8, u8, u8),
    ThreeOfAKind(u8, Vec<u8>),
    Straight(u8),
    Flush(Vec<u8>),
    FullHouse(u8, u8),
    FourOfAKind(u8, u8),
    StraightFlush(u8),
    RoyalFlush,
}

/// What happened at the table.
#[derive(Debug, Clone)]
pub enum GameEvent {
    GameStarted { players: Vec<Player>, dealer_position: usize },
    BlindsPosted {
        small_blind_player: usize,
        small_blind_amount: u64,
        big_blind_player: usize,
        big_blind_amount: u64,
    },
    CardsDealt { player: usize, cards: Vec<Card> },
    StageChanged { stage: GameStage },
    CommunityCardsRevealed { cards: Vec<Card> },
    PlayerAction { player: usize, action: BettingAction },
    PotUpdated { pot: u64 },
    PlayerWon { player: usize, amount: u64, hand_rank: Option<HandRank> },
    GameEnded,
}

/// What happened at the table, as values.
pub enum EventView {
    GameStarted { players: Seq<PlayerProfile>, dealer_position: usize },
    BlindsPosted {
        small_blind_player: usize,
        small_blind_amount: u64,
        big_blind_player: usize,
        big_blind_amount: u64,
    },
    CardsDealt { player: usize, cards: Seq<Card> },
    StageChanged { stage: GameStage },
    CommunityCardsRevealed { cards: Seq<Card> },
    PlayerAction { player: usize, action: BettingAction },
    PotUpdated { pot: u64 },
    PlayerWon { player: usize, amount: u64, hand_rank: Option<HandRank> },
    GameEnded,
}

impl View for GameEvent {
    type V = EventView;

    open spec fn view(&self) -> EventView {
        match self {
            GameEvent::GameStarted { players, dealer_position } => EventView::GameStarted {
                players: players@.map_values(|p: Player| p@),
                dealer_position: *dealer_position,
            },
            GameEvent::BlindsPosted {
                small_blind_player,
                small_blind_amount,
                big_blind_player,
                big_blind_amount,
            } => EventView::BlindsPosted {
                small_blind_player: *small_blind_player,
                small_blind_amount: *small_blind_amount,
                big_blind_player: *big_blind_player,
                big_blind_amount: *big_blind_amount,
            },
            GameEvent::CardsDealt { player, cards } => EventView::CardsDealt {
                player: *player,
                cards: cards@,
            },
            GameEvent::StageChanged { stage } => EventView::StageChanged { stage: *stage },
            GameEvent::CommunityCardsRevealed { cards } => EventView::CommunityCardsRevealed {
                cards: cards@,
            },
            GameEvent::PlayerAction { player, action } => EventView::PlayerAction {
                player: *player,
                action: *action,
            },
            GameEvent::PotUpdated { pot } => EventView::PotUpdated { pot: *pot },
            GameEvent::PlayerWon { player, amount, hand_rank } => EventView::PlayerWon {
                player: *player,
                amount: *amount,
                hand_rank: *hand_rank,
            },
            GameEvent::GameEnded => EventView::GameEnded,
        }
    }
}

/// The views of a list of events.
pub open spec fn events_view(v: Seq<GameEvent>) -> Seq<EventView> {
    v.map_values(|e: GameEvent| e@)
}

/// Why a request was refused.
#[derive(Debug, Clone, PartialEq, Eq)]
pub enum GameError {
    NotEnoughPlayers,
    InvalidPlayerIndex,
    InvalidAction(String),
    NotPlayerTurn,
    InsufficientChips,
    GameNotInProgress,
    InvalidBetAmount,
}

/// Why a request was refused, as values.
pub enum ErrorView {
    NotEnoughPlayers,
    InvalidPlayerIndex,
    InvalidAction(Seq<char>),
    NotPlayerTurn,
    InsufficientChips,
    GameNotInProgress,
    InvalidBetAmount,
}

impl View for GameError {
    type V = ErrorView;

    open spec fn view(&self) -> ErrorView {
        match self {
            GameError::NotEnoughPlayers => ErrorView::NotEnoughPlayers,
            GameError::InvalidPlayerIndex => ErrorView::InvalidPlayerIndex,
            GameError::InvalidAction(s) => ErrorView::InvalidAction(s@),
            GameError::NotPlayerTurn => ErrorView::NotPlayerTurn,
            GameError::InsufficientChips => ErrorView::InsufficientChips,
            GameError::GameNotInProgress => ErrorView::GameNotInProgress,
            GameError::InvalidBetAmount => ErrorView::InvalidBetAmount,
        }
    }
}

/// The seat can still act in this hand: it has not folded and is not all in.
pub open spec fn can_act(p: SeatView) -> bool {
    p.is_active && !p.is_all_in
}

/// From seat `idx`, the first seat within `steps` seats (going round the table) that
/// can act; the seat reached after `steps` seats if none can.
pub open spec fn walk_active(ps: Seq<SeatView>, idx: int, steps: nat) -> int
    decreases steps,
{
    if steps == 0 || can_act(ps[idx]) {
        idx
    } else {
        walk_active(ps, (idx + 1) % (ps.len() as int), (steps - 1) as nat)
    }
}

/// The first seat from `start` on (going round the table) that can act; `start` itself,
/// taken round the table, when no seat can.
pub open spec fn next_active(ps: Seq<SeatView>, start: int) -> int {
    walk_active(ps, start % (ps.len() as int), ps.len())
}

/// The betting round is over: at most one seat can still act, or every seat that can has
/// matched the highest bet.
pub open spec fn round_complete(g: TableView) -> bool {
    ||| forall|a: int, b: int|
        0 <= a < g.players.len() && 0 <= b < g.players.len() && can_act(#[trigger] g.players[a])
            && can_act(#[trigger] g.players[b]) ==> a == b
    ||| forall|k: int|
        0 <= k < g.players.len() && can_act(#[trigger] g.players[k]) ==> g.players[k].current_bet
            == g.current_bet
}

/// The chips in front of the seats.
pub open spec fn chips_total(ps: Seq<SeatView>) -> int
    decreases ps.len(),
{
    if ps.len() == 0 {
        0
    } else {
        chips_total(ps.drop_last()) + ps.last().chips
    }
}

/// What the seats have put in during the hand.
pub open spec fn bets_total(ps: Seq<SeatView>) -> int
    decreases ps.len(),
{
    if ps.len() == 0 {
        0
    } else {
        bets_total(ps.drop_last()) + ps.last().total_bet
    }
}

/// Replacing one seat changes the totals by what that seat changes.
pub proof fn lemma_totals_update(ps: Seq<SeatView>, i: int, p: SeatView)
    requires
        0 <= i < ps.len(),
    ensures
        chips_total(ps.update(i, p)) == chips_total(ps) - ps[i].chips + p.chips,
        bets_total(ps.update(i, p)) == bets_total(ps) - ps[i].total_bet + p.total_bet,
    decreases ps.len(),
{
    let q = ps.update(i, p);
    if i == ps.len() - 1 {
        assert(q.drop_last() =~= ps.drop_last());
    } else {
        lemma_totals_update(ps.drop_last(), i, p);
        assert(q.drop_last() =~= ps.drop_last().update(i, p));
    }
}

/// Seats with the same chips and the same bets for the hand have the same totals.
pub proof fn lemma_totals_same(a: Seq<SeatView>, b: Seq<SeatView>)
    requires
        a.len() == b.len(),
        forall|k: int| 0 <= k < a.len() ==> (#[trigger] a[k]).chips == b[k].chips && a[k].total_bet == b[k].total_bet,
    ensures
        chips_total(a) == chips_total(b),
        bets_total(a) == bets_total(b),
    decreases a.len(),
{
    if a.len() > 0 {
        lemma_totals_same(a.drop_last(), b.drop_last());
    }
}

/// Seats with the same chips hold the same chips in all.
pub proof fn lemma_chips_same(a: Seq<SeatView>, b: Seq<SeatView>)
    requires
        a.len() == b.len(),
        forall|k: int| 0 <= k < a.len() ==> (#[trigger] a[k]).chips == b[k].chips,
    ensures
        chips_total(a) == chips_total(b),
    decreases a.len(),
{
    if a.len() > 0 {
        lemma_chips_same(a.drop_last(), b.drop_last());
    }
}

/// No seat holds more chips, or has put in more, than all seats together.
pub proof fn lemma_totals_bound(ps: Seq<SeatView>, i: int)
    requires
        0 <= i < ps.len(),
    ensures
        ps[i].chips <= chips_total(ps),
        ps[i].total_bet <= bets_total(ps),
        chips_total(ps) >= 0,
        bets_total(ps) >= 0,
    decreases ps.len(),
{
    lemma_totals_nonneg(ps.drop_last());
    if i < ps.len() - 1 {
        lemma_totals_bound(ps.drop_last(), i);
    }
}

/// Totals are never negative.
pub proof fn lemma_totals_nonneg(ps: Seq<SeatView>)
    ensures
        chips_total(ps) >= 0,
        bets_total(ps) >= 0,
    decreases ps.len(),
{
    if ps.len() > 0 {
        lemma_totals_nonneg(ps.drop_last());
    }
}

impl TableView {
    /// The conditions every table keeps: two seats or more, the turn and the button at a
    /// seat, the pot holding exactly what the seats have put in during the hand, and no
    /// seat's bet in the round above what it put in during the hand.
    pub open spec fn wf(self) -> bool {
        &&& self.players.len() >= 2
        &&& self.current_player < self.players.len()
        &&& self.dealer_position < self.players.len()
        &&& bets_total(self.players) == self.pot
        &&& forall|k: int|
            0 <= k < self.players.len() ==> (#[trigger] self.players[k]).current_bet
                <= self.players[k].total_bet
    }

    /// All the chips at the table, in front of the seats and in the pot, fit in a u64.
    pub open spec fn chips_fit(self) -> bool {
        chips_total(self.players) + self.pot <= u64::MAX
    }
}

} // verus!
