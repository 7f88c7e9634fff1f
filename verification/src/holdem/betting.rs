//! Hold'em betting: a player's move, the end of a betting round, the next street, and the
//! showdown.

use vstd::prelude::*;
use crate::poker::{Card, Deck, standard_cards};
use crate::basic::player::Player;
use crate::holdem::table::{
    BettingAction, ErrorView, EventView, GameError, GameEvent, GameStage, HoldemGame, PlayerState,
    SeatView, TableView, bets_total, can_act, chips_total, events_view, lemma_totals_bound,
    lemma_totals_nonneg, lemma_totals_same, lemma_totals_update, next_active, round_complete,
    walk_active,
};

verus! {

/// The table with seat `i` replaced by `p`.
pub open spec fn with_seat(g: TableView, i: int, p: SeatView) -> TableView {
    TableView { players: g.players.update(i, p), ..g }
}

/// A seat left without chips is all in.
pub open spec fn broke_all_in(p: SeatView) -> SeatView {
    if p.chips == 0 {
        SeatView { is_all_in: true, ..p }
    } else {
        p
    }
}

/// Why seat `i` may not make the move `a`, if it may not.
pub open spec fn error_of(g: TableView, i: usize, a: BettingAction) -> Option<ErrorView> {
    if i != g.current_player {
        Some(ErrorView::NotPlayerTurn)
    } else if !can_act(g.players[i as int]) {
        Some(ErrorView::InvalidAction("Player is not active"@))
    } else {
        let p = g.players[i as int];
        match a {
            BettingAction::Check => if p.current_bet < g.current_bet {
                Some(ErrorView::InvalidAction("Cannot check, must call or raise"@))
            } else {
                None
            },
            BettingAction::Bet(x) => if g.current_bet > 0 {
                Some(ErrorView::InvalidAction("Cannot bet, must raise"@))
            } else if x < g.big_blind {
                Some(ErrorView::InvalidBetAmount)
            } else if x > p.chips {
                Some(ErrorView::InsufficientChips)
            } else {
                None
            },
            BettingAction::Raise(x) => if x < g.current_bet + g.min_raise {
                Some(ErrorView::InvalidBetAmount)
            } else if x > p.chips + p.current_bet {
                Some(ErrorView::InsufficientChips)
            } else {
                None
            },
            _ => None,
        }
    }
}

/// What the move of seat `i` would need to be computed without overflow or underflow: a
/// call never faces a bet below the seat's own, the least raise fits in a u64, and an
/// accepted raise reaches the seat's own bet.
pub open spec fn action_safe(g: TableView, i: usize, a: BettingAction) -> bool {
    (i == g.current_player && can_act(g.players[i as int])) ==> match a {
        BettingAction::Call => g.players[i as int].current_bet <= g.current_bet,
        BettingAction::Raise(x) => {
            &&& g.current_bet + g.min_raise <= u64::MAX
            &&& (g.current_bet + g.min_raise <= x && x <= g.players[i as int].chips
                + g.players[i as int].current_bet) ==> g.players[i as int].current_bet <= x
        },
        _ => true,
    }
}

/// The deck holds the cards the next street deals: a burn card and three for the flop,
/// a burn card and one for the turn or the river.
pub open spec fn deck_ready(g: TableView) -> bool {
    &&& g.current_stage == GameStage::PreFlop ==> g.deck.len() >= 4
    &&& (g.current_stage == GameStage::Flop || g.current_stage == GameStage::Turn) ==> g.deck.len()
        >= 2
}

/// The smaller of two amounts.
pub open spec fn min_u64(a: u64, b: u64) -> u64 {
    if a <= b {
        a
    } else {
        b
    }
}

/// The table after seat `i` makes the move `a` (the turn not yet passed on).
pub open spec fn bet_applied(g: TableView, i: int, a: BettingAction) -> TableView {
    let p = g.players[i];
    match a {
        BettingAction::Fold => with_seat(g, i, SeatView { is_active: false, ..p }),
        BettingAction::Check => g,
        BettingAction::Call => {
            let amt = min_u64((g.current_bet - p.current_bet) as u64, p.chips);
            TableView {
                pot: (g.pot + amt) as u64,
                ..with_seat(
                    g,
                    i,
                    broke_all_in(
                        SeatView {
                            chips: (p.chips - amt) as u64,
                            current_bet: (p.current_bet + amt) as u64,
                            total_bet: (p.total_bet + amt) as u64,
                            ..p
                        },
                    ),
                )
            }
        },
        BettingAction::Bet(x) => TableView {
            pot: (g.pot + x) as u64,
            current_bet: x,
            min_raise: x,
            ..with_seat(
                g,
                i,
                broke_all_in(
                    SeatView {
                        chips: (p.chips - x) as u64,
                        current_bet: x,
                        total_bet: (p.total_bet + x) as u64,
                        ..p
                    },
                ),
            )
        },
        BettingAction::Raise(x) => {
            let t = (x - p.current_bet) as u64;
            TableView {
                pot: (g.pot + t) as u64,
                min_raise: (x - g.current_bet) as u64,
                current_bet: x,
                ..with_seat(
                    g,
                    i,
                    broke_all_in(
                        SeatView {
                            chips: (p.chips - t) as u64,
                            current_bet: x,
                            total_bet: (p.total_bet + t) as u64,
                            ..p
                        },
                    ),
                )
            }
        },
        BettingAction::AllIn => {
            let q = SeatView {
                chips: 0,
                current_bet: (p.current_bet + p.chips) as u64,
                total_bet: (p.total_bet + p.chips) as u64,
                is_all_in: true,
                ..p
            };
            let h = TableView { pot: (g.pot + p.chips) as u64, ..with_seat(g, i, q) };
            if q.current_bet > g.current_bet {
                TableView {
                    min_raise: (q.current_bet - g.current_bet) as u64,
                    current_bet: q.current_bet,
                    ..h
                }
            } else {
                h
            }
        },
    }
}

/// The events of the move `a` of seat `i`; `h` is the table after it.
pub open spec fn bet_events(h: TableView, i: usize, a: BettingAction) -> Seq<EventView> {
    match a {
        BettingAction::Fold | BettingAction::Check => seq![
            EventView::PlayerAction { player: i, action: a },
        ],
        _ => seq![
            EventView::PlayerAction { player: i, action: a },
            EventView::PotUpdated { pot: h.pot },
        ],
    }
}

/// The seats with their bets of the round cleared.
pub open spec fn zero_bets(ps: Seq<SeatView>) -> Seq<SeatView> {
    Seq::new(ps.len(), |k: int| SeatView { current_bet: 0, ..ps[k] })
}

/// The deck after a burn card is taken, if there is one.
pub open spec fn burn(d: Seq<Card>) -> Seq<Card> {
    if d.len() > 0 {
        d.drop_last()
    } else {
        d
    }
}

/// The three flop cards dealt from the top of `d`.
pub open spec fn flop_of(d: Seq<Card>) -> Seq<Card> {
    seq![d[d.len() - 1], d[d.len() - 2], d[d.len() - 3]]
}

/// Seat `k` is the first seat still in the hand.
pub open spec fn is_first_active(ps: Seq<SeatView>, k: int) -> bool {
    &&& 0 <= k < ps.len()
    &&& ps[k].is_active
    &&& forall|j: int| 0 <= j < k ==> !(#[trigger] ps[j]).is_active
}

/// The first seat still in the hand, if any.
pub open spec fn first_active(ps: Seq<SeatView>) -> Option<int> {
    if exists|k: int| is_first_active(ps, k) {
        Some(choose|k: int| is_first_active(ps, k))
    } else {
        None
    }
}

/// The showdown: the first seat still in the hand takes the pot (the pot itself is not
/// emptied), the hand is over, and the button moves on.
pub open spec fn showdown_state(s: TableView) -> TableView {
    let paid = match first_active(s.players) {
        Some(w) => with_seat(
            s,
            w,
            SeatView { chips: (s.players[w].chips + s.pot) as u64, ..s.players[w] },
        ),
        None => s,
    };
    TableView {
        current_stage: GameStage::Finished,
        dealer_position: ((s.dealer_position + 1) % (s.players.len() as int)) as usize,
        ..paid
    }
}

/// The events of the showdown.
pub open spec fn showdown_events(s: TableView) -> Seq<EventView> {
    match first_active(s.players) {
        Some(w) => seq![
            EventView::PlayerWon { player: w as usize, amount: s.pot, hand_rank: None },
            EventView::GameEnded,
        ],
        None => seq![EventView::GameEnded],
    }
}

/// The seat that opens the betting after the flop, the turn and the river.
pub open spec fn first_after_button(z: TableView) -> usize {
    next_active(z.players, (z.dealer_position + 1) % (z.players.len() as int)) as usize
}

/// The table after a completed betting round: bets of the round cleared, and the next
/// street dealt from the deck (after a burn card), or the showdown after the river.
pub open spec fn advanced(m: TableView) -> TableView {
    let z = TableView { players: zero_bets(m.players), current_bet: 0, ..m };
    let d = burn(z.deck);
    match m.current_stage {
        GameStage::PreFlop => TableView {
            deck: d.take(d.len() - 3),
            community_cards: z.community_cards + flop_of(d),
            current_stage: GameStage::Flop,
            current_player: first_after_button(z),
            ..z
        },
        GameStage::Flop => TableView {
            deck: d.drop_last(),
            community_cards: z.community_cards.push(d.last()),
            current_stage: GameStage::Turn,
            current_player: first_after_button(z),
            ..z
        },
        GameStage::Turn => TableView {
            deck: d.drop_last(),
            community_cards: z.community_cards.push(d.last()),
            current_stage: GameStage::River,
            current_player: first_after_button(z),
            ..z
        },
        GameStage::River => showdown_state(TableView { current_stage: GameStage::Showdown, ..z }),
        _ => z,
    }
}

/// The events of the end of a betting round.
pub open spec fn advance_events(m: TableView) -> Seq<EventView> {
    let z = TableView { players: zero_bets(m.players), current_bet: 0, ..m };
    let d = burn(z.deck);
    match m.current_stage {
        GameStage::PreFlop => seq![
            EventView::StageChanged { stage: GameStage::Flop },
            EventView::CommunityCardsRevealed { cards: flop_of(d) },
        ],
        GameStage::Flop => seq![
            EventView::StageChanged { stage: GameStage::Turn },
            EventView::CommunityCardsRevealed { cards: seq![d.last()] },
        ],
        GameStage::Turn => seq![
            EventView::StageChanged { stage: GameStage::River },
            EventView::CommunityCardsRevealed { cards: seq![d.last()] },
        ],
        GameStage::River => seq![EventView::StageChanged { stage: GameStage::Showdown }]
            + showdown_events(TableView { current_stage: GameStage::Showdown, ..z }),
        _ => seq![],
    }
}

/// The table after seat `i`'s move and the turn passed on, before the round is checked.
pub open spec fn moved(g: TableView, i: int, a: BettingAction) -> TableView {
    let h = bet_applied(g, i, a);
    TableView { current_player: next_active(h.players, i + 1) as usize, ..h }
}

/// The table after an accepted move of seat `i`.
pub open spec fn stepped(g: TableView, i: int, a: BettingAction) -> TableView {
    let m = moved(g, i, a);
    if round_complete(m) {
        advanced(m)
    } else {
        m
    }
}

/// The events of an accepted move of seat `i`.
pub open spec fn step_events(g: TableView, i: int, a: BettingAction) -> Seq<EventView> {
    let m = moved(g, i, a);
    bet_events(m, i as usize, a) + if round_complete(m) {
        advance_events(m)
    } else {
        seq![]
    }
}

/// A walk round the table stays at the table.
pub proof fn lemma_walk_in_range(ps: Seq<SeatView>, idx: int, steps: nat)
    requires
        0 <= idx < ps.len(),
    ensures
        0 <= walk_active(ps, idx, steps) < ps.len(),
    decreases steps,
{
    if steps > 0 && !can_act(ps[idx]) {
        lemma_walk_in_range(ps, (idx + 1) % (ps.len() as int), (steps - 1) as nat);
    }
}

/// The next seat to act is a seat of the table.
pub proof fn lemma_next_active_in_range(ps: Seq<SeatView>, start: int)
    requires
        ps.len() > 0,
        start >= 0,
    ensures
        0 <= next_active(ps, start) < ps.len(),
{
    lemma_walk_in_range(ps, start % (ps.len() as int), ps.len());
}

impl HoldemGame {
    /// A table for the given players, each with `starting_chips`, not yet dealt;
    /// refused with fewer than two players.
    pub fn new(players: Vec<Player>, starting_chips: u64, small_blind: u64, big_blind: u64) -> (r:
        Result<HoldemGame, GameError>)
        ensures
            players@.len() < 2 ==> (r matches Err(e) && e@ is NotEnoughPlayers),
            players@.len() >= 2 ==> (r matches Ok(g) && {
                &&& g@.players.len() == players@.len()
                &&& forall|k: int|
                    0 <= k < players@.len() ==> #[trigger] g@.players[k] == (SeatView {
                        player: players@[k]@,
                        chips: starting_chips,
                        hand: Seq::empty(),
                        current_bet: 0,
                        total_bet: 0,
                        is_active: true,
                        is_all_in: false,
                    })
                &&& g@.deck == standard_cards()
                &&& g@.community_cards.len() == 0
                &&& g@.pot == 0
                &&& g@.side_pots.len() == 0
                &&& g@.current_stage == GameStage::Setup
                &&& g@.dealer_position == 0
                &&& g@.current_player == 0
                &&& g@.small_blind == small_blind
                &&& g@.big_blind == big_blind
                &&& g@.current_bet == 0
                &&& g@.min_raise == big_blind
                &&& g@.wf()
            }),
    {
        if players.len() < 2 {
            return Err(GameError::NotEnoughPlayers);
        }
        let mut seats: Vec<PlayerState> = Vec::new();
        let n = players.len();
        for i in 0..n
            invariant
                n == players@.len(),
                seats@.len() == i,
                forall|k: int|
                    0 <= k < i ==> (#[trigger] seats@[k])@ == (SeatView {
                        player: players@[k]@,
                        chips: starting_chips,
                        hand: Seq::empty(),
                        current_bet: 0,
                        total_bet: 0,
                        is_active: true,
                        is_all_in: false,
                    }),
        {
            let seat = PlayerState {
                player: players[i].copy(),
                chips: starting_chips,
                hand: Vec::new(),
                current_bet: 0,
                total_bet: 0,
                is_active: true,
                is_all_in: false,
            };
            assert(seat@.hand =~= Seq::<Card>::empty());
            seats.push(seat);
        }
        let g = HoldemGame {
            players: seats,
            deck: Deck::new(),
            community_cards: Vec::new(),
            pot: 0,
            side_pots: Vec::new(),
            current_stage: GameStage::Setup,
            dealer_position: 0,
            current_player: 0,
            small_blind,
            big_blind,
            current_bet: 0,
            min_raise: big_blind,
        };
        proof {
            let z = Seq::new(n as nat, |k: int| SeatView {
                player: players@[k]@,
                chips: starting_chips,
                hand: Seq::empty(),
                current_bet: 0,
                total_bet: 0,
                is_active: true,
                is_all_in: false,
            });
            assert(g@.players =~= z);
            lemma_zero_bets_total(z);
        }
        Ok(g)
    }

    /// The stage of the hand.
    pub fn get_stage(&self) -> (s: GameStage)
        ensures
            s == self.current_stage,
    {
        self.current_stage
    }

    /// The seat whose turn it is.
    pub fn get_current_player(&self) -> (i: usize)
        ensures
            i == self.current_player,
    {
        self.current_player
    }

    /// The seat `player_idx`, if there is one.
    pub fn get_player_state(&self, player_idx: usize) -> (r: Option<&PlayerState>)
        ensures
            player_idx < self.players@.len() ==> r == Some(&self.players@[player_idx as int]),
            player_idx >= self.players@.len() ==> r is None,
    {
        if player_idx < self.players.len() {
            Some(&self.players[player_idx])
        } else {
            None
        }
    }

    /// The community cards.
    pub fn get_community_cards(&self) -> (c: &[Card])
        ensures
            c@ == self.community_cards@,
    {
        self.community_cards.as_slice()
    }

    /// The pot.
    pub fn get_pot(&self) -> (p: u64)
        ensures
            p == self.pot,
    {
        self.pot
    }

    /// The first seat from `start` on that can act.
    pub fn next_active_player(&self, start: usize) -> (r: usize)
        requires
            self.players@.len() > 0,
        ensures
            r == next_active(self@.players, start as int),
            r < self.players@.len(),
    {
        let ghost ps = self@.players;
        let n = self.players.len();
        let mut idx = start % n;
        let mut k: usize = 0;
        proof {
            lemma_next_active_in_range(ps, start as int);
        }
        while k < n
            invariant
                n == ps.len(),
                ps == self@.players,
                k <= n,
                idx < n,
                next_active(ps, start as int) == walk_active(ps, idx as int, (n - k) as nat),
            decreases n - k,
        {
            assert(ps[idx as int] == self.players@[idx as int]@);
            if self.players[idx].is_active && !self.players[idx].is_all_in {
                return idx;
            }
            idx = (idx + 1) % n;
            k = k + 1;
        }
        idx
    }

    /// Whether the betting round is over.
    pub fn is_betting_round_complete(&self) -> (r: bool)
        ensures
            r == round_complete(self@),
    {
        let ghost g = self@;
        let n = self.players.len();
        let mut first: Option<usize> = None;
        let mut many = false;
        let mut all_matched = true;
        for i in 0..n
            invariant
                n == g.players.len(),
                g == self@,
                !many && first is None ==> forall|k: int| 0 <= k < i ==> !can_act(#[trigger] g.players[k]),
                !many && first is Some ==> {
                    let f = first->0 as int;
                    &&& 0 <= f < i
                    &&& can_act(g.players[f])
                    &&& forall|k: int| 0 <= k < i && can_act(#[trigger] g.players[k]) ==> k == f
                },
                many ==> exists|a: int, b: int|
                    0 <= a < b < i && can_act(#[trigger] g.players[a]) && can_act(#[trigger] g.players[b]),
                all_matched <==> forall|k: int|
                    0 <= k < i && can_act(#[trigger] g.players[k]) ==> g.players[k].current_bet
                        == g.current_bet,
        {
            assert(g.players[i as int] == self.players@[i as int]@);
            if self.players[i].is_active && !self.players[i].is_all_in {
                if self.players[i].current_bet != self.current_bet {
                    all_matched = false;
                }
                match first {
                    None => {
                        if !many {
                            first = Some(i);
                        }
                    },
                    Some(f) => {
                        if !many {
                            assert(can_act(g.players[f as int]) && can_act(g.players[i as int]));
                        }
                        many = true;
                    },
                }
            }
        }
        let r = !many || all_matched;
        proof {
            if many {
                let (a, b) = choose|a: int, b: int|
                    0 <= a < b < n && can_act(#[trigger] g.players[a]) && can_act(#[trigger] g.players[b]);
                assert(!(forall|x: int, y: int|
                    0 <= x < g.players.len() && 0 <= y < g.players.len() && can_act(#[trigger] g.players[x])
                        && can_act(#[trigger] g.players[y]) ==> x == y));
            }
        }
        r
    }
}

/// The seats in the state `new` leaves them are summed like those of `z` with bets zero.
proof fn lemma_zero_bets_total(z: Seq<SeatView>)
    requires
        forall|k: int| 0 <= k < z.len() ==> (#[trigger] z[k]).total_bet == 0,
    ensures
        bets_total(z) == 0,
    decreases z.len(),
{
    if z.len() > 0 {
        lemma_zero_bets_total(z.drop_last());
    }
}

} // verus!

verus! {

impl HoldemGame {
    /// The first seat still in the hand.
    fn first_active_seat(&self) -> (r: Option<usize>)
        ensures
            match r {
                Some(w) => first_active(self@.players) == Some(w as int),
                None => first_active(self@.players) is None,
            },
    {
        let ghost ps = self@.players;
        let n = self.players.len();
        for i in 0..n
            invariant
                n == ps.len(),
                ps == self@.players,
                forall|j: int| 0 <= j < i ==> !(#[trigger] ps[j]).is_active,
        {
            assert(ps[i as int] == self.players@[i as int]@);
            if self.players[i].is_active {
                proof {
                    assert(is_first_active(ps, i as int));
                    assert forall|k: int| is_first_active(ps, k) implies k == i by {
                        if k < i {
                            assert(!ps[k].is_active);
                        }
                        if k > i {
                            assert(!ps[i as int].is_active);
                        }
                    }
                }
                return Some(i);
            }
        }
        proof {
            assert forall|k: int| !is_first_active(ps, k) by {
                if 0 <= k < ps.len() {
                    assert(!ps[k].is_active);
                }
            }
        }
        None
    }

    /// The showdown: the first seat still in the hand is paid the pot, the hand ends, and
    /// the button moves on.
    fn showdown(&mut self, events: &mut Vec<GameEvent>)
        requires
            old(self).players@.len() > 0,
            old(self).dealer_position < old(self).players@.len(),
            chips_total(old(self)@.players) + old(self).pot <= u64::MAX,
        ensures
            final(self)@ == showdown_state(old(self)@),
            events_view(final(events)@) == events_view(old(events)@) + showdown_events(old(self)@),
    {
        let ghost s = self@;
        let ghost ev0 = events@;
        let n = self.players.len();
        match self.first_active_seat() {
            Some(w) => {
                let amount = self.pot;
                proof {
                    lemma_totals_bound(s.players, w as int);
                    assert(s.players[w as int] == self.players@[w as int]@);
                }
                self.players[w].chips = self.players[w].chips + amount;
                events.push(GameEvent::PlayerWon { player: w, amount, hand_rank: None });
                proof {
                    assert(self@.players =~= s.players.update(
                        w as int,
                        SeatView { chips: (s.players[w as int].chips + s.pot) as u64, ..s.players[w as int] },
                    ));
                }
            },
            None => {},
        }
        self.current_stage = GameStage::Finished;
        events.push(GameEvent::GameEnded);
        self.dealer_position = (self.dealer_position + 1) % n;
        proof {
            assert(events_view(events@) =~= events_view(ev0) + showdown_events(s));
        }
    }

    /// Ends a betting round: clears the bets of the round and deals the next street after
    /// a burn card, or goes to the showdown after the river.
    fn advance_stage(&mut self, events: &mut Vec<GameEvent>)
        requires
            old(self).players@.len() > 0,
            old(self).dealer_position < old(self).players@.len(),
            deck_ready(old(self)@),
            chips_total(old(self)@.players) + old(self).pot <= u64::MAX,
        ensures
            final(self)@ == advanced(old(self)@),
            events_view(final(events)@) == events_view(old(events)@) + advance_events(old(self)@),
    {
        let ghost m = self@;
        let ghost ev0 = events@;
        let n = self.players.len();
        for k in 0..n
            invariant
                n == self.players@.len(),
                n == m.players.len(),
                forall|j: int| 0 <= j < k ==> (#[trigger] self.players@[j])@ == (SeatView { current_bet: 0, ..m.players[j] }),
                forall|j: int| k <= j < n ==> (#[trigger] self.players@[j])@ == m.players[j],
                self.deck@ == m.deck,
                self.community_cards@ == m.community_cards,
                self.pot == m.pot,
                self.current_stage == m.current_stage,
                self.dealer_position == m.dealer_position,
                self.current_player == m.current_player,
                self.current_bet == m.current_bet,
                self.min_raise == m.min_raise,
                self.small_blind == m.small_blind,
                self.big_blind == m.big_blind,
                self@.side_pots == m.side_pots,
        {
            self.players[k].current_bet = 0;
        }
        self.current_bet = 0;
        let ghost z = TableView { players: zero_bets(m.players), current_bet: 0, ..m };
        assert(self@.players =~= zero_bets(m.players));
        assert(self@ == z);
        proof {
            lemma_totals_same(z.players, m.players);
        }
        match self.current_stage {
            GameStage::PreFlop => {
                let _ = self.deck.deal();
                let c1 = self.deck.deal().unwrap();
                let c2 = self.deck.deal().unwrap();
                let c3 = self.deck.deal().unwrap();
                self.community_cards.push(c1);
                self.community_cards.push(c2);
                self.community_cards.push(c3);
                self.current_stage = GameStage::Flop;
                events.push(GameEvent::StageChanged { stage: GameStage::Flop });
                events.push(GameEvent::CommunityCardsRevealed { cards: vec![c1, c2, c3] });
                self.current_player = self.next_active_player((self.dealer_position + 1) % n);
                proof {
                    let d = burn(z.deck);
                    assert(self.deck@ =~= d.take(d.len() - 3));
                    assert(self.community_cards@ =~= z.community_cards + flop_of(d));
                    assert(self@.players == z.players);
                    assert(self@ == advanced(m));
                    assert(events_view(events@) =~= events_view(ev0) + advance_events(m));
                }
            },
            GameStage::Flop => {
                let _ = self.deck.deal();
                let c = self.deck.deal().unwrap();
                self.community_cards.push(c);
                self.current_stage = GameStage::Turn;
                events.push(GameEvent::StageChanged { stage: GameStage::Turn });
                let revealed = vec![c];
                assert(revealed@ =~= seq![c]);
                events.push(GameEvent::CommunityCardsRevealed { cards: revealed });
                self.current_player = self.next_active_player((self.dealer_position + 1) % n);
                proof {
                    assert(self@.players == z.players);
                    assert(self@ == advanced(m));
                    assert(events_view(events@) =~= events_view(ev0) + advance_events(m));
                }
            },
            GameStage::Turn => {
                let _ = self.deck.deal();
                let c = self.deck.deal().unwrap();
                self.community_cards.push(c);
                self.current_stage = GameStage::River;
                events.push(GameEvent::StageChanged { stage: GameStage::River });
                let revealed = vec![c];
                assert(revealed@ =~= seq![c]);
                events.push(GameEvent::CommunityCardsRevealed { cards: revealed });
                self.current_player = self.next_active_player((self.dealer_position + 1) % n);
                proof {
                    assert(self@.players == z.players);
                    assert(self@ == advanced(m));
                    assert(events_view(events@) =~= events_view(ev0) + advance_events(m));
                }
            },
            GameStage::River => {
                self.current_stage = GameStage::Showdown;
                events.push(GameEvent::StageChanged { stage: GameStage::Showdown });
                let ghost ev1 = events@;
                self.showdown(events);
                proof {
                    assert(events_view(ev1) =~= events_view(ev0).push(EventView::StageChanged { stage: GameStage::Showdown }));
                    assert(events_view(events@) =~= events_view(ev0) + advance_events(m));
                }
            },
            _ => {
                assert(events_view(events@) =~= events_view(ev0) + advance_events(m));
            },
        }
    }
}

} // verus!

verus! {

impl HoldemGame {
    /// Makes the move of seat `i`, whose turn it is and who can act, if the rules allow
    /// it; the turn is not passed on.
    fn apply_bet(&mut self, i: usize, action: BettingAction) -> (r: Result<Vec<GameEvent>, GameError>)
        requires
            old(self)@.wf(),
            old(self)@.chips_fit(),
            i == old(self).current_player,
            can_act(old(self)@.players[i as int]),
            action_safe(old(self)@, i, action),
        ensures
            match error_of(old(self)@, i, action) {
                Some(e) => r matches Err(x) && x@ == e && *final(self) == *old(self),
                None => r matches Ok(ev) && final(self)@ == bet_applied(old(self)@, i as int, action)
                    && events_view(ev@) == bet_events(final(self)@, i, action),
            },
    {
        let ghost g = self@;
        let ghost p = g.players[i as int];
        proof {
            assert(p == self.players@[i as int]@);
            lemma_totals_bound(g.players, i as int);
        }
        match action {
            BettingAction::Fold => {
                self.players[i].is_active = false;
                proof {
                    assert(self@.players =~= g.players.update(i as int, SeatView { is_active: false, ..p }));
                }
                let ev = vec![GameEvent::PlayerAction { player: i, action }];
                assert(events_view(ev@) =~= bet_events(self@, i, action));
                Ok(ev)
            },
            BettingAction::Check => {
                if self.players[i].current_bet < self.current_bet {
                    return Err(GameError::InvalidAction(String::from_str("Cannot check, must call or raise")));
                }
                let ev = vec![GameEvent::PlayerAction { player: i, action }];
                assert(events_view(ev@) =~= bet_events(self@, i, action));
                Ok(ev)
            },
            BettingAction::Call => {
                let call_amount = self.current_bet - self.players[i].current_bet;
                let actual = if call_amount <= self.players[i].chips {
                    call_amount
                } else {
                    self.players[i].chips
                };
                self.players[i].chips = self.players[i].chips - actual;
                self.players[i].current_bet = self.players[i].current_bet + actual;
                self.players[i].total_bet = self.players[i].total_bet + actual;
                self.pot = self.pot + actual;
                if self.players[i].chips == 0 {
                    self.players[i].is_all_in = true;
                }
                proof {
                    let q = broke_all_in(SeatView {
                        chips: (p.chips - actual) as u64,
                        current_bet: (p.current_bet + actual) as u64,
                        total_bet: (p.total_bet + actual) as u64,
                        ..p
                    });
                    assert(self@.players =~= g.players.update(i as int, q));
                }
                let ev = vec![
                    GameEvent::PlayerAction { player: i, action },
                    GameEvent::PotUpdated { pot: self.pot },
                ];
                assert(events_view(ev@) =~= bet_events(self@, i, action));
                Ok(ev)
            },
            BettingAction::Bet(amount) => {
                if self.current_bet > 0 {
                    return Err(GameError::InvalidAction(String::from_str("Cannot bet, must raise")));
                }
                if amount < self.big_blind {
                    return Err(GameError::InvalidBetAmount);
                }
                if amount > self.players[i].chips {
                    return Err(GameError::InsufficientChips);
                }
                self.players[i].chips = self.players[i].chips - amount;
                self.players[i].current_bet = amount;
                self.players[i].total_bet = self.players[i].total_bet + amount;
                self.pot = self.pot + amount;
                self.current_bet = amount;
                self.min_raise = amount;
                if self.players[i].chips == 0 {
                    self.players[i].is_all_in = true;
                }
                proof {
                    let q = broke_all_in(SeatView {
                        chips: (p.chips - amount) as u64,
                        current_bet: amount,
                        total_bet: (p.total_bet + amount) as u64,
                        ..p
                    });
                    assert(self@.players =~= g.players.update(i as int, q));
                }
                let ev = vec![
                    GameEvent::PlayerAction { player: i, action },
                    GameEvent::PotUpdated { pot: self.pot },
                ];
                assert(events_view(ev@) =~= bet_events(self@, i, action));
                Ok(ev)
            },
            BettingAction::Raise(amount) => {
                if amount < self.current_bet + self.min_raise {
                    return Err(GameError::InvalidBetAmount);
                }
                if amount > self.players[i].chips + self.players[i].current_bet {
                    return Err(GameError::InsufficientChips);
                }
                let added = amount - self.players[i].current_bet;
                self.players[i].chips = self.players[i].chips - added;
                self.players[i].current_bet = amount;
                self.players[i].total_bet = self.players[i].total_bet + added;
                self.pot = self.pot + added;
                self.min_raise = amount - self.current_bet;
                self.current_bet = amount;
                if self.players[i].chips == 0 {
                    self.players[i].is_all_in = true;
                }
                proof {
                    let q = broke_all_in(SeatView {
                        chips: (p.chips - added) as u64,
                        current_bet: amount,
                        total_bet: (p.total_bet + added) as u64,
                        ..p
                    });
                    assert(self@.players =~= g.players.update(i as int, q));
                }
                let ev = vec![
                    GameEvent::PlayerAction { player: i, action },
                    GameEvent::PotUpdated { pot: self.pot },
                ];
                assert(events_view(ev@) =~= bet_events(self@, i, action));
                Ok(ev)
            },
            BettingAction::AllIn => {
                let all_in_amount = self.players[i].chips;
                self.players[i].chips = 0;
                self.players[i].current_bet = self.players[i].current_bet + all_in_amount;
                self.players[i].total_bet = self.players[i].total_bet + all_in_amount;
                self.players[i].is_all_in = true;
                self.pot = self.pot + all_in_amount;
                if self.players[i].current_bet > self.current_bet {
                    self.min_raise = self.players[i].current_bet - self.current_bet;
                    self.current_bet = self.players[i].current_bet;
                }
                proof {
                    let q = SeatView {
                        chips: 0,
                        current_bet: (p.current_bet + p.chips) as u64,
                        total_bet: (p.total_bet + p.chips) as u64,
                        is_all_in: true,
                        ..p
                    };
                    assert(self@.players =~= g.players.update(i as int, q));
                }
                let ev = vec![
                    GameEvent::PlayerAction { player: i, action },
                    GameEvent::PotUpdated { pot: self.pot },
                ];
                assert(events_view(ev@) =~= bet_events(self@, i, action));
                Ok(ev)
            },
        }
    }
}

} // verus!

verus! {

/// An accepted move keeps the pot equal to what the seats have put in during the hand,
/// and moves chips between the seat and the pot without making or losing any.
proof fn lemma_bet_keeps(g: TableView, i: int, a: BettingAction)
    requires
        g.wf(),
        g.chips_fit(),
        i == g.current_player,
        can_act(g.players[i]),
        action_safe(g, i as usize, a),
        error_of(g, i as usize, a) is None,
    ensures
        ({
            let h = bet_applied(g, i, a);
            &&& h.players.len() == g.players.len()
            &&& h.dealer_position == g.dealer_position
            &&& h.current_player == g.current_player
            &&& h.deck == g.deck
            &&& h.current_stage == g.current_stage
            &&& bets_total(h.players) == h.pot
            &&& forall|k: int| 0 <= k < h.players.len() ==> (#[trigger] h.players[k]).current_bet <= h.players[k].total_bet
            &&& chips_total(h.players) + h.pot == chips_total(g.players) + g.pot
        }),
{
    let h = bet_applied(g, i, a);
    let p = g.players[i];
    lemma_totals_bound(g.players, i);
    lemma_totals_nonneg(g.players);
    assert(p.total_bet + p.chips <= u64::MAX);
    assert(p.current_bet <= p.total_bet);
    if !(a is Check) {
        let q = h.players[i];
        assert(h.players =~= g.players.update(i, q));
        lemma_totals_update(g.players, i, q);
        assert(q.current_bet <= q.total_bet);
        assert forall|k: int| 0 <= k < h.players.len() implies (#[trigger] h.players[k]).current_bet <= h.players[k].total_bet by {
            if k != i {
                assert(h.players[k] == g.players[k]);
            }
        }
    }
}

/// The end of a betting round keeps the table well formed and the chips where they
/// were, except that the showdown pays the pot to the first seat still in the hand.
proof fn lemma_advanced_keeps(m: TableView)
    requires
        m.players.len() >= 2,
        m.current_player < m.players.len(),
        m.dealer_position < m.players.len(),
        bets_total(m.players) == m.pot,
        forall|k: int| 0 <= k < m.players.len() ==> (#[trigger] m.players[k]).current_bet <= m.players[k].total_bet,
        m.current_stage == GameStage::River ==> chips_total(m.players) + m.pot <= u64::MAX,
    ensures
        advanced(m).wf(),
        advanced(m).pot == m.pot,
        advanced(m).current_stage == GameStage::Finished <==> (m.current_stage == GameStage::River || m.current_stage == GameStage::Finished),
        m.current_stage == GameStage::River && first_active(m.players) is Some ==> chips_total(advanced(m).players) == chips_total(m.players) + m.pot,
        !(m.current_stage == GameStage::River && first_active(m.players) is Some) ==> chips_total(advanced(m).players) == chips_total(m.players),
{
    let z = TableView { players: zero_bets(m.players), current_bet: 0, ..m };
    lemma_totals_same(z.players, m.players);
    lemma_next_active_in_range(z.players, (z.dealer_position + 1) % (z.players.len() as int));
    if m.current_stage == GameStage::River {
        let s = TableView { current_stage: GameStage::Showdown, ..z };
        assert(s.players =~= z.players);
        let zf = first_active(z.players);
        let mf = first_active(m.players);
        assert forall|j: int| 0 <= j < z.players.len() implies (#[trigger] z.players[j]).is_active == m.players[j].is_active by {}
        assert forall|k: int| is_first_active(z.players, k) implies is_first_active(m.players, k) by {
            assert forall|j: int| 0 <= j < k implies !(#[trigger] m.players[j]).is_active by {
                assert(!z.players[j].is_active);
            }
        }
        assert forall|k: int| is_first_active(m.players, k) implies is_first_active(z.players, k) by {
            assert forall|j: int| 0 <= j < k implies !(#[trigger] z.players[j]).is_active by {
                assert(!m.players[j].is_active);
            }
        }
        assert(zf == mf);
        match zf {
            Some(w) => {
                lemma_totals_update(s.players, w, SeatView { chips: (s.players[w].chips + s.pot) as u64, ..s.players[w] });
                lemma_totals_bound(s.players, w);
            },
            None => {},
        }
    }
}

impl HoldemGame {
    /// Seat `player_idx` makes the move `action`: refused (changing nothing) when it is
    /// not that seat's turn, the seat cannot act, or the move breaks the betting rules;
    /// otherwise the move is made, the turn passes to the next seat that can act, and a
    /// completed betting round deals the next street or ends in the showdown.
    pub fn player_action(&mut self, player_idx: usize, action: BettingAction) -> (r: Result<
        Vec<GameEvent>,
        GameError,
    >)
        requires
            player_idx == old(self).current_player ==> {
                &&& old(self)@.wf()
                &&& old(self)@.chips_fit()
                &&& deck_ready(old(self)@)
                &&& action_safe(old(self)@, player_idx, action)
            },
        ensures
            old(self)@.wf() ==> final(self)@.wf(),
            match error_of(old(self)@, player_idx, action) {
                Some(e) => r matches Err(x) && x@ == e && *final(self) == *old(self),
                None => r matches Ok(ev) && final(self)@ == stepped(old(self)@, player_idx as int, action)
                    && events_view(ev@) == step_events(old(self)@, player_idx as int, action),
            },
    {
        let ghost g = self@;
        if player_idx != self.current_player {
            return Err(GameError::NotPlayerTurn);
        }
        assert(g.players[player_idx as int] == self.players@[player_idx as int]@);
        if !self.players[player_idx].is_active || self.players[player_idx].is_all_in {
            return Err(GameError::InvalidAction(String::from_str("Player is not active")));
        }
        let mut events = match self.apply_bet(player_idx, action) {
            Ok(ev) => ev,
            Err(e) => return Err(e),
        };
        proof {
            lemma_bet_keeps(g, player_idx as int, action);
            lemma_next_active_in_range(self@.players, player_idx + 1);
        }
        let n = self.players.len();
        assert(player_idx < n);
        let next_start = player_idx + 1;
        self.current_player = self.next_active_player(next_start);
        let ghost m = self@;
        assert(m == moved(g, player_idx as int, action));
        let ghost ev1 = events@;
        if self.is_betting_round_complete() {
            self.advance_stage(&mut events);
            proof {
                lemma_advanced_keeps(m);
            }
        }
        proof {
            assert(events_view(events@) =~= step_events(g, player_idx as int, action));
        }
        Ok(events)
    }
}

/// Chips are neither made nor lost by betting: after an accepted move the chips in front
/// of the seats and in the pot add up to what they did before; only the showdown, which
/// pays the pot to the first seat still in the hand without emptying the pot, adds the
/// pot to the seats' chips (with no seat left in the hand, nobody is paid).
pub proof fn lemma_chips_conserved(g: TableView, i: usize, a: BettingAction)
    requires
        g.wf(),
        g.chips_fit(),
        action_safe(g, i, a),
        error_of(g, i, a) is None,
    ensures
        ({
            let n = stepped(g, i as int, a);
            let m = moved(g, i as int, a);
            &&& !(round_complete(m) && g.current_stage == GameStage::River)
                ==> chips_total(n.players) + n.pot == chips_total(g.players) + g.pot
            &&& (round_complete(m) && g.current_stage == GameStage::River && first_active(m.players) is Some)
                ==> n.current_stage == GameStage::Finished && n.pot == m.pot
                && chips_total(n.players) == chips_total(g.players) + g.pot
            &&& (round_complete(m) && g.current_stage == GameStage::River && first_active(m.players) is None)
                ==> n.current_stage == GameStage::Finished
                && chips_total(n.players) + n.pot == chips_total(g.players) + g.pot
        }),
{
    lemma_bet_keeps(g, i as int, a);
    let h = bet_applied(g, i as int, a);
    lemma_next_active_in_range(h.players, i + 1);
    let m = moved(g, i as int, a);
    if round_complete(m) {
        lemma_advanced_keeps(m);
    }
}


/// A move out of turn is refused as such, whatever the table and the move.
pub proof fn lemma_out_of_turn_refused(g: TableView, i: usize, a: BettingAction)
    requires
        i != g.current_player,
    ensures
        error_of(g, i, a) == Some(ErrorView::NotPlayerTurn),
{
}

/// The moves offered to a seat are the moves it may make: none are offered exactly when
/// it is not the seat's turn or the seat cannot act; otherwise folding comes first, and
/// every move offered is accepted (and can be made without overflow).
pub proof fn lemma_offered_moves_accepted(g: TableView, i: usize)
    requires
        g.wf(),
        valid_actions_safe(g, i),
    ensures
        valid_actions(g, i).len() == 0 <==> (i != g.current_player || !can_act(g.players[i as int])),
        valid_actions(g, i).len() > 0 ==> valid_actions(g, i)[0] == BettingAction::Fold,
        forall|k: int|
            0 <= k < valid_actions(g, i).len() ==> error_of(g, i, #[trigger] valid_actions(g, i)[k]) is None
                && action_safe(g, i, valid_actions(g, i)[k]),
{
    let v = valid_actions(g, i);
    if i == g.current_player && can_act(g.players[i as int]) {
        assert(v[0] == BettingAction::Fold);
        assert forall|k: int| 0 <= k < v.len() implies error_of(g, i, #[trigger] v[k]) is None && action_safe(
            g,
            i,
            v[k],
        ) by {
            let p = g.players[i as int];
            assert(v[k] is Fold || v[k] is Check || v[k] is Call || v[k] is Bet || v[k] is Raise || v[k] is AllIn);
        }
    }
}

/// Every move of the rules' usual amounts that the seat may make is offered: folding;
/// checking when it owes nothing; calling when it owes something it can pay; betting the
/// big blind when nobody has bet and it can afford it; the least raise when it can afford
/// more than that; going all in when it has chips. Out of turn, or for a seat that cannot
/// act, nothing is offered.
pub proof fn lemma_offered_moves_complete(g: TableView, i: usize)
    requires
        g.wf(),
        valid_actions_safe(g, i),
    ensures
        ({
            let v = valid_actions(g, i);
            let p = g.players[i as int];
            &&& (i != g.current_player || !can_act(p)) ==> v.len() == 0
            &&& (i == g.current_player && can_act(p)) ==> {
                &&& v.contains(BettingAction::Fold)
                &&& error_of(g, i, BettingAction::Check) is None ==> v.contains(BettingAction::Check)
                &&& p.current_bet < g.current_bet && g.current_bet - p.current_bet <= p.chips ==> v.contains(
                    BettingAction::Call,
                )
                &&& error_of(g, i, BettingAction::Bet(g.big_blind)) is None ==> v.contains(
                    BettingAction::Bet(g.big_blind),
                )
                &&& p.chips + p.current_bet > g.current_bet + g.min_raise ==> v.contains(
                    BettingAction::Raise((g.current_bet + g.min_raise) as u64),
                )
                &&& p.chips > 0 ==> v.contains(BettingAction::AllIn)
            }
        }),
{
    let v = valid_actions(g, i);
    let p = g.players[i as int];
    if i == g.current_player && can_act(p) {
        let call = g.current_bet - p.current_bet;
        let s0 = seq![BettingAction::Fold];
        let s1 = if call == 0 { seq![BettingAction::Check] } else { Seq::<BettingAction>::empty() };
        let s2 = if call > 0 && call <= p.chips { seq![BettingAction::Call] } else { Seq::<BettingAction>::empty() };
        let s3 = if g.current_bet == 0 && p.chips >= g.big_blind {
            seq![BettingAction::Bet(g.big_blind)]
        } else {
            Seq::<BettingAction>::empty()
        };
        let s4 = if p.chips + p.current_bet > g.current_bet + g.min_raise {
            seq![BettingAction::Raise((g.current_bet + g.min_raise) as u64)]
        } else {
            Seq::<BettingAction>::empty()
        };
        let s5 = if p.chips > 0 { seq![BettingAction::AllIn] } else { Seq::<BettingAction>::empty() };
        assert(v == s0 + s1 + s2 + s3 + s4 + s5);
        assert(v[0] == BettingAction::Fold);
        if s1.len() > 0 {
            assert(v[s0.len() as int] == BettingAction::Check);
        }
        if s2.len() > 0 {
            assert(v[(s0.len() + s1.len()) as int] == BettingAction::Call);
        }
        if s3.len() > 0 {
            assert(v[(s0.len() + s1.len() + s2.len()) as int] == BettingAction::Bet(g.big_blind));
        }
        if s4.len() > 0 {
            assert(v[(s0.len() + s1.len() + s2.len() + s3.len()) as int] == s4[0]);
        }
        if s5.len() > 0 {
            assert(v[(s0.len() + s1.len() + s2.len() + s3.len() + s4.len()) as int] == BettingAction::AllIn);
        }
    }
}

/// No seat has bet more in the round than the table's current bet.
pub open spec fn bets_covered(g: TableView) -> bool {
    forall|k: int| 0 <= k < g.players.len() ==> (#[trigger] g.players[k]).current_bet <= g.current_bet
}

/// The table's current bet stays the highest bet of the round: after any accepted move
/// no seat's bet is above it, so whoever is behind must still call or fold. In
/// particular an all in above the current bet raises it to the seat's whole bet, and the
/// raise sets the least next raise.
pub proof fn lemma_current_bet_covers_bets(g: TableView, i: usize, a: BettingAction)
    requires
        g.wf(),
        action_safe(g, i, a),
        error_of(g, i, a) is None,
        bets_covered(g),
    ensures
        bets_covered(bet_applied(g, i as int, a)),
        bets_covered(stepped(g, i as int, a)),
        ({
            let p = g.players[i as int];
            let all = p.current_bet + p.chips;
            (a is AllIn && all > g.current_bet && all <= u64::MAX) ==> bet_applied(g, i as int, a).current_bet
                == all && bet_applied(g, i as int, a).min_raise == all - g.current_bet
                && bet_applied(g, i as int, a).players[i as int].current_bet == all
        }),
{
    let h = bet_applied(g, i as int, a);
    let p = g.players[i as int];
    assert(h.players.len() == g.players.len());
    assert forall|k: int| 0 <= k < h.players.len() implies (#[trigger] h.players[k]).current_bet <= h.current_bet by {
        assert(g.players[k].current_bet <= g.current_bet);
        if k != i as int {
            assert(h.players[k].current_bet == g.players[k].current_bet);
        }
    }
    let m = moved(g, i as int, a);
    assert(bets_covered(m)) by {
        assert forall|k: int| 0 <= k < m.players.len() implies (#[trigger] m.players[k]).current_bet <= m.current_bet by {
            assert(m.players[k] == h.players[k]);
        }
    }
    if round_complete(m) {
        let n = advanced(m);
        let z = TableView { players: zero_bets(m.players), current_bet: 0, ..m };
        assert forall|k: int| 0 <= k < n.players.len() implies (#[trigger] n.players[k]).current_bet <= n.current_bet by {
            assert(z.players[k].current_bet == 0);
            if m.current_stage == GameStage::River {
                let s = TableView { current_stage: GameStage::Showdown, ..z };
                match first_active(s.players) {
                    Some(w) => {
                        if k != w {
                            assert(n.players[k] == s.players[k]);
                        }
                    },
                    None => {},
                }
            }
        }
    }
}
} // verus!

verus! {

/// The moves offered to seat `i`: none out of turn or for a seat that cannot act;
/// otherwise fold, then check or call as the bet allows, a bet of the big blind when no
/// one has bet, the least raise when the seat can afford more, and all in with chips.
pub open spec fn valid_actions(g: TableView, i: usize) -> Seq<BettingAction> {
    if i != g.current_player || !can_act(g.players[i as int]) {
        seq![]
    } else {
        let p = g.players[i as int];
        let call = g.current_bet - p.current_bet;
        seq![BettingAction::Fold] + (if call == 0 {
            seq![BettingAction::Check]
        } else {
            seq![]
        }) + (if call > 0 && call <= p.chips {
            seq![BettingAction::Call]
        } else {
            seq![]
        }) + (if g.current_bet == 0 && p.chips >= g.big_blind {
            seq![BettingAction::Bet(g.big_blind)]
        } else {
            seq![]
        }) + (if p.chips + p.current_bet > g.current_bet + g.min_raise {
            seq![BettingAction::Raise((g.current_bet + g.min_raise) as u64)]
        } else {
            seq![]
        }) + (if p.chips > 0 {
            seq![BettingAction::AllIn]
        } else {
            seq![]
        })
    }
}

/// What listing the moves of seat `i` needs to be computed without overflow or
/// underflow.
pub open spec fn valid_actions_safe(g: TableView, i: usize) -> bool {
    (i == g.current_player && can_act(g.players[i as int])) ==> {
        &&& g.players[i as int].current_bet <= g.current_bet
        &&& g.current_bet + g.min_raise <= u64::MAX
        &&& g.players[i as int].chips + g.players[i as int].current_bet <= u64::MAX
    }
}

impl HoldemGame {
    /// The moves seat `player_idx` may make now.
    pub fn get_valid_actions(&self, player_idx: usize) -> (v: Vec<BettingAction>)
        requires
            self@.wf(),
            valid_actions_safe(self@, player_idx),
        ensures
            v@ == valid_actions(self@, player_idx),
    {
        let ghost g = self@;
        if player_idx != self.current_player {
            return Vec::new();
        }
        assert(g.players[player_idx as int] == self.players@[player_idx as int]@);
        let player = &self.players[player_idx];
        if !player.is_active || player.is_all_in {
            return Vec::new();
        }
        let mut actions = vec![BettingAction::Fold];
        let call_amount = self.current_bet - player.current_bet;
        let ghost s0 = actions@;
        if call_amount == 0 {
            actions.push(BettingAction::Check);
        }
        let ghost s1 = actions@;
        if call_amount > 0 && call_amount <= player.chips {
            actions.push(BettingAction::Call);
        }
        let ghost s2 = actions@;
        if self.current_bet == 0 && player.chips >= self.big_blind {
            actions.push(BettingAction::Bet(self.big_blind));
        }
        let ghost s3 = actions@;
        if player.chips + player.current_bet > self.current_bet + self.min_raise {
            actions.push(BettingAction::Raise(self.current_bet + self.min_raise));
        }
        let ghost s4 = actions@;
        if player.chips > 0 {
            actions.push(BettingAction::AllIn);
        }
        proof {
            let p = g.players[player_idx as int];
            let call = g.current_bet - p.current_bet;
            assert(s0 =~= seq![BettingAction::Fold]);
            assert(s1 =~= s0 + (if call == 0 { seq![BettingAction::Check] } else { seq![] }));
            assert(s2 =~= s1 + (if call > 0 && call <= p.chips { seq![BettingAction::Call] } else { seq![] }));
            assert(s3 =~= s2 + (if g.current_bet == 0 && p.chips >= g.big_blind { seq![BettingAction::Bet(g.big_blind)] } else { seq![] }));
            assert(s4 =~= s3 + (if p.chips + p.current_bet > g.current_bet + g.min_raise { seq![BettingAction::Raise((g.current_bet + g.min_raise) as u64)] } else { seq![] }));
            assert(actions@ =~= s4 + (if p.chips > 0 { seq![BettingAction::AllIn] } else { seq![] }));
        }
        actions
    }
}

} // verus!
