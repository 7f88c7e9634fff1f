//! Starting a hand of hold'em: a fresh shuffled deck, the blinds, and two hole cards for
//! every seat with chips.

use vstd::prelude::*;
use crate::poker::{Card, Deck, standard_cards};
use crate::basic::player::Player;
use crate::holdem::table::{
    EventView, GameEvent, GameStage, HoldemGame, SeatView, TableView, bets_total, chips_total,
    events_view, lemma_chips_same, lemma_totals_bound, lemma_totals_same,
    lemma_totals_update, next_active,
};
use crate::holdem::betting::{lemma_next_active_in_range, min_u64, with_seat};

verus! {

/// A seat at the start of a hand: no cards, no bets, in the hand when it has chips.
pub open spec fn reset_seat(p: SeatView) -> SeatView {
    SeatView {
        hand: Seq::empty(),
        current_bet: 0,
        total_bet: 0,
        is_active: p.chips > 0,
        is_all_in: false,
        ..p
    }
}

/// The table cleared for a new hand, with the deck `d`.
pub open spec fn reset_table(g: TableView, d: Seq<Card>) -> TableView {
    TableView {
        players: Seq::new(g.players.len(), |k: int| reset_seat(g.players[k])),
        deck: d,
        community_cards: Seq::empty(),
        pot: 0,
        side_pots: Seq::empty(),
        current_bet: 0,
        min_raise: g.big_blind,
        ..g
    }
}

/// The seat of the small blind, left of the button.
pub open spec fn small_blind_seat(g: TableView) -> int {
    (g.dealer_position + 1) % (g.players.len() as int)
}

/// The seat of the big blind, two left of the button.
pub open spec fn big_blind_seat(g: TableView) -> int {
    (g.dealer_position + 2) % (g.players.len() as int)
}

/// A seat that has posted a blind of `amount`.
pub open spec fn blind_paid(p: SeatView, amount: u64) -> SeatView {
    SeatView { chips: (p.chips - amount) as u64, current_bet: amount, total_bet: amount, ..p }
}

/// The small blind posted: as much of it as the seat has.
pub open spec fn small_blind_amount(r: TableView) -> u64 {
    min_u64(r.small_blind, r.players[small_blind_seat(r)].chips)
}

/// The table after the small blind.
pub open spec fn small_blind_posted(r: TableView) -> TableView {
    let s = small_blind_seat(r);
    let a = small_blind_amount(r);
    TableView { pot: (r.pot + a) as u64, ..with_seat(r, s, blind_paid(r.players[s], a)) }
}

/// The big blind posted: as much of it as the seat has.
pub open spec fn big_blind_amount(r: TableView) -> u64 {
    let r1 = small_blind_posted(r);
    min_u64(r1.big_blind, r1.players[big_blind_seat(r1)].chips)
}

/// The table after both blinds; the big blind is the bet to match.
pub open spec fn blinds_posted(r: TableView) -> TableView {
    let r1 = small_blind_posted(r);
    let b = big_blind_seat(r1);
    let a = big_blind_amount(r);
    TableView {
        pot: (r1.pot + a) as u64,
        current_bet: a,
        ..with_seat(r1, b, blind_paid(r1.players[b], a))
    }
}

/// How many of the first `i` seats are in the hand.
pub open spec fn active_before(ps: Seq<SeatView>, i: nat) -> nat
    decreases i,
{
    if i == 0 {
        0
    } else {
        active_before(ps, (i - 1) as nat) + if ps[i - 1].is_active {
            1nat
        } else {
            0nat
        }
    }
}

/// How many of the first `i` seats have chips.
pub open spec fn funded_before(ps: Seq<SeatView>, i: nat) -> nat
    decreases i,
{
    if i == 0 {
        0
    } else {
        funded_before(ps, (i - 1) as nat) + if ps[i - 1].chips > 0 {
            1nat
        } else {
            0nat
        }
    }
}

/// The two hole cards of the seat that is the `f`-th in the hand: dealt from the top
/// of the deck `d`, two at a time, in seat order.
pub open spec fn hole_pair(d: Seq<Card>, f: nat) -> Seq<Card> {
    seq![d[d.len() - 1 - 2 * f], d[d.len() - 2 - 2 * f]]
}

/// The table after every seat in the hand got its two hole cards.
pub open spec fn hole_cards_dealt(b: TableView) -> TableView {
    let n = b.players.len();
    TableView {
        players: Seq::new(
            n,
            |k: int|
                if b.players[k].is_active {
                    SeatView { hand: hole_pair(b.deck, active_before(b.players, k as nat)), ..b.players[k] }
                } else {
                    b.players[k]
                },
        ),
        deck: b.deck.take(b.deck.len() - 2 * active_before(b.players, n)),
        ..b
    }
}

/// The events of the dealing to the first `i` seats.
pub open spec fn deal_events(h: TableView, i: nat) -> Seq<EventView>
    decreases i,
{
    if i == 0 {
        seq![]
    } else {
        deal_events(h, (i - 1) as nat) + if h.players[i - 1].is_active {
            seq![EventView::CardsDealt { player: (i - 1) as usize, cards: h.players[i - 1].hand }]
        } else {
            seq![]
        }
    }
}

/// The table at the start of a hand dealt from the shuffled deck `d`: the first seat to
/// act is the first that can, from three left of the button on.
pub open spec fn round_start(g: TableView, d: Seq<Card>) -> TableView {
    let h = hole_cards_dealt(blinds_posted(reset_table(g, d)));
    TableView {
        current_stage: GameStage::PreFlop,
        current_player: next_active(
            h.players,
            (h.dealer_position + 3) % (h.players.len() as int),
        ) as usize,
        ..h
    }
}

/// The events of the start of a hand.
pub open spec fn start_events(g: TableView, d: Seq<Card>) -> Seq<EventView> {
    let r = reset_table(g, d);
    let b = blinds_posted(r);
    let h = hole_cards_dealt(b);
    seq![
        EventView::GameStarted {
            players: Seq::new(g.players.len(), |k: int| g.players[k].player),
            dealer_position: g.dealer_position,
        },
        EventView::BlindsPosted {
            small_blind_player: small_blind_seat(r) as usize,
            small_blind_amount: small_blind_amount(r),
            big_blind_player: big_blind_seat(r) as usize,
            big_blind_amount: big_blind_amount(r),
        },
    ] + deal_events(h, h.players.len()) + seq![EventView::StageChanged { stage: GameStage::PreFlop }]
}

/// Counting seats only grows along the table.
proof fn lemma_active_before_mono(ps: Seq<SeatView>, i: nat, j: nat)
    requires
        i <= j,
    ensures
        active_before(ps, i) <= active_before(ps, j),
        active_before(ps, j) <= active_before(ps, i) + (j - i),
    decreases j,
{
    if i < j {
        lemma_active_before_mono(ps, i, (j - 1) as nat);
    }
}

/// The seats in the hand after the blinds are the seats that had chips before.
proof fn lemma_active_is_funded(g: TableView, d: Seq<Card>, i: nat)
    requires
        g.wf(),
        i <= g.players.len(),
    ensures
        active_before(blinds_posted(reset_table(g, d)).players, i) == funded_before(g.players, i),
    decreases i,
{
    if i > 0 {
        lemma_active_is_funded(g, d, (i - 1) as nat);
        let r = reset_table(g, d);
        let r1 = small_blind_posted(r);
        let b = blinds_posted(r);
        assert(b.players[i - 1].is_active == r1.players[i - 1].is_active);
        assert(r1.players[i - 1].is_active == r.players[i - 1].is_active);
    }
}

impl HoldemGame {
    /// Clears the table for a new hand with a freshly shuffled deck.
    fn reset_round(&mut self)
        requires
            old(self)@.wf(),
        ensures
            exists|d: Seq<Card>|
                d.to_multiset() == standard_cards().to_multiset() && d.len() == 52 && final(self)@
                    == reset_table(old(self)@, d),
    {
        let ghost g = self@;
        let mut deck = Deck::new();
        deck.shuffle();
        self.deck = deck;
        self.community_cards.clear();
        self.pot = 0;
        self.side_pots.clear();
        self.current_bet = 0;
        self.min_raise = self.big_blind;
        let n = self.players.len();
        for k in 0..n
            invariant
                n == self.players@.len(),
                n == g.players.len(),
                forall|j: int| 0 <= j < k ==> (#[trigger] self.players@[j])@ == reset_seat(g.players[j]),
                forall|j: int| k <= j < n ==> (#[trigger] self.players@[j])@ == g.players[j],
                self.deck@.to_multiset() == standard_cards().to_multiset(),
                self.deck@.len() == 52,
                self.community_cards@.len() == 0,
                self.side_pots@.len() == 0,
                self.pot == 0,
                self.current_bet == 0,
                self.min_raise == g.big_blind,
                self.big_blind == g.big_blind,
                self.small_blind == g.small_blind,
                self.dealer_position == g.dealer_position,
                self.current_player == g.current_player,
                self.current_stage == g.current_stage,
        {
            self.players[k].hand.clear();
            self.players[k].current_bet = 0;
            self.players[k].total_bet = 0;
            self.players[k].is_active = self.players[k].chips > 0;
            self.players[k].is_all_in = false;
            assert(self.players@[k as int].hand@ =~= Seq::<Card>::empty());
        }
        proof {
            let d = self.deck@;
            let r = reset_table(g, d);
            assert(self@.players =~= r.players);
            assert(self@.community_cards =~= r.community_cards);
            assert(self@.side_pots =~= r.side_pots);
            assert(self@ == r);
        }
    }

    /// Posts the blinds: the seat left of the button puts in the small blind and the
    /// next the big blind, each as much as it has.
    fn post_blinds(&mut self, events: &mut Vec<GameEvent>)
        requires
            old(self)@.players.len() >= 2,
            old(self).dealer_position < old(self)@.players.len(),
            old(self).dealer_position + 3 <= usize::MAX,
            old(self).pot == 0,
            chips_total(old(self)@.players) <= u64::MAX,
        ensures
            final(self)@ == blinds_posted(old(self)@),
            events_view(final(events)@) == events_view(old(events)@).push(EventView::BlindsPosted {
                small_blind_player: small_blind_seat(old(self)@) as usize,
                small_blind_amount: small_blind_amount(old(self)@),
                big_blind_player: big_blind_seat(old(self)@) as usize,
                big_blind_amount: big_blind_amount(old(self)@),
            }),
    {
        let ghost r = self@;
        let ghost ev0 = events@;
        let n = self.players.len();
        let sb_pos = (self.dealer_position + 1) % n;
        let bb_pos = (self.dealer_position + 2) % n;
        proof {
            lemma_totals_bound(r.players, sb_pos as int);
            lemma_totals_bound(r.players, bb_pos as int);
            assert(r.players[sb_pos as int] == self.players@[sb_pos as int]@);
        }
        let sb_amount = if self.small_blind <= self.players[sb_pos].chips {
            self.small_blind
        } else {
            self.players[sb_pos].chips
        };
        self.players[sb_pos].chips = self.players[sb_pos].chips - sb_amount;
        self.players[sb_pos].current_bet = sb_amount;
        self.players[sb_pos].total_bet = sb_amount;
        self.pot = self.pot + sb_amount;
        let ghost r1 = self@;
        proof {
            assert(r1.players =~= r.players.update(sb_pos as int, blind_paid(r.players[sb_pos as int], sb_amount)));
            assert(r1 == small_blind_posted(r));
            assert(r1.players[bb_pos as int] == self.players@[bb_pos as int]@);
            lemma_blind_seats_differ(r.dealer_position as int, n as int);
            assert(r1.players[bb_pos as int] == r.players[bb_pos as int]);
            lemma_totals_update(r.players, sb_pos as int, blind_paid(r.players[sb_pos as int], sb_amount));
            lemma_totals_bound(r1.players, bb_pos as int);
        }
        let bb_amount = if self.big_blind <= self.players[bb_pos].chips {
            self.big_blind
        } else {
            self.players[bb_pos].chips
        };
        self.players[bb_pos].chips = self.players[bb_pos].chips - bb_amount;
        self.players[bb_pos].current_bet = bb_amount;
        self.players[bb_pos].total_bet = bb_amount;
        self.pot = self.pot + bb_amount;
        self.current_bet = bb_amount;
        events.push(
            GameEvent::BlindsPosted {
                small_blind_player: sb_pos,
                small_blind_amount: sb_amount,
                big_blind_player: bb_pos,
                big_blind_amount: bb_amount,
            },
        );
        proof {
            assert(self@.players =~= r1.players.update(bb_pos as int, blind_paid(r1.players[bb_pos as int], bb_amount)));
            assert(self@ == blinds_posted(r));
            assert(events_view(events@) =~= events_view(ev0).push(EventView::BlindsPosted {
                small_blind_player: small_blind_seat(r) as usize,
                small_blind_amount: small_blind_amount(r),
                big_blind_player: big_blind_seat(r) as usize,
                big_blind_amount: big_blind_amount(r),
            }));
        }
    }

    /// Deals two hole cards from the top of the deck to every seat in the hand, in seat
    /// order.
    fn deal_hole_cards(&mut self, events: &mut Vec<GameEvent>)
        requires
            old(self)@.deck.len() >= 2 * active_before(old(self)@.players, old(self)@.players.len()),
        ensures
            final(self)@ == hole_cards_dealt(old(self)@),
            events_view(final(events)@) == events_view(old(events)@) + deal_events(
                hole_cards_dealt(old(self)@),
                old(self)@.players.len(),
            ),
    {
        let ghost b = self@;
        let ghost h = hole_cards_dealt(b);
        let ghost ev0 = events@;
        let n = self.players.len();
        for i in 0..n
            invariant
                n == self.players@.len(),
                n == b.players.len(),
                b.deck.len() >= 2 * active_before(b.players, n as nat),
                h == hole_cards_dealt(b),
                forall|j: int| 0 <= j < i ==> (#[trigger] self.players@[j])@ == h.players[j],
                forall|j: int| i <= j < n ==> (#[trigger] self.players@[j])@ == b.players[j],
                self.deck@ == b.deck.take(b.deck.len() - 2 * active_before(b.players, i as nat)),
                events_view(events@) == events_view(ev0) + deal_events(h, i as nat),
                self.community_cards@ == b.community_cards,
                self@.side_pots == b.side_pots,
                self.pot == b.pot,
                self.current_stage == b.current_stage,
                self.dealer_position == b.dealer_position,
                self.current_player == b.current_player,
                self.small_blind == b.small_blind,
                self.big_blind == b.big_blind,
                self.current_bet == b.current_bet,
                self.min_raise == b.min_raise,
        {
            proof {
                lemma_active_before_mono(b.players, (i + 1) as nat, n as nat);
            }
            assert(self.players@[i as int]@ == b.players[i as int]);
            if self.players[i].is_active {
                let ghost f = active_before(b.players, i as nat);
                assert(h.players[i as int].hand == hole_pair(b.deck, f));
                let ghost d0 = self.deck@;
                let card1 = self.deck.deal().unwrap();
                let card2 = self.deck.deal().unwrap();
                self.players[i].hand = vec![card1, card2];
                let dealt = vec![card1, card2];
                proof {
                    assert(self.players@[i as int].hand@ =~= hole_pair(b.deck, f));
                    assert(dealt@ =~= hole_pair(b.deck, f));
                    assert(self.deck@ =~= b.deck.take(b.deck.len() - 2 * active_before(b.players, (i + 1) as nat)));
                }
                let ghost evb = events@;
                events.push(GameEvent::CardsDealt { player: i, cards: dealt });
                proof {
                    let e = EventView::CardsDealt { player: i, cards: h.players[i as int].hand };
                    assert(events_view(events@) =~= events_view(evb).push(e));
                    assert(deal_events(h, (i + 1) as nat) == deal_events(h, i as nat) + seq![e]);
                    assert(events_view(events@) =~= events_view(ev0) + deal_events(h, (i + 1) as nat));
                }
            } else {
                proof {
                    assert(deal_events(h, (i + 1) as nat) == deal_events(h, i as nat) + Seq::<EventView>::empty());
                    assert(events_view(events@) =~= events_view(ev0) + deal_events(h, (i + 1) as nat));
                }
            }
        }
        proof {
            assert(self@.players =~= h.players);
            assert(self@ == h);
        }
    }

    /// Starts a new hand: a fresh shuffled deck, the pot emptied, every seat with chips in
    /// the hand, the blinds posted, two hole cards dealt to each seat in the hand, and the
    /// pre-flop betting opened by the first seat that can act from three left of the
    /// button on.
    pub fn start_round(&mut self) -> (ev: Vec<GameEvent>)
        requires
            old(self)@.wf(),
            old(self).dealer_position + 3 <= usize::MAX,
            chips_total(old(self)@.players) <= u64::MAX,
            2 * funded_before(old(self)@.players, old(self)@.players.len()) <= 52,
        ensures
            final(self)@.wf(),
            exists|d: Seq<Card>|
                d.to_multiset() == standard_cards().to_multiset() && d.len() == 52 && final(self)@
                    == round_start(old(self)@, d) && events_view(ev@) == start_events(old(self)@, d),
            chips_total(final(self)@.players) + final(self)@.pot == chips_total(old(self)@.players),
    {
        let ghost g = self@;
        let n = self.players.len();
        let mut players: Vec<Player> = Vec::new();
        for k in 0..n
            invariant
                n == g.players.len(),
                g == self@,
                players@.len() == k,
                forall|j: int| 0 <= j < k ==> (#[trigger] players@[j])@ == g.players[j].player,
        {
            assert(g.players[k as int] == self.players@[k as int]@);
            players.push(self.players[k].player.copy());
        }
        self.reset_round();
        let ghost d = choose|d: Seq<Card>|
            d.to_multiset() == standard_cards().to_multiset() && d.len() == 52 && self@
                == reset_table(g, d);
        let ghost r = self@;
        let mut events: Vec<GameEvent> = Vec::new();
        let ghost players_v = players@;
        events.push(GameEvent::GameStarted { players, dealer_position: self.dealer_position });
        let ghost e0 = events@;
        proof {
            lemma_chips_same(r.players, g.players);
            lemma_zero_total_bets(r.players);
        }
        self.post_blinds(&mut events);
        let ghost b = self@;
        let ghost e1 = events@;
        proof {
            lemma_active_is_funded(g, d, n as nat);
        }
        self.deal_hole_cards(&mut events);
        let ghost e2 = events@;
        self.current_stage = GameStage::PreFlop;
        events.push(GameEvent::StageChanged { stage: GameStage::PreFlop });
        let start = (self.dealer_position + 3) % n;
        proof {
            lemma_next_active_in_range(self@.players, start as int);
        }
        self.current_player = self.next_active_player(start);
        proof {
            let h = hole_cards_dealt(b);
            assert(self@ == round_start(g, d));
            let gs = EventView::GameStarted {
                players: Seq::new(g.players.len(), |k: int| g.players[k].player),
                dealer_position: g.dealer_position,
            };
            assert(Seq::new(g.players.len(), |k: int| g.players[k].player) =~= players_v.map_values(|p: Player| p@));
            assert(events_view(e0) =~= seq![gs]);
            let bp = EventView::BlindsPosted {
                small_blind_player: small_blind_seat(r) as usize,
                small_blind_amount: small_blind_amount(r),
                big_blind_player: big_blind_seat(r) as usize,
                big_blind_amount: big_blind_amount(r),
            };
            assert(events_view(e1) == seq![gs].push(bp));
            assert(events_view(e2) == seq![gs].push(bp) + deal_events(h, h.players.len()));
            assert(events_view(events@) =~= events_view(e2).push(EventView::StageChanged { stage: GameStage::PreFlop }));
            assert(events_view(events@) =~= start_events(g, d));
            lemma_blinds_keep(r);
            lemma_dealt_keeps(b);
        }
        events
    }
}

/// The two blind seats differ.
proof fn lemma_blind_seats_differ(d: int, n: int)
    by (nonlinear_arith)
    requires
        0 <= d < n,
        n >= 2,
    ensures
        (d + 1) % n != (d + 2) % n,
{
}

/// A cleared table has no bets for the hand.
proof fn lemma_zero_total_bets(ps: Seq<SeatView>)
    requires
        forall|k: int| 0 <= k < ps.len() ==> (#[trigger] ps[k]).total_bet == 0,
    ensures
        bets_total(ps) == 0,
    decreases ps.len(),
{
    if ps.len() > 0 {
        lemma_zero_total_bets(ps.drop_last());
    }
}

/// Posting the blinds moves chips from two seats to the pot and keeps the pot equal to
/// what the seats have put in.
proof fn lemma_blinds_keep(r: TableView)
    requires
        r.players.len() >= 2,
        r.dealer_position < r.players.len(),
        r.pot == 0,
        bets_total(r.players) == 0,
        forall|k: int| 0 <= k < r.players.len() ==> (#[trigger] r.players[k]).current_bet == 0 && r.players[k].total_bet == 0,
        chips_total(r.players) <= u64::MAX,
    ensures
        ({
            let b = blinds_posted(r);
            &&& bets_total(b.players) == b.pot
            &&& chips_total(b.players) + b.pot == chips_total(r.players)
            &&& forall|k: int| 0 <= k < b.players.len() ==> (#[trigger] b.players[k]).current_bet == b.players[k].total_bet
        }),
{
    let s = small_blind_seat(r);
    let r1 = small_blind_posted(r);
    lemma_blind_seats_differ(r.dealer_position as int, r.players.len() as int);
    lemma_totals_bound(r.players, s);
    lemma_totals_update(r.players, s, blind_paid(r.players[s], small_blind_amount(r)));
    let bb = big_blind_seat(r1);
    lemma_totals_bound(r1.players, bb);
    lemma_totals_update(r1.players, bb, blind_paid(r1.players[bb], big_blind_amount(r)));
    let b = blinds_posted(r);
    assert forall|k: int| 0 <= k < b.players.len() implies (#[trigger] b.players[k]).current_bet == b.players[k].total_bet by {
        assert(r1.players[k].current_bet == r1.players[k].total_bet);
    }
}

/// Dealing the hole cards leaves the chips and the bets alone.
proof fn lemma_dealt_keeps(b: TableView)
    ensures
        chips_total(hole_cards_dealt(b).players) == chips_total(b.players),
        bets_total(hole_cards_dealt(b).players) == bets_total(b.players),
{
    lemma_totals_same(hole_cards_dealt(b).players, b.players);
}

} // verus!
