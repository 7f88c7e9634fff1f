//! A simple bot: it opens the bidding with 1, leads its lowest card, and follows a single
//! with the lowest card that beats it.

use vstd::prelude::*;
use crate::poker::Card;
use crate::basic::user::UserId;
use crate::doudizhu::game::{Action, ActionView, DouDizhuGame, GameView, Stage};
use crate::doudizhu::pattern::{DouDizhuRank, Pattern, card_rank, no_wild, rank_idx};
use crate::doudizhu::session::{first_seat, free_turn, opt_view};

verus! {

/// The highest index below `n` whose card ranks above `r`: the lowest such card of a hand
/// sorted from the highest rank down.
pub open spec fn last_above(hand: Seq<Card>, r: DouDizhuRank, n: nat) -> Option<int>
    decreases n,
{
    if n == 0 {
        None
    } else if rank_idx(card_rank(hand[n - 1])) > rank_idx(r) {
        Some(n - 1)
    } else {
        last_above(hand, r, (n - 1) as nat)
    }
}

/// The move the bot makes for user `id`.
pub open spec fn bot_move(g: GameView, id: UserId) -> Option<ActionView> {
    if g.stage == Stage::Finished {
        None
    } else {
        match first_seat(g.players, id) {
            None => None,
            Some(i) => if i != g.current_turn {
                None
            } else {
                match g.stage {
                    Stage::Bidding => if g.highest_bid == 0 {
                        Some(ActionView::Bid { score: 1 })
                    } else {
                        Some(ActionView::Bid { score: 0 })
                    },
                    Stage::Playing => {
                        let hand = g.players[i].hand;
                        if hand.len() == 0 {
                            Some(ActionView::Pass)
                        } else if free_turn(g) {
                            Some(ActionView::Play { cards: seq![hand.last()] })
                        } else {
                            match g.last_play->0.pattern {
                                Pattern::Single(r) => match last_above(hand, r, hand.len()) {
                                    Some(j) => Some(ActionView::Play { cards: seq![hand[j]] }),
                                    None => Some(ActionView::Pass),
                                },
                                _ => Some(ActionView::Pass),
                            }
                        }
                    },
                    _ => None,
                }
            },
        }
    }
}

/// The bot.
pub struct SimpleBotLogic;

impl SimpleBotLogic {
    /// The move of the bot playing as `player_id`, or None when it is not its turn or the
    /// game is not on.
    #[verifier::loop_isolation(false)]
    pub fn decide(player_id: &UserId, game: &DouDizhuGame) -> (r: Option<Action>)
        requires
            forall|k: int| 0 <= k < game.players@.len() ==> no_wild(#[trigger] game.players@[k].hand@),
        ensures
            opt_view(r) == bot_move(game@, *player_id),
    {
        if game.stage == Stage::Finished {
            return None;
        }
        let my_idx = match game.seat_of(player_id) {
            Some(i) => i,
            None => return None,
        };
        if my_idx != game.current_turn {
            return None;
        }
        assert(game@.players[my_idx as int] == game.players@[my_idx as int]@);
        match game.stage {
            Stage::Bidding => {
                if game.highest_bid == 0 {
                    Some(Action::Bid { score: 1 })
                } else {
                    Some(Action::Bid { score: 0 })
                }
            },
            Stage::Playing => {
                let hand = &game.players[my_idx].hand;
                if hand.len() == 0 {
                    return Some(Action::Pass);
                }
                let free = match &game.last_play {
                    Some(last) => last.player_idx == my_idx,
                    None => true,
                };
                if free {
                    let mut cards: Vec<Card> = Vec::new();
                    cards.push(hand[hand.len() - 1]);
                    assert(cards@ =~= seq![hand@.last()]);
                    return Some(Action::Play { cards });
                }
                let rank_to_beat = match &game.last_play {
                    Some(last) => match last.pattern {
                        Pattern::Single(r) => r,
                        _ => return Some(Action::Pass),
                    },
                    None => return Some(Action::Pass),
                };
                let mut j = hand.len();
                while j > 0
                    invariant
                        j <= hand@.len(),
                        no_wild(hand@),
                        last_above(hand@, rank_to_beat, hand@.len()) == last_above(
                            hand@,
                            rank_to_beat,
                            j as nat,
                        ),
                    decreases j,
                {
                    let card = hand[j - 1];
                    if DouDizhuRank::from_card(&card).is_higher_than(rank_to_beat) {
                        let mut cards: Vec<Card> = Vec::new();
                        cards.push(card);
                        assert(cards@ =~= seq![hand@[j - 1]]);
                        return Some(Action::Play { cards });
                    }
                    j = j - 1;
                }
                Some(Action::Pass)
            },
            _ => None,
        }
    }
}

} // verus!
