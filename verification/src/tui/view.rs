//! What the table shows: the prompt of the status line, the winner, the seats around
//! this player, the names of stages and roles, and the color of each card.

use vstd::prelude::*;
use crate::doudizhu::game::{DouDizhuGame, PlayerState, Role, Stage};
use crate::poker::{Card, Suit};
use crate::tui::app::{my_turn, GameState};

verus! {

/// The prompt of the status line.
#[derive(Debug, Clone, Copy, PartialEq, Eq, Structural)]
pub enum Prompt {
    /// Bidding with B pressed: a digit is awaited.
    BidDigits,
    /// This player's bid is awaited.
    Bid,
    /// This player leads: any pattern may be played.
    FreePlay,
    /// This player has to beat the last play or pass.
    Play,
    /// This player's turn in another stage.
    YourTurn,
    /// Another player's turn: the seat.
    Waiting(usize),
}

/// The prompt of the status line for the table.
pub open spec fn prompt_of(gs: GameState, game: DouDizhuGame) -> Prompt {
    if my_turn(gs) {
        match game.stage {
            Stage::Bidding => if gs.bid_mode { Prompt::BidDigits } else { Prompt::Bid },
            Stage::Playing => if game.last_play is None || game.consecutive_passes >= 2 {
                Prompt::FreePlay
            } else {
                Prompt::Play
            },
            _ => Prompt::YourTurn,
        }
    } else {
        Prompt::Waiting(game.current_turn)
    }
}

/// The prompt of the status line, for the table `gs` showing `game`.
pub fn status_prompt(gs: &GameState, game: &DouDizhuGame) -> (p: Prompt)
    requires
        gs.game == Some(*game),
    ensures
        p == prompt_of(*gs, *game),
{
    if gs.is_my_turn() {
        match game.stage {
            Stage::Bidding => if gs.bid_mode {
                Prompt::BidDigits
            } else {
                Prompt::Bid
            },
            Stage::Playing => if game.last_play.is_none() || game.consecutive_passes >= 2 {
                Prompt::FreePlay
            } else {
                Prompt::Play
            },
            _ => Prompt::YourTurn,
        }
    } else {
        Prompt::Waiting(game.current_turn)
    }
}

/// Whether the landlord's side won: the winner is the landlord (both unset counts too).
pub fn landlord_won(game: &DouDizhuGame) -> (r: bool)
    ensures
        r == (game.winner == game.landlord_idx),
{
    match (game.winner, game.landlord_idx) {
        (Some(w), Some(l)) => w == l,
        (None, None) => true,
        _ => false,
    }
}

/// The seats to this player's left and right, at a table of three.
pub fn neighbours(my_idx: usize) -> (r: (usize, usize))
    requires
        my_idx < 3,
    ensures
        r.0 == (my_idx + 1) % 3,
        r.1 == (my_idx + 2) % 3,
{
    ((my_idx + 1) % 3, (my_idx + 2) % 3)
}

/// The message id of a stage's name.
pub open spec fn stage_key_of(s: Stage) -> Seq<char> {
    match s {
        Stage::Setup => "stage-waiting"@,
        Stage::Bidding => "stage-bidding"@,
        Stage::Playing => "stage-playing"@,
        Stage::Finished => "stage-finished"@,
    }
}

/// The message id of a stage's name.
pub fn stage_key(stage: Stage) -> (k: &'static str)
    ensures
        k@ == stage_key_of(stage),
{
    match stage {
        Stage::Setup => "stage-waiting",
        Stage::Bidding => "stage-bidding",
        Stage::Playing => "stage-playing",
        Stage::Finished => "stage-finished",
    }
}

/// The message id of a role's name.
pub open spec fn role_key_of(r: Role) -> Seq<char> {
    match r {
        Role::Landlord => "role-landlord"@,
        Role::Peasant => "role-peasant"@,
        Role::Undecided => "role-undecided"@,
    }
}

/// The message id of a role's name.
pub fn role_key(role: Role) -> (k: &'static str)
    ensures
        k@ == role_key_of(role),
{
    match role {
        Role::Landlord => "role-landlord",
        Role::Peasant => "role-peasant",
        Role::Undecided => "role-undecided",
    }
}

/// The seat of the first player of the game with the same user id as `player`, or 0
/// when there is none.
pub fn player_index(game: &DouDizhuGame, player: &PlayerState) -> (i: usize)
    ensures
        (exists|k: int| 0 <= k < game.players@.len() && game.players@[k].player.id == player.player.id) ==> (
        i < game.players@.len() && game.players@[i as int].player.id == player.player.id
            && forall|k: int| 0 <= k < i ==> game.players@[k].player.id != player.player.id),
        !(exists|k: int| 0 <= k < game.players@.len() && game.players@[k].player.id == player.player.id) ==> i == 0,
{
    let n = game.players.len();
    let mut i: usize = 0;
    while i < n
        invariant
            n == game.players@.len(),
            i <= n,
            forall|k: int| 0 <= k < i ==> game.players@[k].player.id != player.player.id,
        decreases n - i,
    {
        if game.players[i].player.id.same(&player.player.id) {
            return i;
        }
        i = i + 1;
    }
    0
}

/// The color a card is shown in.
#[derive(Debug, Clone, Copy, PartialEq, Eq, Structural)]
pub enum CardColor {
    Red,
    White,
    Magenta,
}

/// A card's color, and whether it is bold: hearts and diamonds red, spades and clubs
/// white, the red joker bold red, the black joker bold white, the wild card magenta.
pub fn card_color(card: &Card) -> (r: (CardColor, bool))
    ensures
        r == match *card {
            Card::NaturalCard(nc) => (if nc.suit == Suit::Hearts || nc.suit == Suit::Diamonds {
                CardColor::Red
            } else {
                CardColor::White
            }, false),
            Card::RedJoker => (CardColor::Red, true),
            Card::BlackJoker => (CardColor::White, true),
            Card::WildCard => (CardColor::Magenta, false),
        },
{
    match card {
        Card::NaturalCard(nc) => match nc.suit {
            Suit::Hearts | Suit::Diamonds => (CardColor::Red, false),
            Suit::Spades | Suit::Clubs => (CardColor::White, false),
        },
        Card::RedJoker => (CardColor::Red, true),
        Card::BlackJoker => (CardColor::White, true),
        Card::WildCard => (CardColor::Magenta, false),
    }
}

} // verus!
