//! Cards written out as text: a natural card as its rank and suit sign, the jokers and
//! the wild card by name, and a list of cards each in brackets.

use vstd::prelude::*;
use super::{Card, NaturalCard, Rank, Suit};

verus! {

/// The rank as written on a card.
pub open spec fn rank_label(r: Rank) -> Seq<char> {
    match r {
        Rank::Two => "2"@,
        Rank::Three => "3"@,
        Rank::Four => "4"@,
        Rank::Five => "5"@,
        Rank::Six => "6"@,
        Rank::Seven => "7"@,
        Rank::Eight => "8"@,
        Rank::Nine => "9"@,
        Rank::Ten => "10"@,
        Rank::Jack => "J"@,
        Rank::Queen => "Q"@,
        Rank::King => "K"@,
        Rank::Ace => "A"@,
    }
}

/// The sign of a suit.
pub open spec fn suit_symbol(s: Suit) -> Seq<char> {
    match s {
        Suit::Hearts => "\u{2665}"@,
        Suit::Diamonds => "\u{2666}"@,
        Suit::Clubs => "\u{2663}"@,
        Suit::Spades => "\u{2660}"@,
    }
}

/// A natural card: its rank, then its suit sign.
pub open spec fn natural_text(c: NaturalCard) -> Seq<char> {
    rank_label(c.rank) + suit_symbol(c.suit)
}

/// A card as text.
pub open spec fn card_text(c: Card) -> Seq<char> {
    match c {
        Card::NaturalCard(nc) => natural_text(nc),
        Card::RedJoker => "Red Joker"@,
        Card::BlackJoker => "Black Joker"@,
        Card::WildCard => "Wild Card"@,
    }
}

/// Cards as text: each card in brackets and followed by a space.
pub open spec fn cards_text(cs: Seq<Card>) -> Seq<char>
    decreases cs.len(),
{
    if cs.len() == 0 {
        seq![]
    } else {
        cards_text(cs.drop_last()) + "["@ + card_text(cs.last()) + "] "@
    }
}

impl NaturalCard {
    /// The card as text, such as "10♥".
    pub fn to_text(&self) -> (s: String)
        ensures
            s@ == natural_text(*self),
    {
        let rank: &str = match self.rank {
            Rank::Two => "2",
            Rank::Three => "3",
            Rank::Four => "4",
            Rank::Five => "5",
            Rank::Six => "6",
            Rank::Seven => "7",
            Rank::Eight => "8",
            Rank::Nine => "9",
            Rank::Ten => "10",
            Rank::Jack => "J",
            Rank::Queen => "Q",
            Rank::King => "K",
            Rank::Ace => "A",
        };
        let suit: &str = match self.suit {
            Suit::Hearts => "\u{2665}",
            Suit::Diamonds => "\u{2666}",
            Suit::Clubs => "\u{2663}",
            Suit::Spades => "\u{2660}",
        };
        let mut s = String::from_str(rank);
        s.append(suit);
        s
    }
}

impl Card {
    /// The card as text: a natural card as its rank and suit sign, the others by name.
    pub fn to_text(&self) -> (s: String)
        ensures
            s@ == card_text(*self),
    {
        match self {
            Card::NaturalCard(nc) => nc.to_text(),
            Card::RedJoker => String::from_str("Red Joker"),
            Card::BlackJoker => String::from_str("Black Joker"),
            Card::WildCard => String::from_str("Wild Card"),
        }
    }
}

/// A list of cards, to be written out.
pub struct Cards<'c>(pub &'c [Card]);

impl<'c> Cards<'c> {
    /// The cards as text, each as "[card] ".
    pub fn to_text(&self) -> (s: String)
        ensures
            s@ == cards_text(self.0@),
    {
        let cards = self.0;
        let mut s = String::new();
        let n = cards.len();
        for i in 0..n
            invariant
                n == cards@.len(),
                s@ == cards_text(cards@.take(i as int)),
        {
            let t = cards[i].to_text();
            s.append("[");
            s.append(t.as_str());
            s.append("] ");
            proof {
                let tk = cards@.take(i + 1);
                assert(tk.drop_last() =~= cards@.take(i as int));
                assert(tk.last() == cards@[i as int]);
            }
        }
        assert(cards@.take(n as int) =~= cards@);
        s
    }
}

} // verus!
