//! Playing cards: suits, ranks, jokers and a deck that deals from its top.

use vstd::prelude::*;
use rand::seq::SliceRandom;

pub mod fmt;

verus! {

/// A card suit.
#[derive(Debug, Clone, Copy, PartialEq, Eq, Hash, Structural)]
pub enum Suit {
    Hearts,
    Diamonds,
    Clubs,
    Spades,
}

/// A card rank, from Two up to Ace.
#[derive(Debug, Clone, Copy, PartialEq, Eq, Hash, PartialOrd, Ord, Structural)]
pub enum Rank {
    Two,
    Three,
    Four,
    Five,
    Six,
    Seven,
    Eight,
    Nine,
    Ten,
    Jack,
    Queen,
    King,
    Ace,
}

/// The rank at position `i` of the order Two, Three, ..., Ace.
pub open spec fn rank_at(i: int) -> Rank {
    if i <= 0 {
        Rank::Two
    } else if i == 1 {
        Rank::Three
    } else if i == 2 {
        Rank::Four
    } else if i == 3 {
        Rank::Five
    } else if i == 4 {
        Rank::Six
    } else if i == 5 {
        Rank::Seven
    } else if i == 6 {
        Rank::Eight
    } else if i == 7 {
        Rank::Nine
    } else if i == 8 {
        Rank::Ten
    } else if i == 9 {
        Rank::Jack
    } else if i == 10 {
        Rank::Queen
    } else if i == 11 {
        Rank::King
    } else {
        Rank::Ace
    }
}

impl Rank {
    /// All thirteen ranks in increasing order.
    pub fn two_to_ace() -> (ranks: [Rank; 13])
        ensures
            forall|i: int| 0 <= i < 13 ==> #[trigger] ranks@[i] == rank_at(i),
    {
        [
            Rank::Two,
            Rank::Three,
            Rank::Four,
            Rank::Five,
            Rank::Six,
            Rank::Seven,
            Rank::Eight,
            Rank::Nine,
            Rank::Ten,
            Rank::Jack,
            Rank::Queen,
            Rank::King,
            Rank::Ace,
        ]
    }
}

/// A card with a suit and a rank.
#[derive(Debug, Clone, Copy, PartialEq, Eq, Structural)]
pub struct NaturalCard {
    pub suit: Suit,
    pub rank: Rank,
}

/// A card: natural, one of the two jokers, or a wild card.
#[derive(Debug, Clone, Copy, PartialEq, Eq, Structural)]
pub enum Card {
    NaturalCard(NaturalCard),
    RedJoker,
    BlackJoker,
    WildCard,
}

impl Card {
    pub fn is_natural(&self) -> (r: bool)
        ensures
            r == (*self is NaturalCard),
    {
        matches!(self, Card::NaturalCard(_))
    }

    /// The suit and rank of a natural card.
    pub fn unwrap_natural(self) -> (nc: NaturalCard)
        requires
            self is NaturalCard,
        ensures
            self == Card::NaturalCard(nc),
    {
        match self {
            Card::NaturalCard(nc) => nc,
            _ => {
                proof {
                    assert(false);
                }
                NaturalCard { suit: Suit::Hearts, rank: Rank::Two }
            },
        }
    }

    pub fn new_natural(suit: Suit, rank: Rank) -> (c: Card)
        ensures
            c == Card::NaturalCard(NaturalCard { suit, rank }),
    {
        Card::NaturalCard(NaturalCard { suit, rank })
    }
}

/// The thirteen natural cards of one suit, Two to Ace.
pub open spec fn suit_run(s: Suit) -> Seq<Card> {
    Seq::new(13, |i: int| Card::NaturalCard(NaturalCard { suit: s, rank: rank_at(i) }))
}

/// The 52 natural cards: Hearts, Diamonds, Clubs and Spades, each from Two to Ace.
pub open spec fn standard_cards() -> Seq<Card> {
    suit_run(Suit::Hearts) + suit_run(Suit::Diamonds) + suit_run(Suit::Clubs) + suit_run(
        Suit::Spades,
    )
}

/// The standard cards followed by the red and the black joker.
pub open spec fn cards_with_jokers() -> Seq<Card> {
    standard_cards().push(Card::RedJoker).push(Card::BlackJoker)
}

/// A deck of cards; the last card of its sequence is the top one.
#[derive(Debug)]
pub struct Deck {
    cards: Vec<Card>,
}

impl Clone for Deck {
    fn clone(&self) -> (d: Deck)
        ensures
            d@ == self@,
    {
        let mut cards: Vec<Card> = Vec::new();
        let n = self.cards.len();
        for i in 0..n
            invariant
                n == self.cards@.len(),
                cards@ == self.cards@.take(i as int),
        {
            cards.push(self.cards[i]);
            assert(self.cards@.take(i + 1) =~= self.cards@.take(i as int).push(self.cards@[i as int]));
        }
        assert(self.cards@.take(n as int) =~= self.cards@);
        Deck { cards }
    }
}

impl View for Deck {
    type V = Seq<Card>;

    closed spec fn view(&self) -> Seq<Card> {
        self.cards@
    }
}

/// Shuffles the cards with the thread-local random generator of `rand`.
/// The order that results depends on chance; what is stated is only that the same
/// cards come out, as many times each as they went in.
#[verifier::external_body]
fn shuffle_cards(cards: &mut Vec<Card>)
    ensures
        final(cards)@.to_multiset() == old(cards)@.to_multiset(),
        final(cards)@.len() == old(cards)@.len(),
{
    cards.shuffle(&mut rand::rng());
}

fn push_suit(cards: &mut Vec<Card>, suit: Suit)
    ensures
        final(cards)@ == old(cards)@ + suit_run(suit),
{
    let ranks = Rank::two_to_ace();
    let ghost start = cards@;
    for i in 0..13
        invariant
            cards@ == start + suit_run(suit).take(i as int),
            forall|j: int| 0 <= j < 13 ==> #[trigger] ranks@[j] == rank_at(j),
    {
        cards.push(Card::new_natural(suit, ranks[i]));
        assert(suit_run(suit).take(i + 1) =~= suit_run(suit).take(i as int).push(
            Card::NaturalCard(NaturalCard { suit, rank: rank_at(i as int) }),
        ));
    }
    assert(suit_run(suit).take(13) =~= suit_run(suit));
}

impl Deck {
    /// The 52 natural cards, Hearts first, each suit from Two to Ace.
    pub fn new() -> (d: Deck)
        ensures
            d@ == standard_cards(),
    {
        let mut cards = Vec::new();
        push_suit(&mut cards, Suit::Hearts);
        push_suit(&mut cards, Suit::Diamonds);
        push_suit(&mut cards, Suit::Clubs);
        push_suit(&mut cards, Suit::Spades);
        assert(cards@ =~= standard_cards());
        Deck { cards }
    }

    /// The standard deck with the red joker and then the black joker on top.
    pub fn new_with_jokers() -> (d: Deck)
        ensures
            d@ == cards_with_jokers(),
    {
        let mut deck = Deck::new();
        deck.cards.push(Card::RedJoker);
        deck.cards.push(Card::BlackJoker);
        deck
    }

    /// The deck with jokers and a wild card on top.
    pub fn new_with_joker_and_wildcard() -> (d: Deck)
        ensures
            d@ == cards_with_jokers().push(Card::WildCard),
    {
        let mut deck = Deck::new_with_jokers();
        deck.cards.push(Card::WildCard);
        deck
    }

    /// Puts the cards in a random order; the same cards stay in the deck.
    pub fn shuffle(&mut self)
        ensures
            final(self)@.to_multiset() == old(self)@.to_multiset(),
            final(self)@.len() == old(self)@.len(),
    {
        shuffle_cards(&mut self.cards);
    }

    /// A deck of the given cards, the last on top.
    pub fn from_cards(cards: Vec<Card>) -> (d: Deck)
        ensures
            d@ == cards@,
    {
        Deck { cards }
    }

    /// The cards of the deck, the last on top.
    pub fn cards(&self) -> (c: &[Card])
        ensures
            c@ == self@,
    {
        self.cards.as_slice()
    }

    /// Takes the top card, or `None` from an empty deck.
    pub fn deal(&mut self) -> (c: Option<Card>)
        ensures
            old(self)@.len() == 0 ==> c is None && final(self)@ == old(self)@,
            old(self)@.len() > 0 ==> c == Some(old(self)@.last()) && final(self)@ == old(
                self,
            )@.drop_last(),
    {
        self.cards.pop()
    }
}

} // verus!
