use openplay::doudizhu::pattern::{analyze_pattern, DouDizhuRank, Pattern};
use openplay::poker::{Card, Deck, NaturalCard, Rank, Suit};
use openplay::poker::fmt::Cards;


fn deck_len(d: &Deck) -> usize {
    let mut c = d.clone();
    let mut n = 0;
    while c.deal().is_some() {
        n += 1;
    }
    n
}

fn c(rank: Rank, suit: Suit) -> Card {
    Card::new_natural(suit, rank)
}

fn s(rank: Rank) -> Card {
    c(rank, Suit::Spades)
}

#[test]
fn deck_new_has_52_cards_hearts_first() {
    let mut d = Deck::new();
    assert_eq!(deck_len(&d), 52);
    // the top card is the last one pushed: the ace of spades
    assert_eq!(d.deal(), Some(c(Rank::Ace, Suit::Spades)));
    assert_eq!(deck_len(&d), 51);
}

#[test]
fn deck_with_jokers_and_wildcard() {
    let mut d = Deck::new_with_jokers();
    assert_eq!(deck_len(&d), 54);
    assert_eq!(d.deal(), Some(Card::BlackJoker));
    assert_eq!(d.deal(), Some(Card::RedJoker));
    let mut w = Deck::new_with_joker_and_wildcard();
    assert_eq!(deck_len(&w), 55);
    assert_eq!(w.deal(), Some(Card::WildCard));
}

#[test]
fn deck_deal_from_empty_gives_none() {
    let mut d = Deck::new();
    for _ in 0..52 {
        assert!(d.deal().is_some());
    }
    assert_eq!(d.deal(), None);
    assert_eq!(deck_len(&d), 0);
}

#[test]
fn deck_shuffle_keeps_the_cards_and_moves_them() {
    let mut plain = Deck::new();
    let mut d = Deck::new();
    d.shuffle();
    assert_eq!(deck_len(&d), 52);
    let mut a: Vec<Card> = Vec::new();
    let mut b: Vec<Card> = Vec::new();
    while let Some(x) = plain.deal() {
        a.push(x);
    }
    while let Some(x) = d.deal() {
        b.push(x);
    }
    assert_ne!(a, b, "a shuffled deck of 52 cards keeping its order is all but impossible");
    let mut sa = a.clone();
    let mut sb = b.clone();
    sa.sort_by_key(|x| format!("{:?}", x));
    sb.sort_by_key(|x| format!("{:?}", x));
    assert_eq!(sa, sb);
}

#[test]
fn ranks_two_to_ace() {
    let r = Rank::two_to_ace();
    assert_eq!(r[0], Rank::Two);
    assert_eq!(r[12], Rank::Ace);
    assert_eq!(r.len(), 13);
}

#[test]
fn card_natural_helpers() {
    let x = c(Rank::King, Suit::Hearts);
    assert!(x.is_natural());
    assert!(!Card::RedJoker.is_natural());
    assert_eq!(x.unwrap_natural(), NaturalCard { suit: Suit::Hearts, rank: Rank::King });
}

#[test]
fn pattern_single_pair_triple() {
    assert_eq!(analyze_pattern(&[s(Rank::Three)]), Some(Pattern::Single(DouDizhuRank::Three)));
    assert_eq!(
        analyze_pattern(&[s(Rank::Two), c(Rank::Two, Suit::Hearts)]),
        Some(Pattern::Pair(DouDizhuRank::Two))
    );
    assert_eq!(
        analyze_pattern(&[s(Rank::Nine), c(Rank::Nine, Suit::Hearts), c(Rank::Nine, Suit::Clubs)]),
        Some(Pattern::Triple(DouDizhuRank::Nine))
    );
    assert_eq!(analyze_pattern(&[s(Rank::Three), s(Rank::Four)]), None);
    assert_eq!(analyze_pattern(&[]), None);
}

#[test]
fn pattern_rocket_and_bomb() {
    assert_eq!(analyze_pattern(&[Card::RedJoker, Card::BlackJoker]), Some(Pattern::Rocket));
    let bomb = [s(Rank::Five), c(Rank::Five, Suit::Hearts), c(Rank::Five, Suit::Clubs), c(Rank::Five, Suit::Diamonds)];
    assert_eq!(analyze_pattern(&bomb), Some(Pattern::Bomb(DouDizhuRank::Five)));
}

#[test]
fn pattern_straight_and_limits() {
    let run = [s(Rank::Three), s(Rank::Four), s(Rank::Five), s(Rank::Six), s(Rank::Seven)];
    assert_eq!(analyze_pattern(&run), Some(Pattern::Straight(DouDizhuRank::Three, 5)));
    // a two cannot be part of a straight
    let bad = [s(Rank::Jack), s(Rank::Queen), s(Rank::King), s(Rank::Ace), s(Rank::Two)];
    assert_eq!(analyze_pattern(&bad), None);
}

#[test]
fn pattern_triple_with_single_and_pair() {
    let tws = [s(Rank::Eight), c(Rank::Eight, Suit::Hearts), c(Rank::Eight, Suit::Clubs), s(Rank::Three)];
    assert_eq!(
        analyze_pattern(&tws),
        Some(Pattern::TripleWithSingle(DouDizhuRank::Eight, DouDizhuRank::Three))
    );
    let twp = [
        s(Rank::Eight),
        c(Rank::Eight, Suit::Hearts),
        c(Rank::Eight, Suit::Clubs),
        s(Rank::Three),
        c(Rank::Three, Suit::Hearts),
    ];
    assert_eq!(
        analyze_pattern(&twp),
        Some(Pattern::TripleWithPair(DouDizhuRank::Eight, DouDizhuRank::Three))
    );
}

#[test]
fn pattern_pair_sequence() {
    let ps = [
        s(Rank::Three),
        c(Rank::Three, Suit::Hearts),
        s(Rank::Four),
        c(Rank::Four, Suit::Hearts),
        s(Rank::Five),
        c(Rank::Five, Suit::Hearts),
    ];
    assert_eq!(analyze_pattern(&ps), Some(Pattern::PairSequence(DouDizhuRank::Three, 3)));
}

#[test]
fn beats_rules() {
    let single3 = Pattern::Single(DouDizhuRank::Three);
    let single2 = Pattern::Single(DouDizhuRank::Two);
    let bomb = Pattern::Bomb(DouDizhuRank::Three);
    let bigger_bomb = Pattern::Bomb(DouDizhuRank::Ace);
    assert!(single2.beats(&single3));
    assert!(!single3.beats(&single2));
    assert!(!single3.beats(&single3));
    assert!(bomb.beats(&single2));
    assert!(bigger_bomb.beats(&bomb));
    assert!(Pattern::Rocket.beats(&bigger_bomb));
    assert!(!bigger_bomb.beats(&Pattern::Rocket));
    // a pair does not beat a single
    assert!(!Pattern::Pair(DouDizhuRank::Two).beats(&single3));
    // straights of different lengths do not compare
    assert!(!Pattern::Straight(DouDizhuRank::Four, 6).beats(&Pattern::Straight(DouDizhuRank::Three, 5)));
    assert!(Pattern::Straight(DouDizhuRank::Four, 5).beats(&Pattern::Straight(DouDizhuRank::Three, 5)));
}

#[test]
fn rank_order_and_index() {
    assert!(DouDizhuRank::Two.is_higher_than(DouDizhuRank::Ace));
    assert!(DouDizhuRank::RedJoker.is_higher_than(DouDizhuRank::BlackJoker));
    assert_eq!(DouDizhuRank::Three.index(), 0);
    assert_eq!(DouDizhuRank::from_index(14), DouDizhuRank::RedJoker);
    assert_eq!(DouDizhuRank::from_card(&s(Rank::Two)), DouDizhuRank::Two);
    assert_eq!(DouDizhuRank::from_card(&Card::BlackJoker), DouDizhuRank::BlackJoker);
}

#[test]
fn cards_are_written_as_text() {
    let ten_hearts = NaturalCard { suit: Suit::Hearts, rank: Rank::Ten };
    assert_eq!(ten_hearts.to_text(), "10\u{2665}");
    assert_eq!(Card::NaturalCard(NaturalCard { suit: Suit::Spades, rank: Rank::Ace }).to_text(), "A\u{2660}");
    assert_eq!(Card::RedJoker.to_text(), "Red Joker");
    assert_eq!(Card::BlackJoker.to_text(), "Black Joker");
    assert_eq!(Card::WildCard.to_text(), "Wild Card");
    let cards = [Card::NaturalCard(ten_hearts), Card::WildCard];
    assert_eq!(Cards(&cards).to_text(), "[10\u{2665}] [Wild Card] ");
    assert_eq!(Cards(&[]).to_text(), "");
}

#[test]
fn patterns_ignore_order_and_suits() {
    let a = vec![c(Rank::Five, Suit::Hearts), c(Rank::Five, Suit::Clubs), c(Rank::Five, Suit::Spades), c(Rank::Nine, Suit::Hearts)];
    let b = vec![c(Rank::Nine, Suit::Clubs), c(Rank::Five, Suit::Diamonds), c(Rank::Five, Suit::Hearts), c(Rank::Five, Suit::Clubs)];
    assert_eq!(analyze_pattern(&a), analyze_pattern(&b));
    assert!(matches!(analyze_pattern(&a), Some(Pattern::TripleWithSingle(DouDizhuRank::Five, DouDizhuRank::Nine))));
}

#[test]
fn runs_take_their_length_and_stay_below_two() {
    let straight: Vec<Card> = [Rank::Ten, Rank::Jack, Rank::Queen, Rank::King, Rank::Ace].iter().map(|r| c(*r, Suit::Hearts)).collect();
    assert_eq!(analyze_pattern(&straight), Some(Pattern::Straight(DouDizhuRank::Ten, 5)));
    let with_two: Vec<Card> = [Rank::Jack, Rank::Queen, Rank::King, Rank::Ace, Rank::Two].iter().map(|r| c(*r, Suit::Hearts)).collect();
    assert_eq!(analyze_pattern(&with_two), None);
    let pairs: Vec<Card> = [Rank::Three, Rank::Three, Rank::Four, Rank::Four, Rank::Five, Rank::Five].iter().map(|r| c(*r, Suit::Spades)).collect();
    assert_eq!(analyze_pattern(&pairs), Some(Pattern::PairSequence(DouDizhuRank::Three, 3)));
}
