//! Dou Dizhu card ranks, the patterns a set of cards can form, and which pattern beats which.

use vstd::prelude::*;
use crate::poker::{Card, Rank};

verus! {

/// A card's strength in Dou Dizhu: Three is the lowest, then up to Ace, then Two,
/// the black joker and the red joker.
#[derive(Debug, Clone, Copy, PartialEq, Eq, Hash, PartialOrd, Ord, Structural)]
pub enum DouDizhuRank {
    Three,
    Four,
    Five,
    Six,
    Seven,
    Eight,
    Nine,
    Ten,
    Jack,
    Queen,
    King,
    Ace,
    Two,
    BlackJoker,
    RedJoker,
}

/// Position of a rank in the Dou Dizhu order: 0 for Three up to 14 for the red joker.
pub open spec fn rank_idx(r: DouDizhuRank) -> int {
    match r {
        DouDizhuRank::Three => 0,
        DouDizhuRank::Four => 1,
        DouDizhuRank::Five => 2,
        DouDizhuRank::Six => 3,
        DouDizhuRank::Seven => 4,
        DouDizhuRank::Eight => 5,
        DouDizhuRank::Nine => 6,
        DouDizhuRank::Ten => 7,
        DouDizhuRank::Jack => 8,
        DouDizhuRank::Queen => 9,
        DouDizhuRank::King => 10,
        DouDizhuRank::Ace => 11,
        DouDizhuRank::Two => 12,
        DouDizhuRank::BlackJoker => 13,
        DouDizhuRank::RedJoker => 14,
    }
}

/// The rank at position `i` of the Dou Dizhu order.
pub open spec fn rank_of_idx(i: int) -> DouDizhuRank {
    if i <= 0 {
        DouDizhuRank::Three
    } else if i == 1 {
        DouDizhuRank::Four
    } else if i == 2 {
        DouDizhuRank::Five
    } else if i == 3 {
        DouDizhuRank::Six
    } else if i == 4 {
        DouDizhuRank::Seven
    } else if i == 5 {
        DouDizhuRank::Eight
    } else if i == 6 {
        DouDizhuRank::Nine
    } else if i == 7 {
        DouDizhuRank::Ten
    } else if i == 8 {
        DouDizhuRank::Jack
    } else if i == 9 {
        DouDizhuRank::Queen
    } else if i == 10 {
        DouDizhuRank::King
    } else if i == 11 {
        DouDizhuRank::Ace
    } else if i == 12 {
        DouDizhuRank::Two
    } else if i == 13 {
        DouDizhuRank::BlackJoker
    } else {
        DouDizhuRank::RedJoker
    }
}

/// The Dou Dizhu rank of a card; a wild card has none.
pub open spec fn card_rank(c: Card) -> DouDizhuRank {
    match c {
        Card::NaturalCard(nc) => match nc.rank {
            Rank::Three => DouDizhuRank::Three,
            Rank::Four => DouDizhuRank::Four,
            Rank::Five => DouDizhuRank::Five,
            Rank::Six => DouDizhuRank::Six,
            Rank::Seven => DouDizhuRank::Seven,
            Rank::Eight => DouDizhuRank::Eight,
            Rank::Nine => DouDizhuRank::Nine,
            Rank::Ten => DouDizhuRank::Ten,
            Rank::Jack => DouDizhuRank::Jack,
            Rank::Queen => DouDizhuRank::Queen,
            Rank::King => DouDizhuRank::King,
            Rank::Ace => DouDizhuRank::Ace,
            Rank::Two => DouDizhuRank::Two,
        },
        Card::BlackJoker => DouDizhuRank::BlackJoker,
        Card::RedJoker => DouDizhuRank::RedJoker,
        Card::WildCard => DouDizhuRank::Three,
    }
}

/// No card of the sequence is a wild card.
pub open spec fn no_wild(cards: Seq<Card>) -> bool {
    forall|i: int| 0 <= i < cards.len() ==> !(#[trigger] cards[i] is WildCard)
}

impl DouDizhuRank {
    /// The Dou Dizhu rank of a card. A wild card has no rank in this game.
    pub fn from_card(card: &Card) -> (r: DouDizhuRank)
        requires
            !(*card is WildCard),
        ensures
            r == card_rank(*card),
    {
        match card {
            Card::NaturalCard(c) => match c.rank {
                Rank::Three => DouDizhuRank::Three,
                Rank::Four => DouDizhuRank::Four,
                Rank::Five => DouDizhuRank::Five,
                Rank::Six => DouDizhuRank::Six,
                Rank::Seven => DouDizhuRank::Seven,
                Rank::Eight => DouDizhuRank::Eight,
                Rank::Nine => DouDizhuRank::Nine,
                Rank::Ten => DouDizhuRank::Ten,
                Rank::Jack => DouDizhuRank::Jack,
                Rank::Queen => DouDizhuRank::Queen,
                Rank::King => DouDizhuRank::King,
                Rank::Ace => DouDizhuRank::Ace,
                Rank::Two => DouDizhuRank::Two,
            },
            Card::BlackJoker => DouDizhuRank::BlackJoker,
            Card::RedJoker => DouDizhuRank::RedJoker,
            Card::WildCard => DouDizhuRank::Three,
        }
    }

    /// The position of the rank in the Dou Dizhu order (0 for Three, 14 for the red joker).
    pub fn index(self) -> (i: usize)
        ensures
            i == rank_idx(self),
            i < 15,
    {
        match self {
            DouDizhuRank::Three => 0,
            DouDizhuRank::Four => 1,
            DouDizhuRank::Five => 2,
            DouDizhuRank::Six => 3,
            DouDizhuRank::Seven => 4,
            DouDizhuRank::Eight => 5,
            DouDizhuRank::Nine => 6,
            DouDizhuRank::Ten => 7,
            DouDizhuRank::Jack => 8,
            DouDizhuRank::Queen => 9,
            DouDizhuRank::King => 10,
            DouDizhuRank::Ace => 11,
            DouDizhuRank::Two => 12,
            DouDizhuRank::BlackJoker => 13,
            DouDizhuRank::RedJoker => 14,
        }
    }

    /// The rank at a position of the Dou Dizhu order.
    pub fn from_index(i: usize) -> (r: DouDizhuRank)
        requires
            i < 15,
        ensures
            r == rank_of_idx(i as int),
            rank_idx(r) == i,
    {
        if i == 0 {
            DouDizhuRank::Three
        } else if i == 1 {
            DouDizhuRank::Four
        } else if i == 2 {
            DouDizhuRank::Five
        } else if i == 3 {
            DouDizhuRank::Six
        } else if i == 4 {
            DouDizhuRank::Seven
        } else if i == 5 {
            DouDizhuRank::Eight
        } else if i == 6 {
            DouDizhuRank::Nine
        } else if i == 7 {
            DouDizhuRank::Ten
        } else if i == 8 {
            DouDizhuRank::Jack
        } else if i == 9 {
            DouDizhuRank::Queen
        } else if i == 10 {
            DouDizhuRank::King
        } else if i == 11 {
            DouDizhuRank::Ace
        } else if i == 12 {
            DouDizhuRank::Two
        } else if i == 13 {
            DouDizhuRank::BlackJoker
        } else {
            DouDizhuRank::RedJoker
        }
    }

    /// Whether this rank is strictly higher than `other` in the Dou Dizhu order.
    pub fn is_higher_than(self, other: DouDizhuRank) -> (r: bool)
        ensures
            r == (rank_idx(self) > rank_idx(other)),
    {
        self.index() > other.index()
    }
}

/// A combination of cards that may be played.
#[derive(Debug, Clone, Copy, PartialEq, Eq, Structural)]
pub enum Pattern {
    Single(DouDizhuRank),
    Pair(DouDizhuRank),
    Triple(DouDizhuRank),
    /// (triple rank, single rank)
    TripleWithSingle(DouDizhuRank, DouDizhuRank),
    /// (triple rank, pair rank)
    TripleWithPair(DouDizhuRank, DouDizhuRank),
    /// Run of singles: (lowest rank, number of cards)
    Straight(DouDizhuRank, u8),
    /// Run of pairs: (lowest rank, number of pairs)
    PairSequence(DouDizhuRank, u8),
    /// Run of triples: (lowest rank, number of triples)
    Airplane(DouDizhuRank, u8),
    /// Run of triples with attached singles or pairs: (lowest triple rank, number of triples)
    AirplaneWithWings(DouDizhuRank, u8),
    Bomb(DouDizhuRank),
    /// Both jokers.
    Rocket,
}

/// Whether a play of pattern `a` may be put on a play of pattern `b`: a rocket beats
/// everything, a bomb beats every non-bomb, and otherwise only the same kind of pattern
/// (of the same length, for runs) with a higher leading rank.
pub open spec fn spec_beats(a: Pattern, b: Pattern) -> bool {
    if a is Rocket {
        true
    } else if b is Rocket {
        false
    } else if a is Bomb && !(b is Bomb) {
        true
    } else if !(a is Bomb) && b is Bomb {
        false
    } else {
        match (a, b) {
            (Pattern::Single(r1), Pattern::Single(r2)) => rank_idx(r1) > rank_idx(r2),
            (Pattern::Pair(r1), Pattern::Pair(r2)) => rank_idx(r1) > rank_idx(r2),
            (Pattern::Triple(r1), Pattern::Triple(r2)) => rank_idx(r1) > rank_idx(r2),
            (Pattern::TripleWithSingle(r1, _), Pattern::TripleWithSingle(r2, _)) => rank_idx(r1)
                > rank_idx(r2),
            (Pattern::TripleWithPair(r1, _), Pattern::TripleWithPair(r2, _)) => rank_idx(r1)
                > rank_idx(r2),
            (Pattern::Bomb(r1), Pattern::Bomb(r2)) => rank_idx(r1) > rank_idx(r2),
            (Pattern::Straight(r1, l1), Pattern::Straight(r2, l2)) => l1 == l2 && rank_idx(r1)
                > rank_idx(r2),
            (Pattern::PairSequence(r1, l1), Pattern::PairSequence(r2, l2)) => l1 == l2
                && rank_idx(r1) > rank_idx(r2),
            (Pattern::Airplane(r1, l1), Pattern::Airplane(r2, l2)) => l1 == l2 && rank_idx(r1)
                > rank_idx(r2),
            (Pattern::AirplaneWithWings(r1, l1), Pattern::AirplaneWithWings(r2, l2)) => l1 == l2
                && rank_idx(r1) > rank_idx(r2),
            _ => false,
        }
    }
}

impl Pattern {
    /// Whether this pattern may be played on top of `other`.
    pub fn beats(&self, other: &Pattern) -> (r: bool)
        ensures
            r == spec_beats(*self, *other),
    {
        if let Pattern::Rocket = self {
            return true;
        }
        if let Pattern::Rocket = other {
            return false;
        }
        if let Pattern::Bomb(_) = self {
            if !matches!(other, Pattern::Bomb(_)) {
                return true;
            }
        }
        if !matches!(self, Pattern::Bomb(_)) {
            if matches!(other, Pattern::Bomb(_)) {
                return false;
            }
        }
        match (self, other) {
            (Pattern::Single(r1), Pattern::Single(r2)) => r1.is_higher_than(*r2),
            (Pattern::Pair(r1), Pattern::Pair(r2)) => r1.is_higher_than(*r2),
            (Pattern::Triple(r1), Pattern::Triple(r2)) => r1.is_higher_than(*r2),
            (Pattern::TripleWithSingle(r1, _), Pattern::TripleWithSingle(r2, _)) => r1.is_higher_than(
                *r2,
            ),
            (Pattern::TripleWithPair(r1, _), Pattern::TripleWithPair(r2, _)) => r1.is_higher_than(
                *r2,
            ),
            (Pattern::Bomb(r1), Pattern::Bomb(r2)) => r1.is_higher_than(*r2),
            (Pattern::Straight(r1, l1), Pattern::Straight(r2, l2)) => *l1 == *l2
                && r1.is_higher_than(*r2),
            (Pattern::PairSequence(r1, l1), Pattern::PairSequence(r2, l2)) => *l1 == *l2
                && r1.is_higher_than(*r2),
            (Pattern::Airplane(r1, l1), Pattern::Airplane(r2, l2)) => *l1 == *l2
                && r1.is_higher_than(*r2),
            (Pattern::AirplaneWithWings(r1, l1), Pattern::AirplaneWithWings(r2, l2)) => *l1 == *l2
                && r1.is_higher_than(*r2),
            _ => false,
        }
    }
}

/// How many of the cards have the rank at position `r`.
pub open spec fn count_rank(cards: Seq<Card>, r: int) -> nat
    decreases cards.len(),
{
    if cards.len() == 0 {
        0
    } else {
        count_rank(cards.drop_last(), r) + (if rank_idx(card_rank(cards.last())) == r {
            1nat
        } else {
            0nat
        })
    }
}

/// The ranks among the first `n` positions that occur exactly `k` times, lowest first.
pub open spec fn group_upto(cards: Seq<Card>, k: nat, n: int) -> Seq<DouDizhuRank>
    decreases n,
{
    if n <= 0 {
        Seq::empty()
    } else if count_rank(cards, n - 1) == k {
        group_upto(cards, k, n - 1).push(rank_of_idx(n - 1))
    } else {
        group_upto(cards, k, n - 1)
    }
}

/// The ranks that occur exactly `k` times among the cards, lowest first.
pub open spec fn group(cards: Seq<Card>, k: nat) -> Seq<DouDizhuRank> {
    group_upto(cards, k, 15)
}

/// Every rank that occurs among the cards occurs exactly `k` times.
pub open spec fn only_count(cards: Seq<Card>, k: nat) -> bool {
    forall|i: int| 0 <= i < 15 ==> #[trigger] count_rank(cards, i) == 0 || count_rank(cards, i) == k
}

/// The ranks follow each other one step at a time and none is a Two or a joker.
pub open spec fn continuous(s: Seq<DouDizhuRank>) -> bool {
    forall|i: int|
        0 <= i < s.len() - 1 ==> rank_idx(#[trigger] s[i]) < 12 && rank_idx(s[i + 1]) < 12
            && rank_idx(s[i + 1]) == rank_idx(s[i]) + 1
}

/// The pattern that a set of cards forms, if any.
pub open spec fn pattern_of(cards: Seq<Card>) -> Option<Pattern> {
    let len = cards.len();
    let g1 = group(cards, 1);
    let g2 = group(cards, 2);
    let g3 = group(cards, 3);
    let g4 = group(cards, 4);
    if len == 0 {
        None
    } else if len == 1 {
        Some(Pattern::Single(card_rank(cards[0])))
    } else if len == 2 && count_rank(cards, 13) == 1 && count_rank(cards, 14) == 1 {
        Some(Pattern::Rocket)
    } else if len == 2 && g2.len() == 1 {
        Some(Pattern::Pair(g2[0]))
    } else if len == 3 && g3.len() == 1 {
        Some(Pattern::Triple(g3[0]))
    } else if len == 4 && g4.len() == 1 {
        Some(Pattern::Bomb(g4[0]))
    } else if len == 4 && g3.len() == 1 {
        Some(Pattern::TripleWithSingle(g3[0], g1[0]))
    } else if len == 5 && g3.len() == 1 && g2.len() == 1 {
        Some(Pattern::TripleWithPair(g3[0], g2[0]))
    } else if len >= 5 && only_count(cards, 1) && continuous(g1) {
        Some(Pattern::Straight(g1[0], len as u8))
    } else if len >= 6 && len % 2 == 0 && only_count(cards, 2) && g2.len() >= 3 && continuous(g2) {
        Some(Pattern::PairSequence(g2[0], g2.len() as u8))
    } else if len >= 6 && len % 3 == 0 && only_count(cards, 3) && g3.len() >= 2 && continuous(g3) {
        Some(Pattern::Airplane(g3[0], g3.len() as u8))
    } else if g3.len() >= 2 && continuous(g3) && (len == g3.len() * 4 || (len == g3.len() * 5
        && g2.len() == g3.len())) {
        Some(Pattern::AirplaneWithWings(g3[0], g3.len() as u8))
    } else {
        None
    }
}

/// Counts, for each of the 15 ranks, how many of the cards have it.
fn rank_counts(cards: &[Card]) -> (counts: Vec<usize>)
    requires
        no_wild(cards@),
    ensures
        counts@.len() == 15,
        forall|r: int| 0 <= r < 15 ==> #[trigger] counts@[r] == count_rank(cards@, r),
{
    let mut counts: Vec<usize> = vec![0, 0, 0, 0, 0, 0, 0, 0, 0, 0, 0, 0, 0, 0, 0];
    let n = cards.len();
    for i in 0..n
        invariant
            n == cards@.len(),
            no_wild(cards@),
            counts@.len() == 15,
            forall|r: int| 0 <= r < 15 ==> #[trigger] counts@[r] == count_rank(cards@.take(i as int), r),
            forall|r: int| 0 <= r < 15 ==> #[trigger] counts@[r] <= i,
    {
        let c = &cards[i];
        assert(!(cards@[i as int] is WildCard));
        let r = DouDizhuRank::from_card(c).index();
        let v = counts[r];
        counts.set(r, v + 1);
        assert(cards@.take(i + 1).drop_last() =~= cards@.take(i as int));
        assert(cards@.take(i + 1).last() == cards@[i as int]);
        assert forall|q: int| 0 <= q < 15 implies #[trigger] counts@[q] == count_rank(
            cards@.take(i + 1),
            q,
        ) && counts@[q] <= i + 1 by {
            assert(count_rank(cards@.take(i + 1), q) == count_rank(cards@.take(i as int), q) + (
            if rank_idx(card_rank(cards@[i as int])) == q {
                1nat
            } else {
                0nat
            }));
        }
    }
    assert(cards@.take(n as int) =~= cards@);
    counts
}

/// The ranks whose count is exactly `k`, lowest first.
fn group_of(counts: &Vec<usize>, k: usize, Ghost(cards): Ghost<Seq<Card>>) -> (g: Vec<DouDizhuRank>)
    requires
        counts@.len() == 15,
        forall|r: int| 0 <= r < 15 ==> #[trigger] counts@[r] == count_rank(cards, r),
    ensures
        g@ == group(cards, k as nat),
{
    let mut g: Vec<DouDizhuRank> = Vec::new();
    for i in 0..15
        invariant
            counts@.len() == 15,
            forall|r: int| 0 <= r < 15 ==> #[trigger] counts@[r] == count_rank(cards, r),
            g@ == group_upto(cards, k as nat, i as int),
    {
        if counts[i] == k {
            g.push(DouDizhuRank::from_index(i));
        }
    }
    g
}

/// Whether every nonzero count equals `k`.
fn only_count_exec(counts: &Vec<usize>, k: usize, Ghost(cards): Ghost<Seq<Card>>) -> (b: bool)
    requires
        counts@.len() == 15,
        forall|r: int| 0 <= r < 15 ==> #[trigger] counts@[r] == count_rank(cards, r),
    ensures
        b == only_count(cards, k as nat),
{
    for i in 0..15
        invariant
            counts@.len() == 15,
            forall|r: int| 0 <= r < 15 ==> #[trigger] counts@[r] == count_rank(cards, r),
            forall|r: int| 0 <= r < i ==> #[trigger] count_rank(cards, r) == 0 || count_rank(cards, r) == k,
    {
        if counts[i] != 0 && counts[i] != k {
            assert(!(count_rank(cards, i as int) == 0 || count_rank(cards, i as int) == k));
            return false;
        }
    }
    true
}

/// The ranks run one step apart without a Two or a joker. `ranks` must not be empty.
fn is_continuous(ranks: &[DouDizhuRank]) -> (b: bool)
    requires
        ranks@.len() > 0,
    ensures
        b == continuous(ranks@),
{
    let n = ranks.len();
    for i in 0..n - 1
        invariant
            n == ranks@.len(),
            n > 0,
            forall|j: int|
                0 <= j < i ==> rank_idx(#[trigger] ranks@[j]) < 12 && rank_idx(ranks@[j + 1]) < 12
                    && rank_idx(ranks@[j + 1]) == rank_idx(ranks@[j]) + 1,
    {
        let a = ranks[i].index();
        let b = ranks[i + 1].index();
        if a >= 12 || b >= 12 {
            assert(!(rank_idx(ranks@[i as int]) < 12 && rank_idx(ranks@[i + 1]) < 12));
            return false;
        }
        if b != a + 1 {
            return false;
        }
    }
    true
}

/// The pattern formed by `cards`, or `None` if they form no pattern.
/// Wild cards have no place in Dou Dizhu.
#[verifier::rlimit(40)]
pub fn analyze_pattern(cards: &[Card]) -> (p: Option<Pattern>)
    requires
        no_wild(cards@),
    ensures
        p == pattern_of(cards@),
{
    let len = cards.len();
    if len == 0 {
        return None;
    }
    if len == 1 {
        return Some(Pattern::Single(DouDizhuRank::from_card(&cards[0])));
    }
    let counts = rank_counts(cards);
    let ghost cs = cards@;
    if len == 2 && counts[13] == 1 && counts[14] == 1 {
        return Some(Pattern::Rocket);
    }
    let g1 = group_of(&counts, 1, Ghost(cs));
    let g2 = group_of(&counts, 2, Ghost(cs));
    let g3 = group_of(&counts, 3, Ghost(cs));
    let g4 = group_of(&counts, 4, Ghost(cs));
    if len == 2 && g2.len() == 1 {
        return Some(Pattern::Pair(g2[0]));
    }
    if len == 3 && g3.len() == 1 {
        return Some(Pattern::Triple(g3[0]));
    }
    if len == 4 && g4.len() == 1 {
        return Some(Pattern::Bomb(g4[0]));
    }
    if len == 4 && g3.len() == 1 {
        if g1.len() == 0 {
            // a triple and one more card: that card's rank occurs once
            proof {
                lemma_triple_plus_one_has_single(cs);
            }
            assert(false);
        }
        return Some(Pattern::TripleWithSingle(g3[0], g1[0]));
    }
    if len == 5 && g3.len() == 1 && g2.len() == 1 {
        return Some(Pattern::TripleWithPair(g3[0], g2[0]));
    }
    if len >= 5 && only_count_exec(&counts, 1, Ghost(cs)) {
        if g1.len() > 0 && is_continuous(g1.as_slice()) {
            return Some(Pattern::Straight(g1[0], len as u8));
        }
        if g1.len() == 0 {
            proof {
                lemma_nonempty_has_group(cs, 1);
            }
            assert(false);
        }
    }
    if len >= 6 && len % 2 == 0 && only_count_exec(&counts, 2, Ghost(cs)) {
        if g2.len() >= 3 && is_continuous(g2.as_slice()) {
            return Some(Pattern::PairSequence(g2[0], g2.len() as u8));
        }
    }
    if len >= 6 && len % 3 == 0 && only_count_exec(&counts, 3, Ghost(cs)) {
        if g3.len() >= 2 && is_continuous(g3.as_slice()) {
            return Some(Pattern::Airplane(g3[0], g3.len() as u8));
        }
    }
    if g3.len() >= 2 && is_continuous(g3.as_slice()) {
        let n = g3.len();
        if len == n * 4 {
            return Some(Pattern::AirplaneWithWings(g3[0], n as u8));
        }
        if len == n * 5 {
            if g2.len() == n {
                return Some(Pattern::AirplaneWithWings(g3[0], n as u8));
            }
        }
    }
    None
}

/// The rocket beats every pattern.
pub proof fn lemma_rocket_beats_all(p: Pattern)
    ensures
        spec_beats(Pattern::Rocket, p),
{
}

/// Nothing but a rocket beats a rocket.
pub proof fn lemma_only_rocket_beats_rocket(p: Pattern)
    ensures
        spec_beats(p, Pattern::Rocket) <==> p is Rocket,
{
}

/// A bomb beats every pattern that is neither a bomb nor the rocket.
pub proof fn lemma_bomb_beats_non_bomb(r: DouDizhuRank, p: Pattern)
    requires
        !(p is Bomb),
        !(p is Rocket),
    ensures
        spec_beats(Pattern::Bomb(r), p),
{
}

/// No pattern but the rocket beats itself.
pub proof fn lemma_beats_irreflexive(p: Pattern)
    requires
        !(p is Rocket),
    ensures
        !spec_beats(p, p),
{
}

/// Two patterns beat each other only when both are the rocket.
pub proof fn lemma_beats_asymmetric(a: Pattern, b: Pattern)
    requires
        spec_beats(a, b),
        spec_beats(b, a),
    ensures
        a is Rocket && b is Rocket,
{
}

/// If `a` beats `b` and `b` beats `c`, then `a` beats `c`.
pub proof fn lemma_beats_transitive(a: Pattern, b: Pattern, c: Pattern)
    requires
        spec_beats(a, b),
        spec_beats(b, c),
    ensures
        spec_beats(a, c),
{
}

/// Sum of the counts of the ranks at positions below `n`.
pub open spec fn sum_counts(cards: Seq<Card>, n: int) -> int
    decreases n,
{
    if n <= 0 {
        0
    } else {
        sum_counts(cards, n - 1) + count_rank(cards, n - 1)
    }
}

proof fn lemma_rank_idx_bounds(r: DouDizhuRank)
    ensures
        0 <= rank_idx(r) < 15,
        rank_of_idx(rank_idx(r)) == r,
{
}

proof fn lemma_sum_empty(cards: Seq<Card>, n: int)
    requires
        cards.len() == 0,
    ensures
        sum_counts(cards, n) == 0,
    decreases n,
{
    if n > 0 {
        lemma_sum_empty(cards, n - 1);
    }
}

proof fn lemma_sum_step(cards: Seq<Card>, n: int)
    requires
        cards.len() > 0,
    ensures
        sum_counts(cards, n) == sum_counts(cards.drop_last(), n) + (if 0 <= rank_idx(
            card_rank(cards.last()),
        ) < n {
            1int
        } else {
            0int
        }),
    decreases n,
{
    lemma_rank_idx_bounds(card_rank(cards.last()));
    if n > 0 {
        lemma_sum_step(cards, n - 1);
    }
}

/// The counts of all fifteen ranks add up to the number of cards.
proof fn lemma_sum_counts_len(cards: Seq<Card>)
    ensures
        sum_counts(cards, 15) == cards.len(),
    decreases cards.len(),
{
    if cards.len() == 0 {
        lemma_sum_empty(cards, 15);
    } else {
        lemma_sum_counts_len(cards.drop_last());
        lemma_sum_step(cards, 15);
        lemma_rank_idx_bounds(card_rank(cards.last()));
    }
}

proof fn lemma_sum_two(cards: Seq<Card>, n: int, a: int, b: int)
    requires
        0 <= a < n,
        0 <= b < n,
        a != b,
    ensures
        sum_counts(cards, n) >= count_rank(cards, a) + count_rank(cards, b),
    decreases n,
{
    lemma_sum_nonneg(cards, n - 1);
    if a == n - 1 {
        lemma_sum_one(cards, n - 1, b);
    } else if b == n - 1 {
        lemma_sum_one(cards, n - 1, a);
    } else {
        lemma_sum_two(cards, n - 1, a, b);
    }
}

proof fn lemma_sum_one(cards: Seq<Card>, n: int, a: int)
    requires
        0 <= a < n,
    ensures
        sum_counts(cards, n) >= count_rank(cards, a),
    decreases n,
{
    lemma_sum_nonneg(cards, n - 1);
    if a < n - 1 {
        lemma_sum_one(cards, n - 1, a);
    }
}

proof fn lemma_sum_nonneg(cards: Seq<Card>, n: int)
    ensures
        sum_counts(cards, n) >= 0,
    decreases n,
{
    if n > 0 {
        lemma_sum_nonneg(cards, n - 1);
    }
}

/// If every rank but `x` is absent, the sum is the count of `x` (when `x` is below `n`).
proof fn lemma_sum_only(cards: Seq<Card>, n: int, x: int)
    requires
        forall|r: int| 0 <= r < n && r != x ==> #[trigger] count_rank(cards, r) == 0,
    ensures
        sum_counts(cards, n) == (if 0 <= x < n {
            count_rank(cards, x) as int
        } else {
            0int
        }),
    decreases n,
{
    if n > 0 {
        lemma_sum_only(cards, n - 1, x);
    }
}

/// A rank at a position below `n` with count `k` belongs to the group, and the group
/// holds nothing else.
proof fn lemma_group_upto(cards: Seq<Card>, k: nat, n: int)
    requires
        n <= 15,
    ensures
        group_upto(cards, k, n).len() <= if n < 0 {
            0
        } else {
            n
        },
        forall|r: int|
            0 <= r < n && #[trigger] count_rank(cards, r) == k ==> group_upto(
                cards,
                k,
                n,
            ).contains(rank_of_idx(r)),
        forall|j: int|
            0 <= j < group_upto(cards, k, n).len() ==> 0 <= rank_idx(
                #[trigger] group_upto(cards, k, n)[j],
            ) < n && count_rank(cards, rank_idx(group_upto(cards, k, n)[j])) == k,
    decreases n,
{
    if n > 0 {
        lemma_group_upto(cards, k, n - 1);
        let g = group_upto(cards, k, n - 1);
        assert(rank_idx(rank_of_idx(n - 1)) == n - 1);
        if count_rank(cards, n - 1) == k {
            assert forall|r: int|
                0 <= r < n && #[trigger] count_rank(cards, r) == k implies g.push(
                rank_of_idx(n - 1),
            ).contains(rank_of_idx(r)) by {
                if r == n - 1 {
                    assert(g.push(rank_of_idx(n - 1))[g.len() as int] == rank_of_idx(r));
                } else {
                    let j = choose|j: int| 0 <= j < g.len() && g[j] == rank_of_idx(r);
                    assert(g.push(rank_of_idx(n - 1))[j] == rank_of_idx(r));
                }
            }
        }
    }
}

proof fn lemma_group_facts(cards: Seq<Card>, k: nat)
    ensures
        group(cards, k).len() <= 15,
        forall|r: int|
            0 <= r < 15 && #[trigger] count_rank(cards, r) == k ==> group(cards, k).contains(
                rank_of_idx(r),
            ),
        forall|j: int|
            0 <= j < group(cards, k).len() ==> 0 <= rank_idx(#[trigger] group(cards, k)[j]) < 15
                && count_rank(cards, rank_idx(group(cards, k)[j])) == k,
{
    lemma_group_upto(cards, k, 15);
}

/// Four cards with exactly one rank thrice hold a rank that occurs once.
proof fn lemma_triple_plus_one_has_single(cards: Seq<Card>)
    requires
        cards.len() == 4,
        group(cards, 3).len() == 1,
    ensures
        group(cards, 1).len() > 0,
{
    lemma_group_facts(cards, 3);
    lemma_group_facts(cards, 1);
    lemma_sum_counts_len(cards);
    let x = rank_idx(group(cards, 3)[0]);
    assert(count_rank(cards, x) == 3);
    if group(cards, 1).len() == 0 {
        assert forall|r: int| 0 <= r < 15 implies #[trigger] count_rank(cards, r) != 1 by {
            if count_rank(cards, r) == 1 {
                assert(group(cards, 1).contains(rank_of_idx(r)));
            }
        }
        if exists|y: int| 0 <= y < 15 && y != x && #[trigger] count_rank(cards, y) != 0 {
            let y = choose|y: int| 0 <= y < 15 && y != x && #[trigger] count_rank(cards, y) != 0;
            lemma_sum_two(cards, 15, x, y);
        } else {
            lemma_sum_only(cards, 15, x);
        }
    }
}

/// Cards that are not empty and whose ranks all occur exactly `k` times have a rank in
/// group `k`.
proof fn lemma_nonempty_has_group(cards: Seq<Card>, k: nat)
    requires
        cards.len() > 0,
        only_count(cards, k),
    ensures
        group(cards, k).len() > 0,
{
    lemma_group_facts(cards, k);
    lemma_sum_counts_len(cards);
    if group(cards, k).len() == 0 {
        assert forall|r: int| 0 <= r < 15 && r != -1 implies #[trigger] count_rank(cards, r) == 0 by {
            if count_rank(cards, r) == k {
                assert(group(cards, k).contains(rank_of_idx(r)));
            }
        }
        lemma_sum_only(cards, 15, -1);
    }
}

/// With every rank occurring exactly `k` times (or not at all), the first `n` counts add
/// up to `k` times the size of the group.
proof fn lemma_sum_only_count(cards: Seq<Card>, k: nat, n: int)
    requires
        k > 0,
        0 <= n <= 15,
        only_count(cards, k),
    ensures
        sum_counts(cards, n) == k * group_upto(cards, k, n).len(),
    decreases n,
{
    if n > 0 {
        lemma_sum_only_count(cards, k, n - 1);
        let g = group_upto(cards, k, n - 1);
        assert(count_rank(cards, n - 1) == 0 || count_rank(cards, n - 1) == k);
        assert(k * (g.len() + 1) == k * g.len() + k) by (nonlinear_arith);
    }
}

/// One step of a continuous run.
proof fn lemma_continuous_step(s: Seq<DouDizhuRank>, i: int)
    requires
        continuous(s),
        0 <= i < s.len() - 1,
    ensures
        rank_idx(s[i]) < 12,
        rank_idx(s[i + 1]) < 12,
        rank_idx(s[i + 1]) == rank_idx(s[i]) + 1,
{
    let x = rank_idx(s[i]);
    assert(0 <= i < s.len() - 1 ==> rank_idx(s[i]) < 12 && rank_idx(s[i + 1]) < 12 && rank_idx(s[i + 1])
        == rank_idx(s[i]) + 1);
}

/// The ranks of a continuous run count up one by one from the first.
#[verifier::spinoff_prover]
proof fn lemma_continuous_at(s: Seq<DouDizhuRank>, i: int)
    requires
        continuous(s),
        0 <= i < s.len(),
    ensures
        rank_idx(s[i]) == rank_idx(s[0]) + i,
    decreases i,
{
    if i > 0 {
        lemma_continuous_at(s, i - 1);
        lemma_continuous_step(s, i - 1);
    }
}

/// A continuous run of two ranks or more stays below Two.
#[verifier::spinoff_prover]
proof fn lemma_continuous_span(s: Seq<DouDizhuRank>)
    requires
        continuous(s),
        s.len() >= 2,
    ensures
        rank_idx(s[0]) + s.len() <= 12,
{
    lemma_continuous_at(s, s.len() - 1);
    lemma_continuous_step(s, s.len() - 2);
}

/// How many cards a pattern takes, and, for the runs, that the run of ranks lies below
/// Two: a single 1, a pair or the rocket 2, a triple 3, a bomb or a triple with a single
/// 4, a triple with a pair 5, a straight of `l` ranks `l` (5 or more), a sequence of `l`
/// pairs `2l` (3 or more pairs), an airplane of `l` triples `3l`, an airplane of `l`
/// triples with wings `4l` or `5l` (2 or more triples).
pub open spec fn fits_size(p: Pattern, len: nat) -> bool {
    match p {
        Pattern::Single(_) => len == 1,
        Pattern::Pair(_) => len == 2,
        Pattern::Rocket => len == 2,
        Pattern::Triple(_) => len == 3,
        Pattern::Bomb(_) => len == 4,
        Pattern::TripleWithSingle(_, _) => len == 4,
        Pattern::TripleWithPair(_, _) => len == 5,
        Pattern::Straight(r, l) => len == l && l >= 5 && rank_idx(r) + l <= 12,
        Pattern::PairSequence(r, l) => len == 2 * l && l >= 3 && rank_idx(r) + l <= 12,
        Pattern::Airplane(r, l) => len == 3 * l && l >= 2 && rank_idx(r) + l <= 12,
        Pattern::AirplaneWithWings(r, l) => (len == 4 * l || len == 5 * l) && l >= 2 && rank_idx(r) + l
            <= 12,
    }
}

/// A pattern always takes as many cards as its kind says, and its runs lie below Two.
pub proof fn lemma_pattern_size(cards: Seq<Card>)
    ensures
        pattern_of(cards) matches Some(p) ==> fits_size(p, cards.len()),
{
    let len = cards.len();
    let g1 = group(cards, 1);
    let g2 = group(cards, 2);
    let g3 = group(cards, 3);
    lemma_sum_counts_len(cards);
    if pattern_of(cards) is Some {
        let p = pattern_of(cards)->0;
        if p is Straight {
            lemma_sum_only_count(cards, 1, 15);
            lemma_continuous_span(g1);
        } else if p is PairSequence {
            lemma_sum_only_count(cards, 2, 15);
            lemma_continuous_span(g2);
        } else if p is Airplane {
            lemma_sum_only_count(cards, 3, 15);
            lemma_continuous_span(g3);
        } else if p is AirplaneWithWings {
            lemma_continuous_span(g3);
        }
    }
}

/// The ranks of the cards, in order.
pub open spec fn ranks_of(cards: Seq<Card>) -> Seq<DouDizhuRank> {
    cards.map_values(|c: Card| card_rank(c))
}

/// The count of a rank among the cards is its count in the multiset of their ranks.
proof fn lemma_count_rank_multiset(cards: Seq<Card>, r: int)
    requires
        0 <= r < 15,
    ensures
        count_rank(cards, r) == ranks_of(cards).to_multiset().count(rank_of_idx(r)),
    decreases cards.len(),
{
    broadcast use vstd::multiset::group_multiset_axioms;

    let rs = ranks_of(cards);
    rs.to_multiset_ensures();
    assert(rank_idx(rank_of_idx(r)) == r);
    if cards.len() == 0 {
        assert(!rs.contains(rank_of_idx(r)));
    } else {
        let d = cards.drop_last();
        lemma_count_rank_multiset(d, r);
        assert(rs =~= ranks_of(d).push(card_rank(cards.last())));
        ranks_of(d).to_multiset_ensures();
        lemma_rank_idx_bounds(card_rank(cards.last()));
    }
}

/// Groups are the same for cards with the same counts.
proof fn lemma_group_same(a: Seq<Card>, b: Seq<Card>, k: nat, n: int)
    requires
        n <= 15,
        forall|r: int| 0 <= r < 15 ==> #[trigger] count_rank(a, r) == count_rank(b, r),
    ensures
        group_upto(a, k, n) == group_upto(b, k, n),
    decreases n,
{
    if n > 0 {
        lemma_group_same(a, b, k, n - 1);
        assert(count_rank(a, n - 1) == count_rank(b, n - 1));
    }
}

/// The pattern of a set of cards depends only on their ranks, however many of each,
/// not on the cards' order or suits.
pub proof fn lemma_pattern_depends_on_ranks(a: Seq<Card>, b: Seq<Card>)
    requires
        ranks_of(a).to_multiset() == ranks_of(b).to_multiset(),
    ensures
        pattern_of(a) == pattern_of(b),
{
    broadcast use vstd::multiset::group_multiset_axioms;

    ranks_of(a).to_multiset_ensures();
    ranks_of(b).to_multiset_ensures();
    assert(a.len() == b.len());
    assert forall|r: int| 0 <= r < 15 implies #[trigger] count_rank(a, r) == count_rank(b, r) by {
        lemma_count_rank_multiset(a, r);
        lemma_count_rank_multiset(b, r);
    }
    lemma_group_same(a, b, 1, 15);
    lemma_group_same(a, b, 2, 15);
    lemma_group_same(a, b, 3, 15);
    lemma_group_same(a, b, 4, 15);
    assert forall|k: nat| only_count(a, k) == only_count(b, k) by {
        if only_count(a, k) {
            assert forall|i: int| 0 <= i < 15 implies #[trigger] count_rank(b, i) == 0 || count_rank(b, i) == k by {
                assert(count_rank(a, i) == count_rank(b, i));
            }
        }
        if only_count(b, k) {
            assert forall|i: int| 0 <= i < 15 implies #[trigger] count_rank(a, i) == 0 || count_rank(a, i) == k by {
                assert(count_rank(a, i) == count_rank(b, i));
            }
        }
    }
    assert(count_rank(a, 13) == count_rank(b, 13));
    assert(count_rank(a, 14) == count_rank(b, 14));
    if a.len() == 1 {
        let x = card_rank(a[0]);
        assert(ranks_of(a)[0] == x);
        assert(ranks_of(a).contains(x));
        assert(ranks_of(a).to_multiset().count(x) > 0);
        assert(ranks_of(b).to_multiset().count(x) > 0);
        assert(ranks_of(b).contains(x));
        assert(card_rank(b[0]) == x);
    }
}

/// Runs compare only at equal length, and a play that is neither a bomb nor the rocket
/// beats only a play of its own kind: a straight beats only a straight of as many ranks,
/// a pair sequence only one of as many pairs, an airplane (with or without wings) only
/// one of as many triples.
pub proof fn lemma_runs_compare_at_equal_length(a: Pattern, b: Pattern)
    ensures
        spec_beats(a, b) && a is Straight && b is Straight ==> a->Straight_1 == b->Straight_1,
        spec_beats(a, b) && a is PairSequence && b is PairSequence ==> a->PairSequence_1
            == b->PairSequence_1,
        spec_beats(a, b) && a is Airplane && b is Airplane ==> a->Airplane_1 == b->Airplane_1,
        spec_beats(a, b) && a is AirplaneWithWings && b is AirplaneWithWings ==> a->AirplaneWithWings_1
            == b->AirplaneWithWings_1,
        spec_beats(a, b) && a is Straight ==> b is Straight,
        spec_beats(a, b) && a is PairSequence ==> b is PairSequence,
        spec_beats(a, b) && a is Airplane ==> b is Airplane,
        spec_beats(a, b) && a is AirplaneWithWings ==> b is AirplaneWithWings,
{
}

/// Ranks that all occur exactly `k` times, with at least one rank, do not all occur
/// exactly `j` times for another `j`.
proof fn lemma_only_one_count(cards: Seq<Card>, k: nat, j: nat)
    requires
        only_count(cards, k),
        group(cards, k).len() > 0,
        k > 0,
        j != k,
    ensures
        !only_count(cards, j),
{
    lemma_group_facts(cards, k);
    let x = rank_idx(group(cards, k)[0]);
    assert(count_rank(cards, x) == k);
}

/// Cards that are a run of five or more ranks below Two, one card each, form a straight
/// from the lowest rank, as long as the run.
#[verifier::spinoff_prover]
pub proof fn lemma_run_of_singles_is_straight(cards: Seq<Card>)
    requires
        only_count(cards, 1),
        group(cards, 1).len() >= 5,
        continuous(group(cards, 1)),
    ensures
        pattern_of(cards) == Some(Pattern::Straight(group(cards, 1)[0], group(cards, 1).len() as u8)),
{
    lemma_sum_counts_len(cards);
    lemma_sum_only_count(cards, 1, 15);
    lemma_only_one_count(cards, 1, 3);
    lemma_only_one_count(cards, 1, 2);
    lemma_only_one_count(cards, 1, 4);
    lemma_group_facts(cards, 3);
    lemma_group_facts(cards, 2);
    lemma_group_facts(cards, 4);
    assert(group(cards, 3).len() == 0) by {
        if group(cards, 3).len() > 0 {
            let x = rank_idx(group(cards, 3)[0]);
            assert(count_rank(cards, x) == 3);
        }
    }
    assert(group(cards, 4).len() == 0) by {
        if group(cards, 4).len() > 0 {
            let x = rank_idx(group(cards, 4)[0]);
            assert(count_rank(cards, x) == 4);
        }
    }
    assert(group(cards, 2).len() == 0) by {
        if group(cards, 2).len() > 0 {
            let x = rank_idx(group(cards, 2)[0]);
            assert(count_rank(cards, x) == 2);
        }
    }
    assert(count_rank(cards, 13) <= 1 && count_rank(cards, 14) <= 1);
}

/// Cards that are a run of three or more ranks below Two, two cards each, form a pair
/// sequence from the lowest rank, as long as the run.
#[verifier::spinoff_prover]
#[verifier::rlimit(40)]
pub proof fn lemma_run_of_pairs_is_pair_sequence(cards: Seq<Card>)
    requires
        only_count(cards, 2),
        group(cards, 2).len() >= 3,
        continuous(group(cards, 2)),
    ensures
        pattern_of(cards) == Some(Pattern::PairSequence(group(cards, 2)[0], group(cards, 2).len() as u8)),
{
    lemma_sum_counts_len(cards);
    lemma_sum_only_count(cards, 2, 15);
    lemma_only_one_count(cards, 2, 1);
    let n = group(cards, 2).len();
    assert(cards.len() == 2 * n);
    assert(cards.len() >= 6 && cards.len() % 2 == 0);
    assert(!only_count(cards, 1));
    lemma_group_facts(cards, 3);
    lemma_group_facts(cards, 4);
    assert(group(cards, 3).len() == 0) by {
        if group(cards, 3).len() > 0 {
            let x = rank_idx(group(cards, 3)[0]);
            assert(count_rank(cards, x) == 3);
        }
    }
    assert(group(cards, 4).len() == 0) by {
        if group(cards, 4).len() > 0 {
            let x = rank_idx(group(cards, 4)[0]);
            assert(count_rank(cards, x) == 4);
        }
    }
}

/// Cards that are a run of two or more ranks below Two, three cards each, form an
/// airplane from the lowest rank, as long as the run.
#[verifier::spinoff_prover]
pub proof fn lemma_run_of_triples_is_airplane(cards: Seq<Card>)
    requires
        only_count(cards, 3),
        group(cards, 3).len() >= 2,
        continuous(group(cards, 3)),
    ensures
        pattern_of(cards) == Some(Pattern::Airplane(group(cards, 3)[0], group(cards, 3).len() as u8)),
{
    lemma_sum_counts_len(cards);
    lemma_sum_only_count(cards, 3, 15);
    lemma_only_one_count(cards, 3, 1);
    lemma_only_one_count(cards, 3, 2);
    lemma_group_facts(cards, 4);
    lemma_group_facts(cards, 2);
    assert(group(cards, 4).len() == 0) by {
        if group(cards, 4).len() > 0 {
            let x = rank_idx(group(cards, 4)[0]);
            assert(count_rank(cards, x) == 4);
        }
    }
    assert(group(cards, 2).len() == 0) by {
        if group(cards, 2).len() > 0 {
            let x = rank_idx(group(cards, 2)[0]);
            assert(count_rank(cards, x) == 2);
        }
    }
    let n = group(cards, 3).len();
    assert(cards.len() == 3 * n);
    assert(cards.len() % 3 == 0);
}

} // verus!
