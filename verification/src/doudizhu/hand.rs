//! Operations on a hand of cards: taking played cards out and keeping it sorted.

use vstd::prelude::*;
use crate::poker::Card;
use crate::doudizhu::pattern::{DouDizhuRank, card_rank, rank_idx, no_wild};

verus! {

broadcast use vstd::seq_lib::group_to_multiset_ensures;

/// `j` is the first position of `c` in `s`.
pub open spec fn is_first_index(s: Seq<Card>, c: Card, j: int) -> bool {
    &&& 0 <= j < s.len()
    &&& s[j] == c
    &&& forall|k: int| 0 <= k < j ==> s[k] != c
}

/// The hand left after taking out each played card in turn (its first occurrence), or
/// `None` when some played card is not in what is left of the hand.
pub open spec fn remove_cards(hand: Seq<Card>, cards: Seq<Card>) -> Option<Seq<Card>>
    decreases cards.len(),
{
    if cards.len() == 0 {
        Some(hand)
    } else if exists|j: int| is_first_index(hand, cards[0], j) {
        remove_cards(
            hand.remove(choose|j: int| is_first_index(hand, cards[0], j)),
            cards.drop_first(),
        )
    } else {
        None
    }
}

/// `c` placed into `s` after every card of at least its rank.
pub open spec fn insert_desc(s: Seq<Card>, c: Card) -> Seq<Card>
    decreases s.len(),
{
    if s.len() == 0 {
        seq![c]
    } else if rank_idx(card_rank(s[0])) < rank_idx(card_rank(c)) {
        seq![c] + s
    } else {
        seq![s[0]] + insert_desc(s.drop_first(), c)
    }
}

/// The cards ordered from the highest rank to the lowest; cards of equal rank keep their
/// order (a stable sort).
pub open spec fn sort_desc(s: Seq<Card>) -> Seq<Card>
    decreases s.len(),
{
    if s.len() == 0 {
        s
    } else {
        insert_desc(sort_desc(s.drop_last()), s.last())
    }
}

/// Every card ranks at least as high as every card after it.
pub open spec fn sorted_desc(s: Seq<Card>) -> bool {
    forall|a: int, b: int|
        0 <= a < b < s.len() ==> rank_idx(card_rank(#[trigger] s[a])) >= rank_idx(
            card_rank(#[trigger] s[b]),
        )
}

/// A copy of the cards.
pub fn copy_cards(cards: &Vec<Card>) -> (r: Vec<Card>)
    ensures
        r@ == cards@,
{
    let mut r: Vec<Card> = Vec::new();
    let n = cards.len();
    for i in 0..n
        invariant
            n == cards@.len(),
            r@ == cards@.take(i as int),
    {
        r.push(cards[i]);
        assert(cards@.take(i + 1) =~= cards@.take(i as int).push(cards@[i as int]));
    }
    assert(cards@.take(n as int) =~= cards@);
    r
}

/// The first position of `c` in `s`, if any.
pub fn find_card(s: &Vec<Card>, c: Card) -> (r: Option<usize>)
    ensures
        r matches Some(j) ==> is_first_index(s@, c, j as int),
        r is None ==> !exists|j: int| is_first_index(s@, c, j),
        r is None ==> forall|k: int| 0 <= k < s@.len() ==> s@[k] != c,
{
    let n = s.len();
    for i in 0..n
        invariant
            n == s@.len(),
            forall|k: int| 0 <= k < i ==> s@[k] != c,
    {
        if s[i] == c {
            return Some(i);
        }
    }
    None
}

proof fn lemma_first_index_unique(s: Seq<Card>, c: Card, j1: int, j2: int)
    requires
        is_first_index(s, c, j1),
        is_first_index(s, c, j2),
    ensures
        j1 == j2,
{
}

/// The hand with the played cards taken out, or `None` if the hand lacks one of them.
pub fn take_cards(hand: &Vec<Card>, cards: &Vec<Card>) -> (r: Option<Vec<Card>>)
    ensures
        r matches Some(v) ==> remove_cards(hand@, cards@) == Some(v@),
        r is None ==> remove_cards(hand@, cards@) is None,
{
    let mut temp = copy_cards(hand);
    let n = cards.len();
    assert(cards@.skip(0) =~= cards@);
    for i in 0..n
        invariant
            n == cards@.len(),
            remove_cards(hand@, cards@) == remove_cards(temp@, cards@.skip(i as int)),
    {
        let c = cards[i];
        let ghost rest = cards@.skip(i as int);
        assert(rest[0] == c);
        assert(rest.drop_first() =~= cards@.skip(i + 1));
        match find_card(&temp, c) {
            Some(pos) => {
                proof {
                    let j = choose|j: int| is_first_index(temp@, rest[0], j);
                    lemma_first_index_unique(temp@, c, j, pos as int);
                }
                temp.remove(pos);
            },
            None => {
                return None;
            },
        }
    }
    assert(cards@.skip(n as int).len() == 0);
    Some(temp)
}

proof fn lemma_insert_desc_at(s: Seq<Card>, c: Card, p: int)
    requires
        0 <= p <= s.len(),
        forall|q: int| 0 <= q < p ==> rank_idx(card_rank(#[trigger] s[q])) >= rank_idx(card_rank(c)),
        p < s.len() ==> rank_idx(card_rank(s[p])) < rank_idx(card_rank(c)),
    ensures
        insert_desc(s, c) == s.insert(p, c),
    decreases s.len(),
{
    if s.len() == 0 {
        assert(s.insert(p, c) =~= seq![c]);
    } else if p == 0 {
        assert(s.insert(p, c) =~= seq![c] + s);
    } else {
        let t = s.drop_first();
        assert forall|q: int| 0 <= q < p - 1 implies rank_idx(card_rank(#[trigger] t[q])) >= rank_idx(
            card_rank(c),
        ) by {
            assert(t[q] == s[q + 1]);
        }
        lemma_insert_desc_at(t, c, p - 1);
        assert(seq![s[0]] + t.insert(p - 1, c) =~= s.insert(p, c));
    }
}

proof fn lemma_insert_desc_multiset(s: Seq<Card>, c: Card)
    ensures
        insert_desc(s, c).to_multiset() == s.to_multiset().insert(c),
    decreases s.len(),
{
    broadcast use vstd::seq_lib::lemma_multiset_commutative;
    broadcast use vstd::multiset::group_multiset_axioms;

    if s.len() == 0 {
        assert(insert_desc(s, c) =~= s.push(c));
    } else if rank_idx(card_rank(s[0])) < rank_idx(card_rank(c)) {
        assert(seq![c] + s =~= s.insert(0, c));
    } else {
        lemma_insert_desc_multiset(s.drop_first(), c);
        assert(s =~= seq![s[0]] + s.drop_first());
        assert((seq![s[0]] + insert_desc(s.drop_first(), c)).to_multiset() =~= seq![s[0]].to_multiset().add(
            insert_desc(s.drop_first(), c).to_multiset(),
        ));
        assert(s.to_multiset() =~= seq![s[0]].to_multiset().add(s.drop_first().to_multiset()));
    }
}

proof fn lemma_insert_desc_sorted(s: Seq<Card>, c: Card)
    requires
        sorted_desc(s),
    ensures
        sorted_desc(insert_desc(s, c)),
        insert_desc(s, c).len() == s.len() + 1,
    decreases s.len(),
{
    if s.len() == 0 {
    } else if rank_idx(card_rank(s[0])) < rank_idx(card_rank(c)) {
        let r = seq![c] + s;
        assert forall|a: int, b: int| 0 <= a < b < r.len() implies rank_idx(
            card_rank(#[trigger] r[a]),
        ) >= rank_idx(card_rank(#[trigger] r[b])) by {
            if a == 0 {
                assert(r[b] == s[b - 1]);
                if b - 1 > 0 {
                    assert(rank_idx(card_rank(s[0])) >= rank_idx(card_rank(s[b - 1])));
                }
            } else {
                assert(r[a] == s[a - 1] && r[b] == s[b - 1]);
            }
        }
    } else {
        let t = s.drop_first();
        assert(sorted_desc(t)) by {
            assert forall|a: int, b: int| 0 <= a < b < t.len() implies rank_idx(
                card_rank(#[trigger] t[a]),
            ) >= rank_idx(card_rank(#[trigger] t[b])) by {
                assert(t[a] == s[a + 1] && t[b] == s[b + 1]);
            }
        }
        lemma_insert_desc_sorted(t, c);
        lemma_insert_desc_multiset(t, c);
        let it = insert_desc(t, c);
        let r = seq![s[0]] + it;
        assert forall|a: int, b: int| 0 <= a < b < r.len() implies rank_idx(
            card_rank(#[trigger] r[a]),
        ) >= rank_idx(card_rank(#[trigger] r[b])) by {
            if a == 0 {
                assert(r[b] == it[b - 1]);
                // every card of `it` is `c` or a card of `t`
                assert(it.to_multiset().count(it[b - 1]) > 0);
                assert(it.to_multiset() == t.to_multiset().insert(c));
                if it[b - 1] != c {
                    assert(t.to_multiset().count(it[b - 1]) > 0);
                    assert(t.contains(it[b - 1]));
                    let k = choose|k: int| 0 <= k < t.len() && t[k] == it[b - 1];
                    assert(s[k + 1] == t[k]);
                }
            } else {
                assert(r[a] == it[a - 1] && r[b] == it[b - 1]);
            }
        }
    }
}

/// Sorting keeps the same cards, and its result is sorted.
pub proof fn lemma_sort_desc(s: Seq<Card>)
    ensures
        sort_desc(s).to_multiset() == s.to_multiset(),
        sorted_desc(sort_desc(s)),
        sort_desc(s).len() == s.len(),
    decreases s.len(),
{
    if s.len() > 0 {
        lemma_sort_desc(s.drop_last());
        lemma_insert_desc_multiset(sort_desc(s.drop_last()), s.last());
        lemma_insert_desc_sorted(sort_desc(s.drop_last()), s.last());
        assert(s =~= s.drop_last().push(s.last()));
    }
}

/// Cards with the same multiset as cards without a wild card have no wild card either.
pub proof fn lemma_no_wild_multiset(a: Seq<Card>, b: Seq<Card>)
    requires
        a.to_multiset() == b.to_multiset(),
        no_wild(b),
    ensures
        no_wild(a),
{
    assert forall|i: int| 0 <= i < a.len() implies !(#[trigger] a[i] is WildCard) by {
        assert(a.to_multiset().count(a[i]) > 0);
        assert(b.contains(a[i]));
    }
}

/// The cards sorted from the highest rank to the lowest, stably.
pub fn sort_cards_desc(cards: &Vec<Card>) -> (r: Vec<Card>)
    requires
        no_wild(cards@),
    ensures
        r@ == sort_desc(cards@),
{
    let mut out: Vec<Card> = Vec::new();
    let n = cards.len();
    for i in 0..n
        invariant
            n == cards@.len(),
            no_wild(cards@),
            out@ == sort_desc(cards@.take(i as int)),
            no_wild(out@),
    {
        let c = cards[i];
        assert(!(cards@[i as int] is WildCard));
        let k = DouDizhuRank::from_card(&c).index();
        let mut p: usize = 0;
        while p < out.len() && DouDizhuRank::from_card(&out[p]).index() >= k
            invariant
                p <= out@.len(),
                no_wild(out@),
                k == rank_idx(card_rank(c)),
                forall|q: int| 0 <= q < p ==> rank_idx(card_rank(#[trigger] out@[q])) >= k,
            decreases out@.len() - p,
        {
            p = p + 1;
        }
        let ghost before = out@;
        proof {
            lemma_insert_desc_at(before, c, p as int);
            assert(cards@.take(i + 1).drop_last() =~= cards@.take(i as int));
            assert(cards@.take(i + 1).last() == c);
        }
        out.insert(p, c);
        proof {
            assert forall|q: int| 0 <= q < out@.len() implies !(#[trigger] out@[q] is WildCard) by {
                if q < p {
                    assert(out@[q] == before[q]);
                } else if q > p {
                    assert(out@[q] == before[q - 1]);
                }
            }
        }
    }
    assert(cards@.take(n as int) =~= cards@);
    out
}

} // verus!

verus! {

/// Taking cards out of a hand without wild cards leaves a hand without wild cards, one
/// card shorter for each card taken.
pub proof fn lemma_remove_cards_no_wild(hand: Seq<Card>, cards: Seq<Card>)
    requires
        no_wild(hand),
        remove_cards(hand, cards) is Some,
    ensures
        no_wild(remove_cards(hand, cards).unwrap()),
        remove_cards(hand, cards).unwrap().len() + cards.len() == hand.len(),
    decreases cards.len(),
{
    if cards.len() > 0 {
        let j = choose|j: int| is_first_index(hand, cards[0], j);
        let h2 = hand.remove(j);
        assert forall|i: int| 0 <= i < h2.len() implies !(#[trigger] h2[i] is WildCard) by {
            if i < j {
                assert(h2[i] == hand[i]);
            } else {
                assert(h2[i] == hand[i + 1]);
            }
        }
        lemma_remove_cards_no_wild(h2, cards.drop_first());
    }
}

} // verus!
