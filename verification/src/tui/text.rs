//! Text helpers of the terminal client: editing a field, shortening ids, and writing
//! cards briefly.

use vstd::prelude::*;
use crate::poker::{Card, Rank, Suit};

verus! {

/// Appends a character, by `String::push`.
#[verifier::external_body]
pub(crate) fn push_char(s: &mut String, c: char)
    ensures
        final(s)@ == old(s)@.push(c),
{
    s.push(c);
}

/// Removes and returns the last character, by `String::pop`; None on an empty text.
#[verifier::external_body]
pub(crate) fn pop_char(s: &mut String) -> (r: Option<char>)
    ensures
        old(s)@.len() == 0 ==> r is None && final(s)@ == old(s)@,
        old(s)@.len() > 0 ==> r == Some(old(s)@.last()) && final(s)@ == old(s)@.drop_last(),
{
    s.pop()
}

/// What `str::trim` leaves of a text: the text without its leading and trailing white
/// space, as Unicode defines white space.
pub uninterp spec fn trimmed(s: Seq<char>) -> Seq<char>;

/// The text without leading and trailing white space, by `str::trim`.
#[verifier::external_body]
pub(crate) fn trim_text(s: &str) -> (r: &str)
    ensures
        r@ == trimmed(s@),
{
    s.trim()
}

/// An id as shown in lists: up to 16 characters as it is, else its first 8 characters,
/// "..", and its last 6.
pub open spec fn short_id(s: Seq<char>) -> Seq<char> {
    if s.len() <= 16 {
        s
    } else {
        s.subrange(0, 8) + seq!['.', '.'] + s.subrange(s.len() - 6, s.len() as int)
    }
}

/// The id as shown in lists.
pub fn truncate_user_id(user_id: &str) -> (r: String)
    requires
        user_id.is_ascii(),
    ensures
        r@ == short_id(user_id@),
{
    let n = user_id.unicode_len();
    if n <= 16 {
        return String::from_str(user_id);
    }
    let start = user_id.substring_ascii(0, 8);
    let end = user_id.substring_ascii(n - 6, n);
    let mut r = String::from_str(start);
    r.append("..");
    r.append(end);
    proof {
        reveal_strlit("..");
        assert(r@ =~= short_id(user_id@));
    }
    r
}

/// The suit sign of a card.
pub open spec fn suit_sign(s: Suit) -> Seq<char> {
    match s {
        Suit::Spades => seq!['\u{2660}'],
        Suit::Hearts => seq!['\u{2665}'],
        Suit::Diamonds => seq!['\u{2666}'],
        Suit::Clubs => seq!['\u{2663}'],
    }
}

/// The rank of a card, as written.
pub open spec fn rank_text(r: Rank) -> Seq<char> {
    match r {
        Rank::Two => seq!['2'],
        Rank::Three => seq!['3'],
        Rank::Four => seq!['4'],
        Rank::Five => seq!['5'],
        Rank::Six => seq!['6'],
        Rank::Seven => seq!['7'],
        Rank::Eight => seq!['8'],
        Rank::Nine => seq!['9'],
        Rank::Ten => seq!['1', '0'],
        Rank::Jack => seq!['J'],
        Rank::Queen => seq!['Q'],
        Rank::King => seq!['K'],
        Rank::Ace => seq!['A'],
    }
}

/// A card written briefly: suit sign then rank; "RJ", "BJ" and "WC" for the jokers and
/// the wild card.
pub open spec fn card_short(c: Card) -> Seq<char> {
    match c {
        Card::NaturalCard(nc) => suit_sign(nc.suit) + rank_text(nc.rank),
        Card::RedJoker => seq!['R', 'J'],
        Card::BlackJoker => seq!['B', 'J'],
        Card::WildCard => seq!['W', 'C'],
    }
}

/// Cards written briefly, separated by single spaces.
pub open spec fn cards_short(cs: Seq<Card>) -> Seq<char>
    decreases cs.len(),
{
    if cs.len() == 0 {
        seq![]
    } else if cs.len() == 1 {
        card_short(cs[0])
    } else {
        cards_short(cs.drop_last()) + seq![' '] + card_short(cs.last())
    }
}

/// A text of the given characters.
fn text_of(cs: &[char]) -> (r: String)
    ensures
        r@ == cs@,
{
    let mut r = String::new();
    let n = cs.len();
    for i in 0..n
        invariant
            n == cs@.len(),
            r@ == cs@.take(i as int),
    {
        push_char(&mut r, cs[i]);
        assert(cs@.take(i + 1) =~= cs@.take(i as int).push(cs@[i as int]));
    }
    assert(cs@.take(n as int) =~= cs@);
    r
}

/// The card written briefly.
pub fn card_to_short_string(card: &Card) -> (r: String)
    ensures
        r@ == card_short(*card),
{
    match card {
        Card::NaturalCard(nc) => {
            let suit = match nc.suit {
                Suit::Spades => '\u{2660}',
                Suit::Hearts => '\u{2665}',
                Suit::Diamonds => '\u{2666}',
                Suit::Clubs => '\u{2663}',
            };
            let mut r = String::new();
            push_char(&mut r, suit);
            match nc.rank {
                Rank::Two => push_char(&mut r, '2'),
                Rank::Three => push_char(&mut r, '3'),
                Rank::Four => push_char(&mut r, '4'),
                Rank::Five => push_char(&mut r, '5'),
                Rank::Six => push_char(&mut r, '6'),
                Rank::Seven => push_char(&mut r, '7'),
                Rank::Eight => push_char(&mut r, '8'),
                Rank::Nine => push_char(&mut r, '9'),
                Rank::Ten => {
                    push_char(&mut r, '1');
                    push_char(&mut r, '0');
                },
                Rank::Jack => push_char(&mut r, 'J'),
                Rank::Queen => push_char(&mut r, 'Q'),
                Rank::King => push_char(&mut r, 'K'),
                Rank::Ace => push_char(&mut r, 'A'),
            }
            assert(r@ =~= card_short(*card));
            r
        },
        Card::RedJoker => text_of(&['R', 'J']),
        Card::BlackJoker => text_of(&['B', 'J']),
        Card::WildCard => text_of(&['W', 'C']),
    }
}

/// The cards written briefly, separated by single spaces.
pub fn cards_to_string(cards: &[Card]) -> (r: String)
    ensures
        r@ == cards_short(cards@),
{
    let mut r = String::new();
    let n = cards.len();
    for i in 0..n
        invariant
            n == cards@.len(),
            r@ == cards_short(cards@.take(i as int)),
    {
        let c = card_to_short_string(&cards[i]);
        let ghost before = r@;
        if i > 0 {
            push_char(&mut r, ' ');
        }
        r.append(c.as_str());
        proof {
            let t = cards@.take(i + 1);
            assert(t.drop_last() =~= cards@.take(i as int));
            assert(t.last() == cards@[i as int]);
            if i == 0 {
                assert(r@ =~= cards_short(t));
            } else {
                assert(r@ =~= cards_short(t));
            }
        }
    }
    assert(cards@.take(n as int) =~= cards@);
    r
}

} // verus!
