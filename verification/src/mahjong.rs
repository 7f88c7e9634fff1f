//! Mahjong tiles: winds, dragons, suits and numbers, and the tile faces of the Unicode
//! Mahjong Tiles block (U+1F000 on), numbered by their offset in the block.

use vstd::prelude::*;

verus! {

/// A wind, in seat order.
#[derive(Debug, PartialEq, Eq, Clone, Copy, Structural)]
pub enum Wind {
    East,
    South,
    West,
    North,
}

/// The seat number of a wind: East 0, South 1, West 2, North 3.
pub open spec fn wind_index(w: Wind) -> nat {
    match w {
        Wind::East => 0,
        Wind::South => 1,
        Wind::West => 2,
        Wind::North => 3,
    }
}

/// The wind of a seat number.
pub open spec fn wind_at(i: nat) -> Wind {
    if i % 4 == 0 {
        Wind::East
    } else if i % 4 == 1 {
        Wind::South
    } else if i % 4 == 2 {
        Wind::West
    } else {
        Wind::North
    }
}

impl Wind {
    /// The wind of seat `idx`, counted round the table.
    pub fn from_index(idx: usize) -> (w: Wind)
        ensures
            w == wind_at(idx as nat),
    {
        let r = idx % 4;
        if r == 0 {
            Wind::East
        } else if r == 1 {
            Wind::South
        } else if r == 2 {
            Wind::West
        } else {
            Wind::North
        }
    }

    /// The seat number of the wind.
    pub fn as_index(&self) -> (i: usize)
        ensures
            i == wind_index(*self),
    {
        match self {
            Wind::East => 0,
            Wind::South => 1,
            Wind::West => 2,
            Wind::North => 3,
        }
    }

    /// The four winds in seat order.
    pub fn enumerate() -> (a: [Wind; 4])
        ensures
            a@ == seq![Wind::East, Wind::South, Wind::West, Wind::North],
    {
        let a = [Wind::East, Wind::South, Wind::West, Wind::North];
        assert(a@ =~= seq![Wind::East, Wind::South, Wind::West, Wind::North]);
        a
    }

    /// The four winds in seat order, starting with this one.
    pub fn iter_from(self) -> (a: [Wind; 4])
        ensures
            a@ == seq![self, self.spec_next(), self.spec_next().spec_next(), self.spec_next().spec_next().spec_next()],
    {
        let a = match self {
            Wind::East => [Wind::East, Wind::South, Wind::West, Wind::North],
            Wind::South => [Wind::South, Wind::West, Wind::North, Wind::East],
            Wind::West => [Wind::West, Wind::North, Wind::East, Wind::South],
            Wind::North => [Wind::North, Wind::East, Wind::South, Wind::West],
        };
        assert(a@ =~= seq![self, self.spec_next(), self.spec_next().spec_next(), self.spec_next().spec_next().spec_next()]);
        a
    }

    /// The wind of the next seat.
    pub open spec fn spec_next(self) -> Wind {
        wind_at(wind_index(self) + 1)
    }

    /// The wind of the next seat.
    pub fn next(self) -> (w: Wind)
        ensures
            w == self.spec_next(),
    {
        match self {
            Wind::East => Wind::South,
            Wind::South => Wind::West,
            Wind::West => Wind::North,
            Wind::North => Wind::East,
        }
    }
}

/// A wind is the wind of its own seat number.
pub proof fn lemma_wind_index_roundtrip(w: Wind, i: nat)
    ensures
        wind_at(wind_index(w)) == w,
        wind_index(wind_at(i)) == i % 4,
{
}

/// Going round the table four seats comes back to the same wind.
pub proof fn lemma_wind_next_cycle(w: Wind)
    ensures
        w.spec_next().spec_next().spec_next().spec_next() == w,
        w.spec_next() != w,
{
}

/// The number of a suit tile, one to nine.
#[derive(Debug, PartialEq, Eq, Clone, Copy, Structural)]
pub enum Num {
    N1,
    N2,
    N3,
    N4,
    N5,
    N6,
    N7,
    N8,
    N9,
}

/// The value of a number.
pub open spec fn num_value(n: Num) -> nat {
    match n {
        Num::N1 => 1,
        Num::N2 => 2,
        Num::N3 => 3,
        Num::N4 => 4,
        Num::N5 => 5,
        Num::N6 => 6,
        Num::N7 => 7,
        Num::N8 => 8,
        Num::N9 => 9,
    }
}

/// The number of value `v`, from one to nine.
pub open spec fn num_of(v: nat) -> Num
    recommends
        1 <= v <= 9,
{
    if v == 1 {
        Num::N1
    } else if v == 2 {
        Num::N2
    } else if v == 3 {
        Num::N3
    } else if v == 4 {
        Num::N4
    } else if v == 5 {
        Num::N5
    } else if v == 6 {
        Num::N6
    } else if v == 7 {
        Num::N7
    } else if v == 8 {
        Num::N8
    } else {
        Num::N9
    }
}

impl Num {
    /// The value of the number.
    pub fn value(self) -> (v: u8)
        ensures
            v == num_value(self),
    {
        match self {
            Num::N1 => 1,
            Num::N2 => 2,
            Num::N3 => 3,
            Num::N4 => 4,
            Num::N5 => 5,
            Num::N6 => 6,
            Num::N7 => 7,
            Num::N8 => 8,
            Num::N9 => 9,
        }
    }

    /// The number of value `n`, or None when `n` is not one to nine.
    pub fn try_from_u8(n: u8) -> (r: Option<Num>)
        ensures
            1 <= n <= 9 ==> r == Some(num_of(n as nat)),
            !(1 <= n <= 9) ==> r is None,
    {
        if 1 <= n && n <= 9 {
            Some(Num::const_from_u8(n))
        } else {
            None
        }
    }

    /// The nine numbers in order.
    pub fn enumerate() -> (a: [Num; 9])
        ensures
            forall|i: int| 0 <= i < 9 ==> #[trigger] a@[i] == num_of((i + 1) as nat),
    {
        [Num::N1, Num::N2, Num::N3, Num::N4, Num::N5, Num::N6, Num::N7, Num::N8, Num::N9]
    }

    /// The numbers just below and just above, for two to eight.
    pub fn prev_and_next(self) -> (r: Option<(Num, Num)>)
        ensures
            (self == Num::N1 || self == Num::N9) ==> r is None,
            !(self == Num::N1 || self == Num::N9) ==> r == Some(
                (num_of((num_value(self) - 1) as nat), num_of(num_value(self) + 1)),
            ),
    {
        match self {
            Num::N1 => None,
            Num::N9 => None,
            _ => {
                let n = self.value();
                Some((Num::const_from_u8(n - 1), Num::const_from_u8(n + 1)))
            },
        }
    }

    /// The number just above, below nine.
    pub fn next(self) -> (r: Option<Num>)
        ensures
            self == Num::N9 ==> r is None,
            self != Num::N9 ==> r == Some(num_of(num_value(self) + 1)),
    {
        match self {
            Num::N9 => None,
            _ => {
                let n = self.value();
                Some(Num::const_from_u8(n + 1))
            },
        }
    }

    /// The two numbers just above; eight and nine wrap round to one and two.
    pub fn next_two(self) -> (r: Option<(Num, Num)>)
        ensures
            (self == Num::N8 || self == Num::N9) ==> r == Some((Num::N1, Num::N2)),
            !(self == Num::N8 || self == Num::N9) ==> r == Some(
                (num_of(num_value(self) + 1), num_of(num_value(self) + 2)),
            ),
    {
        match self {
            Num::N8 | Num::N9 => Some((Num::N1, Num::N2)),
            _ => {
                let n = self.value();
                Some((Num::const_from_u8(n + 1), Num::const_from_u8(n + 2)))
            },
        }
    }

    /// The number just below, above one.
    pub fn prev(self) -> (r: Option<Num>)
        ensures
            self == Num::N1 ==> r is None,
            self != Num::N1 ==> r == Some(num_of((num_value(self) - 1) as nat)),
    {
        match self {
            Num::N1 => None,
            _ => {
                let n = self.value();
                Some(Num::const_from_u8(n - 1))
            },
        }
    }

    /// The two numbers just below, from three on.
    pub fn prev_two(self) -> (r: Option<(Num, Num)>)
        ensures
            (self == Num::N1 || self == Num::N2) ==> r is None,
            !(self == Num::N1 || self == Num::N2) ==> r == Some(
                (num_of((num_value(self) - 1) as nat), num_of((num_value(self) - 2) as nat)),
            ),
    {
        match self {
            Num::N1 | Num::N2 => None,
            _ => {
                let n = self.value();
                Some((Num::const_from_u8(n - 1), Num::const_from_u8(n - 2)))
            },
        }
    }

    /// The number of value `n`, one to nine.
    pub fn const_from_u8(n: u8) -> (r: Num)
        requires
            1 <= n <= 9,
        ensures
            r == num_of(n as nat),
            num_value(r) == n,
    {
        match n {
            1 => Num::N1,
            2 => Num::N2,
            3 => Num::N3,
            4 => Num::N4,
            5 => Num::N5,
            6 => Num::N6,
            7 => Num::N7,
            8 => Num::N8,
            _ => Num::N9,
        }
    }
}

/// A number is the number of its value, and the value of the number of `v` is `v`.
pub proof fn lemma_num_value_roundtrip(n: Num, v: nat)
    ensures
        num_of(num_value(n)) == n,
        1 <= num_value(n) <= 9,
        1 <= v <= 9 ==> num_value(num_of(v)) == v,
{
}

/// Going up then down, or down then up, comes back to the same number.
pub proof fn lemma_num_next_prev(n: Num)
    ensures
        n != Num::N9 ==> num_of((num_value(num_of(num_value(n) + 1)) - 1) as nat) == n,
        n != Num::N1 ==> num_of(num_value(num_of((num_value(n) - 1) as nat)) + 1) == n,
{
}

/// A dragon.
#[derive(Debug, PartialEq, Eq, Clone, Copy, Structural)]
pub enum Dragon {
    Red,
    Green,
    White,
}

/// An honor tile: a wind or a dragon.
#[derive(Debug, PartialEq, Eq, Clone, Copy, Structural)]
pub enum Honer {
    Wind(Wind),
    Dragon(Dragon),
}

/// The three suits.
#[derive(Debug, PartialEq, Eq, Clone, Copy, Structural)]
pub enum SuitKind {
    Bamboo,
    Character,
    Dot,
}

/// A suit tile: a suit and a number.
#[derive(Debug, PartialEq, Eq, Clone, Copy, Structural)]
pub struct Suit {
    pub kind: SuitKind,
    pub num: Num,
}

impl Honer {
    /// The seven honors: the winds in seat order, then red, green and white.
    pub fn enumerate() -> (a: [Honer; 7])
        ensures
            a@ == seq![
                Honer::Wind(Wind::East),
                Honer::Wind(Wind::South),
                Honer::Wind(Wind::West),
                Honer::Wind(Wind::North),
                Honer::Dragon(Dragon::Red),
                Honer::Dragon(Dragon::Green),
                Honer::Dragon(Dragon::White),
            ],
    {
        let a = [
            Honer::Wind(Wind::East),
            Honer::Wind(Wind::South),
            Honer::Wind(Wind::West),
            Honer::Wind(Wind::North),
            Honer::Dragon(Dragon::Red),
            Honer::Dragon(Dragon::Green),
            Honer::Dragon(Dragon::White),
        ];
        assert(a@ =~= seq![
            Honer::Wind(Wind::East),
            Honer::Wind(Wind::South),
            Honer::Wind(Wind::West),
            Honer::Wind(Wind::North),
            Honer::Dragon(Dragon::Red),
            Honer::Dragon(Dragon::Green),
            Honer::Dragon(Dragon::White),
        ]);
        a
    }
}

impl SuitKind {
    /// The three suits: dots, bamboos, characters.
    pub fn enumerate() -> (a: [SuitKind; 3])
        ensures
            a@ == seq![SuitKind::Dot, SuitKind::Bamboo, SuitKind::Character],
    {
        let a = [SuitKind::Dot, SuitKind::Bamboo, SuitKind::Character];
        assert(a@ =~= seq![SuitKind::Dot, SuitKind::Bamboo, SuitKind::Character]);
        a
    }
}

impl Dragon {
    /// The three dragons: red, green, white.
    pub fn enumerate() -> (a: [Dragon; 3])
        ensures
            a@ == seq![Dragon::Red, Dragon::Green, Dragon::White],
    {
        let a = [Dragon::Red, Dragon::Green, Dragon::White];
        assert(a@ =~= seq![Dragon::Red, Dragon::Green, Dragon::White]);
        a
    }
}

/// The first code point of the Mahjong Tiles block.
pub const UNICODE_START: char = '\u{1F000}';

/// A tile face: its offset in the Unicode Mahjong Tiles block.
#[derive(Debug, PartialEq, Eq, Clone, Copy, PartialOrd, Ord, Hash, Structural)]
pub struct TileFace(pub(crate) u8);

impl View for TileFace {
    type V = u8;

    /// The offset of the face.
    closed spec fn view(&self) -> u8 {
        self.0
    }
}

/// The offset of a wind's tile: East 0, South 1, West 2, North 3.
pub open spec fn wind_face(w: Wind) -> u8 {
    wind_index(w) as u8
}

/// The offset of a dragon's tile: red 4, green 5, white 6.
pub open spec fn dragon_face(d: Dragon) -> u8 {
    match d {
        Dragon::Red => 4,
        Dragon::Green => 5,
        Dragon::White => 6,
    }
}

/// The offset of an honor's tile.
pub open spec fn honor_face(h: Honer) -> u8 {
    match h {
        Honer::Wind(w) => wind_face(w),
        Honer::Dragon(d) => dragon_face(d),
    }
}

/// The offset of the one of a suit: characters 7, bamboos 16, dots 25.
pub open spec fn suit_base(k: SuitKind) -> nat {
    match k {
        SuitKind::Character => 7,
        SuitKind::Bamboo => 16,
        SuitKind::Dot => 25,
    }
}

/// The offset of a suit tile.
pub open spec fn suit_face(s: Suit) -> u8 {
    (suit_base(s.kind) + num_value(s.num) - 1) as u8
}

/// The suit tile at an offset, if it is one: characters 7 to 15, bamboos 16 to 24,
/// dots 25 to 33.
pub open spec fn suit_at(f: u8) -> Option<Suit> {
    if 16 <= f <= 24 {
        Some(Suit { kind: SuitKind::Bamboo, num: num_of((f - 15) as nat) })
    } else if 7 <= f <= 15 {
        Some(Suit { kind: SuitKind::Character, num: num_of((f - 6) as nat) })
    } else if 25 <= f <= 33 {
        Some(Suit { kind: SuitKind::Dot, num: num_of((f - 24) as nat) })
    } else {
        None
    }
}

/// The honor at an offset, if it is one: the winds 0 to 3, the dragons 4 to 6.
pub open spec fn honor_at(f: u8) -> Option<Honer> {
    if f == 0 {
        Some(Honer::Wind(Wind::East))
    } else if f == 1 {
        Some(Honer::Wind(Wind::South))
    } else if f == 2 {
        Some(Honer::Wind(Wind::West))
    } else if f == 3 {
        Some(Honer::Wind(Wind::North))
    } else if f == 4 {
        Some(Honer::Dragon(Dragon::Red))
    } else if f == 5 {
        Some(Honer::Dragon(Dragon::Green))
    } else if f == 6 {
        Some(Honer::Dragon(Dragon::White))
    } else {
        None
    }
}

/// The face offsets of the tiles, by name.
pub const B1: u8 = 16;
pub const B2: u8 = 17;
pub const B3: u8 = 18;
pub const B4: u8 = 19;
pub const B5: u8 = 20;
pub const B6: u8 = 21;
pub const B7: u8 = 22;
pub const B8: u8 = 23;
pub const B9: u8 = 24;
pub const C1: u8 = 7;
pub const C2: u8 = 8;
pub const C3: u8 = 9;
pub const C4: u8 = 10;
pub const C5: u8 = 11;
pub const C6: u8 = 12;
pub const C7: u8 = 13;
pub const C8: u8 = 14;
pub const C9: u8 = 15;
pub const D1: u8 = 25;
pub const D2: u8 = 26;
pub const D3: u8 = 27;
pub const D4: u8 = 28;
pub const D5: u8 = 29;
pub const D6: u8 = 30;
pub const D7: u8 = 31;
pub const D8: u8 = 32;
pub const D9: u8 = 33;
pub const EAST: u8 = 0;
pub const SOUTH: u8 = 1;
pub const WEST: u8 = 2;
pub const NORTH: u8 = 3;
pub const RED: u8 = 4;
pub const GREEN: u8 = 5;
pub const WHITE: u8 = 6;
pub const PLUM: u8 = 34;
pub const ORCHID: u8 = 35;
pub const CHRYSANTHEMUM: u8 = 36;
pub const BAMBOO: u8 = 37;
pub const SPRING: u8 = 38;
pub const SUMMER: u8 = 39;
pub const AUTUMN: u8 = 40;
pub const WINTER: u8 = 41;
pub const WILDCARD: u8 = 42;
pub const SEASON: u8 = 43;

/// The character of a code point of the Mahjong Tiles block, by `char::from_u32`, whose
/// documentation gives the character of that code point for every Unicode scalar value.
#[verifier::external_body]
fn block_char(code: u32) -> (c: char)
    requires
        0x1F000 <= code <= 0x1F0FF,
    ensures
        c as u32 == code,
{
    char::from_u32(code).unwrap()
}

impl Wind {
    /// The wind's tile character.
    pub fn unicode(self) -> (c: char)
        ensures
            c as u32 == 0x1F000 + wind_face(self),
    {
        match self {
            Wind::East => '\u{1F000}',
            Wind::South => '\u{1F001}',
            Wind::West => '\u{1F002}',
            Wind::North => '\u{1F003}',
        }
    }
}

impl Dragon {
    /// The dragon's tile character.
    pub fn unicode(self) -> (c: char)
        ensures
            c as u32 == 0x1F000 + dragon_face(self),
    {
        match self {
            Dragon::Red => '\u{1F004}',
            Dragon::Green => '\u{1F005}',
            Dragon::White => '\u{1F006}',
        }
    }
}

impl Honer {
    /// The honor's tile character.
    pub fn unicode(&self) -> (c: char)
        ensures
            c as u32 == 0x1F000 + honor_face(*self),
    {
        match self {
            Honer::Wind(w) => w.unicode(),
            Honer::Dragon(d) => d.unicode(),
        }
    }
}

impl SuitKind {
    /// The character of the one of the suit.
    pub fn unicode_start(&self) -> (c: char)
        ensures
            c as u32 == 0x1F000 + suit_base(*self),
    {
        match self {
            SuitKind::Dot => '\u{1F019}',
            SuitKind::Bamboo => '\u{1F010}',
            SuitKind::Character => '\u{1F007}',
        }
    }
}

/// A tile face shown as its character.
pub struct UnicodeTileFace<'a>(pub &'a TileFace);

impl TileFace {
    /// The offset of the face.
    pub fn into_inner(self) -> (f: u8)
        ensures
            f == self@,
    {
        self.0
    }

    /// The face of a character of the block: its offset, kept to its low byte.
    pub fn const_from_char(c: char) -> (t: TileFace)
        requires
            c as u32 >= 0x1F000,
        ensures
            t@ == ((c as u32 - 0x1F000) % 256) as u8,
    {
        let face = (c as u32) - 0x1F000u32;
        TileFace((face % 256) as u8)
    }

    /// The face of a suit tile.
    pub fn from_suit(suit: Suit) -> (t: TileFace)
        ensures
            t@ == suit_face(suit),
    {
        let start = suit.kind.unicode_start() as u32;
        let face = start + suit.num.value() as u32 - 1;
        TileFace((face - 0x1F000u32) as u8)
    }

    /// The face of an honor, from its character.
    pub fn from_honor(honor: Honer) -> (t: TileFace)
        ensures
            t@ == honor_face(honor),
    {
        let face = honor.unicode() as u32 - 0x1F000u32;
        TileFace(face as u8)
    }

    /// The suit tile of the face, if it is one.
    pub fn try_into_suit(self) -> (r: Option<Suit>)
        ensures
            r == suit_at(self@),
    {
        let f = self.0;
        if 16 <= f && f <= 24 {
            Some(Suit { kind: SuitKind::Bamboo, num: Num::const_from_u8(f - 15) })
        } else if 7 <= f && f <= 15 {
            Some(Suit { kind: SuitKind::Character, num: Num::const_from_u8(f - 6) })
        } else if 25 <= f && f <= 33 {
            Some(Suit { kind: SuitKind::Dot, num: Num::const_from_u8(f - 24) })
        } else {
            None
        }
    }

    /// The honor of the face, if it is one.
    pub fn try_into_honer(self) -> (r: Option<Honer>)
        ensures
            r == honor_at(self@),
    {
        match self.0 {
            0 => Some(Honer::Wind(Wind::East)),
            1 => Some(Honer::Wind(Wind::South)),
            2 => Some(Honer::Wind(Wind::West)),
            3 => Some(Honer::Wind(Wind::North)),
            4 => Some(Honer::Dragon(Dragon::Red)),
            5 => Some(Honer::Dragon(Dragon::Green)),
            6 => Some(Honer::Dragon(Dragon::White)),
            _ => None,
        }
    }

    /// Whether the face is an honor, or a one or a nine of a suit.
    pub fn is_terminal(&self) -> (r: bool)
        ensures
            r == (honor_at(self@) is Some || (suit_at(self@) matches Some(s) && (s.num == Num::N1
                || s.num == Num::N9))),
    {
        if self.is_honor() {
            return true;
        }
        match self.try_into_suit() {
            Some(s) => s.num == Num::N1 || s.num == Num::N9,
            None => false,
        }
    }

    /// Whether the face is an honor.
    pub fn is_honor(&self) -> (r: bool)
        ensures
            r == (honor_at(self@) is Some),
    {
        self.try_into_honer().is_some()
    }

    /// The face of an honor.
    pub fn from_honer(honer: Honer) -> (t: TileFace)
        ensures
            t@ == honor_face(honer),
    {
        match honer {
            Honer::Wind(w) => match w {
                Wind::East => TileFace(EAST),
                Wind::South => TileFace(SOUTH),
                Wind::West => TileFace(WEST),
                Wind::North => TileFace(NORTH),
            },
            Honer::Dragon(d) => match d {
                Dragon::Red => TileFace(RED),
                Dragon::Green => TileFace(GREEN),
                Dragon::White => TileFace(WHITE),
            },
        }
    }

    /// The face's character.
    pub fn unicode(&self) -> (c: char)
        ensures
            c as u32 == 0x1F000 + self@,
    {
        block_char(0x1F000u32 + self.0 as u32)
    }

    /// The face, to be shown as its character.
    pub fn display_unicode(&self) -> (u: UnicodeTileFace<'_>)
        ensures
            *u.0 == *self,
    {
        UnicodeTileFace(self)
    }
}

/// The digit of a number.
pub open spec fn num_char(n: Num) -> char {
    match n {
        Num::N1 => '1',
        Num::N2 => '2',
        Num::N3 => '3',
        Num::N4 => '4',
        Num::N5 => '5',
        Num::N6 => '6',
        Num::N7 => '7',
        Num::N8 => '8',
        Num::N9 => '9',
    }
}

impl Num {
    /// The number as text: its digit.
    pub fn to_text(self) -> (s: String)
        ensures
            s@ == seq![num_char(self)],
    {
        let c = match self {
            Num::N1 => '1',
            Num::N2 => '2',
            Num::N3 => '3',
            Num::N4 => '4',
            Num::N5 => '5',
            Num::N6 => '6',
            Num::N7 => '7',
            Num::N8 => '8',
            Num::N9 => '9',
        };
        let mut s = String::new();
        crate::tui::text::push_char(&mut s, c);
        s
    }
}

impl<'a> UnicodeTileFace<'a> {
    /// The face as text: its one character of the Mahjong Tiles block.
    pub fn to_text(&self) -> (s: String)
        ensures
            s@.len() == 1,
            s@[0] as u32 == 0x1F000 + (*self.0)@,
    {
        let mut s = String::new();
        crate::tui::text::push_char(&mut s, self.0.unicode());
        s
    }
}

/// A suit tile's face gives back the suit tile, and a face that is a suit tile is that
/// tile's face.
pub proof fn lemma_suit_face_roundtrip(s: Suit, f: u8)
    ensures
        suit_at(suit_face(s)) == Some(s),
        suit_at(f) matches Some(t) ==> suit_face(t) == f,
{
}

/// An honor's face gives back the honor, and a face that is an honor is that honor's face.
pub proof fn lemma_honor_face_roundtrip(h: Honer, f: u8)
    ensures
        honor_at(honor_face(h)) == Some(h),
        honor_at(f) matches Some(g) ==> honor_face(g) == f,
{
}

/// No face is both an honor and a suit tile.
pub proof fn lemma_honor_not_suit(f: u8)
    ensures
        !(honor_at(f) is Some && suit_at(f) is Some),
{
}

/// The face of a face's character is that face: `const_from_char` undoes `unicode`.
pub proof fn lemma_char_roundtrip(t: TileFace, c: char)
    requires
        c as u32 == 0x1F000 + t@,
    ensures
        c as u32 >= 0x1F000,
        ((c as u32 - 0x1F000) % 256) as u8 == t@,
{
}

} // verus!
