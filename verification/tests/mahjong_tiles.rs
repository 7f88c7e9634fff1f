use openplay::mahjong::{
    Dragon, Honer, Num, Suit, SuitKind, TileFace, Wind, B1, C9, D1, EAST, RED, UNICODE_START, WHITE,
};

#[test]
fn wind_index_roundtrip() {
    for w in Wind::enumerate() {
        assert_eq!(Wind::from_index(w.as_index()), w);
    }
    assert_eq!(Wind::from_index(5), Wind::South);
    assert_eq!(Wind::from_index(7).as_index(), 3);
}

#[test]
fn wind_next_cycles_in_four() {
    let w = Wind::West;
    assert_eq!(w.next(), Wind::North);
    assert_eq!(w.next().next().next().next(), w);
    assert_eq!(Wind::South.iter_from(), [Wind::South, Wind::West, Wind::North, Wind::East]);
}

#[test]
fn num_steps() {
    assert_eq!(Num::try_from_u8(0), None);
    assert_eq!(Num::try_from_u8(10), None);
    assert_eq!(Num::try_from_u8(4), Some(Num::N4));
    assert_eq!(Num::N1.prev(), None);
    assert_eq!(Num::N9.next(), None);
    assert_eq!(Num::N5.prev_and_next(), Some((Num::N4, Num::N6)));
    assert_eq!(Num::N1.prev_and_next(), None);
    assert_eq!(Num::N8.next_two(), Some((Num::N1, Num::N2)));
    assert_eq!(Num::N3.next_two(), Some((Num::N4, Num::N5)));
    assert_eq!(Num::N2.prev_two(), None);
    assert_eq!(Num::N4.prev_two(), Some((Num::N3, Num::N2)));
    assert_eq!(Num::enumerate()[8], Num::N9);
    assert_eq!(Num::const_from_u8(7).value(), 7);
}

#[test]
fn suit_faces_roundtrip() {
    for kind in SuitKind::enumerate() {
        for num in Num::enumerate() {
            let s = Suit { kind, num };
            let t = TileFace::from_suit(s);
            assert_eq!(t.try_into_suit(), Some(s));
            assert_eq!(t.try_into_honer(), None);
        }
    }
    assert_eq!(TileFace::from_suit(Suit { kind: SuitKind::Bamboo, num: Num::N1 }).into_inner(), B1);
    assert_eq!(TileFace::from_suit(Suit { kind: SuitKind::Character, num: Num::N9 }).into_inner(), C9);
    assert_eq!(TileFace::from_suit(Suit { kind: SuitKind::Dot, num: Num::N1 }).into_inner(), D1);
}

#[test]
fn honor_faces_roundtrip() {
    for h in Honer::enumerate() {
        let a = TileFace::from_honer(h);
        let b = TileFace::from_honor(h);
        assert_eq!(a, b);
        assert_eq!(a.try_into_honer(), Some(h));
        assert!(a.is_honor());
        assert!(a.is_terminal());
    }
    assert_eq!(TileFace::from_honer(Honer::Wind(Wind::East)).into_inner(), EAST);
    assert_eq!(TileFace::from_honer(Honer::Dragon(Dragon::Red)).into_inner(), RED);
    assert_eq!(TileFace::from_honer(Honer::Dragon(Dragon::White)).into_inner(), WHITE);
}

#[test]
fn terminal_tiles() {
    let one = TileFace::from_suit(Suit { kind: SuitKind::Dot, num: Num::N1 });
    let five = TileFace::from_suit(Suit { kind: SuitKind::Dot, num: Num::N5 });
    let nine = TileFace::from_suit(Suit { kind: SuitKind::Bamboo, num: Num::N9 });
    assert!(one.is_terminal());
    assert!(nine.is_terminal());
    assert!(!five.is_terminal());
    assert!(!five.is_honor());
}

#[test]
fn tile_characters() {
    assert_eq!(UNICODE_START, '\u{1F000}');
    assert_eq!(Wind::East.unicode(), '\u{1F000}');
    assert_eq!(Dragon::Red.unicode(), '\u{1F004}');
    assert_eq!(Honer::Dragon(Dragon::White).unicode(), '\u{1F006}');
    assert_eq!(SuitKind::Dot.unicode_start(), '\u{1F019}');
    let t = TileFace::from_suit(Suit { kind: SuitKind::Bamboo, num: Num::N3 });
    assert_eq!(t.unicode(), '\u{1F012}');
    assert_eq!(TileFace::const_from_char(t.unicode()), t);
    assert_eq!(TileFace::const_from_char('\u{1F004}').into_inner(), RED);
    assert_eq!(*t.display_unicode().0, t);
}

#[test]
fn enumerations() {
    assert_eq!(Dragon::enumerate(), [Dragon::Red, Dragon::Green, Dragon::White]);
    assert_eq!(SuitKind::enumerate(), [SuitKind::Dot, SuitKind::Bamboo, SuitKind::Character]);
    assert_eq!(Honer::enumerate().len(), 7);
}

#[test]
fn numbers_and_faces_as_text() {
    assert_eq!(Num::N7.to_text(), "7");
    assert_eq!(Num::N1.to_text(), "1");
    let east = TileFace::const_from_char('\u{1F000}');
    assert_eq!(east.display_unicode().to_text(), "\u{1F000}");
}
