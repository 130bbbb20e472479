use owlengine::score::{AbsScore, Color, RelScore};

#[test]
fn test_convert() {
    for rel in [
        RelScore::Cp(-100),
        RelScore::Cp(280),
        RelScore::Cp(0),
        RelScore::Cp(-410),
        RelScore::Mate { moves: 2, win: true },
        RelScore::Mate { moves: 0, win: true },
        RelScore::Mate { moves: 5, win: true },
        RelScore::Mate { moves: 3, win: false },
        RelScore::Mate { moves: 0, win: false },
        RelScore::Mate { moves: 9, win: false },
    ] {
        let abs_white = rel.abs_to(Color::White);
        let abs_black = rel.abs_to(Color::Black);
        assert_eq!(abs_white.rel_to(Color::White), rel);
        assert_eq!(abs_black.rel_to(Color::Black), rel);
        assert_eq!(abs_white.rel_to(Color::Black), rel.inv());
        assert_eq!(abs_black.rel_to(Color::White), rel.inv());
    }
}

#[test]
fn test_sort_rel() {
    let mut src = [
        RelScore::Cp(-100),
        RelScore::Cp(280),
        RelScore::Cp(0),
        RelScore::Cp(-410),
        RelScore::Mate { moves: 2, win: true },
        RelScore::Mate { moves: 0, win: true },
        RelScore::Mate { moves: 5, win: true },
        RelScore::Mate { moves: 3, win: false },
        RelScore::Mate { moves: 0, win: false },
        RelScore::Mate { moves: 9, win: false },
    ];
    let res = [
        RelScore::Mate { moves: 0, win: false },
        RelScore::Mate { moves: 3, win: false },
        RelScore::Mate { moves: 9, win: false },
        RelScore::Cp(-410),
        RelScore::Cp(-100),
        RelScore::Cp(0),
        RelScore::Cp(280),
        RelScore::Mate { moves: 5, win: true },
        RelScore::Mate { moves: 2, win: true },
        RelScore::Mate { moves: 0, win: true },
    ];
    src.sort_by(|a, b| a.cmp(b));
    assert_eq!(src, res);
}

#[test]
fn test_sort_abs() {
    let mut src = [
        AbsScore::Cp(-100),
        AbsScore::Cp(280),
        AbsScore::Cp(0),
        AbsScore::Cp(-410),
        AbsScore::Mate { moves: 2, winner: Color::White },
        AbsScore::Mate { moves: 0, winner: Color::White },
        AbsScore::Mate { moves: 5, winner: Color::White },
        AbsScore::Mate { moves: 3, winner: Color::Black },
        AbsScore::Mate { moves: 0, winner: Color::Black },
        AbsScore::Mate { moves: 9, winner: Color::Black },
    ];
    let res = [
        AbsScore::Mate { moves: 0, winner: Color::Black },
        AbsScore::Mate { moves: 3, winner: Color::Black },
        AbsScore::Mate { moves: 9, winner: Color::Black },
        AbsScore::Cp(-410),
        AbsScore::Cp(-100),
        AbsScore::Cp(0),
        AbsScore::Cp(280),
        AbsScore::Mate { moves: 5, winner: Color::White },
        AbsScore::Mate { moves: 2, winner: Color::White },
        AbsScore::Mate { moves: 0, winner: Color::White },
    ];
    src.sort_by(|a, b| a.cmp(b));
    assert_eq!(src, res);
}
