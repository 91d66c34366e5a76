use chess_squares::square::{Square, SquareError, Squarish};

#[test]
fn round_trip_every_square() {
    for i in 0u8..64 {
        let sq = Square::from(Squarish::U8(i)).unwrap();
        let s = sq.to_string();
        assert_eq!(Square::from(Squarish::STR(s)), Ok(sq));
    }
}

#[test]
fn range_accepts_board_indices() {
    for i in 0u8..64 {
        let sq = Square::from(Squarish::U8(i)).unwrap();
        assert_eq!(sq.index(), i);
    }
}

#[test]
fn range_rejects_high_indices() {
    for i in 64u8..=255 {
        assert_eq!(Square::from(Squarish::U8(i)), Err(SquareError::OutOfRange));
    }
}

#[test]
fn invalid_rank_wins_over_invalid_file() {
    assert_eq!(
        Square::from(Squarish::STR(String::from("i9"))),
        Err(SquareError::InvalidRank)
    );
}

#[test]
fn invalid_file_reported_when_rank_is_good() {
    assert_eq!(
        Square::from(Squarish::STR(String::from("z1"))),
        Err(SquareError::InvalidFile)
    );
}

#[test]
fn invalid_length_reported_before_characters() {
    assert_eq!(
        Square::from(Squarish::STR(String::from("a"))),
        Err(SquareError::InvalidLength)
    );
    assert_eq!(
        Square::from(Squarish::STR(String::from("abc"))),
        Err(SquareError::InvalidLength)
    );
    assert_eq!(
        Square::from(Squarish::STR(String::from(""))),
        Err(SquareError::InvalidLength)
    );
}

#[test]
fn case_insensitive_files() {
    let lower = Square::from(Squarish::STR(String::from("a1"))).unwrap();
    let upper = Square::from(Squarish::STR(String::from("A1"))).unwrap();
    assert_eq!(lower, upper);
    assert_eq!(lower.index(), 0);
}

#[test]
fn existing_square_is_identity() {
    let sq = Square::from(Squarish::U8(33)).unwrap();
    assert_eq!(Square::from(Squarish::SQ(sq)), Ok(sq));
}

#[test]
fn e4_parses_to_28_and_renders_back() {
    let sq = Square::from(Squarish::STR(String::from("e4"))).unwrap();
    assert_eq!(sq.index(), 3 * 8 + 4);
    assert_eq!(sq.to_string(), "e4");
}

#[test]
fn index_63_is_h8() {
    let sq = Square::from(Squarish::U8(63)).unwrap();
    assert_eq!(sq.rc(), (7, 7));
    assert_eq!(sq.to_string(), "h8");
}

#[test]
fn rank_file_view() {
    let sq = Square::from(Squarish::STR(String::from("c7"))).unwrap();
    assert_eq!(sq.rc(), (6, 2));
    assert_eq!(sq.rf(), (7, 'c'));
}

#[test]
fn every_square_renders_two_characters() {
    for i in 0u8..64 {
        let sq = Square::from(Squarish::U8(i)).unwrap();
        let s = sq.to_string();
        assert_eq!(s.len(), 2);
        let file = s.chars().next().unwrap();
        let rank = s.chars().nth(1).unwrap();
        assert_eq!(file, (b'a' + i % 8) as char);
        assert_eq!(rank, (b'1' + i / 8) as char);
    }
}
