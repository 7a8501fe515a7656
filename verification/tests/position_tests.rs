use flipout::position::{Position, Positions};

#[test]
fn position_from_str() {
    for (ci, cc) in "abcdefgh".chars().enumerate() {
        for (ri, rc) in "12345678".chars().enumerate() {
            let pos1 = Position::from_str(&format!("{}{}", cc, rc)).unwrap();
            let pos2 = Position::from_bits((1 << 63) >> (ri * 8 + ci)).unwrap();
            assert_eq!(pos1, pos2);
        }
    }
}

#[test]
fn position_from_str_rejects_bad_text() {
    assert!(Position::from_str("").is_err());
    assert!(Position::from_str("d").is_err());
    assert!(Position::from_str("d33").is_err());
    assert!(Position::from_str("i1").is_err());
    assert!(Position::from_str("a9").is_err());
    assert!(Position::from_str("3d").is_err());
}

#[test]
fn position_from_xy_and_coordinates() {
    let d3 = Position::from_xy(3, 2).unwrap();
    assert_eq!(d3, Position::from_str("d3").unwrap());
    assert_eq!(d3.x(), 3);
    assert_eq!(d3.y(), 2);
    assert_eq!(d3.as_bits(), 1u64 << 44);

    assert!(Position::from_xy(-1, 0).is_none());
    assert!(Position::from_xy(8, 0).is_none());
    assert!(Position::from_xy(0, 8).is_none());

    let a1 = Position::from_xy(0, 0).unwrap();
    assert_eq!(a1.as_bits(), 1u64 << 63);
    let h8 = Position::from_xy(7, 7).unwrap();
    assert_eq!(h8.as_bits(), 1u64);
}

#[test]
fn position_from_bits_requires_single_bit() {
    assert!(Position::from_bits(0).is_none());
    assert!(Position::from_bits(0b11).is_none());
    assert_eq!(Position::from_bits(0b10).unwrap().as_bits(), 0b10);
}

#[test]
fn positions_contains_and_next() {
    let mut set = Positions::new((1 << 3) | (1 << 10) | (1 << 62));
    assert!(set.contains(Position::from_bits(1 << 10).unwrap()));
    assert!(!set.contains(Position::from_bits(1 << 9).unwrap()));

    // lowest cell first
    assert_eq!(set.next().unwrap().as_bits(), 1 << 3);
    assert_eq!(set.next().unwrap().as_bits(), 1 << 10);
    assert_eq!(set.next().unwrap().as_bits(), 1 << 62);
    assert!(set.next().is_none());
    assert_eq!(set.as_bits(), 0);

    assert_eq!(Positions::fill().as_bits(), u64::MAX);
    assert_eq!(Positions::empty().as_bits(), 0);
}
