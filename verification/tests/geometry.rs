use hexterrain::geometry::{Hex, HexManhattanIterator};
use std::cmp::Ordering;

#[test]
fn make_valid_hex_coordinate() {
    let a = Hex::new(2, 3, -5);
    let b = Hex::new(-3, 1, 2);
    let d = b.minus(&a);
    println!("a -> b: {:?}", d);
    println!(
        "length compare to 8: {:?}, to 9: {:?}",
        d.cmp_len(8),
        d.cmp_len(9)
    );
    assert_eq!(d, Hex::new(-5, -2, 7));
    assert_eq!(d.cmp_len(8), Ordering::Greater);
    assert_eq!(d.cmp_len(9), Ordering::Less);
    println!("manhattan a -> b: {}", d.manhattan());
    assert_eq!(d.manhattan(), 7);
}

#[test]
fn walk_manhattan() {
    let mut it = HexManhattanIterator::new(2);
    let mut parts: Vec<String> = Vec::new();
    for _ in 0..100 {
        match it.next() {
            Some(h) => parts.push(format!("{:?}", h)),
            None => break,
        }
    }
    println!("{}", parts.join(" "));
}

#[test]
fn walk_covers_radius_two() {
    // A radius-2 hex disc holds 1 + 6 + 12 cells, each summing to zero and
    // within Manhattan distance 2; every cell appears exactly once.
    let mut it = HexManhattanIterator::new(2);
    let mut seen: Vec<Hex> = Vec::new();
    for _ in 0..100 {
        match it.next() {
            Some(h) => seen.push(h),
            None => break,
        }
    }
    assert_eq!(seen.len(), 19);
    for h in &seen {
        assert_eq!(h.x + h.y + h.z, 0);
        assert!(h.manhattan() <= 2);
    }
    for i in 0..seen.len() {
        for j in 0..i {
            assert_ne!(seen[i], seen[j]);
        }
    }
}

#[test]
fn cmp_len_exact_boundary() {
    let h = Hex::new(3, 4, 0);
    assert_eq!(h.cmp_len(5), Ordering::Equal);
    assert_eq!(h.cmp_len(6), Ordering::Less);
    assert_eq!(h.cmp_len(4), Ordering::Greater);
}
