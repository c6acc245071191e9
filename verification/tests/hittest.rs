use carapace::hittest::crossing_parity;

#[test]
fn odd_crossings_are_inside() {
    assert!(!crossing_parity(&vec![]));
    assert!(crossing_parity(&vec![false, true, false]));
    assert!(!crossing_parity(&vec![true, false, true]));
    assert!(crossing_parity(&vec![true, true, true]));
}

#[test]
fn a_nested_contour_cuts_a_hole() {
    // One crossing of the outer square's edges and one of the inner square's: inside both.
    let outer = vec![false, true, false, false];
    let inner = vec![false, false, false, true];
    assert!(crossing_parity(&outer));
    assert!(crossing_parity(&inner));
    let both: Vec<bool> = outer.iter().chain(inner.iter()).copied().collect();
    assert!(!crossing_parity(&both));
}
