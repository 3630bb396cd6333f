use std::collections::{BTreeSet, HashMap};

use osm_renderer::painter::is_inside;

#[test]
fn test_is_inside_simple() {
    // ^
    // y
    // 4
    // 3
    // 2   | p |
    // 1
    // 0 1 2 3 4 x ->
    assert!(is_inside(
        &(3, 2),                                       // = p
        &HashMap::from([(2, BTreeSet::from([2, 4]))])  // = borders
    ));

    // ^
    // y
    // 4
    // 3
    // 2 p |   |
    // 1
    // 0 1 2 3 4 x ->
    assert!(!is_inside(
        &(1, 2),                                       // = p
        &HashMap::from([(2, BTreeSet::from([2, 4]))])  // = borders
    ));
}

#[test]
fn test_is_inside_complex() {
    // ^
    // y
    // 4
    // 3 |     |
    // 2 q | p |
    // 1 | o |   | |
    // 0 1 2 3 4 5 6 x ->
    let outline_representation = HashMap::from([
        (1, BTreeSet::from([1, 3, 5, 6])),
        (2, BTreeSet::from([2, 4])),
        (3, BTreeSet::from([1, 4])),
    ]);
    let q = ((1, 2), false);
    let p = ((3, 2), true);
    let o = ((2, 1), true);

    for (coords, expected) in [q, p, o] {
        assert_eq!(is_inside(&coords, &outline_representation), expected);
    }
}
